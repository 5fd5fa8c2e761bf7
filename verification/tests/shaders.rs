use fyrox_ui::shader::{
    DownscaleShader, GpuProgramId, ShaderError, SkyboxShader, UniformLocation, UniformTable,
};

fn table(names: &[&str]) -> UniformTable {
    let mut t = UniformTable::new();
    for (i, n) in names.iter().enumerate() {
        t.push(n.to_string(), UniformLocation { location: i as u32 });
    }
    t
}

#[test]
fn downscale_assembles_when_all_uniforms_resolve() {
    let t = table(&["worldViewProjection", "lumSampler", "invSize"]);
    let s = DownscaleShader::new(GpuProgramId { id: 7 }, &t).unwrap();
    assert_eq!(s.program.id, 7);
    assert_eq!(s.wvp_matrix.location, 0);
    assert_eq!(s.lum_sampler.location, 1);
    assert_eq!(s.inv_size.location, 2);
}

#[test]
fn downscale_reports_first_missing_uniform() {
    let t = table(&["worldViewProjection"]);
    match DownscaleShader::new(GpuProgramId { id: 1 }, &t) {
        Err(ShaderError::UniformNotFound(n)) => assert_eq!(n, "lumSampler"),
        _ => panic!("expected a missing-uniform error"),
    }
}

#[test]
fn skybox_assembles_and_fails_in_order() {
    let t = table(&["worldViewProjection", "cubemapTexture"]);
    let s = SkyboxShader::new(GpuProgramId { id: 2 }, &t).unwrap();
    assert_eq!(s.cubemap_texture.location, 1);
    let empty = table(&[]);
    match SkyboxShader::new(GpuProgramId { id: 2 }, &empty) {
        Err(ShaderError::UniformNotFound(n)) => assert_eq!(n, "worldViewProjection"),
        _ => panic!("expected a missing-uniform error"),
    }
}
