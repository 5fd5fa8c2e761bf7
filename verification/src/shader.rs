use vstd::prelude::*;

verus! {

/// A handle to a compiled and linked GPU program, as the graphics
/// backend reported it.
#[derive(Clone, Copy, PartialEq, Eq, Structural, Debug)]
pub struct GpuProgramId {
    pub id: u64,
}

/// The location of one named uniform within a linked program, as the
/// graphics backend reported it.
#[derive(Clone, Copy, PartialEq, Eq, Structural, Debug)]
pub struct UniformLocation {
    pub location: u32,
}

/// Why assembling a shader wrapper failed: the program lacks a uniform
/// of the required name.
#[derive(Debug)]
pub enum ShaderError {
    UniformNotFound(String),
}

/// The uniform locations the backend resolved for a program, by name.
pub struct UniformTable {
    pub entries: Vec<(String, UniformLocation)>,
}

/// Whether the table has an entry for `name`.
pub open spec fn table_contains(s: Seq<(String, UniformLocation)>, name: Seq<char>) -> bool {
    exists|i: int| 0 <= i < s.len() && (#[trigger] s[i]).0@ == name
}

/// The position of the first entry for `name`; meaningful only when one
/// exists.
pub open spec fn table_first(s: Seq<(String, UniformLocation)>, name: Seq<char>) -> int {
    choose|i: int|
        0 <= i < s.len() && (#[trigger] s[i]).0@ == name && (forall|j: int|
            0 <= j < i ==> s[j].0@ != name)
}

/// The location of the first entry for `name`.
pub open spec fn table_get(s: Seq<(String, UniformLocation)>, name: Seq<char>) -> UniformLocation {
    s[table_first(s, name)].1
}

proof fn lemma_table_first(s: Seq<(String, UniformLocation)>, name: Seq<char>, i: int)
    requires
        0 <= i < s.len(),
        s[i].0@ == name,
        forall|j: int| 0 <= j < i ==> (#[trigger] s[j]).0@ != name,
    ensures
        table_contains(s, name),
        table_first(s, name) == i,
{
    assert(table_contains(s, name)) by {
        assert((s[i]).0@ == name);
    }
    assert(exists|k: int|
        0 <= k < s.len() && (#[trigger] s[k]).0@ == name && (forall|j: int|
            0 <= j < k ==> s[j].0@ != name)) by {
        assert(0 <= i < s.len() && (s[i]).0@ == name && (forall|j: int|
            0 <= j < i ==> s[j].0@ != name));
    }
    let k = table_first(s, name);
    if k < i {
        assert((s[k]).0@ == name);
        assert(false);
    } else if k > i {
        assert((s[i]).0@ != name);
        assert(false);
    }
}

impl UniformTable {
    pub fn new() -> (r: UniformTable)
        ensures
            r.entries@ == Seq::<(String, UniformLocation)>::empty(),
    {
        UniformTable { entries: Vec::new() }
    }

    pub fn push(&mut self, name: String, location: UniformLocation)
        ensures
            final(self).entries@ == old(self).entries@.push((name, location)),
    {
        self.entries.push((name, location));
    }

    /// Find the location resolved for `name`, or report the missing
    /// uniform, exactly when no entry carries that name.
    pub fn lookup(&self, name: &String) -> (r: Result<UniformLocation, ShaderError>)
        ensures
            r is Ok <==> table_contains(self.entries@, name@),
            r is Ok ==> r.unwrap() == table_get(self.entries@, name@),
            r is Err ==> (r matches Err(ShaderError::UniformNotFound(n)) && n@ == name@),
    {
        let mut i: usize = 0;
        let n = self.entries.len();
        while i < n
            invariant
                n == self.entries@.len(),
                i <= n,
                forall|j: int| 0 <= j < i ==> (#[trigger] self.entries@[j]).0@ != name@,
            decreases n - i,
        {
            if self.entries[i].0.eq(name) {
                proof {
                    lemma_table_first(self.entries@, name@, i as int);
                }
                return Ok(self.entries[i].1);
            }
            i += 1;
        }
        Err(ShaderError::UniformNotFound(name.clone()))
    }
}

/// The first uniform name of this pass that the table lacks;
/// meaningful only when one is missing.
pub open spec fn downscale_first_missing(s: Seq<(String, UniformLocation)>) -> Seq<char> {
    if !table_contains(s, "worldViewProjection"@) {
        "worldViewProjection"@
    } else     if !table_contains(s, "lumSampler"@) {
        "lumSampler"@
    } else {
        "invSize"@
    }
}

/// The first uniform name of this pass that the table lacks;
/// meaningful only when one is missing.
pub open spec fn skybox_first_missing(s: Seq<(String, UniformLocation)>) -> Seq<char> {
    if !table_contains(s, "worldViewProjection"@) {
        "worldViewProjection"@
    } else {
        "cubemapTexture"@
    }
}

/// The first uniform name of this pass that the table lacks;
/// meaningful only when one is missing.
pub open spec fn directional_first_missing(s: Seq<(String, UniformLocation)>) -> Seq<char> {
    if !table_contains(s, "worldViewProjection"@) {
        "worldViewProjection"@
    } else     if !table_contains(s, "depthTexture"@) {
        "depthTexture"@
    } else     if !table_contains(s, "colorTexture"@) {
        "colorTexture"@
    } else     if !table_contains(s, "normalTexture"@) {
        "normalTexture"@
    } else     if !table_contains(s, "materialTexture"@) {
        "materialTexture"@
    } else     if !table_contains(s, "lightDirection"@) {
        "lightDirection"@
    } else     if !table_contains(s, "lightColor"@) {
        "lightColor"@
    } else     if !table_contains(s, "invViewProj"@) {
        "invViewProj"@
    } else     if !table_contains(s, "cameraPosition"@) {
        "cameraPosition"@
    } else     if !table_contains(s, "lightIntensity"@) {
        "lightIntensity"@
    } else     if !table_contains(s, "cascadeDistances"@) {
        "cascadeDistances"@
    } else     if !table_contains(s, "shadowCascade0"@) {
        "shadowCascade0"@
    } else     if !table_contains(s, "shadowCascade1"@) {
        "shadowCascade1"@
    } else     if !table_contains(s, "shadowCascade2"@) {
        "shadowCascade2"@
    } else     if !table_contains(s, "lightViewProjMatrices"@) {
        "lightViewProjMatrices"@
    } else     if !table_contains(s, "viewMatrix"@) {
        "viewMatrix"@
    } else     if !table_contains(s, "shadowBias"@) {
        "shadowBias"@
    } else     if !table_contains(s, "shadowsEnabled"@) {
        "shadowsEnabled"@
    } else     if !table_contains(s, "softShadows"@) {
        "softShadows"@
    } else {
        "shadowMapInvSize"@
    }
}

/// The post-processing program that folds a luminance image down one
/// level. The backend compiles the sources and resolves the uniform
/// table; assembly here only checks that every required uniform exists.
pub struct DownscaleShader {
    pub program: GpuProgramId,
    pub lum_sampler: UniformLocation,
    pub inv_size: UniformLocation,
    pub wvp_matrix: UniformLocation,
}

impl DownscaleShader {
    /// Assemble the wrapper: succeeds exactly when the program resolves
    /// every uniform this pass reads.
    pub fn new(program: GpuProgramId, uniforms: &UniformTable) -> (r: Result<
        DownscaleShader,
        ShaderError,
    >)
        ensures
            r is Ok <==> table_contains(uniforms.entries@, "worldViewProjection"@)
                && table_contains(uniforms.entries@, "lumSampler"@) && table_contains(
                uniforms.entries@,
                "invSize"@,
            ),
            r is Ok ==> (r matches Ok(s) && s.program == program && s.wvp_matrix == table_get(
                uniforms.entries@,
                "worldViewProjection"@,
            ) && s.lum_sampler == table_get(uniforms.entries@, "lumSampler"@) && s.inv_size
                == table_get(uniforms.entries@, "invSize"@)),
            r is Err ==> (r matches Err(ShaderError::UniformNotFound(n)) && n@
                == downscale_first_missing(uniforms.entries@)),
    {
        let wvp_matrix = match uniforms.lookup(&("worldViewProjection".to_string())) {
            Ok(l) => l,
            Err(e) => {
                return Err(e);
            },
        };
        let lum_sampler = match uniforms.lookup(&("lumSampler".to_string())) {
            Ok(l) => l,
            Err(e) => {
                return Err(e);
            },
        };
        let inv_size = match uniforms.lookup(&("invSize".to_string())) {
            Ok(l) => l,
            Err(e) => {
                return Err(e);
            },
        };
        Ok(DownscaleShader { program, lum_sampler, inv_size, wvp_matrix })
    }
}

/// The skybox program: a world-view-projection matrix and a cube map.
pub struct SkyboxShader {
    pub program: GpuProgramId,
    pub wvp_matrix: UniformLocation,
    pub cubemap_texture: UniformLocation,
}

impl SkyboxShader {
    /// Assemble the wrapper: succeeds exactly when the program resolves
    /// every uniform this pass reads.
    pub fn new(program: GpuProgramId, uniforms: &UniformTable) -> (r: Result<
        SkyboxShader,
        ShaderError,
    >)
        ensures
            r is Ok <==> table_contains(uniforms.entries@, "worldViewProjection"@)
                && table_contains(uniforms.entries@, "cubemapTexture"@),
            r is Ok ==> (r matches Ok(s) && s.program == program && s.wvp_matrix == table_get(
                uniforms.entries@,
                "worldViewProjection"@,
            ) && s.cubemap_texture == table_get(uniforms.entries@, "cubemapTexture"@)),
            r is Err ==> (r matches Err(ShaderError::UniformNotFound(n)) && n@
                == skybox_first_missing(uniforms.entries@)),
    {
        let wvp_matrix = match uniforms.lookup(&("worldViewProjection".to_string())) {
            Ok(l) => l,
            Err(e) => {
                return Err(e);
            },
        };
        let cubemap_texture = match uniforms.lookup(&("cubemapTexture".to_string())) {
            Ok(l) => l,
            Err(e) => {
                return Err(e);
            },
        };
        Ok(SkyboxShader { program, wvp_matrix, cubemap_texture })
    }
}

/// The deferred directional-light program, with its shadow cascades.
pub struct DirectionalLightShader {
    pub program: GpuProgramId,
    pub wvp_matrix: UniformLocation,
    pub depth_sampler: UniformLocation,
    pub color_sampler: UniformLocation,
    pub normal_sampler: UniformLocation,
    pub material_sampler: UniformLocation,
    pub light_direction: UniformLocation,
    pub light_color: UniformLocation,
    pub inv_view_proj_matrix: UniformLocation,
    pub camera_position: UniformLocation,
    pub light_intensity: UniformLocation,
    pub cascade_distances: UniformLocation,
    pub shadow_cascade0: UniformLocation,
    pub shadow_cascade1: UniformLocation,
    pub shadow_cascade2: UniformLocation,
    pub light_view_proj_matrices: UniformLocation,
    pub view_matrix: UniformLocation,
    pub shadow_bias: UniformLocation,
    pub shadows_enabled: UniformLocation,
    pub soft_shadows: UniformLocation,
    pub shadow_map_inv_size: UniformLocation,
}

impl DirectionalLightShader {
    /// Assemble the wrapper: succeeds exactly when the program resolves
    /// every uniform this pass reads; the first missing name is
    /// reported.
    #[verifier::rlimit(100)]
    pub fn new(program: GpuProgramId, uniforms: &UniformTable) -> (r: Result<
        DirectionalLightShader,
        ShaderError,
    >)
        ensures
            r is Ok <==> table_contains(uniforms.entries@, "worldViewProjection"@)
                && table_contains(uniforms.entries@, "depthTexture"@) && table_contains(
                uniforms.entries@,
                "colorTexture"@,
            ) && table_contains(uniforms.entries@, "normalTexture"@) && table_contains(
                uniforms.entries@,
                "materialTexture"@,
            ) && table_contains(uniforms.entries@, "lightDirection"@) && table_contains(
                uniforms.entries@,
                "lightColor"@,
            ) && table_contains(uniforms.entries@, "invViewProj"@) && table_contains(
                uniforms.entries@,
                "cameraPosition"@,
            ) && table_contains(uniforms.entries@, "lightIntensity"@) && table_contains(
                uniforms.entries@,
                "cascadeDistances"@,
            ) && table_contains(uniforms.entries@, "shadowCascade0"@) && table_contains(
                uniforms.entries@,
                "shadowCascade1"@,
            ) && table_contains(uniforms.entries@, "shadowCascade2"@) && table_contains(
                uniforms.entries@,
                "lightViewProjMatrices"@,
            ) && table_contains(uniforms.entries@, "viewMatrix"@) && table_contains(
                uniforms.entries@,
                "shadowBias"@,
            ) && table_contains(uniforms.entries@, "shadowsEnabled"@) && table_contains(
                uniforms.entries@,
                "softShadows"@,
            ) && table_contains(uniforms.entries@, "shadowMapInvSize"@),
            r is Ok ==> (r matches Ok(s) && s.program == program && s.wvp_matrix == table_get(
                uniforms.entries@,
                "worldViewProjection"@,
            ) && s.depth_sampler == table_get(uniforms.entries@, "depthTexture"@)
                && s.color_sampler == table_get(uniforms.entries@, "colorTexture"@)
                && s.normal_sampler == table_get(uniforms.entries@, "normalTexture"@)
                && s.material_sampler == table_get(uniforms.entries@, "materialTexture"@)
                && s.light_direction == table_get(uniforms.entries@, "lightDirection"@)
                && s.light_color == table_get(uniforms.entries@, "lightColor"@)
                && s.inv_view_proj_matrix == table_get(uniforms.entries@, "invViewProj"@)
                && s.camera_position == table_get(uniforms.entries@, "cameraPosition"@)
                && s.light_intensity == table_get(uniforms.entries@, "lightIntensity"@)
                && s.cascade_distances == table_get(uniforms.entries@, "cascadeDistances"@)
                && s.shadow_cascade0 == table_get(uniforms.entries@, "shadowCascade0"@)
                && s.shadow_cascade1 == table_get(uniforms.entries@, "shadowCascade1"@)
                && s.shadow_cascade2 == table_get(uniforms.entries@, "shadowCascade2"@)
                && s.light_view_proj_matrices == table_get(
                uniforms.entries@,
                "lightViewProjMatrices"@,
            ) && s.view_matrix == table_get(uniforms.entries@, "viewMatrix"@) && s.shadow_bias
                == table_get(uniforms.entries@, "shadowBias"@) && s.shadows_enabled == table_get(
                uniforms.entries@,
                "shadowsEnabled"@,
            ) && s.soft_shadows == table_get(uniforms.entries@, "softShadows"@)
                && s.shadow_map_inv_size == table_get(uniforms.entries@, "shadowMapInvSize"@)),
            r is Err ==> (r matches Err(ShaderError::UniformNotFound(n)) && n@
                == directional_first_missing(uniforms.entries@)),
    {
        let wvp_matrix = match uniforms.lookup(&("worldViewProjection".to_string())) {
            Ok(l) => l,
            Err(e) => {
                return Err(e);
            },
        };
        let depth_sampler = match uniforms.lookup(&("depthTexture".to_string())) {
            Ok(l) => l,
            Err(e) => {
                return Err(e);
            },
        };
        let color_sampler = match uniforms.lookup(&("colorTexture".to_string())) {
            Ok(l) => l,
            Err(e) => {
                return Err(e);
            },
        };
        let normal_sampler = match uniforms.lookup(&("normalTexture".to_string())) {
            Ok(l) => l,
            Err(e) => {
                return Err(e);
            },
        };
        let material_sampler = match uniforms.lookup(&("materialTexture".to_string())) {
            Ok(l) => l,
            Err(e) => {
                return Err(e);
            },
        };
        let light_direction = match uniforms.lookup(&("lightDirection".to_string())) {
            Ok(l) => l,
            Err(e) => {
                return Err(e);
            },
        };
        let light_color = match uniforms.lookup(&("lightColor".to_string())) {
            Ok(l) => l,
            Err(e) => {
                return Err(e);
            },
        };
        let inv_view_proj_matrix = match uniforms.lookup(&("invViewProj".to_string())) {
            Ok(l) => l,
            Err(e) => {
                return Err(e);
            },
        };
        let camera_position = match uniforms.lookup(&("cameraPosition".to_string())) {
            Ok(l) => l,
            Err(e) => {
                return Err(e);
            },
        };
        let light_intensity = match uniforms.lookup(&("lightIntensity".to_string())) {
            Ok(l) => l,
            Err(e) => {
                return Err(e);
            },
        };
        let cascade_distances = match uniforms.lookup(&("cascadeDistances".to_string())) {
            Ok(l) => l,
            Err(e) => {
                return Err(e);
            },
        };
        let shadow_cascade0 = match uniforms.lookup(&("shadowCascade0".to_string())) {
            Ok(l) => l,
            Err(e) => {
                return Err(e);
            },
        };
        let shadow_cascade1 = match uniforms.lookup(&("shadowCascade1".to_string())) {
            Ok(l) => l,
            Err(e) => {
                return Err(e);
            },
        };
        let shadow_cascade2 = match uniforms.lookup(&("shadowCascade2".to_string())) {
            Ok(l) => l,
            Err(e) => {
                return Err(e);
            },
        };
        let light_view_proj_matrices = match uniforms.lookup(&("lightViewProjMatrices".to_string())) {
            Ok(l) => l,
            Err(e) => {
                return Err(e);
            },
        };
        let view_matrix = match uniforms.lookup(&("viewMatrix".to_string())) {
            Ok(l) => l,
            Err(e) => {
                return Err(e);
            },
        };
        let shadow_bias = match uniforms.lookup(&("shadowBias".to_string())) {
            Ok(l) => l,
            Err(e) => {
                return Err(e);
            },
        };
        let shadows_enabled = match uniforms.lookup(&("shadowsEnabled".to_string())) {
            Ok(l) => l,
            Err(e) => {
                return Err(e);
            },
        };
        let soft_shadows = match uniforms.lookup(&("softShadows".to_string())) {
            Ok(l) => l,
            Err(e) => {
                return Err(e);
            },
        };
        let shadow_map_inv_size = match uniforms.lookup(&("shadowMapInvSize".to_string())) {
            Ok(l) => l,
            Err(e) => {
                return Err(e);
            },
        };
        Ok(
            DirectionalLightShader {
                program,
                wvp_matrix,
                depth_sampler,
                color_sampler,
                normal_sampler,
                material_sampler,
                light_direction,
                light_color,
                inv_view_proj_matrix,
                camera_position,
                light_intensity,
                cascade_distances,
                shadow_cascade0,
                shadow_cascade1,
                shadow_cascade2,
                light_view_proj_matrices,
                view_matrix,
                shadow_bias,
                shadows_enabled,
                soft_shadows,
                shadow_map_inv_size,
            },
        )
    }
}

} // verus!
