//! A retained-mode widget core: a tree of nodes held in a generational
//! arena, a two-pass (measure/arrange) layout protocol over integer
//! layout units, and an addressed message protocol that mutates widget
//! state, with a tab control as the composite-widget exemplar.
use vstd::prelude::*;

pub mod brush;
pub mod geometry;
pub mod handle;
pub mod laws;
pub mod message;
pub mod node;
pub mod shader;
pub mod tab_control;
pub mod ui;
pub mod widget;

pub use brush::{Brush, Color};
pub use geometry::{Position, Rect, Size, Thickness};
pub use handle::NodeHandle;
pub use message::{ButtonMessage, UiMessage, UiMessageData, WidgetMessage};
pub use node::{Criterion, UiNode};
pub use shader::{DirectionalLightShader, DownscaleShader, GpuProgramId, ShaderError, SkyboxShader, UniformLocation, UniformTable};
pub use tab_control::{NodeHandleMapping, Tab, TabControl, TabControlBuilder, TabDefinition};
pub use ui::{Slot, Ui};
pub use widget::{HorizontalAlignment, UserData, VerticalAlignment, Widget, WidgetBuilder};

verus! {

} // verus!
