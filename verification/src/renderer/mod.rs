pub mod camera;
pub mod color;
pub mod framebuffer;
pub mod pass;
pub mod plan;
pub mod policy;

pub use camera::Camera;
pub use color::Color;
pub use framebuffer::Framebuffer;
pub use pass::{RenderPass, RenderPassPipeline};
pub use plan::{
    DrawCellMode, PostEffects, RenderCameraMode, RenderLayers, RenderPlan, RenderRegionMode,
    RenderTraceMode, WallOcclusionMode,
};
pub use policy::{RenderPolicy, RenderSceneContext};
