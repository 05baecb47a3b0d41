use vstd::prelude::*;
use vstd::std_specs::convert::FromSpecImpl;
use crate::renderer::plan::{
    DrawCellMode, LayerFlags, PlanModel, PostEffects, RenderCameraMode, RenderLayers, RenderPlan,
    RenderRegionMode, RenderTraceMode, WallOcclusionMode,
};

verus! {

/// Switches for troubleshooting the renderer layer by layer.
#[derive(Debug, Clone, Copy, PartialEq, Eq, Structural)]
pub struct RenderDebugFlags {
    /// Draw the floor layer.
    pub render_floor: bool,
    /// Draw the wall and upper layer.
    pub render_walls: bool,
    /// Draw entities.
    pub render_entities: bool,
    /// Show the debug overlay.
    pub show_debug_overlay: bool,
    /// Draw only the 2x2 region around the view center.
    pub focus_render_2x2: bool,
    /// Log the focused region (needs `focus_render_2x2`).
    pub log_render_focus: bool,
    /// Toon post-processing on tiles.
    pub toon_filter: bool,
    /// Apply Diablo's DrawCell mask rules before uploading tile pixels.
    pub mask_aware_draw_cell: bool,
    /// Follow the walking offset with the camera.
    pub walking_camera_offset: bool,
    /// Log walk timing diagnostics.
    pub log_walk_trace: bool,
    /// Pre-draw walls to hide moving sprites behind them.
    pub wall_predraw: bool,
}

/// The flags with the three layer switches given and every other switch at its
/// starting value (mask-aware cells and wall pre-draw on, the rest off).
pub open spec fn layer_flags(floor: bool, walls: bool, entities: bool) -> RenderDebugFlags {
    RenderDebugFlags {
        render_floor: floor,
        render_walls: walls,
        render_entities: entities,
        show_debug_overlay: false,
        focus_render_2x2: false,
        log_render_focus: false,
        toon_filter: false,
        mask_aware_draw_cell: true,
        walking_camera_offset: false,
        log_walk_trace: false,
        wall_predraw: true,
    }
}

/// The plan that a set of debug flags asks for.
pub open spec fn flags_plan(flags: RenderDebugFlags) -> PlanModel {
    PlanModel {
        layers: LayerFlags {
            floor: flags.render_floor,
            walls: flags.render_walls,
            entities: flags.render_entities,
        },
        region: if flags.focus_render_2x2 {
            RenderRegionMode::Focus2x2
        } else {
            RenderRegionMode::Full
        },
        trace: if flags.focus_render_2x2 && flags.log_render_focus {
            RenderTraceMode::Focus
        } else {
            RenderTraceMode::Off
        },
        camera: if flags.walking_camera_offset {
            RenderCameraMode::WalkingOffset
        } else {
            RenderCameraMode::Fixed
        },
        wall_occlusion: if flags.wall_predraw {
            WallOcclusionMode::DiabloPredraw
        } else {
            WallOcclusionMode::Simple
        },
        draw_cell: if flags.mask_aware_draw_cell {
            DrawCellMode::DiabloMaskAware
        } else {
            DrawCellMode::RawUpload
        },
        toon_filter: flags.toon_filter,
    }
}

impl Default for RenderDebugFlags {
    /// Floor only, for floor debugging.
    fn default() -> (f: RenderDebugFlags)
        ensures
            f == layer_flags(true, false, false),
    {
        Self::floor_only()
    }
}

impl RenderDebugFlags {
    /// The render plan these flags ask for.
    pub fn render_plan(&self) -> (p: RenderPlan)
        ensures
            p@ == flags_plan(*self),
    {
        let p = RenderPlan::from(self);
        proof {
            RenderPlan::lemma_view_from_model(flags_plan(*self));
        }
        p
    }

    /// All three layers on.
    pub fn all_enabled() -> (f: RenderDebugFlags)
        ensures
            f == layer_flags(true, true, true),
    {
        RenderDebugFlags {
            render_floor: true,
            render_walls: true,
            render_entities: true,
            show_debug_overlay: false,
            focus_render_2x2: false,
            log_render_focus: false,
            toon_filter: false,
            mask_aware_draw_cell: true,
            walking_camera_offset: false,
            log_walk_trace: false,
            wall_predraw: true,
        }
    }

    /// All three layers off.
    pub fn all_disabled() -> (f: RenderDebugFlags)
        ensures
            f == layer_flags(false, false, false),
    {
        RenderDebugFlags {
            render_floor: false,
            render_walls: false,
            render_entities: false,
            show_debug_overlay: false,
            focus_render_2x2: false,
            log_render_focus: false,
            toon_filter: false,
            mask_aware_draw_cell: true,
            walking_camera_offset: false,
            log_walk_trace: false,
            wall_predraw: true,
        }
    }

    /// Only the floor layer on.
    pub fn floor_only() -> (f: RenderDebugFlags)
        ensures
            f == layer_flags(true, false, false),
    {
        RenderDebugFlags {
            render_floor: true,
            render_walls: false,
            render_entities: false,
            show_debug_overlay: false,
            focus_render_2x2: false,
            log_render_focus: false,
            toon_filter: false,
            mask_aware_draw_cell: true,
            walking_camera_offset: false,
            log_walk_trace: false,
            wall_predraw: true,
        }
    }
}

/// Debug flags translate into a render plan; the focus trace is on only when the
/// focus region is.
impl<'a> From<&'a RenderDebugFlags> for RenderPlan {
    fn from(flags: &'a RenderDebugFlags) -> (p: RenderPlan) {
        let region = if flags.focus_render_2x2 {
            RenderRegionMode::Focus2x2
        } else {
            RenderRegionMode::Full
        };
        let trace = if flags.focus_render_2x2 && flags.log_render_focus {
            RenderTraceMode::Focus
        } else {
            RenderTraceMode::Off
        };
        let camera = if flags.walking_camera_offset {
            RenderCameraMode::WalkingOffset
        } else {
            RenderCameraMode::Fixed
        };
        let wall_occlusion = if flags.wall_predraw {
            WallOcclusionMode::DiabloPredraw
        } else {
            WallOcclusionMode::Simple
        };
        let draw_cell = if flags.mask_aware_draw_cell {
            DrawCellMode::DiabloMaskAware
        } else {
            DrawCellMode::RawUpload
        };

        let p = RenderPlan::new(
            RenderLayers::new(flags.render_floor, flags.render_walls, flags.render_entities),
            region,
            trace,
            camera,
            wall_occlusion,
            draw_cell,
            PostEffects::new(flags.toon_filter),
        );
        proof {
            RenderPlan::lemma_from_model_view(p);
        }
        p
    }
}

impl<'a> FromSpecImpl<&'a RenderDebugFlags> for RenderPlan {
    open spec fn obeys_from_spec() -> bool {
        true
    }

    open spec fn from_spec(v: &'a RenderDebugFlags) -> RenderPlan {
        RenderPlan::from_model(flags_plan(*v))
    }
}

} // verus!
