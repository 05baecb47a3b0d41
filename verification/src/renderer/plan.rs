use vstd::prelude::*;

verus! {

/// Which map region is drawn.
#[derive(Debug, Clone, Copy, PartialEq, Eq, Structural)]
pub enum RenderRegionMode {
    Full,
    Focus2x2,
}

/// Whether the focused region is traced in the log.
#[derive(Debug, Clone, Copy, PartialEq, Eq, Structural)]
pub enum RenderTraceMode {
    Off,
    Focus,
}

/// Whether the camera follows the walking offset of the player.
#[derive(Debug, Clone, Copy, PartialEq, Eq, Structural)]
pub enum RenderCameraMode {
    Fixed,
    WalkingOffset,
}

/// How walls hide moving sprites.
#[derive(Debug, Clone, Copy, PartialEq, Eq, Structural)]
pub enum WallOcclusionMode {
    Simple,
    DiabloPredraw,
}

/// How tile pixels are uploaded.
#[derive(Debug, Clone, Copy, PartialEq, Eq, Structural)]
pub enum DrawCellMode {
    RawUpload,
    DiabloMaskAware,
}

/// The three layer switches, as plain values.
pub struct LayerFlags {
    pub floor: bool,
    pub walls: bool,
    pub entities: bool,
}

/// Everything a render plan decides, as plain values.
pub struct PlanModel {
    pub layers: LayerFlags,
    pub region: RenderRegionMode,
    pub trace: RenderTraceMode,
    pub camera: RenderCameraMode,
    pub wall_occlusion: WallOcclusionMode,
    pub draw_cell: DrawCellMode,
    pub toon_filter: bool,
}

/// Which layers are drawn.
#[derive(Debug, Clone, Copy, PartialEq, Eq, Structural)]
pub struct RenderLayers {
    floor: bool,
    walls: bool,
    entities: bool,
}

impl View for RenderLayers {
    type V = LayerFlags;

    closed spec fn view(&self) -> LayerFlags {
        LayerFlags { floor: self.floor, walls: self.walls, entities: self.entities }
    }
}

impl RenderLayers {
    /// Layers with the given switches.
    pub fn new(floor: bool, walls: bool, entities: bool) -> (l: RenderLayers)
        ensures
            l@ == (LayerFlags { floor, walls, entities }),
    {
        RenderLayers { floor, walls, entities }
    }

    /// Only the floor layer.
    pub fn floor_only() -> (l: RenderLayers)
        ensures
            l@ == (LayerFlags { floor: true, walls: false, entities: false }),
    {
        Self::new(true, false, false)
    }
}

/// Post-processing switches.
#[derive(Debug, Clone, Copy, PartialEq, Eq, Structural)]
pub struct PostEffects {
    toon_filter: bool,
}

impl View for PostEffects {
    type V = bool;

    /// Whether the toon filter is on.
    closed spec fn view(&self) -> bool {
        self.toon_filter
    }
}

impl PostEffects {
    /// Post effects with the toon filter on or off.
    pub fn new(toon_filter: bool) -> (p: PostEffects)
        ensures
            p@ == toon_filter,
    {
        PostEffects { toon_filter }
    }

    /// No post effects.
    pub fn none() -> (p: PostEffects)
        ensures
            p@ == false,
    {
        PostEffects { toon_filter: false }
    }
}

/// The rendering decisions for one frame.
#[derive(Debug, Clone, Copy, PartialEq, Eq, Structural)]
pub struct RenderPlan {
    layers: RenderLayers,
    region: RenderRegionMode,
    trace: RenderTraceMode,
    camera: RenderCameraMode,
    wall_occlusion: WallOcclusionMode,
    draw_cell: DrawCellMode,
    post_effects: PostEffects,
}

impl View for RenderPlan {
    type V = PlanModel;

    closed spec fn view(&self) -> PlanModel {
        PlanModel {
            layers: self.layers@,
            region: self.region,
            trace: self.trace,
            camera: self.camera,
            wall_occlusion: self.wall_occlusion,
            draw_cell: self.draw_cell,
            toon_filter: self.post_effects@,
        }
    }
}

/// The model of the default plan: floor only, full region, no tracing, fixed
/// camera, Diablo wall pre-draw and mask-aware cells, no post effects.
pub open spec fn default_plan_model() -> PlanModel {
    PlanModel {
        layers: LayerFlags { floor: true, walls: false, entities: false },
        region: RenderRegionMode::Full,
        trace: RenderTraceMode::Off,
        camera: RenderCameraMode::Fixed,
        wall_occlusion: WallOcclusionMode::DiabloPredraw,
        draw_cell: DrawCellMode::DiabloMaskAware,
        toon_filter: false,
    }
}

impl Default for RenderPlan {
    fn default() -> (p: RenderPlan)
        ensures
            p@ == default_plan_model(),
    {
        RenderPlan {
            layers: RenderLayers::floor_only(),
            region: RenderRegionMode::Full,
            trace: RenderTraceMode::Off,
            camera: RenderCameraMode::Fixed,
            wall_occlusion: WallOcclusionMode::DiabloPredraw,
            draw_cell: DrawCellMode::DiabloMaskAware,
            post_effects: PostEffects::none(),
        }
    }
}

impl RenderPlan {
    /// The plan that decides what `m` says.
    pub closed spec fn from_model(m: PlanModel) -> RenderPlan {
        RenderPlan {
            layers: RenderLayers { floor: m.layers.floor, walls: m.layers.walls, entities: m.layers.entities },
            region: m.region,
            trace: m.trace,
            camera: m.camera,
            wall_occlusion: m.wall_occlusion,
            draw_cell: m.draw_cell,
            post_effects: PostEffects { toon_filter: m.toon_filter },
        }
    }

    /// A plan is determined by what it decides.
    pub proof fn lemma_from_model_view(p: RenderPlan)
        ensures
            RenderPlan::from_model(p@) == p,
    {
    }

    /// The plan made from `m` decides what `m` says.
    pub proof fn lemma_view_from_model(m: PlanModel)
        ensures
            RenderPlan::from_model(m)@ == m,
    {
    }
}

impl RenderPlan {
    /// Assemble a plan from its parts.
    pub fn new(
        layers: RenderLayers,
        region: RenderRegionMode,
        trace: RenderTraceMode,
        camera: RenderCameraMode,
        wall_occlusion: WallOcclusionMode,
        draw_cell: DrawCellMode,
        post_effects: PostEffects,
    ) -> (p: RenderPlan)
        ensures
            p@ == (PlanModel {
                layers: layers@,
                region,
                trace,
                camera,
                wall_occlusion,
                draw_cell,
                toon_filter: post_effects@,
            }),
    {
        RenderPlan { layers, region, trace, camera, wall_occlusion, draw_cell, post_effects }
    }

    /// Whether the floor layer is drawn.
    pub fn render_floor(self) -> (b: bool)
        ensures
            b == self@.layers.floor,
    {
        self.layers.floor
    }

    /// Whether the wall layer is drawn.
    pub fn render_walls(self) -> (b: bool)
        ensures
            b == self@.layers.walls,
    {
        self.layers.walls
    }

    /// Whether entities are drawn.
    pub fn render_entities(self) -> (b: bool)
        ensures
            b == self@.layers.entities,
    {
        self.layers.entities
    }

    /// Whether only the 2x2 region around the view center is drawn.
    pub fn focus_2x2(self) -> (b: bool)
        ensures
            b == (self@.region == RenderRegionMode::Focus2x2),
    {
        matches!(self.region, RenderRegionMode::Focus2x2)
    }

    /// Whether the focused region is traced.
    pub fn trace_focus(self) -> (b: bool)
        ensures
            b == (self@.trace == RenderTraceMode::Focus),
    {
        matches!(self.trace, RenderTraceMode::Focus)
    }

    /// Whether the camera follows the walking offset.
    pub fn uses_walking_camera_offset(self) -> (b: bool)
        ensures
            b == (self@.camera == RenderCameraMode::WalkingOffset),
    {
        matches!(self.camera, RenderCameraMode::WalkingOffset)
    }

    /// "ON" when the camera follows the walking offset, "OFF" otherwise.
    pub fn camera_label(self) -> (s: &'static str)
        ensures
            s@ == (if self@.camera == RenderCameraMode::WalkingOffset { "ON"@ } else { "OFF"@ }),
    {
        match self.camera {
            RenderCameraMode::Fixed => "OFF",
            RenderCameraMode::WalkingOffset => "ON",
        }
    }

    /// Whether walls are pre-drawn to hide moving sprites.
    pub fn uses_wall_predraw(self) -> (b: bool)
        ensures
            b == (self@.wall_occlusion == WallOcclusionMode::DiabloPredraw),
    {
        matches!(self.wall_occlusion, WallOcclusionMode::DiabloPredraw)
    }

    /// Whether cells are drawn with Diablo's mask rules.
    pub fn mask_aware_draw_cell(self) -> (b: bool)
        ensures
            b == (self@.draw_cell == DrawCellMode::DiabloMaskAware),
    {
        matches!(self.draw_cell, DrawCellMode::DiabloMaskAware)
    }

    /// Whether the toon filter is on.
    pub fn toon_filter(self) -> (b: bool)
        ensures
            b == self@.toon_filter,
    {
        self.post_effects.toon_filter
    }
}

} // verus!
