use vstd::prelude::*;
use crate::renderer::pass::{RenderPass, RenderPassPipeline};
use crate::renderer::plan::{PlanModel, RenderPlan};

verus! {

/// Chooses the passes of a frame from a render plan.
#[derive(Debug, Clone, Copy, PartialEq, Eq, Structural)]
pub struct RenderPolicy {
    plan: RenderPlan,
}

/// What the scene offers to draw.
#[derive(Debug, Clone, Copy, PartialEq, Eq, Structural)]
pub struct RenderSceneContext {
    has_dungeon_map: bool,
}

impl View for RenderSceneContext {
    type V = bool;

    /// Whether the scene has a dungeon map.
    closed spec fn view(&self) -> bool {
        self.has_dungeon_map
    }
}

impl View for RenderPolicy {
    type V = PlanModel;

    /// The model of the plan.
    closed spec fn view(&self) -> PlanModel {
        self.plan@
    }
}

/// The passes of a frame: the floor and wall passes when the scene has a dungeon map
/// and the plan asks for them, then an entity overlay when entities are drawn and no
/// wall pass draws them already.
pub open spec fn spec_pipeline(plan: PlanModel, has_map: bool) -> Seq<RenderPass> {
    let s1 = if has_map && plan.layers.floor {
        seq![RenderPass::DungeonFloor]
    } else {
        Seq::empty()
    };
    let s2 = if has_map && plan.layers.walls {
        s1.push(RenderPass::DungeonWallContent)
    } else {
        s1
    };
    if plan.layers.entities && (!has_map || !plan.layers.walls) {
        s2.push(RenderPass::EntityOverlay)
    } else {
        s2
    }
}

impl RenderPolicy {
    /// A policy for the given plan.
    pub fn from_plan(plan: RenderPlan) -> (p: RenderPolicy)
        ensures
            p@ == plan@,
            p.spec_plan() == plan,
    {
        RenderPolicy { plan }
    }

    /// The plan of this policy.
    pub closed spec fn spec_plan(self) -> RenderPlan {
        self.plan
    }

    /// The plan of this policy.
    pub fn plan(self) -> (p: RenderPlan)
        ensures
            p == self.spec_plan(),
            p@ == self@,
    {
        self.plan
    }

    /// The passes to run for a scene.
    pub fn pipeline(self, scene: RenderSceneContext) -> (p: RenderPassPipeline)
        ensures
            p.wf(),
            p@ == spec_pipeline(self@, scene@),
    {
        let mut pipeline = RenderPassPipeline::empty();

        if scene.has_dungeon_map() {
            if self.plan.render_floor() {
                pipeline.push(RenderPass::DungeonFloor);
            }
            if self.plan.render_walls() {
                pipeline.push(RenderPass::DungeonWallContent);
            }
        }
        if self.plan.render_entities() && (!scene.has_dungeon_map() || !self.plan.render_walls()) {
            pipeline.push(RenderPass::EntityOverlay);
        }
        pipeline
    }
}

impl RenderSceneContext {
    /// A scene with or without a dungeon map.
    pub fn new(has_dungeon_map: bool) -> (s: RenderSceneContext)
        ensures
            s@ == has_dungeon_map,
    {
        RenderSceneContext { has_dungeon_map }
    }

    /// Whether the scene has a dungeon map.
    pub fn has_dungeon_map(self) -> (b: bool)
        ensures
            b == self@,
    {
        self.has_dungeon_map
    }
}

/// Entities are drawn exactly once when asked for: either inside the wall pass or
/// as an overlay, never both; and no pass runs that the plan or the scene excludes.
pub proof fn lemma_pipeline_draws_entities_once(plan: PlanModel, has_map: bool)
    ensures
        spec_pipeline(plan, has_map).contains(RenderPass::EntityOverlay) ==> plan.layers.entities,
        spec_pipeline(plan, has_map).contains(RenderPass::EntityOverlay) ==> !spec_pipeline(
            plan,
            has_map,
        ).contains(RenderPass::DungeonWallContent),
        plan.layers.entities ==> (spec_pipeline(plan, has_map).contains(RenderPass::EntityOverlay)
            || spec_pipeline(plan, has_map).contains(RenderPass::DungeonWallContent)),
        spec_pipeline(plan, has_map).contains(RenderPass::DungeonFloor) ==> (has_map
            && plan.layers.floor),
        spec_pipeline(plan, has_map).contains(RenderPass::DungeonWallContent) ==> (has_map
            && plan.layers.walls),
        spec_pipeline(plan, has_map).len() <= 3,
{
    let s = spec_pipeline(plan, has_map);
    let s1 = if has_map && plan.layers.floor {
        seq![RenderPass::DungeonFloor]
    } else {
        Seq::empty()
    };
    let s2 = if has_map && plan.layers.walls {
        s1.push(RenderPass::DungeonWallContent)
    } else {
        s1
    };
    assert(s1.len() <= 1);
    if has_map && plan.layers.floor {
        assert(s1[0] == RenderPass::DungeonFloor);
    }
    assert(forall|i: int| 0 <= i < s1.len() ==> s1[i] == RenderPass::DungeonFloor);
    assert(forall|i: int|
        0 <= i < s2.len() ==> s2[i] == RenderPass::DungeonFloor || s2[i]
            == RenderPass::DungeonWallContent);
    if has_map && plan.layers.walls {
        assert(s2[s2.len() - 1] == RenderPass::DungeonWallContent);
        assert(s2.contains(RenderPass::DungeonWallContent));
    }
    if plan.layers.entities && (!has_map || !plan.layers.walls) {
        assert(s[s.len() - 1] == RenderPass::EntityOverlay);
        assert(forall|i: int| 0 <= i < s2.len() ==> s[i] == s2[i]);
    }
    if has_map && plan.layers.floor {
        assert(s[0] == RenderPass::DungeonFloor);
    }
}

} // verus!
