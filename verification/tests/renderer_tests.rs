use rust_diablo::debug::RenderDebugFlags;
use rust_diablo::math::point::Point;
use rust_diablo::math::rect::Rect;
use rust_diablo::renderer::{
    Camera, Color, DrawCellMode, Framebuffer, PostEffects, RenderCameraMode, RenderLayers, RenderPass,
    RenderPassPipeline, RenderPlan, RenderPolicy, RenderRegionMode, RenderSceneContext, RenderTraceMode,
    WallOcclusionMode,
};

fn plan(floor: bool, walls: bool, entities: bool) -> RenderPlan {
    RenderPlan::new(
        RenderLayers::new(floor, walls, entities),
        RenderRegionMode::Full,
        RenderTraceMode::Off,
        RenderCameraMode::Fixed,
        WallOcclusionMode::DiabloPredraw,
        DrawCellMode::DiabloMaskAware,
        PostEffects::none(),
    )
}

#[test]
fn test_framebuffer_create() {
    let fb = Framebuffer::new(800, 600);
    assert_eq!(fb.width(), 800);
    assert_eq!(fb.height(), 600);
    assert_eq!(fb.pixels().len(), 800 * 600);
}

#[test]
fn test_set_pixel_opaque() {
    let mut fb = Framebuffer::new(10, 10);
    fb.set_pixel(5, 5, 42);
    assert_eq!(fb.get_pixel(5, 5), 42);
}

#[test]
fn test_set_pixel_transparent() {
    let mut fb = Framebuffer::new(10, 10);
    fb.set_pixel(5, 5, 42);
    assert_eq!(fb.get_pixel(5, 5), 42);
    fb.set_pixel(5, 5, 0);
    assert_eq!(fb.get_pixel(5, 5), 42);
}

#[test]
fn test_to_rgba() {
    let mut fb = Framebuffer::new(2, 2);
    let mut palette = [Color::new(0, 0, 0); 256];
    palette[1] = Color::new(255, 0, 0);
    palette[2] = Color::new(0, 255, 0);

    fb.set_pixel(0, 0, 1);
    fb.set_pixel(1, 0, 2);

    let rgba = fb.to_rgba(&palette);
    assert_eq!(&rgba[0..4], &[255, 0, 0, 255]);
    assert_eq!(&rgba[4..8], &[0, 255, 0, 255]);
}

#[test]
fn framebuffer_clear_and_out_of_range() {
    let mut fb = Framebuffer::new(4, 4);
    fb.set_pixel(1, 1, 7);
    fb.set_pixel(9, 9, 7);
    assert_eq!(fb.get_pixel(9, 9), 0);
    fb.clear();
    assert_eq!(fb.get_pixel(1, 1), 0);
    assert_eq!(fb.pixels().len(), 16);
}

#[test]
fn pipeline_preserves_pass_order() {
    let mut pipeline = RenderPassPipeline::empty();
    pipeline.push(RenderPass::DungeonFloor);
    pipeline.push(RenderPass::DungeonWallContent);
    pipeline.push(RenderPass::EntityOverlay);

    let passes: Vec<_> = pipeline.iter();
    assert_eq!(
        passes,
        vec![RenderPass::DungeonFloor, RenderPass::DungeonWallContent, RenderPass::EntityOverlay]
    );
}

#[test]
fn pipeline_scan_needs_a_dungeon_pass() {
    let mut pipeline = RenderPassPipeline::empty();
    assert!(!pipeline.requires_dungeon_scan());
    pipeline.push(RenderPass::EntityOverlay);
    assert!(!pipeline.requires_dungeon_scan());
    assert!(pipeline.contains(RenderPass::EntityOverlay));
    pipeline.push(RenderPass::DungeonFloor);
    assert!(pipeline.requires_dungeon_scan());
}

#[test]
fn default_plan_matches_learning_build_render_start() {
    let plan = RenderPlan::default();
    assert!(plan.render_floor());
    assert!(!plan.render_walls());
    assert!(!plan.render_entities());
    assert!(plan.mask_aware_draw_cell());
    assert!(plan.uses_wall_predraw());
}

#[test]
fn default_policy_runs_floor_pass_for_dungeon_scene() {
    let policy = RenderPolicy::from_plan(RenderPlan::default());
    let passes: Vec<_> = policy.pipeline(RenderSceneContext::new(true)).iter();
    assert_eq!(passes, vec![RenderPass::DungeonFloor]);
}

#[test]
fn policy_embeds_entities_in_wall_pass_when_walls_are_enabled() {
    let policy = RenderPolicy::from_plan(plan(true, true, true));
    let passes: Vec<_> = policy.pipeline(RenderSceneContext::new(true)).iter();
    assert_eq!(passes, vec![RenderPass::DungeonFloor, RenderPass::DungeonWallContent]);
}

#[test]
fn policy_uses_overlay_entities_without_wall_occlusion() {
    let policy = RenderPolicy::from_plan(plan(true, false, true));
    let passes: Vec<_> = policy.pipeline(RenderSceneContext::new(true)).iter();
    assert_eq!(passes, vec![RenderPass::DungeonFloor, RenderPass::EntityOverlay]);
}

#[test]
fn policy_keeps_entities_available_without_dungeon_map() {
    let policy = RenderPolicy::from_plan(plan(true, true, true));
    let passes: Vec<_> = policy.pipeline(RenderSceneContext::new(false)).iter();
    assert_eq!(passes, vec![RenderPass::EntityOverlay]);
}

#[test]
fn camera_follows_and_converts() {
    let mut camera = Camera::new(640, 480);
    camera.follow(Point::new(1000, 1000));
    assert_eq!(camera.position, Point::new(680, 760));
    let screen = camera.world_to_screen(Point::new(1000, 1000));
    assert_eq!(screen, Point::new(320, 240));
    assert_eq!(camera.screen_to_world(screen), Point::new(1000, 1000));
    assert!(camera.is_visible(Point::new(1000, 1000)));
    assert!(!camera.is_visible(Point::new(0, 0)));
}

#[test]
fn camera_stays_inside_bounds() {
    let mut camera = Camera::new(640, 480);
    camera.set_bounds(Rect::new(0, 0, 2000, 2000));
    camera.follow(Point::new(10, 10));
    assert_eq!(camera.position, Point::new(0, 0));
    camera.follow(Point::new(1990, 1990));
    assert_eq!(camera.position, Point::new(1360, 1520));
    // A map narrower than the viewport is centered.
    camera.set_bounds(Rect::new(0, 0, 320, 2000));
    camera.follow(Point::new(100, 100));
    assert_eq!(camera.position.x, -160);
}

#[test]
fn rect_geometry() {
    let r = Rect::from_center(Point::new(50, 50), 20, 10);
    assert_eq!(r, Rect::new(40, 45, 20, 10));
    assert_eq!(r.center(), Point::new(50, 50));
    assert_eq!(r.top_left(), Point::new(40, 45));
    assert!(r.contains(Point::new(40, 45)));
    assert!(!r.contains(Point::new(60, 45)));
    let other = Rect::new(59, 54, 5, 5);
    assert!(r.intersects(&other));
    assert!(other.intersects(&r));
    assert!(!r.intersects(&Rect::new(60, 45, 5, 5)));
}

#[test]
fn point_arithmetic() {
    let a = Point::new(3, -4);
    let b = Point::new(10, 20);
    assert_eq!(a.add(b), Point::new(13, 16));
    assert_eq!(a.add(b).sub(b), a);
    assert_eq!(Point::zero(), Point::new(0, 0));
    assert_eq!(Point::from_pair((7, 8)), Point::new(7, 8));
}

#[test]
fn test_render_plan_from_flags() {
    let mut flags = RenderDebugFlags::default();
    flags.focus_render_2x2 = true;
    flags.log_render_focus = true;
    flags.walking_camera_offset = true;
    flags.toon_filter = true;
    let plan = RenderPlan::from(&flags);
    assert!(plan.focus_2x2());
    assert!(plan.trace_focus());
    assert!(plan.uses_walking_camera_offset());
    assert!(plan.toon_filter());
    assert_eq!(plan, flags.render_plan());
}
