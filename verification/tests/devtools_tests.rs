use rust_diablo::debug::RenderDebugFlags;
use rust_diablo::devtools::{handle_render_debug_key, on_off, DebugKey, RenderDebugAction};

#[test]
fn debug_flags_translate_to_render_plan() {
    let mut flags = RenderDebugFlags::all_enabled();
    flags.focus_render_2x2 = true;
    flags.log_render_focus = true;
    flags.walking_camera_offset = true;
    flags.wall_predraw = false;
    flags.mask_aware_draw_cell = false;
    flags.toon_filter = true;

    let plan = flags.render_plan();

    assert!(plan.render_floor());
    assert!(plan.render_walls());
    assert!(plan.render_entities());
    assert!(plan.focus_2x2());
    assert!(plan.trace_focus());
    assert!(plan.uses_walking_camera_offset());
    assert!(!plan.uses_wall_predraw());
    assert!(!plan.mask_aware_draw_cell());
    assert!(plan.toon_filter());
}

#[test]
fn toggles_render_layers_from_hotkeys() {
    let mut flags = RenderDebugFlags::all_enabled();

    assert!(handle_render_debug_key(&mut flags, DebugKey::F4, false, false));
    assert!(!flags.render_floor);

    assert!(handle_render_debug_key(&mut flags, DebugKey::F5, false, false));
    assert!(!flags.render_walls);

    assert!(handle_render_debug_key(&mut flags, DebugKey::F6, false, false));
    assert!(!flags.render_entities);
}

#[test]
fn honors_modifier_specific_hotkeys() {
    let mut flags = RenderDebugFlags::all_enabled();

    assert!(handle_render_debug_key(&mut flags, DebugKey::F7, true, false));
    assert!(flags.focus_render_2x2);
    assert!(!flags.show_debug_overlay);

    assert!(handle_render_debug_key(&mut flags, DebugKey::F7, false, true));
    assert!(flags.log_render_focus);
}

#[test]
fn ignores_non_devtools_keys() {
    let mut flags = RenderDebugFlags::all_enabled();

    assert!(!handle_render_debug_key(&mut flags, DebugKey::Other, false, false));
    assert!(flags.render_floor);
    assert!(flags.render_walls);
}

#[test]
fn toggling_twice_restores_flags() {
    let start = RenderDebugFlags::all_enabled();
    let mut flags = RenderDebugFlags::all_enabled();
    assert!(handle_render_debug_key(&mut flags, DebugKey::F10, false, false));
    assert!(flags.toon_filter != start.toon_filter);
    assert!(handle_render_debug_key(&mut flags, DebugKey::F10, false, false));
    assert_eq!(flags.toon_filter, start.toon_filter);
    assert_eq!(flags.render_floor, start.render_floor);
}

#[test]
fn action_labels_and_states() {
    let flags = RenderDebugFlags::all_enabled();
    assert_eq!(RenderDebugAction::ToggleFloor.label(), "Floor layer");
    assert_eq!(RenderDebugAction::ToggleFloor.state(&flags), "ON");
    assert_eq!(on_off(false), "OFF");
    assert_eq!(RenderDebugAction::from_key(DebugKey::Other, false, false), None);
}
