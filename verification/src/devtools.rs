use vstd::prelude::*;
use crate::debug::{RenderDebugFlags, layer_flags};

verus! {

/// The keys that the render debug hotkeys look at; every other key is `Other`.
#[derive(Debug, Clone, Copy, PartialEq, Eq, Structural)]
pub enum DebugKey {
    F4,
    F5,
    F6,
    F7,
    F8,
    F9,
    F10,
    F11,
    F12,
    Other,
}

/// A render debug hotkey action.
#[derive(Debug, Clone, Copy, PartialEq, Eq, Structural)]
pub enum RenderDebugAction {
    ToggleFloor,
    ToggleWalls,
    ToggleEntities,
    ToggleOverlay,
    ToggleFocusRender,
    ToggleFocusLog,
    ResetAll,
    FloorOnly,
    ToggleToon,
    ToggleWalkCamera,
    ToggleWalkTrace,
    ToggleWallPredraw,
    ToggleMaskAwareDrawCell,
}

/// The action bound to a key with the given modifiers: F4 floor, F5 walls,
/// F6 entities, Shift+F7 focus, Ctrl+F7 focus log, F7 overlay, F8 all layers,
/// F9 floor only, F10 toon, Shift+F11 walk trace, F11 walk camera,
/// Shift+F12 mask-aware cells, F12 wall pre-draw. Shift wins over Ctrl.
pub open spec fn spec_action(key: DebugKey, shift: bool, ctrl: bool) -> Option<RenderDebugAction> {
    match key {
        DebugKey::F4 => Some(RenderDebugAction::ToggleFloor),
        DebugKey::F5 => Some(RenderDebugAction::ToggleWalls),
        DebugKey::F6 => Some(RenderDebugAction::ToggleEntities),
        DebugKey::F7 => if shift {
            Some(RenderDebugAction::ToggleFocusRender)
        } else if ctrl {
            Some(RenderDebugAction::ToggleFocusLog)
        } else {
            Some(RenderDebugAction::ToggleOverlay)
        },
        DebugKey::F8 => Some(RenderDebugAction::ResetAll),
        DebugKey::F9 => Some(RenderDebugAction::FloorOnly),
        DebugKey::F10 => Some(RenderDebugAction::ToggleToon),
        DebugKey::F11 => if shift {
            Some(RenderDebugAction::ToggleWalkTrace)
        } else {
            Some(RenderDebugAction::ToggleWalkCamera)
        },
        DebugKey::F12 => if shift {
            Some(RenderDebugAction::ToggleMaskAwareDrawCell)
        } else {
            Some(RenderDebugAction::ToggleWallPredraw)
        },
        DebugKey::Other => None,
    }
}

/// The flags after an action: a toggle flips its one switch, `ResetAll` turns
/// every layer on, `FloorOnly` keeps only the floor.
pub open spec fn spec_apply(action: RenderDebugAction, f: RenderDebugFlags) -> RenderDebugFlags {
    match action {
        RenderDebugAction::ToggleFloor => RenderDebugFlags { render_floor: !f.render_floor, ..f },
        RenderDebugAction::ToggleWalls => RenderDebugFlags { render_walls: !f.render_walls, ..f },
        RenderDebugAction::ToggleEntities => RenderDebugFlags {
            render_entities: !f.render_entities,
            ..f
        },
        RenderDebugAction::ToggleOverlay => RenderDebugFlags {
            show_debug_overlay: !f.show_debug_overlay,
            ..f
        },
        RenderDebugAction::ToggleFocusRender => RenderDebugFlags {
            focus_render_2x2: !f.focus_render_2x2,
            ..f
        },
        RenderDebugAction::ToggleFocusLog => RenderDebugFlags {
            log_render_focus: !f.log_render_focus,
            ..f
        },
        RenderDebugAction::ResetAll => layer_flags(true, true, true),
        RenderDebugAction::FloorOnly => layer_flags(true, false, false),
        RenderDebugAction::ToggleToon => RenderDebugFlags { toon_filter: !f.toon_filter, ..f },
        RenderDebugAction::ToggleWalkCamera => RenderDebugFlags {
            walking_camera_offset: !f.walking_camera_offset,
            ..f
        },
        RenderDebugAction::ToggleWalkTrace => RenderDebugFlags {
            log_walk_trace: !f.log_walk_trace,
            ..f
        },
        RenderDebugAction::ToggleWallPredraw => RenderDebugFlags {
            wall_predraw: !f.wall_predraw,
            ..f
        },
        RenderDebugAction::ToggleMaskAwareDrawCell => RenderDebugFlags {
            mask_aware_draw_cell: !f.mask_aware_draw_cell,
            ..f
        },
    }
}

/// "ON" or "OFF".
pub open spec fn spec_on_off(value: bool) -> Seq<char> {
    if value { "ON"@ } else { "OFF"@ }
}

/// Apply the hotkey `key` with the given modifiers to `flags`. Returns whether the
/// key is a render debug hotkey; other keys leave the flags as they are.
pub fn handle_render_debug_key(flags: &mut RenderDebugFlags, key: DebugKey, shift: bool, ctrl: bool) -> (handled: bool)
    ensures
        handled == spec_action(key, shift, ctrl) is Some,
        *final(flags) == (match spec_action(key, shift, ctrl) {
            Some(action) => spec_apply(action, *old(flags)),
            None => *old(flags),
        }),
{
    match RenderDebugAction::from_key(key, shift, ctrl) {
        Some(action) => {
            action.apply(flags);
            true
        },
        None => false,
    }
}

impl RenderDebugAction {
    /// The action bound to a key with the given modifiers.
    pub fn from_key(key: DebugKey, shift: bool, ctrl: bool) -> (a: Option<RenderDebugAction>)
        ensures
            a == spec_action(key, shift, ctrl),
    {
        match key {
            DebugKey::F4 => Some(Self::ToggleFloor),
            DebugKey::F5 => Some(Self::ToggleWalls),
            DebugKey::F6 => Some(Self::ToggleEntities),
            DebugKey::F7 => {
                if shift {
                    Some(Self::ToggleFocusRender)
                } else if ctrl {
                    Some(Self::ToggleFocusLog)
                } else {
                    Some(Self::ToggleOverlay)
                }
            },
            DebugKey::F8 => Some(Self::ResetAll),
            DebugKey::F9 => Some(Self::FloorOnly),
            DebugKey::F10 => Some(Self::ToggleToon),
            DebugKey::F11 => {
                if shift {
                    Some(Self::ToggleWalkTrace)
                } else {
                    Some(Self::ToggleWalkCamera)
                }
            },
            DebugKey::F12 => {
                if shift {
                    Some(Self::ToggleMaskAwareDrawCell)
                } else {
                    Some(Self::ToggleWallPredraw)
                }
            },
            DebugKey::Other => None,
        }
    }

    /// Apply this action to the flags.
    pub fn apply(self, flags: &mut RenderDebugFlags)
        ensures
            *final(flags) == spec_apply(self, *old(flags)),
    {
        match self {
            Self::ToggleFloor => flags.render_floor = !flags.render_floor,
            Self::ToggleWalls => flags.render_walls = !flags.render_walls,
            Self::ToggleEntities => flags.render_entities = !flags.render_entities,
            Self::ToggleOverlay => flags.show_debug_overlay = !flags.show_debug_overlay,
            Self::ToggleFocusRender => flags.focus_render_2x2 = !flags.focus_render_2x2,
            Self::ToggleFocusLog => flags.log_render_focus = !flags.log_render_focus,
            Self::ResetAll => *flags = RenderDebugFlags::all_enabled(),
            Self::FloorOnly => *flags = RenderDebugFlags::floor_only(),
            Self::ToggleToon => flags.toon_filter = !flags.toon_filter,
            Self::ToggleWalkCamera => flags.walking_camera_offset = !flags.walking_camera_offset,
            Self::ToggleWalkTrace => flags.log_walk_trace = !flags.log_walk_trace,
            Self::ToggleWallPredraw => flags.wall_predraw = !flags.wall_predraw,
            Self::ToggleMaskAwareDrawCell => {
                flags.mask_aware_draw_cell = !flags.mask_aware_draw_cell
            },
        }
    }

    /// The name of the action, for the log.
    pub fn label(self) -> (s: &'static str)
        ensures
            s@ == spec_label(self),
    {
        match self {
            Self::ToggleFloor => "Floor layer",
            Self::ToggleWalls => "Wall layer",
            Self::ToggleEntities => "Entity layer",
            Self::ToggleOverlay => "Debug overlay",
            Self::ToggleFocusRender => "Focus render",
            Self::ToggleFocusLog => "Focus render log",
            Self::ResetAll => "All render layers",
            Self::FloorOnly => "Floor-only mode",
            Self::ToggleToon => "Toon filter",
            Self::ToggleWalkCamera => "Walk camera offset",
            Self::ToggleWalkTrace => "Walk trace",
            Self::ToggleWallPredraw => "Wall pre-draw",
            Self::ToggleMaskAwareDrawCell => "Mask-aware DrawCell",
        }
    }

    /// The state of the switch that this action touches, for the log.
    pub fn state(self, flags: &RenderDebugFlags) -> (s: &'static str)
        ensures
            s@ == spec_state(self, *flags),
    {
        match self {
            Self::ToggleFloor => on_off(flags.render_floor),
            Self::ToggleWalls => on_off(flags.render_walls),
            Self::ToggleEntities => on_off(flags.render_entities),
            Self::ToggleOverlay => on_off(flags.show_debug_overlay),
            Self::ToggleFocusRender => on_off(flags.focus_render_2x2),
            Self::ToggleFocusLog => on_off(flags.log_render_focus),
            Self::ResetAll => "reset",
            Self::FloorOnly => "enabled",
            Self::ToggleToon => on_off(flags.toon_filter),
            Self::ToggleWalkCamera => on_off(flags.walking_camera_offset),
            Self::ToggleWalkTrace => on_off(flags.log_walk_trace),
            Self::ToggleWallPredraw => on_off(flags.wall_predraw),
            Self::ToggleMaskAwareDrawCell => on_off(flags.mask_aware_draw_cell),
        }
    }
}

/// The log name of each action.
pub open spec fn spec_label(a: RenderDebugAction) -> Seq<char> {
    match a {
        RenderDebugAction::ToggleFloor => "Floor layer"@,
        RenderDebugAction::ToggleWalls => "Wall layer"@,
        RenderDebugAction::ToggleEntities => "Entity layer"@,
        RenderDebugAction::ToggleOverlay => "Debug overlay"@,
        RenderDebugAction::ToggleFocusRender => "Focus render"@,
        RenderDebugAction::ToggleFocusLog => "Focus render log"@,
        RenderDebugAction::ResetAll => "All render layers"@,
        RenderDebugAction::FloorOnly => "Floor-only mode"@,
        RenderDebugAction::ToggleToon => "Toon filter"@,
        RenderDebugAction::ToggleWalkCamera => "Walk camera offset"@,
        RenderDebugAction::ToggleWalkTrace => "Walk trace"@,
        RenderDebugAction::ToggleWallPredraw => "Wall pre-draw"@,
        RenderDebugAction::ToggleMaskAwareDrawCell => "Mask-aware DrawCell"@,
    }
}

/// The logged state for each action: the ON/OFF state of its switch, "reset"
/// for `ResetAll` and "enabled" for `FloorOnly`.
pub open spec fn spec_state(a: RenderDebugAction, f: RenderDebugFlags) -> Seq<char> {
    match a {
        RenderDebugAction::ToggleFloor => spec_on_off(f.render_floor),
        RenderDebugAction::ToggleWalls => spec_on_off(f.render_walls),
        RenderDebugAction::ToggleEntities => spec_on_off(f.render_entities),
        RenderDebugAction::ToggleOverlay => spec_on_off(f.show_debug_overlay),
        RenderDebugAction::ToggleFocusRender => spec_on_off(f.focus_render_2x2),
        RenderDebugAction::ToggleFocusLog => spec_on_off(f.log_render_focus),
        RenderDebugAction::ResetAll => "reset"@,
        RenderDebugAction::FloorOnly => "enabled"@,
        RenderDebugAction::ToggleToon => spec_on_off(f.toon_filter),
        RenderDebugAction::ToggleWalkCamera => spec_on_off(f.walking_camera_offset),
        RenderDebugAction::ToggleWalkTrace => spec_on_off(f.log_walk_trace),
        RenderDebugAction::ToggleWallPredraw => spec_on_off(f.wall_predraw),
        RenderDebugAction::ToggleMaskAwareDrawCell => spec_on_off(f.mask_aware_draw_cell),
    }
}

/// "ON" for true, "OFF" for false.
pub fn on_off(value: bool) -> (s: &'static str)
    ensures
        s@ == spec_on_off(value),
{
    if value {
        "ON"
    } else {
        "OFF"
    }
}

/// Pressing a toggle hotkey twice gives back the flags it started from.
pub proof fn lemma_toggle_twice(action: RenderDebugAction, f: RenderDebugFlags)
    requires
        action != RenderDebugAction::ResetAll,
        action != RenderDebugAction::FloorOnly,
    ensures
        spec_apply(action, spec_apply(action, f)) == f,
{
}

} // verus!
