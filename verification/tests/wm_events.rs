//! Tests of the window-manager state machine: event handling, focus,
//! workspaces, struts and binding dispatch.

use nwm::cfg::{Action, Binding, Config, Key, KeyCombo, Settings, SpecialKey};
use nwm::wm::{Command, Event, MappingTable, WmState};

fn fresh() -> WmState {
    let mut st = WmState::create(1920, 1080);
    st.gap = 8;
    st.active_border_color = 0xff0000;
    st.inactive_border_color = 0x333333;
    st.border_width = 2;
    st
}

fn map(st: &mut WmState, w: u32) -> Vec<Command> {
    st.handle_event(Event::MapRequest { window: w, strut_values: None, is_dock: false })
}

#[test]
fn map_request_adds_and_focuses() {
    let mut st = fresh();
    let cmds = map(&mut st, 7);
    assert_eq!(st.workspaces[0], vec![7]);
    assert_eq!(st.focused[0], Some(0));
    // The focus commands go to the server directly; the remembered
    // last-focused window only changes through a focus repaint.
    assert_eq!(st.last_focused, None);
    assert!(cmds.contains(&Command::MapWindow(7)));
    assert!(cmds.contains(&Command::RaiseWindow(7)));
    assert!(cmds.contains(&Command::FocusWindow(7)));
    assert!(cmds.contains(&Command::SetBorderWidth(7, 2)));
    assert!(cmds.contains(&Command::SetBorderColor(7, 0x333333)));
}

#[test]
fn duplicate_map_request_is_ignored() {
    let mut st = fresh();
    map(&mut st, 7);
    map(&mut st, 7);
    assert_eq!(st.workspaces[0], vec![7]);
}

#[test]
fn dock_window_not_tiled() {
    let mut st = fresh();
    let strut = vec![0, 0, 30, 0, 0, 0, 0, 0, 0, 0, 0, 0];
    st.handle_event(Event::MapRequest { window: 99, strut_values: Some(strut), is_dock: true });
    assert!(st.workspaces[0].is_empty());
    // But its strut insets the layout of later windows.
    map(&mut st, 1);
    let rects = st.window_rects();
    assert_eq!(rects.len(), 1);
    assert_eq!(rects[0].y, 38);
    assert_eq!(rects[0].h, 1080 - 30 - 16);
}

#[test]
fn short_strut_reply_is_ignored() {
    let mut st = fresh();
    let short = vec![0, 0, 30, 0];
    st.handle_event(Event::MapRequest { window: 99, strut_values: Some(short), is_dock: true });
    let r = st.get_reserved_space();
    assert_eq!(r.y0, 0);
}

#[test]
fn unmap_for_absent_window_changes_nothing() {
    let mut st = fresh();
    map(&mut st, 1);
    map(&mut st, 2);
    let ws_before = st.workspaces.clone();
    let focus_before = st.focused.clone();
    let cmds = st.handle_event(Event::UnmapNotify { window: 555 });
    assert_eq!(st.workspaces, ws_before);
    assert_eq!(st.focused, focus_before);
    // The handler still re-tiles the current workspace.
    assert!(cmds.iter().any(|c| matches!(c, Command::MoveWindow(..))));
}

#[test]
fn unmap_clamps_focus() {
    let mut st = fresh();
    map(&mut st, 1);
    map(&mut st, 2);
    assert_eq!(st.focused[0], Some(1));
    st.handle_event(Event::UnmapNotify { window: 2 });
    assert_eq!(st.workspaces[0], vec![1]);
    assert_eq!(st.focused[0], Some(0));
    st.handle_event(Event::UnmapNotify { window: 1 });
    assert!(st.workspaces[0].is_empty());
    assert_eq!(st.focused[0], None);
}

#[test]
fn close_focused_removes_and_clamps() {
    let mut st = fresh();
    map(&mut st, 1);
    map(&mut st, 2);
    assert_eq!(st.focused[0], Some(1));
    let cmds = st.close_focused();
    assert_eq!(cmds, vec![Command::CloseWindow(2)]);
    assert_eq!(st.workspaces[0], vec![1]);
    assert_eq!(st.focused[0], Some(0));
}

#[test]
fn focus_left_saturates() {
    let mut st = fresh();
    map(&mut st, 1);
    map(&mut st, 2);
    st.focus_left();
    assert_eq!(st.focused[0], Some(0));
    st.focus_left();
    assert_eq!(st.focused[0], Some(0));
}

#[test]
fn focus_right_saturates() {
    let mut st = fresh();
    map(&mut st, 1);
    map(&mut st, 2);
    assert_eq!(st.focused[0], Some(1));
    st.focus_right();
    assert_eq!(st.focused[0], Some(1));
}

#[test]
fn swap_moves_window_and_focus() {
    let mut st = fresh();
    map(&mut st, 1);
    map(&mut st, 2);
    map(&mut st, 3);
    assert_eq!(st.focused[0], Some(2));
    st.swap_left();
    assert_eq!(st.workspaces[0], vec![1, 3, 2]);
    assert_eq!(st.focused[0], Some(1));
    st.swap_right();
    assert_eq!(st.workspaces[0], vec![1, 2, 3]);
    assert_eq!(st.focused[0], Some(2));
}

#[test]
fn swap_at_edge_does_nothing() {
    let mut st = fresh();
    map(&mut st, 1);
    map(&mut st, 2);
    st.swap_right();
    assert_eq!(st.workspaces[0], vec![1, 2]);
    st.focus_left();
    st.focus_left();
    st.swap_left();
    assert_eq!(st.workspaces[0], vec![1, 2]);
}

#[test]
fn focus_repaint_twice_is_idempotent() {
    let mut st = fresh();
    map(&mut st, 1);
    map(&mut st, 2);
    // Remember window 2 as focused first.
    st.set_focus(1);
    let c1 = st.set_focus(0);
    let ws_after = st.workspaces.clone();
    let lf_after = st.last_focused;
    let c2 = st.set_focus(0);
    // Same state after the second repaint.
    assert_eq!(st.workspaces, ws_after);
    assert_eq!(st.last_focused, lf_after);
    assert_eq!(lf_after, Some(1));
    // The first repaint paints the previously focused window inactive.
    assert_eq!(
        c1,
        vec![
            Command::SetBorderColor(2, 0x333333),
            Command::SetBorderColor(1, 0xff0000),
            Command::RaiseWindow(1),
            Command::FocusWindow(1),
        ]
    );
    // The second ends in the same border color, raise and focus targets.
    assert_eq!(
        c2,
        vec![
            Command::SetBorderColor(1, 0x333333),
            Command::SetBorderColor(1, 0xff0000),
            Command::RaiseWindow(1),
            Command::FocusWindow(1),
        ]
    );
}

#[test]
fn workspace_round_trip_restores_lists() {
    let mut st = fresh();
    map(&mut st, 1);
    map(&mut st, 2);
    let ws_before = st.workspaces.clone();
    let cmds = st.handle_event(Event::KeyPress { detail: 0, state: 0 });
    assert!(cmds.is_empty());
    st.switch_ws(1);
    assert_eq!(st.curr_workspace, 1);
    st.switch_ws(0);
    assert_eq!(st.curr_workspace, 0);
    assert_eq!(st.workspaces, ws_before);
}

#[test]
fn switch_emits_unmap_map_and_desktop() {
    let mut st = fresh();
    map(&mut st, 1);
    let cmds = st.switch_ws(3);
    assert_eq!(cmds[0], Command::UnmapWindow(1));
    assert!(cmds.contains(&Command::SetActiveDesktop(3)));
    assert_eq!(st.curr_workspace, 3);
}

#[test]
fn switch_out_of_range_does_nothing() {
    let mut st = fresh();
    map(&mut st, 1);
    let cmds = st.switch_ws(10);
    assert!(cmds.is_empty());
    assert_eq!(st.curr_workspace, 0);
    st.focus_prev_ws();
    assert_eq!(st.curr_workspace, 0);
}

#[test]
fn focus_indices_stay_valid_and_windows_unique() {
    // A mixed event stream never breaks the two state invariants.
    let mut st = fresh();
    map(&mut st, 1);
    map(&mut st, 2);
    map(&mut st, 3);
    st.switch_ws(1);
    map(&mut st, 4);
    map(&mut st, 2);
    st.handle_event(Event::UnmapNotify { window: 4 });
    st.switch_ws(0);
    st.close_focused();
    for i in 0..10 {
        if let Some(f) = st.focused[i] {
            assert!(f < st.workspaces[i].len());
        }
    }
    let mut seen = std::collections::HashSet::new();
    for ws in &st.workspaces {
        for w in ws {
            assert!(seen.insert(*w));
        }
    }
}

#[test]
fn destroy_drops_strut_and_retiles() {
    let mut st = fresh();
    let strut = vec![0, 0, 30, 0, 0, 0, 0, 0, 0, 0, 0, 0];
    st.handle_event(Event::MapRequest { window: 99, strut_values: Some(strut), is_dock: true });
    assert_eq!(st.get_reserved_space().y0, 30);
    st.handle_event(Event::DestroyNotify { window: 99 });
    assert_eq!(st.get_reserved_space().y0, 0);
}

#[test]
fn strut_property_update_replaces() {
    let mut st = fresh();
    let strut = vec![0, 0, 30, 0, 0, 0, 0, 0, 0, 0, 0, 0];
    st.handle_event(Event::StrutProperty { window: 99, values: Some(strut) });
    assert_eq!(st.get_reserved_space().y0, 30);
    let strut2 = vec![0, 0, 44, 0, 0, 0, 0, 0, 0, 0, 0, 0];
    st.handle_event(Event::StrutProperty { window: 99, values: Some(strut2) });
    assert_eq!(st.get_reserved_space().y0, 44);
}

#[test]
fn reserved_space_is_per_edge_maximum() {
    let mut st = fresh();
    st.handle_event(Event::StrutProperty {
        window: 1,
        values: Some(vec![5, 0, 30, 0, 0, 0, 0, 0, 0, 0, 0, 0]),
    });
    st.handle_event(Event::StrutProperty {
        window: 2,
        values: Some(vec![9, 0, 10, 7, 0, 0, 0, 0, 0, 0, 0, 0]),
    });
    let r = st.get_reserved_space();
    assert_eq!((r.x0, r.y0, r.x1, r.y1), (9, 30, 0, 7));
}

fn binding(prefixes: Vec<SpecialKey>, key: Key, action: Action) -> Binding {
    Binding { combo: KeyCombo { prefixes, key }, action }
}

fn with_binding(st: &mut WmState, b: Binding) -> Vec<Command> {
    let conf = Config {
        settings: Settings {
            master_key: SpecialKey::Alt,
            gap: 8,
            terminal: String::from("xterm"),
            launcher: String::from("dmenu_run"),
            border_width: 2,
            border_active_color: 0xff0000,
            border_inactive_color: 0x333333,
        },
        binds: vec![b],
    };
    st.apply_config(conf)
}

#[test]
fn key_press_with_lock_bits_still_fires() {
    let mut st = fresh();
    with_binding(&mut st, binding(vec![SpecialKey::Alt], Key::Char('t'), Action::Terminal));
    // Map keysym 't' (116) to key code 42.
    st.handle_event(Event::MappingNotify {
        mapping: Some(MappingTable { min_keycode: 42, keysyms_per_keycode: 1, keysyms: vec![116] }),
    });
    // Alt is 0x8; the num-lock bit 0x10 must be ignored.
    let cmds = st.handle_event(Event::KeyPress { detail: 42, state: 0x8 | 0x10 });
    assert_eq!(cmds, vec![Command::SpawnTerminal]);
}

#[test]
fn key_press_with_extra_modifier_does_not_fire() {
    let mut st = fresh();
    with_binding(&mut st, binding(vec![SpecialKey::Alt], Key::Char('t'), Action::Terminal));
    st.handle_event(Event::MappingNotify {
        mapping: Some(MappingTable { min_keycode: 42, keysyms_per_keycode: 1, keysyms: vec![116] }),
    });
    // Shift (0x1) is not a lock bit, so the mask no longer matches.
    let cmds = st.handle_event(Event::KeyPress { detail: 42, state: 0x8 | 0x1 });
    assert!(cmds.is_empty());
    // A different key code does not match either.
    let cmds = st.handle_event(Event::KeyPress { detail: 43, state: 0x8 });
    assert!(cmds.is_empty());
}

#[test]
fn first_matching_binding_wins() {
    let mut st = fresh();
    let conf = Config {
        settings: Settings {
            master_key: SpecialKey::Alt,
            gap: 0,
            terminal: String::new(),
            launcher: String::new(),
            border_width: 0,
            border_active_color: 0,
            border_inactive_color: 0,
        },
        binds: vec![
            binding(vec![SpecialKey::Alt], Key::Char('t'), Action::Launcher),
            binding(vec![SpecialKey::Alt], Key::Char('t'), Action::Terminal),
        ],
    };
    st.apply_config(conf);
    st.handle_event(Event::MappingNotify {
        mapping: Some(MappingTable { min_keycode: 42, keysyms_per_keycode: 1, keysyms: vec![116] }),
    });
    let cmds = st.handle_event(Event::KeyPress { detail: 42, state: 0x8 });
    assert_eq!(cmds, vec![Command::SpawnLauncher]);
}

#[test]
fn apply_config_grabs_all_lock_variants() {
    let mut st = fresh();
    let cmds = with_binding(
        &mut st,
        binding(vec![SpecialKey::Alt], Key::Char('t'), Action::Terminal),
    );
    // Key symbol 116 is unmapped, so the grab uses code zero.
    assert_eq!(
        cmds,
        vec![
            Command::GrabKey(0x8, 0),
            Command::GrabKey(0x8 | 0x2, 0),
            Command::GrabKey(0x8 | 0x10, 0),
            Command::GrabKey(0x8 | 0x12, 0),
        ]
    );
    assert_eq!(st.gap, 8);
    assert_eq!(st.border_width, 2);
    assert_eq!(st.terminal, "xterm");
    assert_eq!(st.active_border_color, 0xff0000);
}

#[test]
fn reload_config_reapplies_border_widths() {
    let mut st = fresh();
    map(&mut st, 1);
    map(&mut st, 2);
    let cmds = with_binding(
        &mut st,
        binding(vec![SpecialKey::Alt], Key::Char('t'), Action::Terminal),
    );
    assert!(cmds.contains(&Command::SetBorderWidth(1, 2)));
    assert!(cmds.contains(&Command::SetBorderWidth(2, 2)));
}

#[test]
fn reload_action_emits_reload_command() {
    let mut st = fresh();
    let cmds = st.apply_action(Action::ReloadConfig);
    assert_eq!(cmds, vec![Command::ReloadConfig]);
}

#[test]
fn motion_moves_focus_to_slot_under_pointer() {
    let mut st = fresh();
    map(&mut st, 1);
    map(&mut st, 2);
    let rects = st.window_rects();
    // Point inside the first slot.
    let x = (rects[0].x + 5) as i16;
    let cmds = st.handle_event(Event::Motion { x, y: 50 });
    assert_eq!(st.focused[0], Some(0));
    assert_eq!(st.last_focused, Some(1));
    assert_eq!(st.last_x, x);
    assert!(cmds.contains(&Command::FocusWindow(1)));
    // The same position again is a no-op.
    let cmds = st.handle_event(Event::Motion { x, y: 50 });
    assert!(cmds.is_empty());
}

#[test]
fn motion_on_one_axis_triggers_recheck() {
    let mut st = fresh();
    map(&mut st, 1);
    let rects = st.window_rects();
    let x = (rects[0].x + 5) as i16;
    st.handle_event(Event::Motion { x, y: 50 });
    // Only the y coordinate changes: the recheck must still run.
    let cmds = st.handle_event(Event::Motion { x, y: 51 });
    assert_eq!(st.last_y, 51);
    assert!(cmds.contains(&Command::FocusWindow(1)));
}

#[test]
fn mapping_notify_rebuilds_keymap() {
    let mut st = fresh();
    with_binding(&mut st, binding(vec![SpecialKey::Alt], Key::Char('t'), Action::Terminal));
    st.handle_event(Event::MappingNotify {
        mapping: Some(MappingTable {
            min_keycode: 10,
            keysyms_per_keycode: 2,
            keysyms: vec![116, 0, 117, 0],
        }),
    });
    assert_eq!(st.keymap.lookup(116), 10);
    assert_eq!(st.keymap.lookup(117), 11);
    assert_eq!(st.keymap.lookup(999), 0);
    // A failed query leaves the cache unchanged.
    st.handle_event(Event::MappingNotify { mapping: None });
    assert_eq!(st.keymap.lookup(116), 10);
}

#[test]
fn later_mapping_entries_win() {
    let mut st = fresh();
    st.handle_event(Event::MappingNotify {
        mapping: Some(MappingTable {
            min_keycode: 8,
            keysyms_per_keycode: 1,
            keysyms: vec![116, 116],
        }),
    });
    assert_eq!(st.keymap.lookup(116), 9);
}

#[test]
fn configure_request_retiles() {
    let mut st = fresh();
    map(&mut st, 1);
    let cmds = st.handle_event(Event::ConfigureRequest);
    assert!(cmds.iter().any(|c| matches!(c, Command::MoveWindow(1, _, _))));
    assert!(cmds.iter().any(|c| matches!(c, Command::ResizeWindow(1, _, _))));
}

#[test]
fn ignored_events_do_nothing() {
    let mut st = fresh();
    map(&mut st, 1);
    let ws_before = st.workspaces.clone();
    let cmds = st.handle_event(Event::Ignored);
    assert!(cmds.is_empty());
    assert_eq!(st.workspaces, ws_before);
}

#[test]
fn spawn_actions_reference_state_commands() {
    let mut st = fresh();
    st.terminal = String::from("foot");
    st.launcher = String::from("rofi");
    assert_eq!(st.apply_action(Action::Terminal), vec![Command::SpawnTerminal]);
    assert_eq!(st.apply_action(Action::Launcher), vec![Command::SpawnLauncher]);
    assert_eq!(st.terminal, "foot");
}
