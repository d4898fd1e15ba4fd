//! The window-manager state machine: ten workspaces of ordered window
//! lists with focus indices, panel-strut bookkeeping, binding dispatch and
//! the tiling layout, driven by protocol events. Every transition returns
//! the display-server commands it wants performed; a thin shell executes
//! them and feeds the next event back in.

use vstd::prelude::*;

use crate::WindowId;
use crate::bindings::{
    grab_masks, keycombo_mask, resolve_binding, spec_combo_mask, spec_first_match,
};
use crate::cfg::{Action, Binding, BindingView, Config, ConfigView, spec_keysym};
use crate::geometry::{Rect, Reserve, spec_window_rects, window_rects};
use crate::keymap::{KeyMap, spec_keymap_of, spec_lookup};
use crate::struts::{
    Strut, StrutMap, has_key, key_index, spec_reserve_of, spec_strut_from, strut_from_property,
    unique_keys,
};

verus! {

/// The number of workspaces; all exist for the process lifetime.
pub const NUM_WORKSPACES: usize = 10;

/// A command for the display server or the shell, produced by a state
/// transition and performed outside the library. The spawn commands refer
/// to the configured terminal and launcher strings held in the state.
#[derive(Debug, Clone, Copy, PartialEq, Eq, Structural)]
pub enum Command {
    MapWindow(WindowId),
    UnmapWindow(WindowId),
    RaiseWindow(WindowId),
    FocusWindow(WindowId),
    CloseWindow(WindowId),
    MoveWindow(WindowId, i32, i32),
    ResizeWindow(WindowId, u32, u32),
    SetBorderColor(WindowId, u32),
    SetBorderWidth(WindowId, u32),
    SetActiveDesktop(u32),
    GrabKey(u16, u8),
    SpawnTerminal,
    SpawnLauncher,
    ReloadConfig,
}

/// A raw keyboard mapping table as the server reports it: `keysyms` holds
/// `keysyms_per_keycode` symbols for each code counting up from
/// `min_keycode`.
#[derive(Debug, Clone)]
pub struct MappingTable {
    pub min_keycode: u8,
    pub keysyms_per_keycode: u8,
    pub keysyms: Vec<u32>,
}

/// A protocol event, reduced to the plain values the state machine reads.
/// Property queries that the transition depends on (strut values, the dock
/// classification, a fresh mapping table) are resolved by the shell and
/// carried in the event.
#[derive(Debug, Clone)]
pub enum Event {
    MapRequest { window: WindowId, strut_values: Option<Vec<u32>>, is_dock: bool },
    UnmapNotify { window: WindowId },
    DestroyNotify { window: WindowId },
    KeyPress { detail: u8, state: u16 },
    Motion { x: i16, y: i16 },
    MappingNotify { mapping: Option<MappingTable> },
    StrutProperty { window: WindowId, values: Option<Vec<u32>> },
    ConfigureRequest,
    Ignored,
}

/// The abstract state of the window manager.
#[verifier::ext_equal]
pub struct WmView {
    pub workspaces: Seq<Seq<WindowId>>,
    pub curr: usize,
    pub focused: Seq<Option<usize>>,
    pub last_focused: Option<WindowId>,
    pub running: bool,
    pub last_x: i16,
    pub last_y: i16,
    pub gap: u8,
    pub binds: Seq<BindingView>,
    pub terminal: Seq<char>,
    pub launcher: Seq<char>,
    pub struts: Seq<(WindowId, Strut)>,
    pub border_width: u8,
    pub active_color: u32,
    pub inactive_color: u32,
    pub screen_w: u16,
    pub screen_h: u16,
    pub keymap: Map<u32, u8>,
}

impl WmView {
    /// The window list of the current workspace.
    pub open spec fn curr_ws(self) -> Seq<WindowId> {
        self.workspaces[self.curr as int]
    }

    /// The focus index of the current workspace.
    pub open spec fn curr_focus(self) -> Option<usize> {
        self.focused[self.curr as int]
    }

    /// Whether `w` is a member of any workspace.
    pub open spec fn managed(self, w: WindowId) -> bool {
        exists|i: int, a: int|
            0 <= i < self.workspaces.len() && 0 <= a < self.workspaces[i].len()
                && self.workspaces[i][a] == w
    }

    /// Well-formedness: ten workspaces and focus slots, a current index in
    /// range, every focus index valid for its list, no window in two
    /// places, and at most one strut per window.
    pub open spec fn wf(self) -> bool {
        &&& self.workspaces.len() == 10
        &&& self.focused.len() == 10
        &&& self.curr < 10
        &&& forall|i: int|
            0 <= i < 10 ==> ((#[trigger] self.focused[i]) matches Some(f) ==> f
                < self.workspaces[i].len())
        &&& forall|i: int, a: int, b: int|
            0 <= i < 10 && 0 <= a < b < self.workspaces[i].len()
                ==> #[trigger] self.workspaces[i][a] != #[trigger] self.workspaces[i][b]
        &&& forall|i: int, j: int, a: int, b: int|
            0 <= i < j < 10 && 0 <= a < self.workspaces[i].len() && 0 <= b
                < self.workspaces[j].len() ==> #[trigger] self.workspaces[i][a]
                != #[trigger] self.workspaces[j][b]
        &&& unique_keys(self.struts)
    }
}

/// The window-manager state. The shell constructs one, applies a
/// configuration, and then feeds every protocol event through
/// `handle_event`, performing the returned commands.
pub struct WmState {
    pub workspaces: Vec<Vec<WindowId>>,
    pub curr_workspace: usize,
    pub focused: Vec<Option<usize>>,
    pub last_focused: Option<WindowId>,
    pub running: bool,
    pub last_x: i16,
    pub last_y: i16,
    pub gap: u8,
    pub binds: Vec<Binding>,
    pub terminal: String,
    pub launcher: String,
    pub struts: StrutMap,
    pub border_width: u8,
    pub active_border_color: u32,
    pub inactive_border_color: u32,
    pub screen_w: u16,
    pub screen_h: u16,
    pub keymap: KeyMap,
}

impl View for WmState {
    type V = WmView;

    open spec fn view(&self) -> WmView {
        WmView {
            workspaces: self.workspaces@.map_values(|ws: Vec<WindowId>| ws@),
            curr: self.curr_workspace,
            focused: self.focused@,
            last_focused: self.last_focused,
            running: self.running,
            last_x: self.last_x,
            last_y: self.last_y,
            gap: self.gap,
            binds: self.binds@.map_values(|b: Binding| b@),
            terminal: self.terminal@,
            launcher: self.launcher@,
            struts: self.struts@,
            border_width: self.border_width,
            active_color: self.active_border_color,
            inactive_color: self.inactive_border_color,
            screen_w: self.screen_w,
            screen_h: self.screen_h,
            keymap: self.keymap@,
        }
    }
}

/// The inset the registered struts reserve.
pub open spec fn spec_reserve(v: WmView) -> Reserve {
    spec_reserve_of(v.struts)
}

/// The tiling rectangles of the current workspace.
pub open spec fn spec_rects(v: WmView) -> Seq<Rect> {
    let r = spec_reserve(v);
    spec_window_rects(
        v.curr_ws().len() as int,
        v.screen_w as int,
        v.screen_h as int,
        r.x0 as int,
        r.y0 as int,
        r.x1 as int,
        r.y1 as int,
        v.gap as int,
    )
}

/// The move and resize commands that place the first `upto` rectangles.
pub open spec fn spec_place_cmds(ws: Seq<WindowId>, rects: Seq<Rect>, upto: int) -> Seq<Command>
    decreases upto,
{
    if upto <= 0 {
        Seq::empty()
    } else {
        spec_place_cmds(ws, rects, upto - 1) + seq![
            Command::MoveWindow(ws[upto - 1], rects[upto - 1].x, rects[upto - 1].y),
            Command::ResizeWindow(
                ws[upto - 1],
                rects[upto - 1].w as u32,
                rects[upto - 1].h as u32,
            ),
        ]
    }
}

/// The commands a relayout issues: every window of the current workspace is
/// moved and resized to its slot, in list order.
pub open spec fn spec_layout_cmds(v: WmView) -> Seq<Command> {
    if v.curr_ws().len() == 0 {
        Seq::empty()
    } else {
        spec_place_cmds(v.curr_ws(), spec_rects(v), spec_rects(v).len() as int)
    }
}

/// The state after focus is applied to index `i` of the current workspace:
/// only the remembered last-focused window changes.
pub open spec fn spec_set_focus_state(v: WmView, i: int) -> WmView {
    WmView { last_focused: Some(v.curr_ws()[i]), ..v }
}

/// The commands of a focus repaint: the previously remembered window is
/// repainted inactive, the target gets the active color, is raised and
/// receives input focus.
pub open spec fn spec_set_focus_cmds(v: WmView, i: int) -> Seq<Command> {
    let w = v.curr_ws()[i];
    let base = seq![
        Command::SetBorderColor(w, v.active_color),
        Command::RaiseWindow(w),
        Command::FocusWindow(w),
    ];
    match v.last_focused {
        Some(p) => seq![Command::SetBorderColor(p, v.inactive_color)] + base,
        None => base,
    }
}

impl WmState {
    /// A fresh state: ten empty workspaces, workspace zero current, nothing
    /// focused, no struts, no bindings, an empty keyboard mapping.
    pub fn create(screen_w: u16, screen_h: u16) -> (r: WmState)
        ensures
            r@.wf(),
            r@.workspaces =~= Seq::new(10, |i: int| Seq::<WindowId>::empty()),
            r@.curr == 0,
            r@.focused =~= Seq::new(10, |i: int| None::<usize>),
            r@.last_focused is None,
            r@.running,
            r@.last_x == 0 && r@.last_y == 0,
            r@.gap == 0,
            r@.binds =~= Seq::<BindingView>::empty(),
            r@.struts =~= Seq::<(WindowId, Strut)>::empty(),
            r@.screen_w == screen_w,
            r@.screen_h == screen_h,
            r@.keymap =~= Map::<u32, u8>::empty(),
    {
        let mut workspaces: Vec<Vec<WindowId>> = Vec::new();
        let mut focused: Vec<Option<usize>> = Vec::new();
        let mut i: usize = 0;
        while i < NUM_WORKSPACES
            invariant
                i <= 10,
                workspaces@.len() == i,
                focused@.len() == i,
                forall|k: int| 0 <= k < i ==> (#[trigger] workspaces@[k])@ == Seq::<
                    WindowId,
                >::empty(),
                forall|k: int| 0 <= k < i ==> (#[trigger] focused@[k]) is None,
            decreases 10 - i,
        {
            workspaces.push(Vec::new());
            focused.push(None);
            i += 1;
        }
        let r = WmState {
            workspaces,
            curr_workspace: 0,
            focused,
            last_focused: None,
            running: true,
            last_x: 0,
            last_y: 0,
            gap: 0,
            binds: Vec::new(),
            terminal: String::new(),
            launcher: String::new(),
            struts: StrutMap::new(),
            border_width: 0,
            active_border_color: 0,
            inactive_border_color: 0,
            screen_w,
            screen_h,
            keymap: KeyMap::new(),
        };
        proof {
            assert(r@.workspaces =~= Seq::new(10, |i: int| Seq::<WindowId>::empty()));
            assert(r@.focused =~= Seq::new(10, |i: int| None::<usize>));
        }
        r
    }

    /// The focus index of the current workspace.
    pub fn focused(&self) -> (r: Option<usize>)
        requires
            self@.wf(),
        ensures
            r == self@.curr_focus(),
    {
        self.focused[self.curr_workspace]
    }

    /// The window list of the current workspace.
    pub fn curr_ws(&self) -> (r: &Vec<WindowId>)
        requires
            self@.wf(),
        ensures
            r@ == self@.curr_ws(),
    {
        &self.workspaces[self.curr_workspace]
    }

    /// Repaints borders, raises and focuses window `i` of the current
    /// workspace, and remembers it as the last focused window.
    pub fn set_focus(&mut self, index: usize) -> (cmds: Vec<Command>)
        requires
            old(self)@.wf(),
            index < old(self)@.curr_ws().len(),
        ensures
            final(self)@.wf(),
            final(self)@ == spec_set_focus_state(old(self)@, index as int),
            cmds@ == spec_set_focus_cmds(old(self)@, index as int),
    {
        let w = self.workspaces[self.curr_workspace][index];
        let mut cmds: Vec<Command> = Vec::new();
        match self.last_focused {
            Some(prev) => {
                cmds.push(Command::SetBorderColor(prev, self.inactive_border_color));
            },
            None => {},
        }
        cmds.push(Command::SetBorderColor(w, self.active_border_color));
        cmds.push(Command::RaiseWindow(w));
        cmds.push(Command::FocusWindow(w));
        self.last_focused = Some(w);
        proof {
            assert(self@ =~= spec_set_focus_state(old(self)@, index as int));
            assert(cmds@ =~= spec_set_focus_cmds(old(self)@, index as int));
        }
        cmds
    }

    /// The state and commands of the focus-left action: the focus index
    /// moves one left, saturating at the start, and the focus repaint is
    /// applied; with nothing focused, nothing happens.
    pub open spec fn spec_focus_left(v: WmView) -> (WmView, Seq<Command>) {
        match v.curr_focus() {
            Some(i) => {
                let ni = if i == 0 {
                    0
                } else {
                    (i - 1) as usize
                };
                let v1 = WmView { focused: v.focused.update(v.curr as int, Some(ni)), ..v };
                (spec_set_focus_state(v1, ni as int), spec_set_focus_cmds(v1, ni as int))
            },
            None => (v, Seq::empty()),
        }
    }

    /// Moves focus one window left, saturating at the leftmost.
    pub fn focus_left(&mut self) -> (cmds: Vec<Command>)
        requires
            old(self)@.wf(),
        ensures
            final(self)@.wf(),
            (final(self)@, cmds@) == Self::spec_focus_left(old(self)@),
    {
        match self.focused() {
            Some(i) => {
                let ni = if i == 0 {
                    0
                } else {
                    i - 1
                };
                self.focused[self.curr_workspace] = Some(ni);
                let cmds = self.set_focus(ni);
                proof {
                    assert(self@ =~= Self::spec_focus_left(old(self)@).0);
                }
                cmds
            },
            None => Vec::new(),
        }
    }

    /// The state and commands of the focus-right action: the focus index
    /// moves one right, saturating at the last window.
    pub open spec fn spec_focus_right(v: WmView) -> (WmView, Seq<Command>) {
        match v.curr_focus() {
            Some(i) => {
                let ni = if i + 1 < v.curr_ws().len() {
                    (i + 1) as usize
                } else {
                    i
                };
                let v1 = WmView { focused: v.focused.update(v.curr as int, Some(ni)), ..v };
                (spec_set_focus_state(v1, ni as int), spec_set_focus_cmds(v1, ni as int))
            },
            None => (v, Seq::empty()),
        }
    }

    /// Moves focus one window right, saturating at the rightmost.
    pub fn focus_right(&mut self) -> (cmds: Vec<Command>)
        requires
            old(self)@.wf(),
        ensures
            final(self)@.wf(),
            (final(self)@, cmds@) == Self::spec_focus_right(old(self)@),
    {
        match self.focused() {
            Some(i) => {
                proof {
                    assert(self@.focused[self@.curr as int] matches Some(f) ==> f
                        < self@.workspaces[self@.curr as int].len());
                }
                let len = self.workspaces[self.curr_workspace].len();
                assert(i < len);
                let ni = if i < len - 1 {
                    i + 1
                } else {
                    i
                };
                self.focused[self.curr_workspace] = Some(ni);
                let cmds = self.set_focus(ni);
                proof {
                    assert(self@ =~= Self::spec_focus_right(old(self)@).0);
                }
                cmds
            },
            None => Vec::new(),
        }
    }

    /// The reserved-space inset the registered struts demand.
    pub fn get_reserved_space(&self) -> (r: Reserve)
        ensures
            r == spec_reserve(self@),
    {
        self.struts.reserved_space()
    }

    /// The tiling rectangles for the current workspace on this screen.
    pub fn window_rects(&self) -> (r: Vec<Rect>)
        requires
            self@.wf(),
        ensures
            r@ == spec_rects(self@),
    {
        let n = self.workspaces[self.curr_workspace].len();
        let reserved = self.struts.reserved_space();
        window_rects(n, self.screen_w, self.screen_h, &reserved, self.gap)
    }

    /// The commands that re-tile the current workspace: each window is
    /// moved and resized to its slot, in list order. Emits nothing for an
    /// empty workspace or when the slots have no positive size.
    pub fn layout(&self) -> (cmds: Vec<Command>)
        requires
            self@.wf(),
        ensures
            cmds@ == spec_layout_cmds(self@),
    {
        let mut cmds: Vec<Command> = Vec::new();
        let n = self.workspaces[self.curr_workspace].len();
        if n == 0 {
            return cmds;
        }
        let rects = self.window_rects();
        let ghost ws = self@.curr_ws();
        proof {
            assert(rects@.len() == 0 || rects@.len() == ws.len());
        }
        let m = rects.len();
        let mut i: usize = 0;
        while i < m
            invariant
                i <= m,
                m == rects@.len(),
                self@.wf(),
                m == 0 || m == ws.len(),
                ws == self@.curr_ws(),
                rects@ == spec_rects(self@),
                cmds@ == spec_place_cmds(ws, rects@, i as int),
            decreases m - i,
        {
            let r = rects[i];
            let w = self.workspaces[self.curr_workspace][i];
            cmds.push(Command::MoveWindow(w, r.x, r.y));
            cmds.push(Command::ResizeWindow(w, r.w as u32, r.h as u32));
            proof {
                assert(cmds@ =~= spec_place_cmds(ws, rects@, i + 1));
            }
            i += 1;
        }
        cmds
    }

    /// The state and commands of the swap-left action: the focused window
    /// trades places with its left neighbour, the focus index follows it,
    /// and the workspace is re-tiled.
    pub open spec fn spec_swap_left(v: WmView) -> (WmView, Seq<Command>) {
        match v.curr_focus() {
            Some(i) => {
                if i > 0 && i < v.curr_ws().len() {
                    let ws = v.curr_ws();
                    let nws = ws.update(i as int, ws[i - 1]).update(i - 1, ws[i as int]);
                    let v1 = WmView {
                        workspaces: v.workspaces.update(v.curr as int, nws),
                        focused: v.focused.update(v.curr as int, Some((i - 1) as usize)),
                        ..v
                    };
                    (v1, spec_layout_cmds(v1))
                } else {
                    (v, Seq::empty())
                }
            },
            None => (v, Seq::empty()),
        }
    }

    /// The state and commands of the swap-right action.
    pub open spec fn spec_swap_right(v: WmView) -> (WmView, Seq<Command>) {
        match v.curr_focus() {
            Some(i) => {
                if i + 1 < v.curr_ws().len() {
                    let ws = v.curr_ws();
                    let nws = ws.update(i as int, ws[i + 1]).update(i + 1, ws[i as int]);
                    let v1 = WmView {
                        workspaces: v.workspaces.update(v.curr as int, nws),
                        focused: v.focused.update(v.curr as int, Some((i + 1) as usize)),
                        ..v
                    };
                    (v1, spec_layout_cmds(v1))
                } else {
                    (v, Seq::empty())
                }
            },
            None => (v, Seq::empty()),
        }
    }

    /// Swaps two windows of the current workspace and moves the focus index
    /// to `j`.
    fn swap_and_focus(&mut self, i: usize, j: usize) -> (cmds: Vec<Command>)
        requires
            old(self)@.wf(),
            i < old(self)@.curr_ws().len(),
            j < old(self)@.curr_ws().len(),
        ensures
            final(self)@.wf(),
            final(self)@ == (WmView {
                workspaces: old(self)@.workspaces.update(
                    old(self)@.curr as int,
                    old(self)@.curr_ws().update(i as int, old(self)@.curr_ws()[j as int]).update(
                        j as int,
                        old(self)@.curr_ws()[i as int],
                    ),
                ),
                focused: old(self)@.focused.update(old(self)@.curr as int, Some(j)),
                ..old(self)@
            }),
            cmds@ == spec_layout_cmds(final(self)@),
    {
        let ghost prev = self@;
        let c = self.curr_workspace;
        let ghost snapshot = self.workspaces@;
        let mut ws = self.workspaces.remove(c);
        let wi = ws[i];
        let wj = ws[j];
        ws[i] = wj;
        ws[j] = wi;
        self.workspaces.insert(c, ws);
        self.focused[c] = Some(j);
        proof {
            assert(self.workspaces@ =~= snapshot.update(
                c as int,
                self.workspaces@[c as int],
            ));
            assert(self@ =~= (WmView {
                workspaces: prev.workspaces.update(
                    prev.curr as int,
                    prev.curr_ws().update(i as int, prev.curr_ws()[j as int]).update(
                        j as int,
                        prev.curr_ws()[i as int],
                    ),
                ),
                focused: prev.focused.update(prev.curr as int, Some(j)),
                ..prev
            }));
            lemma_wf_after_swap(prev, self@, i as int, j as int);
        }
        self.layout()
    }

    /// Swaps the focused window with its left neighbour; the focus follows
    /// the moved window, and the workspace is re-tiled.
    pub fn swap_left(&mut self) -> (cmds: Vec<Command>)
        requires
            old(self)@.wf(),
        ensures
            final(self)@.wf(),
            (final(self)@, cmds@) == Self::spec_swap_left(old(self)@),
    {
        match self.focused() {
            Some(i) => {
                if i > 0 && i < self.workspaces[self.curr_workspace].len() {
                    self.swap_and_focus(i, i - 1)
                } else {
                    Vec::new()
                }
            },
            None => Vec::new(),
        }
    }

    /// Swaps the focused window with its right neighbour; the focus follows
    /// the moved window, and the workspace is re-tiled.
    pub fn swap_right(&mut self) -> (cmds: Vec<Command>)
        requires
            old(self)@.wf(),
        ensures
            final(self)@.wf(),
            (final(self)@, cmds@) == Self::spec_swap_right(old(self)@),
    {
        match self.focused() {
            Some(i) => {
                proof {
                    assert(self@.focused[self@.curr as int] matches Some(f) ==> f
                        < self@.workspaces[self@.curr as int].len());
                }
                let len = self.workspaces[self.curr_workspace].len();
                assert(i < len);
                if i < len - 1 {
                    self.swap_and_focus(i, i + 1)
                } else {
                    Vec::new()
                }
            },
            None => Vec::new(),
        }
    }

    /// The state and commands of closing the window at `idx` of the current
    /// workspace: a graceful-close request is issued, the window leaves the
    /// bookkeeping at once, and the focus index is clamped to the new last
    /// window (or cleared when the workspace empties).
    pub open spec fn spec_close_window(v: WmView, idx: int) -> (WmView, Seq<Command>) {
        if 0 <= idx < v.curr_ws().len() {
            let w = v.curr_ws()[idx];
            let nws = v.curr_ws().remove(idx);
            let nf = match v.curr_focus() {
                Some(f) => if f >= nws.len() {
                    if nws.len() == 0 {
                        None
                    } else {
                        Some((nws.len() - 1) as usize)
                    }
                } else {
                    Some(f)
                },
                None => None,
            };
            let v1 = WmView {
                workspaces: v.workspaces.update(v.curr as int, nws),
                focused: v.focused.update(v.curr as int, nf),
                ..v
            };
            (v1, seq![Command::CloseWindow(w)])
        } else {
            (v, Seq::empty())
        }
    }

    /// Requests a graceful close of window `window_index` of the current
    /// workspace and removes it from the bookkeeping, clamping the focus
    /// index.
    pub fn close_window(&mut self, window_index: usize) -> (cmds: Vec<Command>)
        requires
            old(self)@.wf(),
        ensures
            final(self)@.wf(),
            (final(self)@, cmds@) == Self::spec_close_window(old(self)@, window_index as int),
    {
        let ghost prev = self@;
        let c = self.curr_workspace;
        if window_index < self.workspaces[c].len() {
            let ghost snapshot = self.workspaces@;
            let mut ws = self.workspaces.remove(c);
            let w = ws[window_index];
            ws.remove(window_index);
            let nlen = ws.len();
            self.workspaces.insert(c, ws);
            match self.focused[c] {
                Some(f) => {
                    if f >= nlen {
                        self.focused[c] = if nlen == 0 {
                            None
                        } else {
                            Some(nlen - 1)
                        };
                    }
                },
                None => {},
            }
            let mut cmds: Vec<Command> = Vec::new();
            cmds.push(Command::CloseWindow(w));
            proof {
                assert(self.workspaces@ =~= snapshot.update(
                    c as int,
                    self.workspaces@[c as int],
                ));
                assert(self@ =~= Self::spec_close_window(prev, window_index as int).0);
                assert(cmds@ =~= Self::spec_close_window(prev, window_index as int).1);
                lemma_wf_after_remove(prev, self@, window_index as int);
            }
            cmds
        } else {
            Vec::new()
        }
    }

    /// Closes the focused window, if there is one.
    pub fn close_focused(&mut self) -> (cmds: Vec<Command>)
        requires
            old(self)@.wf(),
        ensures
            final(self)@.wf(),
            (final(self)@, cmds@) == match old(self)@.curr_focus() {
                Some(i) => Self::spec_close_window(old(self)@, i as int),
                None => (old(self)@, Seq::<Command>::empty()),
            },
    {
        match self.focused() {
            Some(i) => self.close_window(i),
            None => Vec::new(),
        }
    }

    /// Asks the shell to spawn the configured launcher.
    pub fn launcher(&mut self) -> (cmds: Vec<Command>)
        ensures
            final(self)@ == old(self)@,
            cmds@ == seq![Command::SpawnLauncher],
    {
        let mut cmds: Vec<Command> = Vec::new();
        cmds.push(Command::SpawnLauncher);
        proof {
            assert(cmds@ =~= seq![Command::SpawnLauncher]);
        }
        cmds
    }

    /// Asks the shell to spawn the configured terminal.
    pub fn terminal(&mut self) -> (cmds: Vec<Command>)
        ensures
            final(self)@ == old(self)@,
            cmds@ == seq![Command::SpawnTerminal],
    {
        let mut cmds: Vec<Command> = Vec::new();
        cmds.push(Command::SpawnTerminal);
        proof {
            assert(cmds@ =~= seq![Command::SpawnTerminal]);
        }
        cmds
    }
}

/// The fold of the focus-follows-pointer scan over the first `upto`
/// rectangles: each rectangle whose horizontal span strictly contains `x`
/// repaints the previously focused window inactive, moves the focus index
/// to its slot and applies the focus repaint; the last match wins.
pub open spec fn spec_pointer_scan(v: WmView, rects: Seq<Rect>, upto: int, x: int) -> (
    WmView,
    Seq<Command>,
)
    decreases upto,
{
    if upto <= 0 {
        (v, Seq::empty())
    } else {
        let (v1, c1) = spec_pointer_scan(v, rects, upto - 1, x);
        let r = rects[upto - 1];
        if x > r.x && x < r.x + r.w {
            let pre = match v1.curr_focus() {
                Some(f) => seq![
                    Command::SetBorderColor(v1.curr_ws()[f as int], v1.inactive_color),
                ],
                None => Seq::empty(),
            };
            let v2 = WmView {
                focused: v1.focused.update(v1.curr as int, Some((upto - 1) as usize)),
                ..v1
            };
            (
                spec_set_focus_state(v2, upto - 1),
                c1 + pre + spec_set_focus_cmds(v2, upto - 1),
            )
        } else {
            (v1, c1)
        }
    }
}

/// The fold of the pointer-motion scan: as the pointer scan, but without
/// the extra inactive repaint of the previously focused window.
pub open spec fn spec_motion_scan(v: WmView, rects: Seq<Rect>, upto: int, x: int) -> (
    WmView,
    Seq<Command>,
)
    decreases upto,
{
    if upto <= 0 {
        (v, Seq::empty())
    } else {
        let (v1, c1) = spec_motion_scan(v, rects, upto - 1, x);
        let r = rects[upto - 1];
        if x > r.x && x < r.x + r.w {
            let v2 = WmView {
                focused: v1.focused.update(v1.curr as int, Some((upto - 1) as usize)),
                ..v1
            };
            (
                spec_set_focus_state(v2, upto - 1),
                c1 + spec_set_focus_cmds(v2, upto - 1),
            )
        } else {
            (v1, c1)
        }
    }
}

/// The pointer scans change only the focus index of the current workspace
/// and the remembered window, and keep the state well formed.
proof fn lemma_pointer_scan_frame(v: WmView, rects: Seq<Rect>, upto: int, x: int)
    requires
        v.wf(),
        rects.len() <= v.curr_ws().len(),
        upto <= rects.len(),
    ensures
        ({
            let r = spec_pointer_scan(v, rects, upto, x);
            &&& r.0.wf()
            &&& r.0 == (WmView { focused: r.0.focused, last_focused: r.0.last_focused, ..v })
        }),
        ({
            let m = spec_motion_scan(v, rects, upto, x);
            &&& m.0.wf()
            &&& m.0 == (WmView { focused: m.0.focused, last_focused: m.0.last_focused, ..v })
        }),
    decreases upto,
{
    if upto > 0 {
        lemma_pointer_scan_frame(v, rects, upto - 1, x);
    }
}

/// Swapping two entries of the current workspace preserves
/// well-formedness: the window set is unchanged and the focus lands on a
/// valid index.
proof fn lemma_wf_after_swap(pre: WmView, post: WmView, i: int, j: int)
    requires
        pre.wf(),
        0 <= i < pre.curr_ws().len(),
        0 <= j < pre.curr_ws().len(),
        post == (WmView {
            workspaces: pre.workspaces.update(
                pre.curr as int,
                pre.curr_ws().update(i, pre.curr_ws()[j]).update(j, pre.curr_ws()[i]),
            ),
            focused: pre.focused.update(pre.curr as int, Some(j as usize)),
            ..pre
        }),
    ensures
        post.wf(),
{
    let c = pre.curr as int;
    let ws = pre.curr_ws();
    let nws = ws.update(i, ws[j]).update(j, ws[i]);
    assert forall|a: int, b: int| 0 <= a < b < nws.len() implies nws[a] != nws[b] by {
        let sa = if a == i {
            j
        } else if a == j {
            i
        } else {
            a
        };
        let sb = if b == i {
            j
        } else if b == j {
            i
        } else {
            b
        };
        assert(nws[a] == ws[sa]);
        assert(nws[b] == ws[sb]);
    }
    assert forall|k: int, a: int, b: int|
        0 <= k < 10 && k != c && 0 <= a < nws.len() && 0 <= b
            < post.workspaces[k].len() implies nws[a] != post.workspaces[k][b] by {
        let sa = if a == i {
            j
        } else if a == j {
            i
        } else {
            a
        };
        assert(nws[a] == ws[sa]);
    }
}

/// The state and commands of a workspace switch: every window of the old
/// workspace is unmapped, every window of the new one mapped, the new
/// index is advertised, the new workspace is re-tiled, and the focus is
/// re-derived from the pointer position. Out-of-range and same-workspace
/// switches do nothing.
pub open spec fn spec_switch_ws(v: WmView, new_ws: usize) -> (WmView, Seq<Command>) {
    if new_ws >= 10 || new_ws == v.curr {
        (v, Seq::empty())
    } else {
        let unmaps = v.curr_ws().map_values(|w: WindowId| Command::UnmapWindow(w));
        let maps = v.workspaces[new_ws as int].map_values(|w: WindowId| Command::MapWindow(w));
        let v1 = WmView { curr: new_ws, ..v };
        let head = unmaps + maps + seq![Command::SetActiveDesktop(new_ws as u32)]
            + spec_layout_cmds(v1);
        let scan = spec_pointer_scan(v1, spec_rects(v1), spec_rects(v1).len() as int, v1.last_x as int);
        (scan.0, head + scan.1)
    }
}

/// The strut entries after registering or updating the strut of `w`.
pub open spec fn spec_struts_insert(
    s: Seq<(WindowId, Strut)>,
    w: WindowId,
    st: Strut,
) -> Seq<(WindowId, Strut)> {
    if has_key(s, w) {
        s.update(key_index(s, w), (w, st))
    } else {
        s.push((w, st))
    }
}

/// The strut entries after dropping the strut of `w`, if registered.
pub open spec fn spec_struts_remove(s: Seq<(WindowId, Strut)>, w: WindowId) -> Seq<(
    WindowId,
    Strut,
)> {
    if has_key(s, w) {
        s.remove(key_index(s, w))
    } else {
        s
    }
}

/// The abstract value of an optional raw property reply.
pub open spec fn view_opt_values(o: Option<Vec<u32>>) -> Option<Seq<u32>> {
    match o {
        Some(v) => Some(v@),
        None => None,
    }
}

/// The state and commands of a map request: the window is mapped; a strut
/// it advertises is registered and the workspace re-tiled; a dock stops
/// there, and a window already managed is not added again; any other
/// window gets its border, joins the current workspace at the end, takes
/// the focus, and the workspace is re-tiled around it.
pub open spec fn spec_add_window(
    v: WmView,
    w: WindowId,
    strut_values: Option<Seq<u32>>,
    is_dock: bool,
) -> (WmView, Seq<Command>) {
    let head = seq![Command::MapWindow(w)];
    let st_step = match strut_values {
        Some(vals) => match spec_strut_from(vals) {
            Some(st) => {
                let v1 = WmView { struts: spec_struts_insert(v.struts, w, st), ..v };
                (v1, head + spec_layout_cmds(v1))
            },
            None => (v, head),
        },
        None => (v, head),
    };
    let v1 = st_step.0;
    let c1 = st_step.1;
    if is_dock || v1.managed(w) {
        (v1, c1)
    } else {
        let c2 = c1 + seq![
            Command::SetBorderWidth(w, v1.border_width as u32),
            Command::SetBorderColor(w, v1.inactive_color),
        ];
        let nws = v1.curr_ws().push(w);
        let v2 = WmView {
            workspaces: v1.workspaces.update(v1.curr as int, nws),
            focused: v1.focused.update(v1.curr as int, Some((nws.len() - 1) as usize)),
            ..v1
        };
        (v2, c2 + spec_layout_cmds(v2) + seq![Command::RaiseWindow(w), Command::FocusWindow(w)])
    }
}

/// The state and commands of an unmap notification: when the window is a
/// member of the current workspace it leaves the list and the strut
/// registry and the focus index is clamped; either way the workspace is
/// re-tiled. An unmap for an unknown window changes nothing.
pub open spec fn spec_remove_window(v: WmView, w: WindowId) -> (WmView, Seq<Command>) {
    if v.curr_ws().contains(w) {
        let pos = v.curr_ws().index_of(w);
        let nws = v.curr_ws().remove(pos);
        let nf = match v.curr_focus() {
            Some(f) => if f >= nws.len() {
                if nws.len() == 0 {
                    None
                } else {
                    Some((nws.len() - 1) as usize)
                }
            } else {
                Some(f)
            },
            None => None,
        };
        let v1 = WmView {
            workspaces: v.workspaces.update(v.curr as int, nws),
            focused: v.focused.update(v.curr as int, nf),
            struts: spec_struts_remove(v.struts, w),
            ..v
        };
        (v1, spec_layout_cmds(v1))
    } else {
        (v, spec_layout_cmds(v))
    }
}

/// The state and commands of a destroy notification: any strut the window
/// registered is dropped and the workspace re-tiled.
pub open spec fn spec_destroy_window(v: WmView, w: WindowId) -> (WmView, Seq<Command>) {
    let v1 = WmView { struts: spec_struts_remove(v.struts, w), ..v };
    (v1, spec_layout_cmds(v1))
}

/// The state and commands of a strut property change: a well-formed strut
/// reply updates the registry and re-tiles; anything else changes nothing.
pub open spec fn spec_strut_update(v: WmView, w: WindowId, values: Option<Seq<u32>>) -> (
    WmView,
    Seq<Command>,
) {
    match values {
        Some(vals) => match spec_strut_from(vals) {
            Some(st) => {
                let v1 = WmView { struts: spec_struts_insert(v.struts, w, st), ..v };
                (v1, spec_layout_cmds(v1))
            },
            None => (v, Seq::empty()),
        },
        None => (v, Seq::empty()),
    }
}

/// Appending an unmanaged window to the current workspace and focusing it
/// preserves well-formedness.
proof fn lemma_wf_after_push(pre: WmView, post: WmView, w: WindowId)
    requires
        pre.wf(),
        !pre.managed(w),
        post.workspaces == pre.workspaces.update(pre.curr as int, pre.curr_ws().push(w)),
        post.focused == pre.focused.update(
            pre.curr as int,
            Some((pre.curr_ws().len()) as usize),
        ),
        post.curr == pre.curr,
        post.struts == pre.struts,
    ensures
        post.wf(),
{
    let c = pre.curr as int;
    let ws = pre.curr_ws();
    let nws = ws.push(w);
    assert forall|a: int, b: int| 0 <= a < b < nws.len() implies nws[a] != nws[b] by {
        if b == nws.len() - 1 {
            assert(nws[a] == ws[a]);
            if nws[a] == w {
                assert(pre.managed(w));
            }
        } else {
            assert(nws[a] == ws[a] && nws[b] == ws[b]);
        }
    }
    assert forall|k: int, a: int, b: int|
        0 <= k < 10 && k != c && 0 <= a < nws.len() && 0 <= b
            < post.workspaces[k].len() implies nws[a] != post.workspaces[k][b] by {
        if a == nws.len() - 1 {
            if post.workspaces[k][b] == w {
                assert(pre.workspaces[k][b] == w);
                assert(pre.managed(w));
            }
        } else {
            assert(nws[a] == ws[a]);
        }
    }
}

impl WmState {
    /// Whether `w` is a member of any workspace.
    pub fn is_managed(&self, w: WindowId) -> (r: bool)
        ensures
            r == self@.managed(w),
    {
        let n = self.workspaces.len();
        let mut i: usize = 0;
        while i < n
            invariant
                i <= n,
                n == self.workspaces@.len(),
                forall|k: int, a: int|
                    0 <= k < i && 0 <= a < self@.workspaces[k].len()
                        ==> #[trigger] self@.workspaces[k][a] != w,
            decreases n - i,
        {
            let m = self.workspaces[i].len();
            let mut a: usize = 0;
            while a < m
                invariant
                    a <= m,
                    i < n,
                    n == self.workspaces@.len(),
                    m == self@.workspaces[i as int].len(),
                    forall|b: int| 0 <= b < a ==> #[trigger] self@.workspaces[i as int][b] != w,
                decreases m - a,
            {
                if self.workspaces[i][a] == w {
                    assert(self@.workspaces[i as int][a as int] == w);
                    return true;
                }
                a += 1;
            }
            i += 1;
        }
        false
    }

    /// Handles a map request for `window`, with the strut property reply
    /// and the dock classification the shell read for it.
    pub fn add_window(&mut self, window: WindowId, strut_values: Option<Vec<u32>>, is_dock: bool)
        -> (cmds: Vec<Command>)
        requires
            old(self)@.wf(),
        ensures
            final(self)@.wf(),
            (final(self)@, cmds@) == spec_add_window(
                old(self)@,
                window,
                view_opt_values(strut_values),
                is_dock,
            ),
    {
        let ghost prev = self@;
        let mut cmds: Vec<Command> = Vec::new();
        cmds.push(Command::MapWindow(window));
        match &strut_values {
            Some(vals) => {
                match strut_from_property(vals) {
                    Some(st) => {
                        self.struts.insert(window, st);
                        proof {
                            assert(self@ =~= (WmView {
                                struts: spec_struts_insert(prev.struts, window, st),
                                ..prev
                            }));
                        }
                        let mut lc = self.layout();
                        cmds.append(&mut lc);
                    },
                    None => {},
                }
            },
            None => {},
        }
        let ghost v1 = spec_add_window(prev, window, view_opt_values(strut_values), is_dock).0;
        let ghost mid = self@;
        proof {
            assert(mid.wf());
        }
        if is_dock {
            return cmds;
        }
        if self.is_managed(window) {
            return cmds;
        }
        cmds.push(Command::SetBorderWidth(window, self.border_width as u32));
        cmds.push(Command::SetBorderColor(window, self.inactive_border_color));
        let c = self.curr_workspace;
        let ghost snapshot = self.workspaces@;
        let mut ws = self.workspaces.remove(c);
        ws.push(window);
        let idx = ws.len() - 1;
        self.workspaces.insert(c, ws);
        self.focused[c] = Some(idx);
        proof {
            assert(self.workspaces@ =~= snapshot.update(c as int, self.workspaces@[c as int]));
            assert(self@ =~= (WmView {
                workspaces: mid.workspaces.update(mid.curr as int, mid.curr_ws().push(window)),
                focused: mid.focused.update(
                    mid.curr as int,
                    Some((mid.curr_ws().len()) as usize),
                ),
                ..mid
            }));
            lemma_wf_after_push(mid, self@, window);
        }
        let mut lc = self.layout();
        cmds.append(&mut lc);
        cmds.push(Command::RaiseWindow(window));
        cmds.push(Command::FocusWindow(window));
        proof {
            assert(self@ =~= spec_add_window(
                prev,
                window,
                view_opt_values(strut_values),
                is_dock,
            ).0);
            assert(cmds@ =~= spec_add_window(
                prev,
                window,
                view_opt_values(strut_values),
                is_dock,
            ).1);
        }
        cmds
    }

    /// Handles an unmap notification: removes the window from the current
    /// workspace and the strut registry, clamps the focus index, and
    /// re-tiles. An unmap for a window not in the current workspace leaves
    /// the state unchanged.
    pub fn remove_window(&mut self, window: WindowId) -> (cmds: Vec<Command>)
        requires
            old(self)@.wf(),
        ensures
            final(self)@.wf(),
            (final(self)@, cmds@) == spec_remove_window(old(self)@, window),
    {
        let ghost prev = self@;
        let c = self.curr_workspace;
        let n = self.workspaces[c].len();
        let mut found: Option<usize> = None;
        let mut i: usize = 0;
        while i < n
            invariant_except_break
                i <= n,
                found is None,
                forall|k: int| 0 <= k < i ==> #[trigger] prev.curr_ws()[k] != window,
            invariant
                c == prev.curr,
                self@ == prev,
                prev.wf(),
                n == prev.curr_ws().len(),
            ensures
                match found {
                    Some(p) => p < n && prev.curr_ws()[p as int] == window,
                    None => forall|k: int| 0 <= k < n ==> #[trigger] prev.curr_ws()[k] != window,
                },
            decreases n - i,
        {
            if self.workspaces[c][i] == window {
                found = Some(i);
                break ;
            }
            i += 1;
        }
        match found {
            Some(pos) => {
                proof {
                    assert(prev.curr_ws()[pos as int] == window);
                    assert(prev.curr_ws().contains(window)) by {
                        assert(prev.curr_ws()[pos as int] == window);
                    }
                    assert(prev.curr_ws().index_of(window) == pos as int) by {
                        let q = prev.curr_ws().index_of(window);
                        assert(prev.curr_ws()[q] == window);
                    }
                }
                let ghost snapshot = self.workspaces@;
                let mut ws = self.workspaces.remove(c);
                ws.remove(pos);
                let nlen = ws.len();
                self.workspaces.insert(c, ws);
                self.struts.remove(window);
                match self.focused[c] {
                    Some(f) => {
                        if f >= nlen {
                            self.focused[c] = if nlen == 0 {
                                None
                            } else {
                                Some(nlen - 1)
                            };
                        }
                    },
                    None => {},
                }
                proof {
                    assert(self.workspaces@ =~= snapshot.update(
                        c as int,
                        self.workspaces@[c as int],
                    ));
                    assert(self@ =~= spec_remove_window(prev, window).0);
                    lemma_wf_after_remove(prev, self@, pos as int);
                }
                let cmds = self.layout();
                cmds
            },
            None => {
                proof {
                    assert(!prev.curr_ws().contains(window)) by {
                        if prev.curr_ws().contains(window) {
                            let q = choose|q: int|
                                0 <= q < prev.curr_ws().len() && prev.curr_ws()[q] == window;
                            assert(prev.curr_ws()[q] != window);
                        }
                    }
                }
                let cmds = self.layout();
                cmds
            },
        }
    }

    /// Handles a destroy notification: drops any strut the window
    /// registered and re-tiles.
    pub fn destroy_window(&mut self, window: WindowId) -> (cmds: Vec<Command>)
        requires
            old(self)@.wf(),
        ensures
            final(self)@.wf(),
            (final(self)@, cmds@) == spec_destroy_window(old(self)@, window),
    {
        let ghost prev = self@;
        self.struts.remove(window);
        proof {
            assert(self@ =~= spec_destroy_window(prev, window).0);
        }
        self.layout()
    }

    /// Handles a change of a strut property: a complete reply updates the
    /// window's registered strut and re-tiles.
    pub fn strut_update(&mut self, window: WindowId, values: Option<Vec<u32>>) -> (cmds: Vec<
        Command,
    >)
        requires
            old(self)@.wf(),
        ensures
            final(self)@.wf(),
            (final(self)@, cmds@) == spec_strut_update(
                old(self)@,
                window,
                view_opt_values(values),
            ),
    {
        let ghost prev = self@;
        match &values {
            Some(vals) => {
                match strut_from_property(vals) {
                    Some(st) => {
                        self.struts.insert(window, st);
                        proof {
                            assert(self@ =~= spec_strut_update(
                                prev,
                                window,
                                view_opt_values(values),
                            ).0);
                        }
                        self.layout()
                    },
                    None => Vec::new(),
                }
            },
            None => Vec::new(),
        }
    }
}

/// Removing the window at `idx` from the current workspace, dropping its
/// strut and clamping the focus preserves well-formedness.
proof fn lemma_wf_after_remove(pre: WmView, post: WmView, idx: int)
    requires
        pre.wf(),
        0 <= idx < pre.curr_ws().len(),
        post.workspaces == pre.workspaces.update(pre.curr as int, pre.curr_ws().remove(idx)),
        post.focused.len() == 10,
        post.curr == pre.curr,
        (post.focused[post.curr as int] matches Some(f) ==> f
            < post.workspaces[post.curr as int].len()),
        forall|k: int| 0 <= k < 10 && k != post.curr as int ==> post.focused[k] == pre.focused[k],
        unique_keys(post.struts),
    ensures
        post.wf(),
{
    let c = pre.curr as int;
    let ws = pre.curr_ws();
    let nws = ws.remove(idx);
    assert forall|a: int, b: int| 0 <= a < b < nws.len() implies nws[a] != nws[b] by {
        let sa = if a < idx {
            a
        } else {
            a + 1
        };
        let sb = if b < idx {
            b
        } else {
            b + 1
        };
        assert(nws[a] == ws[sa]);
        assert(nws[b] == ws[sb]);
    }
    assert forall|k: int, a: int, b: int|
        0 <= k < 10 && k != c && 0 <= a < nws.len() && 0 <= b
            < post.workspaces[k].len() implies nws[a] != post.workspaces[k][b] by {
        let sa = if a < idx {
            a
        } else {
            a + 1
        };
        assert(nws[a] == ws[sa]);
    }
}

impl WmState {
    /// Re-derives the focus from the last recorded pointer position: the
    /// window whose slot contains it is focused; with several candidates
    /// the rightmost wins.
    pub fn focus_on_pointer(&mut self) -> (cmds: Vec<Command>)
        requires
            old(self)@.wf(),
        ensures
            final(self)@.wf(),
            (final(self)@, cmds@) == spec_pointer_scan(
                old(self)@,
                spec_rects(old(self)@),
                spec_rects(old(self)@).len() as int,
                old(self)@.last_x as int,
            ),
    {
        let ghost prev = self@;
        let rects = self.window_rects();
        let x = self.last_x;
        proof {
            assert(rects@.len() == 0 || rects@.len() == prev.curr_ws().len());
        }
        let m = rects.len();
        let mut cmds: Vec<Command> = Vec::new();
        let mut i: usize = 0;
        while i < m
            invariant
                i <= m,
                m == rects@.len(),
                prev.wf(),
                rects@ == spec_rects(prev),
                rects@.len() <= prev.curr_ws().len(),
                x == prev.last_x,
                self@ == spec_pointer_scan(prev, rects@, i as int, x as int).0,
                cmds@ == spec_pointer_scan(prev, rects@, i as int, x as int).1,
            decreases m - i,
        {
            proof {
                lemma_pointer_scan_frame(prev, rects@, i as int, x as int);
            }
            let r = rects[i];
            if x as i64 > r.x as i64 && (x as i64) < r.x as i64 + r.w as i64 {
                let c = self.curr_workspace;
                match self.focused[c] {
                    Some(f) => {
                        proof {
                            assert(self@.focused[self@.curr as int] matches Some(g) ==> g
                                < self@.workspaces[self@.curr as int].len());
                        }
                        cmds.push(
                            Command::SetBorderColor(
                                self.workspaces[c][f],
                                self.inactive_border_color,
                            ),
                        );
                    },
                    None => {},
                }
                self.focused[c] = Some(i);
                let mut fc = self.set_focus(i);
                cmds.append(&mut fc);
                proof {
                    assert(self@ =~= spec_pointer_scan(prev, rects@, i + 1, x as int).0);
                    assert(cmds@ =~= spec_pointer_scan(prev, rects@, i + 1, x as int).1);
                }
            } else {
                proof {
                    assert(self@ =~= spec_pointer_scan(prev, rects@, i + 1, x as int).0);
                    assert(cmds@ =~= spec_pointer_scan(prev, rects@, i + 1, x as int).1);
                }
            }
            i += 1;
        }
        proof {
            lemma_pointer_scan_frame(prev, rects@, m as int, x as int);
        }
        cmds
    }

    /// Applies a pointer-motion report: when the position changed on either
    /// axis, the focus follows the slot containing the new x position, and
    /// the position is recorded.
    pub fn motion(&mut self, x: i16, y: i16) -> (cmds: Vec<Command>)
        requires
            old(self)@.wf(),
        ensures
            final(self)@.wf(),
            (final(self)@, cmds@) == Self::spec_motion(old(self)@, x, y),
    {
        let ghost prev = self@;
        if self.last_x != x || self.last_y != y {
            let rects = self.window_rects();
            proof {
                assert(rects@.len() == 0 || rects@.len() == prev.curr_ws().len());
            }
            let m = rects.len();
            let mut cmds: Vec<Command> = Vec::new();
            let mut i: usize = 0;
            while i < m
                invariant
                    i <= m,
                    m == rects@.len(),
                    prev.wf(),
                    rects@ == spec_rects(prev),
                    rects@.len() <= prev.curr_ws().len(),
                    self@ == spec_motion_scan(prev, rects@, i as int, x as int).0,
                    cmds@ == spec_motion_scan(prev, rects@, i as int, x as int).1,
                decreases m - i,
            {
                proof {
                    lemma_pointer_scan_frame(prev, rects@, i as int, x as int);
                }
                let r = rects[i];
                if x as i64 > r.x as i64 && (x as i64) < r.x as i64 + r.w as i64 {
                    let c = self.curr_workspace;
                    self.focused[c] = Some(i);
                    let mut fc = self.set_focus(i);
                    cmds.append(&mut fc);
                    proof {
                        assert(self@ =~= spec_motion_scan(prev, rects@, i + 1, x as int).0);
                        assert(cmds@ =~= spec_motion_scan(prev, rects@, i + 1, x as int).1);
                    }
                } else {
                    proof {
                        assert(self@ =~= spec_motion_scan(prev, rects@, i + 1, x as int).0);
                        assert(cmds@ =~= spec_motion_scan(prev, rects@, i + 1, x as int).1);
                    }
                }
                i += 1;
            }
            self.last_x = x;
            self.last_y = y;
            proof {
                lemma_pointer_scan_frame(prev, rects@, m as int, x as int);
                assert(self@ =~= (WmView {
                    last_x: x,
                    last_y: y,
                    ..spec_motion_scan(prev, rects@, m as int, x as int).0
                }));
            }
            cmds
        } else {
            Vec::new()
        }
    }

    /// The state and commands of a pointer-motion report.
    pub open spec fn spec_motion(v: WmView, x: i16, y: i16) -> (WmView, Seq<Command>) {
        if v.last_x != x || v.last_y != y {
            let scan = spec_motion_scan(v, spec_rects(v), spec_rects(v).len() as int, x as int);
            ((WmView { last_x: x, last_y: y, ..scan.0 }), scan.1)
        } else {
            (v, Seq::empty())
        }
    }

    /// Switches to workspace `new_ws`: unmaps the old windows, maps the
    /// new ones, advertises the index, re-tiles, and re-derives the focus
    /// from the pointer.
    pub fn switch_ws(&mut self, new_ws: usize) -> (cmds: Vec<Command>)
        requires
            old(self)@.wf(),
        ensures
            final(self)@.wf(),
            (final(self)@, cmds@) == spec_switch_ws(old(self)@, new_ws),
    {
        let ghost prev = self@;
        if new_ws >= NUM_WORKSPACES || new_ws == self.curr_workspace {
            return Vec::new();
        }
        let mut cmds: Vec<Command> = Vec::new();
        let old_c = self.curr_workspace;
        let n_old = self.workspaces[old_c].len();
        let ghost unmaps = prev.curr_ws().map_values(|w: WindowId| Command::UnmapWindow(w));
        let mut i: usize = 0;
        while i < n_old
            invariant
                i <= n_old,
                self@ == prev,
                old_c == prev.curr,
                prev.wf(),
                n_old == prev.curr_ws().len(),
                unmaps == prev.curr_ws().map_values(|w: WindowId| Command::UnmapWindow(w)),
                cmds@ == unmaps.take(i as int),
            decreases n_old - i,
        {
            cmds.push(Command::UnmapWindow(self.workspaces[old_c][i]));
            proof {
                assert(cmds@ =~= unmaps.take(i + 1));
            }
            i += 1;
        }
        self.curr_workspace = new_ws;
        let ghost v1 = WmView { curr: new_ws, ..prev };
        proof {
            assert(self@ =~= v1);
            assert(unmaps.take(n_old as int) =~= unmaps);
        }
        let n_new = self.workspaces[new_ws].len();
        let ghost maps = prev.workspaces[new_ws as int].map_values(
            |w: WindowId| Command::MapWindow(w),
        );
        let mut j: usize = 0;
        while j < n_new
            invariant
                j <= n_new,
                self@ == v1,
                new_ws == v1.curr && new_ws < 10,
                v1.wf(),
                n_new == v1.curr_ws().len(),
                maps == v1.curr_ws().map_values(|w: WindowId| Command::MapWindow(w)),
                cmds@ == unmaps + maps.take(j as int),
                unmaps == prev.curr_ws().map_values(|w: WindowId| Command::UnmapWindow(w)),
            decreases n_new - j,
        {
            cmds.push(Command::MapWindow(self.workspaces[new_ws][j]));
            proof {
                assert(cmds@ =~= unmaps + maps.take(j + 1));
            }
            j += 1;
        }
        cmds.push(Command::SetActiveDesktop(new_ws as u32));
        let mut lc = self.layout();
        cmds.append(&mut lc);
        let mut pc = self.focus_on_pointer();
        cmds.append(&mut pc);
        proof {
            assert(maps.take(n_new as int) =~= maps);
            assert(cmds@ =~= spec_switch_ws(prev, new_ws).1);
        }
        cmds
    }

    /// Switches to the next workspace, saturating at the last.
    pub fn focus_next_ws(&mut self) -> (cmds: Vec<Command>)
        requires
            old(self)@.wf(),
        ensures
            final(self)@.wf(),
            (final(self)@, cmds@) == spec_switch_ws(old(self)@, (old(self)@.curr + 1) as usize),
    {
        let next = self.curr_workspace + 1;
        self.switch_ws(next)
    }

    /// Switches to the previous workspace, saturating at the first.
    pub fn focus_prev_ws(&mut self) -> (cmds: Vec<Command>)
        requires
            old(self)@.wf(),
        ensures
            final(self)@.wf(),
            (final(self)@, cmds@) == if old(self)@.curr == 0 {
                (old(self)@, Seq::<Command>::empty())
            } else {
                spec_switch_ws(old(self)@, (old(self)@.curr - 1) as usize)
            },
    {
        if self.curr_workspace == 0 {
            return Vec::new();
        }
        let prev_ws = self.curr_workspace - 1;
        self.switch_ws(prev_ws)
    }
}

/// The four grab commands of one binding: its mask combined with each
/// lock-bit variant, and the key code its key symbol resolves to.
pub open spec fn spec_grab4(b: BindingView, km: Map<u32, u8>) -> Seq<Command> {
    let mask = spec_combo_mask(b.combo.prefixes);
    let code = spec_lookup(km, spec_keysym(b.combo.key)) as u8;
    seq![
        Command::GrabKey(mask, code),
        Command::GrabKey(mask | 0x0002u16, code),
        Command::GrabKey(mask | 0x0010u16, code),
        Command::GrabKey(mask | 0x0012u16, code),
    ]
}

/// The grab commands of a binding list, in registration order.
pub open spec fn spec_grab_cmds(binds: Seq<BindingView>, km: Map<u32, u8>) -> Seq<Command>
    decreases binds.len(),
{
    if binds.len() == 0 {
        Seq::empty()
    } else {
        spec_grab_cmds(binds.drop_last(), km) + spec_grab4(binds.last(), km)
    }
}

/// The border-width commands for every window of the first `upto`
/// workspaces.
pub open spec fn spec_border_cmds(wss: Seq<Seq<WindowId>>, upto: int, bw: u8) -> Seq<Command>
    decreases upto,
{
    if upto <= 0 {
        Seq::empty()
    } else {
        spec_border_cmds(wss, upto - 1, bw) + wss[upto - 1].map_values(
            |w: WindowId| Command::SetBorderWidth(w, bw as u32),
        )
    }
}

/// The state and commands of applying a configuration: the gap, border
/// metrics, colors, commands and binding list are replaced; each binding
/// is granted under its four lock variants, and every managed window gets
/// the new border width.
pub open spec fn spec_apply_config(v: WmView, c: ConfigView) -> (WmView, Seq<Command>) {
    let bw = c.settings.border_width as u8;
    let v1 = WmView {
        gap: c.settings.gap as u8,
        binds: c.binds,
        terminal: c.settings.terminal,
        launcher: c.settings.launcher,
        active_color: c.settings.border_active_color,
        inactive_color: c.settings.border_inactive_color,
        border_width: bw,
        ..v
    };
    (v1, spec_grab_cmds(c.binds, v.keymap) + spec_border_cmds(v1.workspaces, 10, bw))
}

/// The keyboard-mapping cache after a mapping notification: a plausible
/// table replaces the cache; a missing or malformed one leaves it
/// unchanged.
pub open spec fn spec_mapping_update(v: WmView, m: Option<MappingTableView>) -> WmView {
    match m {
        Some(t) => if t.keysyms_per_keycode > 0 && t.keysyms.len() <= (
        t.keysyms_per_keycode as int) * (256 - t.min_keycode as int) {
            WmView {
                keymap: spec_keymap_of(
                    t.min_keycode as int,
                    t.keysyms_per_keycode as int,
                    t.keysyms,
                ),
                ..v
            }
        } else {
            v
        },
        None => v,
    }
}

/// The state and commands of one bound action.
pub open spec fn spec_apply_action(v: WmView, a: Action) -> (WmView, Seq<Command>) {
    match a {
        Action::FocusLeft => WmState::spec_focus_left(v),
        Action::FocusRight => WmState::spec_focus_right(v),
        Action::MoveLeft => WmState::spec_swap_left(v),
        Action::MoveRight => WmState::spec_swap_right(v),
        Action::Launcher => (v, seq![Command::SpawnLauncher]),
        Action::Terminal => (v, seq![Command::SpawnTerminal]),
        Action::CloseWindow => match v.curr_focus() {
            Some(i) => WmState::spec_close_window(v, i as int),
            None => (v, Seq::empty()),
        },
        Action::NextWs => spec_switch_ws(v, (v.curr + 1) as usize),
        Action::PrevWs => if v.curr == 0 {
            (v, Seq::empty())
        } else {
            spec_switch_ws(v, (v.curr - 1) as usize)
        },
        Action::ReloadConfig => (v, seq![Command::ReloadConfig]),
    }
}

/// The abstract value of a raw mapping table.
pub struct MappingTableView {
    pub min_keycode: u8,
    pub keysyms_per_keycode: u8,
    pub keysyms: Seq<u32>,
}

impl View for MappingTable {
    type V = MappingTableView;

    open spec fn view(&self) -> MappingTableView {
        MappingTableView {
            min_keycode: self.min_keycode,
            keysyms_per_keycode: self.keysyms_per_keycode,
            keysyms: self.keysyms@,
        }
    }
}

/// The abstract value of an event.
pub enum EventView {
    MapRequest { window: WindowId, strut_values: Option<Seq<u32>>, is_dock: bool },
    UnmapNotify { window: WindowId },
    DestroyNotify { window: WindowId },
    KeyPress { detail: u8, state: u16 },
    Motion { x: i16, y: i16 },
    MappingNotify { mapping: Option<MappingTableView> },
    StrutProperty { window: WindowId, values: Option<Seq<u32>> },
    ConfigureRequest,
    Ignored,
}

impl View for Event {
    type V = EventView;

    open spec fn view(&self) -> EventView {
        match self {
            Event::MapRequest { window, strut_values, is_dock } => EventView::MapRequest {
                window: *window,
                strut_values: view_opt_values(*strut_values),
                is_dock: *is_dock,
            },
            Event::UnmapNotify { window } => EventView::UnmapNotify { window: *window },
            Event::DestroyNotify { window } => EventView::DestroyNotify { window: *window },
            Event::KeyPress { detail, state } => EventView::KeyPress {
                detail: *detail,
                state: *state,
            },
            Event::Motion { x, y } => EventView::Motion { x: *x, y: *y },
            Event::MappingNotify { mapping } => EventView::MappingNotify {
                mapping: match mapping {
                    Some(t) => Some(t@),
                    None => None,
                },
            },
            Event::StrutProperty { window, values } => EventView::StrutProperty {
                window: *window,
                values: view_opt_values(*values),
            },
            Event::ConfigureRequest => EventView::ConfigureRequest,
            Event::Ignored => EventView::Ignored,
        }
    }
}

/// The state and commands of one protocol event: the whole reactive step
/// of the window manager.
pub open spec fn spec_handle_event(v: WmView, e: EventView) -> (WmView, Seq<Command>) {
    match e {
        EventView::MapRequest { window, strut_values, is_dock } => spec_add_window(
            v,
            window,
            strut_values,
            is_dock,
        ),
        EventView::UnmapNotify { window } => spec_remove_window(v, window),
        EventView::DestroyNotify { window } => spec_destroy_window(v, window),
        EventView::KeyPress { detail, state } => match spec_first_match(
            v.binds,
            v.keymap,
            detail,
            state,
        ) {
            Some(i) => spec_apply_action(v, v.binds[i].action),
            None => (v, Seq::empty()),
        },
        EventView::Motion { x, y } => WmState::spec_motion(v, x, y),
        EventView::MappingNotify { mapping } => (spec_mapping_update(v, mapping), Seq::empty()),
        EventView::StrutProperty { window, values } => spec_strut_update(v, window, values),
        EventView::ConfigureRequest => (v, spec_layout_cmds(v)),
        EventView::Ignored => (v, Seq::empty()),
    }
}

impl WmState {
    /// Replaces the configuration: gap, borders, commands and bindings.
    /// Emits the key-grab commands for every binding, under all four lock
    /// variants, and a border-width command for every managed window.
    pub fn apply_config(&mut self, conf: Config) -> (cmds: Vec<Command>)
        requires
            old(self)@.wf(),
        ensures
            final(self)@.wf(),
            (final(self)@, cmds@) == spec_apply_config(old(self)@, conf@),
    {
        let ghost prev = self@;
        let ghost bviews = conf.binds@.map_values(|b: Binding| b@);
        let mut cmds: Vec<Command> = Vec::new();
        let nb = conf.binds.len();
        let mut i: usize = 0;
        while i < nb
            invariant
                i <= nb,
                self@ == prev,
                nb == conf.binds@.len(),
                bviews == conf.binds@.map_values(|b: Binding| b@),
                cmds@ == spec_grab_cmds(bviews.take(i as int), prev.keymap),
            decreases nb - i,
        {
            let b = &conf.binds[i];
            let mask = keycombo_mask(&b.combo);
            let code = self.keymap.lookup(b.combo.key.into_x11rb());
            assert(code <= 0xff);
            let code8 = code as u8;
            let masks = grab_masks(mask);
            cmds.push(Command::GrabKey(masks[0], code8));
            cmds.push(Command::GrabKey(masks[1], code8));
            cmds.push(Command::GrabKey(masks[2], code8));
            cmds.push(Command::GrabKey(masks[3], code8));
            proof {
                assert(bviews.take(i + 1).drop_last() =~= bviews.take(i as int));
                assert(bviews.take(i + 1).last() == bviews[i as int]);
                assert(cmds@ =~= spec_grab_cmds(bviews.take(i + 1), prev.keymap));
            }
            i += 1;
        }
        proof {
            assert(bviews.take(nb as int) =~= bviews);
        }
        self.gap = #[verifier::truncate] (conf.settings.gap as u8);
        self.border_width = #[verifier::truncate] (conf.settings.border_width as u8);
        self.active_border_color = conf.settings.border_active_color;
        self.inactive_border_color = conf.settings.border_inactive_color;
        self.terminal = conf.settings.terminal;
        self.launcher = conf.settings.launcher;
        self.binds = conf.binds;
        let bw = self.border_width;
        let ghost v1 = spec_apply_config(prev, conf@).0;
        proof {
            assert(self@ =~= v1);
        }
        let ghost grabs = spec_grab_cmds(bviews, prev.keymap);
        let mut k: usize = 0;
        while k < NUM_WORKSPACES
            invariant
                k <= 10,
                self@ == v1,
                v1.wf(),
                bw == v1.border_width,
                grabs == spec_grab_cmds(bviews, prev.keymap),
                cmds@ == grabs + spec_border_cmds(v1.workspaces, k as int, bw),
            decreases 10 - k,
        {
            let ghost inner = v1.workspaces[k as int].map_values(
                |w: WindowId| Command::SetBorderWidth(w, bw as u32),
            );
            let m = self.workspaces[k].len();
            let mut a: usize = 0;
            while a < m
                invariant
                    a <= m,
                    k < 10,
                    self@ == v1,
                    v1.wf(),
                    bw == v1.border_width,
                    m == v1.workspaces[k as int].len(),
                    inner == v1.workspaces[k as int].map_values(
                        |w: WindowId| Command::SetBorderWidth(w, bw as u32),
                    ),
                    grabs == spec_grab_cmds(bviews, prev.keymap),
                    cmds@ == grabs + spec_border_cmds(v1.workspaces, k as int, bw) + inner.take(
                        a as int,
                    ),
                decreases m - a,
            {
                cmds.push(Command::SetBorderWidth(self.workspaces[k][a], bw as u32));
                proof {
                    assert(cmds@ =~= grabs + spec_border_cmds(v1.workspaces, k as int, bw)
                        + inner.take(a + 1));
                }
                a += 1;
            }
            proof {
                assert(inner.take(m as int) =~= inner);
                assert(cmds@ =~= grabs + spec_border_cmds(v1.workspaces, k + 1, bw));
            }
            k += 1;
        }
        cmds
    }

    /// Performs one bound action on the current workspace and focus.
    pub fn apply_action(&mut self, action: Action) -> (cmds: Vec<Command>)
        requires
            old(self)@.wf(),
        ensures
            final(self)@.wf(),
            (final(self)@, cmds@) == spec_apply_action(old(self)@, action),
    {
        match action {
            Action::FocusLeft => self.focus_left(),
            Action::FocusRight => self.focus_right(),
            Action::MoveLeft => self.swap_left(),
            Action::MoveRight => self.swap_right(),
            Action::Launcher => self.launcher(),
            Action::Terminal => self.terminal(),
            Action::CloseWindow => self.close_focused(),
            Action::NextWs => self.focus_next_ws(),
            Action::PrevWs => self.focus_prev_ws(),
            Action::ReloadConfig => {
                let mut cmds: Vec<Command> = Vec::new();
                cmds.push(Command::ReloadConfig);
                proof {
                    assert(cmds@ =~= seq![Command::ReloadConfig]);
                }
                cmds
            },
        }
    }

    /// Processes one protocol event: dispatches by kind, mutates the
    /// state, and returns the display-server commands to perform, in
    /// order. This is the whole reactive step of the window manager.
    pub fn handle_event(&mut self, event: Event) -> (cmds: Vec<Command>)
        requires
            old(self)@.wf(),
        ensures
            final(self)@.wf(),
            (final(self)@, cmds@) == spec_handle_event(old(self)@, event@),
    {
        match event {
            Event::MapRequest { window, strut_values, is_dock } => self.add_window(
                window,
                strut_values,
                is_dock,
            ),
            Event::UnmapNotify { window } => self.remove_window(window),
            Event::DestroyNotify { window } => self.destroy_window(window),
            Event::KeyPress { detail, state } => {
                let act = resolve_binding(&self.binds, &self.keymap, detail, state);
                match act {
                    Some(a) => self.apply_action(a),
                    None => Vec::new(),
                }
            },
            Event::Motion { x, y } => self.motion(x, y),
            Event::MappingNotify { mapping } => {
                match mapping {
                    Some(t) => {
                        let ghost prev = self@;
                        let per_us = t.keysyms_per_keycode as usize;
                        let cap = 256 - t.min_keycode as usize;
                        assert(per_us * cap <= 65280) by (nonlinear_arith)
                            requires
                                per_us <= 255,
                                cap <= 256,
        ;
                        if t.keysyms_per_keycode > 0 && t.keysyms.len() <= per_us * cap {
                            self.keymap.rebuild(
                                t.min_keycode,
                                t.keysyms_per_keycode as usize,
                                &t.keysyms,
                            );
                            proof {
                                assert(self@ =~= spec_mapping_update(prev, Some(t@)));
                            }
                        }
                        Vec::new()
                    },
                    None => Vec::new(),
                }
            },
            Event::StrutProperty { window, values } => self.strut_update(window, values),
            Event::ConfigureRequest => self.layout(),
            Event::Ignored => Vec::new(),
        }
    }
}

/// The border colors after a command list runs: each set-border-color
/// command overwrites the window's entry; other commands leave borders
/// alone.
pub open spec fn spec_border_after(m: Map<WindowId, u32>, cmds: Seq<Command>) -> Map<WindowId, u32>
    decreases cmds.len(),
{
    if cmds.len() == 0 {
        m
    } else {
        let m1 = spec_border_after(m, cmds.drop_last());
        match cmds.last() {
            Command::SetBorderColor(w, c) => m1.insert(w, c),
            _ => m1,
        }
    }
}

/// The window that holds input focus after a command list runs, if any
/// focus command ran.
pub open spec fn spec_focus_after(cmds: Seq<Command>) -> Option<WindowId>
    decreases cmds.len(),
{
    if cmds.len() == 0 {
        None
    } else {
        match cmds.last() {
            Command::FocusWindow(w) => Some(w),
            _ => spec_focus_after(cmds.drop_last()),
        }
    }
}

/// The window last raised above its siblings, if any raise command ran.
pub open spec fn spec_raise_after(cmds: Seq<Command>) -> Option<WindowId>
    decreases cmds.len(),
{
    if cmds.len() == 0 {
        None
    } else {
        match cmds.last() {
            Command::RaiseWindow(w) => Some(w),
            _ => spec_raise_after(cmds.drop_last()),
        }
    }
}

/// Running a concatenation of command lists folds the border colors of the
/// first list, then the second.
pub proof fn lemma_border_after_append(m: Map<WindowId, u32>, a: Seq<Command>, b: Seq<Command>)
    ensures
        spec_border_after(m, a + b) == spec_border_after(spec_border_after(m, a), b),
    decreases b.len(),
{
    if b.len() == 0 {
        assert(a + b =~= a);
    } else {
        lemma_border_after_append(m, a, b.drop_last());
        assert((a + b).drop_last() =~= a + b.drop_last());
        assert((a + b).last() == b.last());
    }
}

/// The focus repaint is idempotent: repeating it on the same window leaves
/// the state as after one application, and the border colors, the raised
/// window and the input focus that result from running both command lists
/// are those of the first alone.
pub proof fn lemma_focus_repaint_idempotent(v: WmView, i: int, m: Map<WindowId, u32>)
    requires
        v.wf(),
        0 <= i < v.curr_ws().len(),
    ensures
        ({
            let v1 = spec_set_focus_state(v, i);
            let c1 = spec_set_focus_cmds(v, i);
            let c2 = spec_set_focus_cmds(v1, i);
            &&& spec_set_focus_state(v1, i) == v1
            &&& spec_border_after(m, c1 + c2) =~= spec_border_after(m, c1)
            &&& spec_focus_after(c1 + c2) == spec_focus_after(c1)
            &&& spec_raise_after(c1 + c2) == spec_raise_after(c1)
        }),
{
    reveal_with_fuel(spec_border_after, 6);
    reveal_with_fuel(spec_focus_after, 6);
    reveal_with_fuel(spec_raise_after, 6);
    let w = v.curr_ws()[i];
    let v1 = spec_set_focus_state(v, i);
    let c1 = spec_set_focus_cmds(v, i);
    let c2 = spec_set_focus_cmds(v1, i);
    lemma_border_after_append(m, c1, c2);
    let m1 = spec_border_after(m, c1);
    assert(c2 =~= seq![
        Command::SetBorderColor(w, v.inactive_color),
        Command::SetBorderColor(w, v.active_color),
        Command::RaiseWindow(w),
        Command::FocusWindow(w),
    ]);
    assert(m1.contains_key(w) && m1[w] == v.active_color) by {
        match v.last_focused {
            Some(p) => {
                assert(c1 =~= seq![
                    Command::SetBorderColor(p, v.inactive_color),
                    Command::SetBorderColor(w, v.active_color),
                    Command::RaiseWindow(w),
                    Command::FocusWindow(w),
                ]);
            },
            None => {
                assert(c1 =~= seq![
                    Command::SetBorderColor(w, v.active_color),
                    Command::RaiseWindow(w),
                    Command::FocusWindow(w),
                ]);
            },
        }
    }
    assert(spec_border_after(m1, c2) =~= m1);
    assert(spec_focus_after(c1 + c2) == Some(w)) by {
        assert((c1 + c2).last() == Command::FocusWindow(w));
    }
    assert(spec_focus_after(c1) == Some(w));
    assert(spec_raise_after(c1 + c2) == Some(w)) by {
        assert((c1 + c2).drop_last().last() == Command::RaiseWindow(w));
        assert((c1 + c2).drop_last().drop_last() + seq![
            Command::RaiseWindow(w),
            Command::FocusWindow(w),
        ] =~= c1 + c2);
    }
}

/// A workspace switch never edits any window list: switching away and back
/// restores every workspace's windows and their order, whatever the focus
/// scans did in between.
pub proof fn lemma_switch_round_trip(v: WmView, b: usize)
    requires
        v.wf(),
    ensures
        ({
            let v1 = spec_switch_ws(v, b).0;
            let v2 = spec_switch_ws(v1, v.curr).0;
            &&& v1.workspaces == v.workspaces
            &&& v2.workspaces == v.workspaces
            &&& v2.curr == v.curr
        }),
{
    lemma_switch_frame(v, b);
    let v1 = spec_switch_ws(v, b).0;
    lemma_switch_frame(v1, v.curr);
}

/// A workspace switch preserves well-formedness and the window lists, and
/// lands on the requested workspace (or stays put when the request is out
/// of range or already current).
pub proof fn lemma_switch_frame(v: WmView, b: usize)
    requires
        v.wf(),
    ensures
        ({
            let v1 = spec_switch_ws(v, b).0;
            &&& v1.wf()
            &&& v1.workspaces == v.workspaces
            &&& v1.curr == if b >= 10 || b == v.curr {
                v.curr
            } else {
                b
            }
        }),
{
    if !(b >= 10 || b == v.curr) {
        let vm = WmView { curr: b, ..v };
        let rects = spec_rects(vm);
        assert(rects.len() == 0 || rects.len() == vm.curr_ws().len());
        lemma_pointer_scan_frame(vm, rects, rects.len() as int, vm.last_x as int);
    }
}

/// Every reachable focus index is in range: in a well-formed state, each
/// workspace's focus index, when present, is a valid index into that
/// workspace's window list.
pub proof fn lemma_focus_index_valid(v: WmView)
    requires
        v.wf(),
    ensures
        forall|i: int|
            0 <= i < 10 ==> ((#[trigger] v.focused[i]) matches Some(f) ==> f
                < v.workspaces[i].len()),
{
}

/// A window handle appears in at most one place: in a well-formed state,
/// two occurrences of the same handle are the same position of the same
/// workspace.
pub proof fn lemma_window_in_one_workspace(v: WmView, i: int, j: int, a: int, b: int)
    requires
        v.wf(),
        0 <= i < 10,
        0 <= j < 10,
        0 <= a < v.workspaces[i].len(),
        0 <= b < v.workspaces[j].len(),
        v.workspaces[i][a] == v.workspaces[j][b],
    ensures
        i == j,
        a == b,
{
    if i < j || j < i {
        assert(false);
    }
    if a < b || b < a {
        assert(false);
    }
}

} // verus!
