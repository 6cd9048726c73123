//! A workspace: an ordered set of windows, the focus, and how they are laid
//! out on the screen.
pub mod enum_workspace_layout;
pub mod enum_workspace_navigation;
pub mod parse_error;
pub mod tiling;
pub mod workspace_layout;
pub mod workspace_navigation;

use std::collections::HashMap;
use vstd::prelude::*;

use crate::action::{grabbed, hidden, lists_once, unmap_all, unmap_and_kill_all, Bounds, XAction};
use crate::screeninfo::ScreenSize;
use crate::util::{
    differs_from, first_index, is_first_index, keys_of, lemma_filter_absent, lemma_first_index_unique,
    lemma_index_no_dup, lemma_swap_to_set, lemma_without_to_set, position, without,
};
use crate::config::commands::texts;
use crate::windowmanager::movement::Movement;
use crate::windowmanager::{lists_atom, property_lists_atom};
use crate::windowstate::WindowState;
use self::tiling::{compute_bounds, layout_bounds};
use self::workspace_layout::{next_layout_of, WorkspaceLayout};

verus! {

broadcast use vstd::std_specs::hash::group_hash_axioms;

/// A numbered workspace of one screen.
#[derive(Debug)]
pub struct Workspace {
    pub name: u16,
    pub focused_window: Option<u32>,
    pub fullscreen: Option<u32>,
    pub urgent: bool,
    pub windows: HashMap<u32, WindowState>,
    pub order: Vec<u32>,
    pub layout: WorkspaceLayout,
}

/// What a workspace is, as a value: its windows by id, their order, the
/// focus, the full-screen window and the layout.
pub struct WorkspaceModel {
    pub name: u16,
    pub focused_window: Option<u32>,
    pub fullscreen: Option<u32>,
    pub urgent: bool,
    pub windows: Map<u32, WindowState>,
    pub order: Seq<u32>,
    pub layout: WorkspaceLayout,
}

impl View for Workspace {
    type V = WorkspaceModel;

    open spec fn view(&self) -> WorkspaceModel {
        WorkspaceModel {
            name: self.name,
            focused_window: self.focused_window,
            fullscreen: self.fullscreen,
            urgent: self.urgent,
            windows: self.windows@,
            order: self.order@,
            layout: self.layout,
        }
    }
}

impl WorkspaceModel {
    /// A new workspace: no windows, no focus, nothing full screen.
    pub open spec fn fresh(name: u16, layout: WorkspaceLayout) -> WorkspaceModel {
        WorkspaceModel {
            name,
            focused_window: None,
            fullscreen: None,
            urgent: false,
            windows: Map::empty(),
            order: Seq::empty(),
            layout,
        }
    }

    /// The windows are exactly those in the order, each under its own id.
    pub open spec fn wf(self) -> bool {
        &&& self.windows.dom() == self.order.to_set()
        &&& forall|k: u32| #[trigger] self.windows.contains_key(k) ==> self.windows[k].window == k
    }

    /// Whether laying out this workspace stays within the integer ranges.
    pub open spec fn remap_ok(self, s: ScreenSize) -> bool {
        remap_fits(self.windows, self.order, self.fullscreen, self.layout, s)
    }

    /// The requests of laying out this workspace, appended to `before`.
    pub open spec fn remapped(self, s: ScreenSize, before: Seq<XAction>, after: Seq<XAction>) -> bool {
        remap_result(self.windows, self.order, self.fullscreen, self.layout, s, before, after)
    }

    /// This workspace with every window forgotten.
    pub open spec fn emptied(self) -> WorkspaceModel {
        WorkspaceModel { windows: Map::empty(), order: Seq::empty(), ..self }
    }

    /// This workspace with window `w` dropped.
    pub open spec fn without(self, w: u32) -> WorkspaceModel {
        WorkspaceModel {
            windows: self.windows.remove(w),
            order: self.order.filter(differs_from(w)),
            fullscreen: if self.fullscreen == Some(w) {
                None
            } else {
                self.fullscreen
            },
            ..self
        }
    }

    /// This workspace once the focus moved in direction `mov`.
    pub open spec fn focus_moved(self, mov: Movement) -> WorkspaceModel {
        match focus_target(self.order, self.focused_window, mov) {
            Some(t) => WorkspaceModel { focused_window: Some(t), ..self },
            None => self,
        }
    }

    /// The requests of moving the focus in direction `mov`, appended to
    /// `before`.
    pub open spec fn focus_actions(self, mov: Movement, before: Seq<XAction>) -> Seq<XAction> {
        match focus_target(self.order, self.focused_window, mov) {
            Some(t) => before.push(XAction::Focus { window: t }),
            None => before,
        }
    }

    /// Whether a focused window exists in a workspace of at least two windows,
    /// the case in which moves look up its position.
    pub open spec fn focus_in_pair(self) -> bool {
        self.focused_window is Some && self.order.len() >= 2
    }

    /// Whether moving the focus or the focused window can find the focused
    /// window in the order.
    pub open spec fn focus_known(self) -> bool {
        self.focus_in_pair() ==> self.order.contains(self.focused_window->Some_0)
    }

    /// This workspace once the focused window moved in direction `mov`.
    pub open spec fn window_moved(self, mov: Movement) -> WorkspaceModel {
        WorkspaceModel { order: moved_order(self.order, self.focused_window, mov), ..self }
    }

    /// Whether moving the focused window in direction `mov` finds it and
    /// stays within the integer ranges.
    pub open spec fn move_window_ok(self, mov: Movement, s: ScreenSize) -> bool {
        self.focus_in_pair() ==> self.order.contains(self.focused_window->Some_0)
            && self.window_moved(mov).remap_ok(s)
    }

    /// The requests of moving the focused window in direction `mov`,
    /// appended to `before`.
    pub open spec fn move_window_actions(
        self,
        mov: Movement,
        s: ScreenSize,
        before: Seq<XAction>,
        after: Seq<XAction>,
    ) -> bool {
        if self.focus_in_pair() {
            self.window_moved(mov).remapped(s, before, after)
        } else {
            after == before
        }
    }

    /// This workspace with the given focus.
    pub open spec fn focused_on(self, w: Option<u32>) -> WorkspaceModel {
        WorkspaceModel { focused_window: w, ..self }
    }

    /// This workspace with layout `l`.
    pub open spec fn with_layout(self, l: WorkspaceLayout) -> WorkspaceModel {
        WorkspaceModel { layout: l, ..self }
    }

    /// This workspace once the focused window went to or came back from full
    /// screen.
    pub open spec fn fullscreen_toggled(self) -> WorkspaceModel {
        match self.focused_window {
            Some(f) => WorkspaceModel {
                fullscreen: if self.fullscreen is Some {
                    None
                } else {
                    Some(f)
                },
                ..self
            },
            None => self,
        }
    }

    /// This workspace with `win` appended.
    pub open spec fn with(self, win: WindowState) -> WorkspaceModel {
        WorkspaceModel {
            windows: self.windows.insert(win.window, win),
            order: self.order.push(win.window),
            ..self
        }
    }
}

/// The whole screen as a rectangle.
pub open spec fn full_screen(s: ScreenSize) -> Bounds {
    Bounds { x: 0, y: 0, width: s.width, height: s.height }
}

/// Whether every window in `order` is known and fits the place that
/// `layout` gives it.
pub open spec fn layout_fits(
    windows: Map<u32, WindowState>,
    order: Seq<u32>,
    layout: WorkspaceLayout,
    s: ScreenSize,
) -> bool {
    &&& order.len() <= u32::MAX
    &&& order.len() > 0 ==> s.wf()
    &&& forall|i: int|
        0 <= i < order.len() ==> #[trigger] windows.contains_key(order[i]) && windows[order[i]].fits(
            layout_bounds(layout, s, order.len() as nat, i as nat),
        )
}

/// The requests that place and show the first `k` windows of `order`.
pub open spec fn layout_actions(
    windows: Map<u32, WindowState>,
    order: Seq<u32>,
    layout: WorkspaceLayout,
    s: ScreenSize,
    k: nat,
) -> Seq<XAction>
    decreases k,
{
    if k == 0 {
        Seq::empty()
    } else {
        let w = windows[order[k - 1]];
        layout_actions(windows, order, layout, s, (k - 1) as nat) + w.placed(
            layout_bounds(layout, s, order.len() as nat, (k - 1) as nat),
        ) + w.drawn()
    }
}

/// Whether laying out these windows stays within the integer ranges: the
/// full-screen window fills the screen, or every window fits its place.
pub open spec fn remap_fits(
    windows: Map<u32, WindowState>,
    order: Seq<u32>,
    fullscreen: Option<u32>,
    layout: WorkspaceLayout,
    s: ScreenSize,
) -> bool {
    match fullscreen {
        Some(f) => windows.contains_key(f) && windows[f].fits(full_screen(s)),
        None => layout_fits(windows, order, layout, s),
    }
}

/// The requests of laying out these windows, appended to `before`: with a
/// full-screen window, all windows hidden (in some order, with the server held) and the full-screen
/// one placed on the whole screen without its frame; otherwise each window
/// in order placed where the layout puts it and shown.
pub open spec fn remap_result(
    windows: Map<u32, WindowState>,
    order: Seq<u32>,
    fullscreen: Option<u32>,
    layout: WorkspaceLayout,
    s: ScreenSize,
    before: Seq<XAction>,
    after: Seq<XAction>,
) -> bool {
    match fullscreen {
        Some(f) => exists|ks: Seq<u32>|
            lists_once(ks, windows.dom()) && after == before + grabbed(unmap_all(ks)) + windows[f].placed(
                full_screen(s),
            ) + windows[f].drawn_frameless(),
        None => after == before + layout_actions(windows, order, layout, s, order.len() as nat),
    }
}

/// The window that moving the focus in direction `mov` gives it to, if any.
pub open spec fn focus_target(order: Seq<u32>, focused: Option<u32>, mov: Movement) -> Option<u32> {
    let len = order.len() as int;
    match focused {
        Some(f) => if len < 2 {
            None
        } else {
            let pos = first_index(order, f);
            match mov {
                Movement::Left => Some(
                    if pos == 0 {
                        order[len - 1]
                    } else {
                        order[pos - 1]
                    },
                ),
                Movement::Right => Some(
                    if pos == len - 1 {
                        order[0]
                    } else {
                        order[pos + 1]
                    },
                ),
                _ => None,
            }
        },
        None => if len > 0 {
            Some(order[0])
        } else {
            None
        },
    }
}

/// The position that the focused window at `pos` swaps with when it moves in
/// direction `mov` (left and right wrap around).
pub open spec fn swap_partner(len: int, pos: int, mov: Movement) -> Option<int> {
    match mov {
        Movement::Left => Some(
            if pos == 0 {
                len - 1
            } else {
                pos - 1
            },
        ),
        Movement::Right => Some(
            if pos == len - 1 {
                0
            } else {
                pos + 1
            },
        ),
        _ => None,
    }
}

/// `s` with the elements at `a` and `b` exchanged.
pub open spec fn swapped(s: Seq<u32>, a: int, b: int) -> Seq<u32> {
    s.update(a, s[b]).update(b, s[a])
}

/// The window order after moving the focused window in direction `mov`.
pub open spec fn moved_order(order: Seq<u32>, focused: Option<u32>, mov: Movement) -> Seq<u32> {
    match focused {
        Some(f) => if order.len() < 2 {
            order
        } else {
            let pos = first_index(order, f);
            match swap_partner(order.len() as int, pos, mov) {
                Some(p) => swapped(order, pos, p),
                None => order,
            }
        },
        None => order,
    }
}

/// The windows with `extra`, if any, recorded under its id.
pub open spec fn windows_with(windows: Map<u32, WindowState>, extra: Option<WindowState>) -> Map<
    u32,
    WindowState,
> {
    match extra {
        Some(w) => windows.insert(w.window, w),
        None => windows,
    }
}

/// The order with `extra`, if any, appended.
pub open spec fn order_with(order: Seq<u32>, extra: Option<WindowState>) -> Seq<u32> {
    match extra {
        Some(w) => order.push(w.window),
        None => order,
    }
}

/// The window that an optional reference points to.
pub open spec fn opt_window(extra: Option<&WindowState>) -> Option<WindowState> {
    match extra {
        Some(w) => Some(*w),
        None => None,
    }
}

/// Whether window `j` of `order` is known and fits the place that `layout`
/// gives it among `n` windows.
pub open spec fn fits_at(
    windows: Map<u32, WindowState>,
    order: Seq<u32>,
    layout: WorkspaceLayout,
    s: ScreenSize,
    n: nat,
    j: int,
) -> bool {
    windows.contains_key(order[j]) && windows[order[j]].fits(layout_bounds(layout, s, n, j as nat))
}

/// Whether laying out the windows, with `extra` appended if given, stays
/// within the integer ranges.
#[verifier::spinoff_prover]
pub fn remap_fits_check(
    windows: &HashMap<u32, WindowState>,
    order: &Vec<u32>,
    extra: Option<&WindowState>,
    fullscreen: Option<u32>,
    layout: WorkspaceLayout,
    s: &ScreenSize,
) -> (r: bool)
    ensures
        r == remap_fits(
            windows_with(windows@, opt_window(extra)),
            order_with(order@, opt_window(extra)),
            fullscreen,
            layout,
            *s,
        ),
{
    let ghost all = windows_with(windows@, opt_window(extra));
    let ghost ord = order_with(order@, opt_window(extra));
    match fullscreen {
        Some(f) => {
            let found: Option<&WindowState> = match extra {
                Some(w) => if w.window == f {
                    Some(w)
                } else {
                    windows.get(&f)
                },
                None => windows.get(&f),
            };
            match found {
                Some(w) => {
                    assert(all.contains_key(f) && all[f] == *w);
                    w.fits_bounds(Bounds { x: 0, y: 0, width: s.width, height: s.height })
                },
                None => false,
            }
        },
        None => {
            let len = order.len() as u64;
            if len > u32::MAX as u64 {
                return false;
            }
            let n64: u64 = match extra {
                Some(_) => len + 1,
                None => len,
            };
            if n64 > u32::MAX as u64 {
                return false;
            }
            let n = n64 as usize;
            assert(n == ord.len());
            if n > 0 && !s.is_wf() {
                return false;
            }
            let mut i: usize = 0;
            while i < n
                invariant
                    n == ord.len(),
                    n <= u32::MAX,
                    n > 0 ==> s.wf(),
                    i <= n,
                    fullscreen is None,
                    all == windows_with(windows@, opt_window(extra)),
                    ord == order_with(order@, opt_window(extra)),
                    forall|j: int| 0 <= j < i ==> #[trigger] fits_at(all, ord, layout, *s, n as nat, j),
                decreases n - i,
            {
                let id = if i < order.len() {
                    order[i]
                } else {
                    match extra {
                        Some(w) => w.window,
                        None => 0,
                    }
                };
                assert(id == ord[i as int]);
                let found: Option<&WindowState> = match extra {
                    Some(w) => if w.window == id {
                        Some(w)
                    } else {
                        windows.get(&id)
                    },
                    None => windows.get(&id),
                };
                let w = match found {
                    Some(w) => w,
                    None => {
                        let ghost k: int = i as int;
                        assert(!all.contains_key(ord[k]));
                        assert(!layout_fits(all, ord, layout, *s));
                        return false;
                    },
                };
                assert(all.contains_key(id) && all[id] == *w);
                let b = compute_bounds(layout, s, n, i);
                let ghost ii: int = i as int;
                assert(b == layout_bounds(layout, *s, n as nat, ii as nat));
                if !w.fits_bounds(b) {
                    assert(!all[ord[ii]].fits(layout_bounds(layout, *s, ord.len() as nat, ii as nat)));
                    assert(!layout_fits(all, ord, layout, *s));
                    return false;
                }
                assert(fits_at(all, ord, layout, *s, n as nat, ii));
                i = i + 1;
            }
            assert forall|j: int| 0 <= j < ord.len() implies #[trigger] all.contains_key(ord[j])
                && all[ord[j]].fits(layout_bounds(layout, *s, ord.len() as nat, j as nat)) by {
                assert(fits_at(all, ord, layout, *s, n as nat, j));
            }
            true
        },
    }
}


/// Dropping a window that neither the order nor the full-screen window
/// names does not change whether a layout fits.
proof fn lemma_fits_without(
    windows: Map<u32, WindowState>,
    w: u32,
    order: Seq<u32>,
    fullscreen: Option<u32>,
    layout: WorkspaceLayout,
    s: ScreenSize,
)
    requires
        !order.contains(w),
        fullscreen != Some(w),
    ensures
        remap_fits(windows.remove(w), order, fullscreen, layout, s) == remap_fits(
            windows,
            order,
            fullscreen,
            layout,
            s,
        ),
{
    let r = windows.remove(w);
    assert forall|i: int| 0 <= i < order.len() implies (r.contains_key(order[i]) == windows.contains_key(
        order[i],
    )) && (r.contains_key(order[i]) ==> r[order[i]] == windows[order[i]]) by {
        assert(order[i] != w);
    }
    if layout_fits(r, order, layout, s) {
        assert forall|i: int| 0 <= i < order.len() implies #[trigger] windows.contains_key(order[i])
            && windows[order[i]].fits(layout_bounds(layout, s, order.len() as nat, i as nat)) by {
            assert(r.contains_key(order[i]));
        }
    }
    if layout_fits(windows, order, layout, s) {
        assert forall|i: int| 0 <= i < order.len() implies #[trigger] r.contains_key(order[i])
            && r[order[i]].fits(layout_bounds(layout, s, order.len() as nat, i as nat)) by {
            assert(windows.contains_key(order[i]));
        }
    }
}

impl Workspace {
    /// The windows are exactly those in the order, each under its own id.
    pub open spec fn wf(&self) -> bool {
        &&& self.windows@.dom() == self.order@.to_set()
        &&& forall|k: u32| #[trigger] self.windows@.contains_key(k) ==> self.windows@[k].window == k
    }

    /// Whether laying out this workspace stays within the integer ranges.
    pub open spec fn remap_ok(&self, s: ScreenSize) -> bool {
        remap_fits(self.windows@, self.order@, self.fullscreen, self.layout, s)
    }

    /// The requests of laying out this workspace, appended to `before`.
    pub open spec fn remapped(&self, s: ScreenSize, before: Seq<XAction>, after: Seq<XAction>) -> bool {
        remap_result(self.windows@, self.order@, self.fullscreen, self.layout, s, before, after)
    }

    /// An empty workspace.
    pub fn new(name: u16, default_layout: WorkspaceLayout) -> (r: Workspace)
        ensures
            r.wf(),
            r.name == name,
            r.focused_window is None,
            r.fullscreen is None,
            !r.urgent,
            r.windows@ == Map::<u32, WindowState>::empty(),
            r.order@ == Seq::<u32>::empty(),
            r.layout == default_layout,
    {
        let r = Workspace {
            name,
            focused_window: None,
            fullscreen: None,
            urgent: false,
            windows: HashMap::new(),
            order: Vec::new(),
            layout: default_layout,
        };
        assert(r.order@.to_set() =~= Set::<u32>::empty());
        r
    }

    /// Whether laying out this workspace's windows in `order`, with
    /// `fullscreen` and `layout`, stays within the integer ranges.
    pub fn fits_as(&self, order: &Vec<u32>, fullscreen: Option<u32>, layout: WorkspaceLayout, s: &ScreenSize) -> (r: bool)
        ensures
            r == remap_fits(self.windows@, order@, fullscreen, layout, *s),
    {
        let r = remap_fits_check(&self.windows, order, None, fullscreen, layout, s);
        assert(windows_with(self.windows@, None) == self.windows@);
        assert(order_with(order@, None) == order@);
        r
    }

    /// Whether laying out this workspace stays within the integer ranges.
    pub fn remap_ok_check(&self, s: &ScreenSize) -> (r: bool)
        ensures
            r == self.remap_ok(*s),
    {
        self.fits_as(&self.order, self.fullscreen, self.layout, s)
    }

    /// Whether laying out this workspace with `win` appended stays within
    /// the integer ranges.
    pub fn fits_with(&self, win: &WindowState, s: &ScreenSize) -> (r: bool)
        ensures
            r == self@.with(*win).remap_ok(*s),
    {
        remap_fits_check(&self.windows, &self.order, Some(win), self.fullscreen, self.layout, s)
    }

    /// Whether laying out this workspace without window `w` stays within the
    /// integer ranges.
    pub fn remove_ok_check(&self, w: u32, s: &ScreenSize) -> (r: bool)
        ensures
            r == self.remove_ok(w, *s),
    {
        let order = without(&self.order, w);
        let fullscreen = if self.fullscreen == Some(w) {
            None
        } else {
            self.fullscreen
        };
        proof {
            assert(!order@.contains(w)) by {
                if order@.contains(w) {
                    let i = choose|i: int| 0 <= i < order@.len() && order@[i] == w;
                    self.order@.lemma_filter_pred(differs_from(w), i);
                }
            }
            lemma_fits_without(self.windows@, w, order@, fullscreen, self.layout, *s);
        }
        self.fits_as(&order, fullscreen, self.layout, s)
    }

    /// The order once the focused window moved in direction `mov`.
    pub fn moved_order_of(&self, mov: Movement) -> (r: Vec<u32>)
        requires
            self@.focus_known(),
        ensures
            r@ == moved_order(self.order@, self.focused_window, mov),
    {
        let mut r: Vec<u32> = Vec::new();
        let n = self.order.len();
        let mut i: usize = 0;
        while i < n
            invariant
                n == self.order@.len(),
                i <= n,
                r@ == self.order@.take(i as int),
            decreases n - i,
        {
            r.push(self.order[i]);
            assert(self.order@.take(i + 1) =~= self.order@.take(i as int).push(self.order@[i as int]));
            i = i + 1;
        }
        assert(self.order@.take(n as int) =~= self.order@);
        if let Some(focused_win) = self.focused_window {
            if n >= 2 {
                let pos = position(&self.order, focused_win);
                let partner: Option<usize> = match mov {
                    Movement::Left => Some(
                        if pos == 0 {
                            n - 1
                        } else {
                            pos - 1
                        },
                    ),
                    Movement::Right => Some(
                        if pos == n - 1 {
                            0
                        } else {
                            pos + 1
                        },
                    ),
                    Movement::Up => None,
                    Movement::Down => None,
                };
                if let Some(p) = partner {
                    let a = r[pos];
                    let b = r[p];
                    r.set(pos, b);
                    r.set(p, a);
                }
            }
        }
        assert(r@ =~= moved_order(self.order@, self.focused_window, mov));
        r
    }

    /// The focused window, if any.
    pub fn get_focused_window(&self) -> (r: Option<u32>)
        ensures
            r == self.focused_window,
    {
        self.focused_window
    }

    /// Holds the server, hides every window of the workspace, in the map's
    /// order, and lets the server go.
    pub fn unmap_windows(&self, actions: &mut Vec<XAction>)
        ensures
            exists|ks: Seq<u32>|
                lists_once(ks, self.windows@.dom()) && final(actions)@ == old(actions)@ + grabbed(
                    unmap_all(ks),
                ),
    {
        let ks = keys_of(&self.windows);
        let n = ks.len();
        let mut i: usize = 0;
        actions.push(XAction::GrabServer);
        while i < n
            invariant
                n == ks@.len(),
                i <= n,
                actions@ == old(actions)@ + seq![XAction::GrabServer] + unmap_all(ks@.take(i as int)),
            decreases n - i,
        {
            actions.push(XAction::UnmapWindow { window: ks[i] });
            assert(unmap_all(ks@.take(i + 1)) =~= unmap_all(ks@.take(i as int)).push(
                XAction::UnmapWindow { window: ks@[i as int] },
            ));
            i = i + 1;
        }
        actions.push(XAction::UngrabServer);
        assert(ks@.take(n as int) =~= ks@);
        assert(actions@ =~= old(actions)@ + grabbed(unmap_all(ks@)));
    }

    /// Places and shows the windows: the full-screen one alone if there is
    /// one, otherwise all of them by the layout.
    pub fn remap_windows(&self, s: &ScreenSize, actions: &mut Vec<XAction>)
        requires
            self.remap_ok(*s),
        ensures
            self.remapped(*s, old(actions)@, final(actions)@),
    {
        match self.fullscreen {
            Some(f) => {
                self.unmap_windows(actions);
                let ghost mid = actions@;
                let window = self.windows.get(&f).unwrap();
                let full = Bounds { x: 0, y: 0, width: s.width, height: s.height };
                window.set_bounds(full, actions);
                window.draw_frameless(actions);
                let ghost ks = choose|ks: Seq<u32>|
                    lists_once(ks, self.windows@.dom()) && mid == old(actions)@ + grabbed(unmap_all(ks));
                assert(actions@ =~= old(actions)@ + grabbed(unmap_all(ks)) + self.windows@[f].placed(
                    full_screen(*s),
                ) + self.windows@[f].drawn_frameless());
            },
            None => {
                let n = self.order.len();
                let mut i: usize = 0;
                while i < n
                    invariant
                        n == self.order@.len(),
                        i <= n,
                        layout_fits(self.windows@, self.order@, self.layout, *s),
                        actions@ == old(actions)@ + layout_actions(
                            self.windows@,
                            self.order@,
                            self.layout,
                            *s,
                            i as nat,
                        ),
                    decreases n - i,
                {
                    let id = self.order[i];
                    assert(self.windows@.contains_key(self.order@[i as int]));
                    let window = self.windows.get(&id).unwrap();
                    let b = compute_bounds(self.layout, s, n, i);
                    window.set_bounds(b, actions);
                    window.draw(actions);
                    assert(actions@ =~= old(actions)@ + layout_actions(
                        self.windows@,
                        self.order@,
                        self.layout,
                        *s,
                        (i + 1) as nat,
                    ));
                    i = i + 1;
                }
            },
        }
    }

    /// Equal in everything but the focused window.
    pub open spec fn same_but_focus(&self, o: &Workspace) -> bool {
        &&& self.name == o.name
        &&& self.fullscreen == o.fullscreen
        &&& self.urgent == o.urgent
        &&& self.windows@ == o.windows@
        &&& self.order@ == o.order@
        &&& self.layout == o.layout
    }

    /// Gives the input focus to `winid`.
    pub fn focus_window(&mut self, winid: u32, actions: &mut Vec<XAction>)
        ensures
            final(self).focused_window == Some(winid),
            final(self).same_but_focus(old(self)),
            final(actions)@ == old(actions)@.push(XAction::Focus { window: winid }),
    {
        self.focused_window = Some(winid);
        actions.push(XAction::Focus { window: winid });
    }

    /// Forgets the focused window.
    pub fn unfocus_window(&mut self)
        ensures
            final(self).focused_window is None,
            final(self).same_but_focus(old(self)),
    {
        self.focused_window = None;
    }

    /// Moves the focus to the neighbour of the focused window in the order
    /// (left and right wrap around; up and down do nothing), or to the first
    /// window when none is focused.
    pub fn move_focus(&mut self, mov: Movement, actions: &mut Vec<XAction>)
        requires
            old(self).focused_window is Some && old(self).order@.len() >= 2
                ==> old(self).order@.contains(old(self).focused_window->Some_0),
        ensures
            final(self).same_but_focus(old(self)),
            match focus_target(old(self).order@, old(self).focused_window, mov) {
                Some(t) => final(self).focused_window == Some(t) && final(actions)@ == old(
                    actions,
                )@.push(XAction::Focus { window: t }),
                None => final(self).focused_window == old(self).focused_window && final(actions)@
                    == old(actions)@,
            },
    {
        let len = self.order.len();
        if let Some(focused_win) = self.get_focused_window() {
            if len < 2 {
                return;
            }
            let pos = position(&self.order, focused_win);
            match mov {
                Movement::Left => {
                    let target = if pos == 0 {
                        self.order[len - 1]
                    } else {
                        self.order[pos - 1]
                    };
                    self.focus_window(target, actions);
                },
                Movement::Right => {
                    let target = if pos == len - 1 {
                        self.order[0]
                    } else {
                        self.order[pos + 1]
                    };
                    self.focus_window(target, actions);
                },
                Movement::Up => {},
                Movement::Down => {},
            }
        } else {
            if len > 0 {
                let target = self.order[0];
                self.focus_window(target, actions);
            }
        }
    }

    /// Exchanges the focused window with its neighbour in the order (left
    /// and right wrap around) and lays the windows out again; up and down
    /// only lay them out again. Returns the moved window.
    pub fn move_window(&mut self, mov: Movement, s: &ScreenSize, actions: &mut Vec<XAction>) -> (r:
        Option<u32>)
        requires
            old(self).wf(),
            old(self).focused_window is Some && old(self).order@.len() >= 2 ==> {
                &&& old(self).order@.contains(old(self).focused_window->Some_0)
                &&& remap_fits(
                    old(self).windows@,
                    moved_order(old(self).order@, old(self).focused_window, mov),
                    old(self).fullscreen,
                    old(self).layout,
                    *s,
                )
            },
        ensures
            final(self).wf(),
            final(self).order@ == moved_order(old(self).order@, old(self).focused_window, mov),
            final(self).name == old(self).name,
            final(self).focused_window == old(self).focused_window,
            final(self).fullscreen == old(self).fullscreen,
            final(self).urgent == old(self).urgent,
            final(self).windows@ == old(self).windows@,
            final(self).layout == old(self).layout,
            match old(self).focused_window {
                Some(f) => if old(self).order@.len() >= 2 {
                    &&& r == (if mov is Left || mov is Right {
                        Some(f)
                    } else {
                        None::<u32>
                    })
                    &&& final(self).remapped(*s, old(actions)@, final(actions)@)
                } else {
                    r is None && final(actions)@ == old(actions)@
                },
                None => r is None && final(actions)@ == old(actions)@,
            },
    {
        let len = self.order.len();
        let mut move_occured: Option<u32> = None;
        if let Some(focused_win) = self.get_focused_window() {
            if len < 2 {
                return move_occured;
            }
            let pos = position(&self.order, focused_win);
            let partner: Option<usize> = match mov {
                Movement::Left => Some(
                    if pos == 0 {
                        len - 1
                    } else {
                        pos - 1
                    },
                ),
                Movement::Right => Some(
                    if pos == len - 1 {
                        0
                    } else {
                        pos + 1
                    },
                ),
                Movement::Up => None,
                Movement::Down => None,
            };
            if let Some(p) = partner {
                let a = self.order[pos];
                let b = self.order[p];
                proof {
                    lemma_swap_to_set(self.order@, pos as int, p as int);
                }
                self.order.set(pos, b);
                self.order.set(p, a);
                move_occured = Some(focused_win);
            }
            assert(self.order@ =~= moved_order(old(self).order@, old(self).focused_window, mov));
            self.remap_windows(s, actions);
        }
        move_occured
    }

    /// Gives the workspace another number.
    pub fn rename(&mut self, name: u16)
        ensures
            final(self).name == name,
            final(self).focused_window == old(self).focused_window,
            final(self).fullscreen == old(self).fullscreen,
            final(self).urgent == old(self).urgent,
            final(self).windows@ == old(self).windows@,
            final(self).order@ == old(self).order@,
            final(self).layout == old(self).layout,
    {
        self.name = name;
    }

    /// Appends a window to the order and records it under its id.
    pub fn add_window(&mut self, win: WindowState)
        requires
            old(self).wf(),
        ensures
            final(self).wf(),
            final(self).order@ == old(self).order@.push(win.window),
            final(self).windows@ == old(self).windows@.insert(win.window, win),
            final(self).same_but_content(old(self)),
            final(self).focused_window == old(self).focused_window,
    {
        let id = win.window;
        self.order.push(id);
        self.windows.insert(id, win);
        proof {
            old(self).order@.lemma_push_to_set_commute(id);
        }
        assert(self.windows@.dom() =~= old(self).windows@.dom().insert(id));
    }

    /// Equal in name, full-screen window, urgency and layout.
    pub open spec fn same_but_content(&self, o: &Workspace) -> bool {
        &&& self.name == o.name
        &&& self.fullscreen == o.fullscreen
        &&& self.urgent == o.urgent
        &&& self.layout == o.layout
    }

    /// Switches the focused window to full screen, or back from full screen,
    /// and lays the windows out again; without a focused window nothing
    /// happens.
    pub fn toggle_fullscreen(&mut self, s: &ScreenSize, actions: &mut Vec<XAction>)
        requires
            old(self).focused_window matches Some(f) ==> remap_fits(
                old(self).windows@,
                old(self).order@,
                if old(self).fullscreen is Some {
                    None
                } else {
                    Some(f)
                },
                old(self).layout,
                *s,
            ),
        ensures
            final(self).name == old(self).name,
            final(self).focused_window == old(self).focused_window,
            final(self).urgent == old(self).urgent,
            final(self).windows@ == old(self).windows@,
            final(self).order@ == old(self).order@,
            final(self).layout == old(self).layout,
            match old(self).focused_window {
                Some(f) => {
                    &&& final(self).fullscreen == (if old(self).fullscreen is Some {
                        None
                    } else {
                        Some(f)
                    })
                    &&& final(self).remapped(*s, old(actions)@, final(actions)@)
                },
                None => final(self).fullscreen == old(self).fullscreen && final(actions)@ == old(
                    actions,
                )@,
            },
    {
        if let Some(focused_win) = self.get_focused_window() {
            match self.fullscreen {
                Some(_) => {
                    self.fullscreen = None;
                },
                None => {
                    self.fullscreen = Some(focused_win);
                },
            }
            self.remap_windows(s, actions);
        }
    }

    /// Forgets every window, then hides each and disconnects its client.
    pub fn kill_all_windows(&mut self, actions: &mut Vec<XAction>)
        ensures
            final(self).wf(),
            final(self).windows@ == Map::<u32, WindowState>::empty(),
            final(self).order@ == Seq::<u32>::empty(),
            final(self).same_but_content(old(self)),
            final(self).focused_window == old(self).focused_window,
            exists|ks: Seq<u32>|
                lists_once(ks, old(self).windows@.dom()) && final(actions)@ == old(actions)@
                    + unmap_and_kill_all(ks),
    {
        let ks = keys_of(&self.windows);
        self.windows.clear();
        self.order.clear();
        let n = ks.len();
        let mut i: usize = 0;
        while i < n
            invariant
                n == ks@.len(),
                i <= n,
                actions@ == old(actions)@ + unmap_and_kill_all(ks@.take(i as int)),
            decreases n - i,
        {
            actions.push(XAction::UnmapWindow { window: ks[i] });
            actions.push(XAction::Kill { window: ks[i] });
            assert(ks@.take(i + 1).drop_last() =~= ks@.take(i as int));
            assert(actions@ =~= old(actions)@ + unmap_and_kill_all(ks@.take(i + 1)));
            i = i + 1;
        }
        assert(ks@.take(n as int) =~= ks@);
        assert(self.order@.to_set() =~= Set::<u32>::empty());
    }

    /// The workspace after dropping window `w`.
    pub open spec fn without_window(&self, w: u32) -> (Map<u32, WindowState>, Seq<u32>, Option<u32>) {
        (
            self.windows@.remove(w),
            self.order@.filter(differs_from(w)),
            if self.fullscreen == Some(w) {
                None
            } else {
                self.fullscreen
            },
        )
    }

    /// Whether laying out the workspace without window `w` stays within the
    /// integer ranges.
    pub open spec fn remove_ok(&self, w: u32, s: ScreenSize) -> bool {
        let (windows, order, fullscreen) = self.without_window(w);
        remap_fits(windows, order, fullscreen, self.layout, s)
    }

    /// Drops window `win_id` (leaving full screen if it was the full-screen
    /// window), lays out the rest, then hides it with the server held.
    pub fn remove_window(&mut self, win_id: u32, s: &ScreenSize, actions: &mut Vec<XAction>)
        requires
            old(self).wf(),
            old(self).remove_ok(win_id, *s),
        ensures
            final(self).wf(),
            (final(self).windows@, final(self).order@, final(self).fullscreen)
                == old(self).without_window(win_id),
            final(self).name == old(self).name,
            final(self).focused_window == old(self).focused_window,
            final(self).urgent == old(self).urgent,
            final(self).layout == old(self).layout,
            exists|mid: Seq<XAction>|
                final(self).remapped(*s, old(actions)@, mid) && final(actions)@ == mid + hidden(win_id),
    {
        if self.fullscreen == Some(win_id) {
            self.fullscreen = None;
        }
        self.windows.remove(&win_id);
        self.order = without(&self.order, win_id);
        proof {
            lemma_without_to_set(old(self).order@, win_id);
            assert(self.windows@.dom() =~= old(self).windows@.dom().remove(win_id));
        }
        self.remap_windows(s, actions);
        let ghost mid = actions@;
        actions.push(XAction::GrabServer);
        actions.push(XAction::UnmapWindow { window: win_id });
        actions.push(XAction::UngrabServer);
        assert(actions@ =~= mid + hidden(win_id));
    }

    /// Whether a window's protocols property, as its type name and atom
    /// names, offers the delete-window protocol, so that the window can be
    /// asked to close itself.
    pub fn is_softkill_supported(prop_type: &Option<String>, atoms: &Vec<String>) -> (r: bool)
        ensures
            r == lists_atom(
                match prop_type {
                    Some(t) => Some(t@),
                    None => None,
                },
                texts(atoms@),
                "WM_DELETE_WINDOW"@,
            ),
    {
        property_lists_atom(prop_type, atoms, "WM_DELETE_WINDOW")
    }

    /// Closes window `winid`: asks it to close itself when it supports
    /// that, otherwise disconnects its client and drops it.
    pub fn kill_window(
        &mut self,
        winid: u32,
        softkill_supported: bool,
        s: &ScreenSize,
        actions: &mut Vec<XAction>,
    )
        requires
            old(self).wf(),
            !softkill_supported ==> old(self).remove_ok(winid, *s),
        ensures
            final(self).wf(),
            softkill_supported ==> *final(self) == *old(self) && final(actions)@ == old(actions)@.push(
                XAction::SoftKill { window: winid },
            ),
            !softkill_supported ==> {
                &&& (final(self).windows@, final(self).order@, final(self).fullscreen)
                    == old(self).without_window(winid)
                &&& final(self).name == old(self).name
                &&& final(self).focused_window == old(self).focused_window
                &&& final(self).urgent == old(self).urgent
                &&& final(self).layout == old(self).layout
                &&& exists|mid: Seq<XAction>|
                    final(self).remapped(*s, old(actions)@.push(XAction::Kill { window: winid }), mid)
                        && final(actions)@ == mid + hidden(winid)
            },
    {
        if softkill_supported {
            actions.push(XAction::SoftKill { window: winid });
        } else {
            actions.push(XAction::Kill { window: winid });
            self.remove_window(winid, s, actions);
        }
    }

    /// Switches to `layout` and lays the windows out again.
    pub fn set_layout(&mut self, layout: WorkspaceLayout, s: &ScreenSize, actions: &mut Vec<XAction>)
        requires
            remap_fits(old(self).windows@, old(self).order@, old(self).fullscreen, layout, *s),
        ensures
            final(self).layout == layout,
            final(self).name == old(self).name,
            final(self).focused_window == old(self).focused_window,
            final(self).fullscreen == old(self).fullscreen,
            final(self).urgent == old(self).urgent,
            final(self).windows@ == old(self).windows@,
            final(self).order@ == old(self).order@,
            final(self).remapped(*s, old(actions)@, final(actions)@),
    {
        self.layout = layout;
        self.remap_windows(s, actions);
    }

    /// Switches to the layout that follows the current one and lays the
    /// windows out (twice, as setting a layout already does so once).
    pub fn next_layout(&mut self, s: &ScreenSize, actions: &mut Vec<XAction>)
        requires
            remap_fits(
                old(self).windows@,
                old(self).order@,
                old(self).fullscreen,
                next_layout_of(old(self).layout),
                *s,
            ),
        ensures
            final(self).layout == next_layout_of(old(self).layout),
            final(self).name == old(self).name,
            final(self).focused_window == old(self).focused_window,
            final(self).fullscreen == old(self).fullscreen,
            final(self).urgent == old(self).urgent,
            final(self).windows@ == old(self).windows@,
            final(self).order@ == old(self).order@,
            exists|mid: Seq<XAction>|
                final(self).remapped(*s, old(actions)@, mid) && final(self).remapped(
                    *s,
                    mid,
                    final(actions)@,
                ),
    {
        let next = self.layout.next();
        self.set_layout(next, s, actions);
        let ghost mid = actions@;
        self.remap_windows(s, actions);
    }
}

/// In a workspace whose order lists each window once and holds the focused
/// window, with at least two windows, moving the focus left and then right
/// gives it back to the window that had it, and so does moving it right
/// and then left.
pub proof fn lemma_focus_left_then_right(m: WorkspaceModel)
    requires
        m.order.no_duplicates(),
        m.focused_window matches Some(f) && m.order.contains(f),
        m.order.len() >= 2,
    ensures
        m.focus_moved(Movement::Left).focus_moved(Movement::Right) == m,
        m.focus_moved(Movement::Right).focus_moved(Movement::Left) == m,
{
    let f = m.focused_window->Some_0;
    let len = m.order.len() as int;
    let i = choose|i: int| 0 <= i < len && m.order[i] == f;
    lemma_index_no_dup(m.order, i);
    let l = if i == 0 { len - 1 } else { i - 1 };
    let r = if i == len - 1 { 0 } else { i + 1 };
    lemma_index_no_dup(m.order, l);
    lemma_index_no_dup(m.order, r);
    assert(m.focus_moved(Movement::Left).focus_moved(Movement::Right) =~= m);
    assert(m.focus_moved(Movement::Right).focus_moved(Movement::Left) =~= m);
}

/// With the focused window at position `i` of an order without repeats,
/// exchanging it with position `p` puts its first position at `p`.
proof fn lemma_swapped_position(order: Seq<u32>, i: int, p: int)
    requires
        order.no_duplicates(),
        0 <= i < order.len(),
        0 <= p < order.len(),
        i != p,
    ensures
        first_index(swapped(order, i, p), order[i]) == p,
{
    let t = swapped(order, i, p);
    let f = order[i];
    assert forall|j: int| 0 <= j < p implies t[j] != f by {
        if j == i {
            assert(order[p] != order[i]);
        } else {
            assert(order[j] != order[i]);
        }
    }
    lemma_first_index_unique(t, f, p);
}

/// In a workspace whose order lists each window once and holds the focused
/// window, with at least two windows, moving the focused window left and
/// then right restores the order, and so does moving it right and then
/// left.
pub proof fn lemma_move_left_then_right(m: WorkspaceModel)
    requires
        m.order.no_duplicates(),
        m.focused_window matches Some(f) && m.order.contains(f),
        m.order.len() >= 2,
    ensures
        m.window_moved(Movement::Left).window_moved(Movement::Right) == m,
        m.window_moved(Movement::Right).window_moved(Movement::Left) == m,
{
    let f = m.focused_window->Some_0;
    let len = m.order.len() as int;
    let i = choose|i: int| 0 <= i < len && m.order[i] == f;
    lemma_index_no_dup(m.order, i);
    let l = if i == 0 { len - 1 } else { i - 1 };
    let r = if i == len - 1 { 0 } else { i + 1 };
    lemma_swapped_position(m.order, i, l);
    lemma_swapped_position(m.order, i, r);
    assert(swapped(swapped(m.order, i, l), l, i) =~= m.order);
    assert(swapped(swapped(m.order, i, r), r, i) =~= m.order);
    assert(m.window_moved(Movement::Left).window_moved(Movement::Right) =~= m);
    assert(m.window_moved(Movement::Right).window_moved(Movement::Left) =~= m);
}

/// Switching the focused window to full screen makes it the full-screen
/// window, and switching again restores the workspace; windows, order and
/// focus stay as they are. Without a focused window nothing changes.
pub proof fn lemma_fullscreen_twice(m: WorkspaceModel)
    requires
        m.fullscreen is None,
    ensures
        m.fullscreen_toggled().fullscreen_toggled() == m,
        m.focused_window matches Some(f) ==> m.fullscreen_toggled().fullscreen == Some(f),
        m.focused_window is None ==> m.fullscreen_toggled() == m,
        m.fullscreen_toggled().windows == m.windows,
        m.fullscreen_toggled().order == m.order,
        m.fullscreen_toggled().focused_window == m.focused_window,
{
}

/// Adding a window that a well-formed workspace does not have, and then
/// dropping it, restores the workspace.
pub proof fn lemma_add_then_remove(m: WorkspaceModel, w: WindowState)
    requires
        m.wf(),
        !m.windows.contains_key(w.window),
        m.fullscreen != Some(w.window),
    ensures
        m.with(w).without(w.window) == m,
{
    assert(!m.order.contains(w.window)) by {
        if m.order.contains(w.window) {
            let i = choose|i: int| 0 <= i < m.order.len() && m.order[i] == w.window;
            assert(m.order.to_set().contains(w.window));
        }
    }
    let x = w.window;
    assert(m.order.push(x) =~= m.order + seq![x]);
    Seq::filter_distributes_over_add(m.order, seq![x], differs_from(x));
    reveal(Seq::filter);
    assert(seq![x].drop_last() =~= Seq::<u32>::empty());
    assert(Seq::<u32>::empty().filter(differs_from(x)) =~= Seq::<u32>::empty());
    assert(seq![x].filter(differs_from(x)) =~= Seq::<u32>::empty());
    lemma_filter_absent(m.order, x);
    assert(m.with(w).without(x).order =~= m.order);
    assert(m.with(w).without(x).windows =~= m.windows);
    assert(m.with(w).without(x) =~= m);
}

/// In an order of at least two windows, with the focused window first met at
/// position `p`: moving the focus right gives it to the window at the next
/// position (the first after the last), moving it left to the window at the
/// previous position (the last before the first), and up or down keeps it.
/// Left and right always reach another position than `p`.
pub proof fn lemma_focus_goes_to_neighbour(order: Seq<u32>, p: int)
    requires
        order.len() >= 2,
        0 <= p < order.len(),
        forall|j: int| 0 <= j < p ==> order[j] != order[p],
    ensures
        focus_target(order, Some(order[p]), Movement::Right) == Some(order[(p + 1) % (order.len() as int)]),
        focus_target(order, Some(order[p]), Movement::Left) == Some(
            order[(p + order.len() - 1) % (order.len() as int)],
        ),
        (p + 1) % (order.len() as int) != p,
        (p + order.len() - 1) % (order.len() as int) != p,
        focus_target(order, Some(order[p]), Movement::Up) is None,
        focus_target(order, Some(order[p]), Movement::Down) is None,
        order.no_duplicates() ==> focus_target(order, Some(order[p]), Movement::Right) != Some(
            order[p],
        ) && focus_target(order, Some(order[p]), Movement::Left) != Some(order[p]),
{
    let len = order.len() as int;
    lemma_first_index_unique(order, order[p], p);
    if p == len - 1 {
        assert((p + 1) % len == 0) by {
            vstd::arithmetic::div_mod::lemma_mod_self_0(len);
        }
    } else {
        assert((p + 1) % len == p + 1) by {
            vstd::arithmetic::div_mod::lemma_small_mod((p + 1) as nat, len as nat);
        }
    }
    if p == 0 {
        assert((p + len - 1) % len == len - 1) by {
            vstd::arithmetic::div_mod::lemma_small_mod((len - 1) as nat, len as nat);
        }
    } else {
        assert((p + len - 1) % len == p - 1) by {
            vstd::arithmetic::div_mod::lemma_mod_add_multiples_vanish(p - 1, len);
            vstd::arithmetic::div_mod::lemma_small_mod((p - 1) as nat, len as nat);
        }
    }
}

/// Without a focused window, moving the focus in any direction gives it to
/// the first window, if there is one.
pub proof fn lemma_focus_starts_at_first(order: Seq<u32>, mov: Movement)
    ensures
        order.len() > 0 ==> focus_target(order, None, mov) == Some(order[0]),
        order.len() == 0 ==> focus_target(order, None, mov) is None,
{
}

/// In an order of at least two windows, with the focused window first met at
/// position `p`: moving it right exchanges it with the window at the next
/// position (the first after the last), moving it left with the window at
/// the previous position (the last before the first); every other position
/// keeps its window. Up and down leave the order as it is.
pub proof fn lemma_move_swaps_with_neighbour(order: Seq<u32>, p: int)
    requires
        order.len() >= 2,
        0 <= p < order.len(),
        forall|j: int| 0 <= j < p ==> order[j] != order[p],
    ensures
        ({
            let len = order.len() as int;
            let q = (p + 1) % len;
            let t = moved_order(order, Some(order[p]), Movement::Right);
            &&& t.len() == len
            &&& q != p
            &&& t[q] == order[p]
            &&& t[p] == order[q]
            &&& forall|j: int| 0 <= j < len && j != p && j != q ==> t[j] == order[j]
        }),
        ({
            let len = order.len() as int;
            let q = (p + len - 1) % len;
            let t = moved_order(order, Some(order[p]), Movement::Left);
            &&& t.len() == len
            &&& q != p
            &&& t[q] == order[p]
            &&& t[p] == order[q]
            &&& forall|j: int| 0 <= j < len && j != p && j != q ==> t[j] == order[j]
        }),
        moved_order(order, Some(order[p]), Movement::Up) == order,
        moved_order(order, Some(order[p]), Movement::Down) == order,
{
    let len = order.len() as int;
    lemma_first_index_unique(order, order[p], p);
    if p == len - 1 {
        assert((p + 1) % len == 0) by {
            vstd::arithmetic::div_mod::lemma_mod_self_0(len);
        }
    } else {
        assert((p + 1) % len == p + 1) by {
            vstd::arithmetic::div_mod::lemma_small_mod((p + 1) as nat, len as nat);
        }
    }
    if p == 0 {
        assert((p + len - 1) % len == len - 1) by {
            vstd::arithmetic::div_mod::lemma_small_mod((len - 1) as nat, len as nat);
        }
    } else {
        assert((p + len - 1) % len == p - 1) by {
            vstd::arithmetic::div_mod::lemma_mod_add_multiples_vanish(p - 1, len);
            vstd::arithmetic::div_mod::lemma_small_mod((p - 1) as nat, len as nat);
        }
    }
}

} // verus!
