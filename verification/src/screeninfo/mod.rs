//! A screen: its size, the area left to workspaces, and its workspaces.
pub mod error;

use std::collections::HashMap;
use vstd::prelude::*;

use crate::action::{grabbed, hidden, lists_once, unmap_all, unmap_and_kill_all, XAction};
use crate::text::{around_decimal, decimal};
use crate::util::{
    greatest_below, greatest_below_in, is_greatest_below, is_least_above, keys_of, least_above,
    least_above_in, lemma_greatest_below_exists, lemma_greatest_below_is, lemma_least_above_exists,
    lemma_least_above_is,
};
use crate::windowstate::WindowState;
use crate::workspace::workspace_layout::WorkspaceLayout;
use crate::workspace::workspace_navigation::WorkspaceNavigation;
use crate::workspace::{Workspace, WorkspaceModel};
use self::error::{MoveError, QuitError};

verus! {

broadcast use vstd::std_specs::hash::group_hash_axioms;

/// The lowest number a workspace can have.
pub const LOWEST_WORKSPACE_NR: u16 = 1;

/// The size of a screen and the part of it that workspaces fill.
#[derive(Debug, Clone, Copy, PartialEq, Eq, Structural)]
pub struct ScreenSize {
    pub width: u32,
    pub height: u32,
    pub ws_pos_x: i32,
    pub ws_pos_y: i32,
    pub ws_width: u32,
    pub ws_height: u32,
}

impl ScreenSize {
    /// The workspace area starts at a non-negative position and ends within
    /// the positive range of a coordinate.
    pub open spec fn wf(&self) -> bool {
        &&& 0 <= self.ws_pos_x
        &&& 0 <= self.ws_pos_y
        &&& self.ws_pos_x + self.ws_width <= i32::MAX
        &&& self.ws_pos_y + self.ws_height <= i32::MAX
    }

    /// Whether the workspace area starts at a non-negative position and ends
    /// within the positive range of a coordinate.
    pub fn is_wf(&self) -> (r: bool)
        ensures
            r == self.wf(),
    {
        0 <= self.ws_pos_x && 0 <= self.ws_pos_y && (self.ws_pos_x as i64) + (self.ws_width as i64)
            <= i32::MAX as i64 && (self.ws_pos_y as i64) + (self.ws_height as i64) <= i32::MAX as i64
    }

    /// A screen of this size whose workspaces fill all of it.
    pub open spec fn whole(width: u32, height: u32) -> ScreenSize {
        ScreenSize { width, height, ws_pos_x: 0, ws_pos_y: 0, ws_width: width, ws_height: height }
    }

    /// A screen whose workspaces fill all of it.
    pub fn default(width: u32, height: u32) -> (r: ScreenSize)
        ensures
            r == ScreenSize::whole(width, height),
    {
        ScreenSize { width, height, ws_pos_x: 0, ws_pos_y: 0, ws_width: width, ws_height: height }
    }
}

/// A screen and its workspaces.
///
/// The active workspace is kept apart from the others. It is `listed` when
/// it is also one of the screen's workspaces; closing the active workspace
/// unlists it until another one is chosen.
#[derive(Debug)]
pub struct ScreenInfo {
    pub workspaces: HashMap<u16, Workspace>,
    pub active_workspace: Workspace,
    pub active_listed: bool,
    pub default_layout: WorkspaceLayout,
    pub screen_size: ScreenSize,
    pub status_bar: Option<WindowState>,
}

/// What a screen is, as a value.
pub struct ScreenModel {
    /// The screen's workspaces by number.
    pub spaces: Map<u16, WorkspaceModel>,
    /// The active workspace.
    pub active: WorkspaceModel,
    /// Whether the active workspace is one of `spaces`.
    pub listed: bool,
    pub default_layout: WorkspaceLayout,
    pub screen_size: ScreenSize,
    pub status_bar: Option<WindowState>,
}

impl View for ScreenInfo {
    type V = ScreenModel;

    open spec fn view(&self) -> ScreenModel {
        let others = self.workspaces@.map_values(|w: Workspace| w@);
        ScreenModel {
            spaces: if self.active_listed {
                others.insert(self.active_workspace.name, self.active_workspace@)
            } else {
                others
            },
            active: self.active_workspace@,
            listed: self.active_listed,
            default_layout: self.default_layout,
            screen_size: self.screen_size,
            status_bar: self.status_bar,
        }
    }
}

/// The requests of closing workspace `n` of `m`, appended to `before`: each
/// of its windows (in some order) hidden and its client disconnected.
pub open spec fn quit_actions(m: ScreenModel, n: u16, before: Seq<XAction>, after: Seq<XAction>) -> bool {
    if m.spaces.contains_key(n) {
        exists|ks: Seq<u32>|
            lists_once(ks, m.spaces[n].windows.dom()) && after == before + unmap_and_kill_all(ks)
    } else {
        after == before
    }
}

/// Whether a status bar of height `h` at vertical position `y` sits at the
/// bottom of the screen.
pub open spec fn bar_at_bottom(s: ScreenSize, y: i16, h: u16) -> bool {
    y as i32 == ((s.height - h) as u32) as i32
}

/// The screen once a status bar of height `h` at `y` takes its share: at the
/// bottom, the workspaces lose its height and start at the top of the
/// screen; elsewhere they start below it.
pub open spec fn screen_with_bar(s: ScreenSize, y: i16, h: u16) -> ScreenSize {
    if bar_at_bottom(s, y, h) {
        ScreenSize { ws_height: (s.height - h) as u32, ws_pos_y: 0, ..s }
    } else {
        ScreenSize { ws_pos_y: h as i32, ws_height: (s.height - h) as u32, ..s }
    }
}

/// The status bar window once placed: the size of the bar, no border and no
/// gap; away from the bottom it is moved to the origin.
pub open spec fn placed_bar(s: ScreenSize, bar: WindowState, y: i16, w: u16, h: u16) -> WindowState {
    let moved = if bar_at_bottom(s, y, h) {
        bar
    } else {
        WindowState { x: 0, y: 0, ..bar }
    };
    WindowState { width: w as u32, height: h as u32, border_width: 0, gap_size: 0, ..moved }
}

/// The requests of laying out the workspaces `ks` of `spaces` one after the
/// other, appended to `before`: `mids` holds the requests after each step.
pub open spec fn remap_steps(
    spaces: Map<u16, WorkspaceModel>,
    ks: Seq<u16>,
    s: ScreenSize,
    mids: Seq<Seq<XAction>>,
) -> bool {
    &&& mids.len() == ks.len() + 1
    &&& forall|i: int|
        0 <= i < ks.len() ==> #[trigger] spaces[ks[i]].remapped(s, mids[i], mids[i + 1])
}

/// The requests of laying out the workspaces `ks` of `spaces` one after the
/// other, appended to `before`.
pub open spec fn remap_chain(
    spaces: Map<u16, WorkspaceModel>,
    ks: Seq<u16>,
    s: ScreenSize,
    before: Seq<XAction>,
    after: Seq<XAction>,
) -> bool {
    exists|mids: Seq<Seq<XAction>>|
        #[trigger] remap_steps(spaces, ks, s, mids) && mids[0] == before && mids.last() == after
}

impl ScreenModel {
    /// Every workspace is well formed and recorded under its own number;
    /// a listed active workspace is the one recorded under its number.
    pub open spec fn wf(self) -> bool {
        &&& self.active.wf()
        &&& forall|k: u16| #[trigger]
            self.spaces.contains_key(k) ==> self.spaces[k].name == k && self.spaces[k].wf()
        &&& self.listed ==> self.spaces.contains_key(self.active.name) && self.spaces[self.active.name]
            == self.active
    }

    /// The numbers of the workspaces.
    pub open spec fn names(self) -> Set<u16> {
        self.spaces.dom()
    }

    /// The screen with workspace `n` added, if it was missing.
    pub open spec fn created(self, n: u16) -> ScreenModel {
        if self.spaces.contains_key(n) {
            self
        } else {
            ScreenModel {
                spaces: self.spaces.insert(n, WorkspaceModel::fresh(n, self.default_layout)),
                ..self
            }
        }
    }

    /// The screen with workspace `n` closed: it is no longer one of the
    /// workspaces, and if it is the active one, the active workspace loses
    /// its windows and is no longer listed.
    pub open spec fn quit(self, n: u16) -> ScreenModel {
        ScreenModel {
            spaces: self.spaces.remove(n),
            active: if self.listed && self.active.name == n {
                self.active.emptied()
            } else {
                self.active
            },
            listed: self.listed && self.active.name != n,
            ..self
        }
    }

    /// The screen with workspace `n` made active, if there is one.
    pub open spec fn switched(self, n: u16) -> ScreenModel {
        if self.spaces.contains_key(n) {
            ScreenModel { active: self.spaces[n], listed: true, ..self }
        } else {
            self
        }
    }

    /// Whether going to workspace `n` closes the active workspace: it has no
    /// windows and is not `n`.
    pub open spec fn leaves_empty(self, n: u16) -> bool {
        self.active.windows.dom() == Set::<u32>::empty() && self.active.name != n
    }

    /// The screen after the first step of going to workspace `n`: the
    /// active workspace closed if it is empty and not `n`.
    pub open spec fn before_switch(self, n: u16) -> ScreenModel {
        if self.leaves_empty(n) {
            self.quit(self.active.name)
        } else {
            self
        }
    }

    /// The screen after going to workspace `n`: the active workspace closed
    /// if it is empty and not `n`, workspace `n` created if it is missing,
    /// and `n` made active.
    pub open spec fn after_set(self, n: u16) -> ScreenModel {
        self.before_switch(n).created(n).switched(n)
    }

    /// The requests of going to workspace `n`, appended to `before`: the
    /// active workspace's windows hidden (in some order, with the server held), the active
    /// workspace closed if it is empty and not `n`, and workspace `n` (created
    /// if it was missing) laid out.
    pub open spec fn set_actions(self, n: u16, before: Seq<XAction>, after: Seq<XAction>) -> bool {
        exists|ks: Seq<u32>|
            #[trigger] lists_once(ks, self.active.windows.dom()) && self.set_actions_after_unmap(
                n,
                before + grabbed(unmap_all(ks)),
                after,
            )
    }

    /// The rest of the requests of going to workspace `n`, once the active
    /// workspace's windows are hidden.
    pub open spec fn set_actions_after_unmap(self, n: u16, before: Seq<XAction>, after: Seq<XAction>) -> bool {
        if self.leaves_empty(n) {
            exists|mid: Seq<XAction>|
                #[trigger] quit_actions(self, self.active.name, before, mid) && self.set_actions_last(
                    n,
                    mid,
                    after,
                )
        } else {
            self.set_actions_last(n, before, after)
        }
    }

    /// The last requests of going to workspace `n`: laying it out.
    pub open spec fn set_actions_last(self, n: u16, before: Seq<XAction>, after: Seq<XAction>) -> bool {
        self.before_switch(n).created(n).spaces[n].remapped(self.screen_size, before, after)
    }

    /// The workspace after the active one (wrapping around to the lowest).
    pub open spec fn next_workspace(self) -> u16 {
        match least_above(self.names(), self.active.name as int) {
            Some(x) => x,
            None => match least_above(self.names(), -1) {
                Some(x) => x,
                None => LOWEST_WORKSPACE_NR,
            },
        }
    }

    /// The workspace before the active one (wrapping around to the highest).
    pub open spec fn previous_workspace(self) -> u16 {
        match greatest_below(self.names(), self.active.name as int) {
            Some(x) => x,
            None => match greatest_below(self.names(), 0x10000) {
                Some(x) => x,
                None => LOWEST_WORKSPACE_NR,
            },
        }
    }

    /// `i` is the lowest workspace number in use by no workspace.
    pub open spec fn is_first_free(self, i: u16) -> bool {
        &&& LOWEST_WORKSPACE_NR <= i < u16::MAX
        &&& !self.names().contains(i)
        &&& forall|j: u16| LOWEST_WORKSPACE_NR <= j < i ==> #[trigger] self.names().contains(j)
    }

    /// The lowest number not in use (the highest number if all are).
    pub open spec fn next_free_workspace(self) -> u16 {
        if exists|i: u16| self.is_first_free(i) {
            choose|i: u16| self.is_first_free(i)
        } else {
            u16::MAX
        }
    }

    /// The workspace number that `arg` leads to; none for number 0.
    pub open spec fn navigation_target(self, arg: WorkspaceNavigation) -> Option<u16> {
        match arg {
            WorkspaceNavigation::Next => Some(self.next_workspace()),
            WorkspaceNavigation::Previous => Some(self.previous_workspace()),
            WorkspaceNavigation::NextFree => Some(self.next_free_workspace()),
            WorkspaceNavigation::Number(n) => if n >= LOWEST_WORKSPACE_NR {
                Some(n)
            } else {
                None
            },
        }
    }

    /// Whether moving the focused window to workspace `nr` takes place: the
    /// workspace exists, is not the active one, and a window is focused.
    pub open spec fn moves_window(self, nr: u16) -> bool {
        &&& self.spaces.contains_key(nr)
        &&& self.active.name != nr
        &&& self.active.focused_window is Some
    }

    /// The screen after moving the focused window to workspace `nr`, where
    /// it is added as `state`.
    pub open spec fn move_outcome(self, nr: u16, state: WindowState) -> ScreenModel {
        if self.moves_window(nr) {
            let f = self.active.focused_window->Some_0;
            let active = self.active.without(f);
            let spaces = if self.listed {
                self.spaces.insert(self.active.name, active)
            } else {
                self.spaces
            };
            ScreenModel { active, spaces: spaces.insert(nr, spaces[nr].with(state)), ..self }
        } else {
            self
        }
    }

    /// The requests of moving the focused window to workspace `nr`, appended
    /// to `before`: the active workspace laid out without it, then the
    /// window hidden.
    pub open spec fn move_actions(self, nr: u16, before: Seq<XAction>, after: Seq<XAction>) -> bool {
        if self.moves_window(nr) {
            let f = self.active.focused_window->Some_0;
            exists|mid: Seq<XAction>|
                #[trigger] self.active.without(f).remapped(self.screen_size, before, mid) && after
                    == mid + hidden(f)
        } else {
            after == before
        }
    }

    /// A screen of the given size with the single, empty workspace 1,
    /// which is active.
    pub open spec fn initial(width: u32, height: u32, layout: WorkspaceLayout) -> ScreenModel {
        ScreenModel {
            spaces: Map::empty().insert(LOWEST_WORKSPACE_NR, WorkspaceModel::fresh(LOWEST_WORKSPACE_NR, layout)),
            active: WorkspaceModel::fresh(LOWEST_WORKSPACE_NR, layout),
            listed: true,
            default_layout: layout,
            screen_size: ScreenSize::whole(width, height),
            status_bar: None,
        }
    }

    /// The screen with `a` as its active workspace, also among the
    /// workspaces if the active one is listed.
    pub open spec fn with_active(self, a: WorkspaceModel) -> ScreenModel {
        ScreenModel {
            active: a,
            spaces: if self.listed {
                self.spaces.insert(self.active.name, a)
            } else {
                self.spaces
            },
            ..self
        }
    }

    /// The workspace that closing the active one goes to: the next lower
    /// one, else the next higher one, else the lowest number.
    pub open spec fn select_after_quit(self) -> u16 {
        match greatest_below(self.names(), self.active.name as int) {
            Some(x) => x,
            None => match least_above(self.names(), self.active.name as int) {
                Some(x) => x,
                None => LOWEST_WORKSPACE_NR,
            },
        }
    }

    /// The screen once closing the active workspace has created the lowest
    /// workspace, when it has no other to go to.
    pub open spec fn quit_prepared(self) -> ScreenModel {
        if greatest_below(self.names(), self.active.name as int) is None && least_above(
            self.names(),
            self.active.name as int,
        ) is None {
            self.created(LOWEST_WORKSPACE_NR)
        } else {
            self
        }
    }

    /// Going to the workspace that `arg` leads to turns this screen into
    /// `post`, appends `after` to `before`, and succeeds or not (`ok`).
    pub open spec fn go_to_spec(
        self,
        arg: WorkspaceNavigation,
        post: ScreenModel,
        before: Seq<XAction>,
        after: Seq<XAction>,
        ok: bool,
    ) -> bool {
        match self.navigation_target(arg) {
            None => post == self && after == before && !ok,
            Some(nr) => {
                let p = self.prepared(arg, nr);
                if !p.spaces.contains_key(nr) {
                    post == p && after == before && !ok
                } else if self.active.name == nr {
                    post == p && after == before && ok
                } else {
                    post == p.after_set(nr) && p.set_actions(nr, before, after) && ok
                }
            },
        }
    }

    /// Moving the focused window to the workspace that `arg` leads to, as
    /// `state`, turns this screen into `post`, appends `after` to `before`,
    /// and succeeds or not (`ok`).
    pub open spec fn move_spec(
        self,
        arg: WorkspaceNavigation,
        state: WindowState,
        post: ScreenModel,
        before: Seq<XAction>,
        after: Seq<XAction>,
        ok: bool,
    ) -> bool {
        match self.navigation_target(arg) {
            None => post == self && after == before && !ok,
            Some(nr) => if self.active.focused_window is None {
                post == self && after == before && !ok
            } else {
                let p = self.prepared(arg, nr);
                &&& post == p.move_outcome(nr, state)
                &&& p.move_actions(nr, before, after)
                &&& ok == p.spaces.contains_key(nr)
            },
        }
    }

    /// Moving the focused window to the workspace that `arg` leads to, as
    /// `state`, and going there turns this screen into `post`, appends
    /// `after` to `before`, and succeeds or not (`ok`).
    pub open spec fn move_follow_spec(
        self,
        arg: WorkspaceNavigation,
        state: WindowState,
        post: ScreenModel,
        before: Seq<XAction>,
        after: Seq<XAction>,
        ok: bool,
    ) -> bool {
        match self.navigation_target(arg) {
            None => post == self && after == before && !ok,
            Some(nr) => if self.active.focused_window is None {
                post == self && after == before && !ok
            } else {
                let p = self.prepared(arg, nr);
                let q = p.move_outcome(nr, state);
                if !p.spaces.contains_key(nr) {
                    post == p && after == before && !ok
                } else {
                    &&& post == q.after_set(nr)
                    &&& exists|mid: Seq<XAction>|
                        #[trigger] p.move_actions(nr, before, mid) && q.set_actions(nr, mid, after)
                    &&& ok
                }
            },
        }
    }

    /// Closing the active workspace turns this screen into `post`, appends
    /// `after` to `before`, and succeeds or not (`ok`).
    pub open spec fn quit_select_spec(
        self,
        post: ScreenModel,
        before: Seq<XAction>,
        after: Seq<XAction>,
        ok: bool,
    ) -> bool {
        let p = self.quit_prepared();
        let n = self.select_after_quit();
        let q = p.after_set(n);
        let gone = self.active.name;
        &&& if gone == q.active.name {
            &&& post == q.with_active(q.active.emptied())
            &&& ok
            &&& exists|mid: Seq<XAction>, ks: Seq<u32>|
                #[trigger] p.set_actions(n, before, mid) && #[trigger] lists_once(
                    ks,
                    q.active.windows.dom(),
                ) && after == mid + unmap_and_kill_all(ks)
        } else {
            &&& post == q.quit(gone)
            &&& ok == q.spaces.contains_key(gone)
            &&& exists|mid: Seq<XAction>|
                #[trigger] p.set_actions(n, before, mid) && quit_actions(q, gone, mid, after)
        }
    }

    /// The screen once a creating navigation has added its target.
    pub open spec fn prepared(self, arg: WorkspaceNavigation, nr: u16) -> ScreenModel {
        if arg.is_create_if_not_exists_spec() && !self.spaces.contains_key(nr) {
            self.created(nr)
        } else {
            self
        }
    }
}

impl ScreenInfo {
    /// The exec fields agree with the model's invariant: every stored
    /// workspace is well formed and stored under its number, and a listed
    /// active workspace is not stored among the others.
    pub open spec fn wf(&self) -> bool {
        &&& self.active_workspace.wf()
        &&& forall|k: u16| #[trigger]
            self.workspaces@.contains_key(k) ==> self.workspaces@[k].name == k
                && self.workspaces@[k].wf()
        &&& self.active_listed ==> !self.workspaces@.contains_key(self.active_workspace.name)
    }

    pub proof fn lemma_wf_view(&self)
        requires
            self.wf(),
        ensures
            self@.wf(),
    {
        let m = self@;
        assert forall|k: u16| #[trigger] m.spaces.contains_key(k) implies m.spaces[k].name == k
            && m.spaces[k].wf() by {
            if self.active_listed && k == self.active_workspace.name {
            } else {
                assert(self.workspaces@.contains_key(k));
            }
        }
    }

    /// A screen whose active workspace changed but kept its number stays well
    /// formed, and is the old screen with the new active workspace.
    pub proof fn lemma_with_active(old_s: &ScreenInfo, new_s: &ScreenInfo)
        requires
            old_s.wf(),
            new_s.workspaces@ == old_s.workspaces@,
            new_s.active_listed == old_s.active_listed,
            new_s.same_frame(old_s),
            new_s.active_workspace.name == old_s.active_workspace.name,
            new_s.active_workspace.wf(),
        ensures
            new_s.wf(),
            new_s@ == old_s@.with_active(new_s.active_workspace@),
    {
        assert(new_s@.spaces =~= old_s@.with_active(new_s.active_workspace@).spaces);
    }

    /// A screen of the given size with the single, empty workspace 1.
    pub fn new(width: u32, height: u32, default_layout: WorkspaceLayout) -> (r: ScreenInfo)
        ensures
            r.wf(),
            r@ == ScreenModel::initial(width, height, default_layout),
    {
        let r = ScreenInfo {
            workspaces: HashMap::new(),
            active_workspace: Workspace::new(LOWEST_WORKSPACE_NR, default_layout),
            active_listed: true,
            default_layout,
            screen_size: ScreenSize::default(width, height),
            status_bar: None,
        };
        assert(r@.spaces =~= Map::<u16, WorkspaceModel>::empty().insert(
            LOWEST_WORKSPACE_NR,
            WorkspaceModel::fresh(LOWEST_WORKSPACE_NR, default_layout),
        ));
        r
    }

    /// The active workspace.
    pub fn get_active_workspace(&self) -> (r: &Workspace)
        ensures
            r == &self.active_workspace,
    {
        &self.active_workspace
    }

    /// Whether workspace `n` exists on this screen.
    pub fn contains_workspace(&self, n: u16) -> (r: bool)
        ensures
            r == self@.spaces.contains_key(n),
    {
        self.workspaces.contains_key(&n) || (self.active_listed && self.active_workspace.name == n)
    }

    /// Workspace `nr`, if there is one.
    pub fn workspace_ref(&self, nr: u16) -> (r: Option<&Workspace>)
        requires
            self.wf(),
        ensures
            match r {
                Some(w) => self@.spaces.contains_key(nr) && w@ == self@.spaces[nr] && w.wf(),
                None => !self@.spaces.contains_key(nr),
            },
    {
        if self.active_listed && self.active_workspace.name == nr {
            Some(&self.active_workspace)
        } else {
            self.workspaces.get(&nr)
        }
    }

    /// Whether workspace `nr`, if there is one, stays within the integer
    /// ranges when laid out on a screen of size `s`.
    pub fn space_fits(&self, nr: u16, s: &ScreenSize) -> (r: bool)
        requires
            self.wf(),
        ensures
            r == (self@.spaces.contains_key(nr) ==> self@.spaces[nr].remap_ok(*s)),
    {
        match self.workspace_ref(nr) {
            Some(w) => w.remap_ok_check(s),
            None => true,
        }
    }

    /// Whether workspace `nr`, or a fresh one if there is none, stays within
    /// the integer ranges with `win` appended.
    pub fn space_with_fits(&self, nr: u16, win: &WindowState) -> (r: bool)
        requires
            self.wf(),
        ensures
            r == (if self@.spaces.contains_key(nr) {
                self@.spaces[nr]
            } else {
                WorkspaceModel::fresh(nr, self.default_layout)
            }).with(*win).remap_ok(self.screen_size),
    {
        match self.workspace_ref(nr) {
            Some(w) => w.fits_with(win, &self.screen_size),
            None => {
                let fresh = Workspace::new(nr, self.default_layout);
                fresh.fits_with(win, &self.screen_size)
            },
        }
    }

    /// Whether laying out every workspace on a screen of size `s` stays
    /// within the integer ranges.
    pub fn all_spaces_fit(&self, s: &ScreenSize) -> (r: bool)
        requires
            self.wf(),
        ensures
            r == forall|k: u16| #[trigger] self@.spaces.contains_key(k) ==> self@.spaces[k].remap_ok(*s),
    {
        let names = self.listed_names();
        let n = names.len();
        let mut i: usize = 0;
        while i < n
            invariant
                n == names@.len(),
                i <= n,
                self.wf(),
                lists_once(names@, self@.spaces.dom()),
                forall|j: int| 0 <= j < i ==> self@.spaces[#[trigger] names@[j]].remap_ok(*s),
            decreases n - i,
        {
            assert(names@.to_set().contains(names@[i as int]));
            if !self.space_fits(names[i], s) {
                return false;
            }
            i = i + 1;
        }
        assert forall|k: u16| #[trigger] self@.spaces.contains_key(k) implies self@.spaces[k].remap_ok(*s) by {
            assert(names@.to_set().contains(k));
            let j = choose|j: int| 0 <= j < names@.len() && names@[j] == k;
        }
        true
    }

    /// The numbers of the workspaces, each once.
    pub fn listed_names(&self) -> (r: Vec<u16>)
        requires
            self.wf(),
        ensures
            lists_once(r@, self@.spaces.dom()),
    {
        let mut ks = keys_of(&self.workspaces);
        if self.active_listed {
            proof {
                ks@.lemma_push_to_set_commute(self.active_workspace.name);
                assert(!ks@.contains(self.active_workspace.name));
            }
            ks.push(self.active_workspace.name);
        }
        assert(ks@.to_set() =~= self@.spaces.dom());
        ks
    }

    /// The number of workspaces.
    pub fn get_workspace_count(&self) -> (r: usize)
        requires
            self.wf(),
        ensures
            r == self@.spaces.dom().len(),
    {
        let ks = self.listed_names();
        proof {
            ks@.unique_seq_to_set();
        }
        ks.len()
    }

    /// Equal in default layout, screen size and status bar.
    pub open spec fn same_frame(&self, o: &ScreenInfo) -> bool {
        &&& self.default_layout == o.default_layout
        &&& self.screen_size == o.screen_size
        &&& self.status_bar == o.status_bar
    }

    /// Adds an empty workspace `n` unless there is one.
    pub fn create_workspace(&mut self, n: u16)
        requires
            old(self).wf(),
        ensures
            final(self).wf(),
            final(self)@ == old(self)@.created(n),
    {
        if !self.contains_workspace(n) {
            let w = Workspace::new(n, self.default_layout);
            assert(w@ == WorkspaceModel::fresh(n, self.default_layout));
            self.workspaces.insert(n, w);
            assert(self@.spaces =~= old(self)@.spaces.insert(
                n,
                WorkspaceModel::fresh(n, self.default_layout),
            ));
        }
    }

    /// Closes workspace `n`: forgets it, hides its windows and disconnects
    /// their clients.
    pub fn quit_workspace(&mut self, n: u16, actions: &mut Vec<XAction>) -> (r: Result<
        (),
        QuitError,
    >)
        requires
            old(self).wf(),
        ensures
            final(self).wf(),
            final(self)@ == old(self)@.quit(n),
            quit_actions(old(self)@, n, old(actions)@, final(actions)@),
            r is Ok <==> old(self)@.spaces.contains_key(n),
            r is Err ==> r->Err_0.reason() == "now workspace with workspace_name "@ + decimal(
                n as nat,
            ),
    {
        if self.active_listed && self.active_workspace.name == n {
            self.active_listed = false;
            self.active_workspace.kill_all_windows(actions);
            proof {
                old(self).lemma_wf_view();
                let ks = choose|ks: Seq<u32>|
                    lists_once(ks, old(self).active_workspace.windows@.dom()) && actions@ == old(
                        actions,
                    )@ + unmap_and_kill_all(ks);
                assert(old(self)@.spaces[n] == old(self).active_workspace@);
                assert(lists_once(ks, old(self)@.spaces[n].windows.dom()));
            }
            assert(self.active_workspace@ =~= old(self).active_workspace@.emptied());
            assert(self@.spaces =~= old(self)@.spaces.remove(n));
            Ok(())
        } else if self.workspaces.contains_key(&n) {
            let removed = self.workspaces.remove(&n);
            match removed {
                Some(mut w) => {
                    assert(w@ == old(self)@.spaces[n]);
                    let ghost before = w@;
                    w.kill_all_windows(actions);
                    proof {
                        let ks = choose|ks: Seq<u32>|
                            lists_once(ks, before.windows.dom()) && actions@ == old(actions)@
                                + unmap_and_kill_all(ks);
                        assert(lists_once(ks, old(self)@.spaces[n].windows.dom()));
                    }
                },
                None => {},
            }
            assert(self@.spaces =~= old(self)@.spaces.remove(n));
            Ok(())
        } else {
            assert(self@.spaces =~= old(self)@.spaces.remove(n));
            let msg = around_decimal("now workspace with workspace_name ", n as u64, "");
            proof {
                reveal_strlit("");
                assert(msg@ =~= "now workspace with workspace_name "@ + decimal(n as nat));
            }
            Err(QuitError::new(msg))
        }
    }

    /// Makes workspace `n` the active one, if there is one; a listed active
    /// workspace stays among the workspaces.
    pub fn activate(&mut self, n: u16) -> (r: bool)
        requires
            old(self).wf(),
        ensures
            final(self).wf(),
            final(self)@ == old(self)@.switched(n),
            r == old(self)@.spaces.contains_key(n),
    {
        proof {
            self.lemma_wf_view();
        }
        if self.active_listed && self.active_workspace.name == n {
            assert(self@ == old(self)@.switched(n));
            return true;
        }
        let removed = self.workspaces.remove(&n);
        match removed {
            Some(mut w) => {
                let ghost prev = self.active_workspace@;
                std::mem::swap(&mut self.active_workspace, &mut w);
                if self.active_listed {
                    let name = w.name;
                    self.workspaces.insert(name, w);
                }
                self.active_listed = true;
                assert(self@.spaces =~= old(self)@.spaces);
                assert(self@.active == old(self)@.spaces[n]);
                assert(self@ == old(self)@.switched(n));
                true
            },
            None => {
                assert(self@.spaces =~= old(self)@.spaces);
                assert(self@ == old(self)@.switched(n));
                false
            },
        }
    }

    /// Goes to workspace `n`: hides the active workspace's windows, closes
    /// the active workspace if it has no windows and is not `n`, creates
    /// workspace `n` if it does not exist, then makes `n` active and lays it
    /// out.
    pub fn set_workspace(&mut self, n: u16, actions: &mut Vec<XAction>) -> (r: Result<(), ()>)
        requires
            old(self).wf(),
            old(self)@.spaces.contains_key(n) ==> old(self)@.spaces[n].remap_ok(
                old(self).screen_size,
            ),
        ensures
            final(self).wf(),
            final(self)@ == old(self)@.after_set(n),
            r is Ok,
            old(self)@.set_actions(n, old(actions)@, final(actions)@),
    {
        proof {
            self.lemma_wf_view();
        }
        let ghost m = self@;
        self.active_workspace.unmap_windows(actions);
        let ghost ks = choose|ks: Seq<u32>|
            lists_once(ks, m.active.windows.dom()) && actions@ == old(actions)@ + grabbed(unmap_all(ks));
        let empty = self.active_workspace.windows.is_empty();
        if empty && self.active_workspace.name != n {
            assert(m.leaves_empty(n)) by {
                assert(m.active.windows.dom() =~= Set::<u32>::empty());
            }
            let name = self.active_workspace.name;
            assert(actions@ == old(actions)@ + grabbed(unmap_all(ks)));
            let _ = self.quit_workspace(name, actions);
        } else {
            assert(!m.leaves_empty(n)) by {
                if m.active.windows.dom() == Set::<u32>::empty() {
                    assert(self.active_workspace.windows@.dom().len() == 0);
                }
            }
        }
        let ghost mid = actions@;
        assert(self@ == m.before_switch(n));
        self.create_workspace(n);
        proof {
            self.lemma_wf_view();
        }
        let ghost m1 = self@;
        assert(m1 == m.before_switch(n).created(n));
        assert(m1.spaces.contains_key(n));
        let _ = self.activate(n);
        assert(self.active_workspace@ == m1.spaces[n]);
        self.active_workspace.remap_windows(&self.screen_size, actions);
        assert(m.set_actions_last(n, mid, actions@));
        assert(m.set_actions_after_unmap(n, old(actions)@ + grabbed(unmap_all(ks)), actions@));
        assert(m.set_actions(n, old(actions)@, actions@));
        Ok(())
    }

    /// The lowest workspace number not in use (the highest if all are).
    pub fn find_next_free_workspace(&self) -> (r: u16)
        requires
            self.wf(),
        ensures
            r == self@.next_free_workspace(),
    {
        let mut i: u16 = LOWEST_WORKSPACE_NR;
        while i < u16::MAX
            invariant
                LOWEST_WORKSPACE_NR <= i <= u16::MAX,
                forall|j: u16| LOWEST_WORKSPACE_NR <= j < i ==> #[trigger] self@.names().contains(j),
            decreases u16::MAX - i,
        {
            if !self.contains_workspace(i) {
                proof {
                    assert(self@.is_first_free(i));
                    let c = choose|c: u16| self@.is_first_free(c);
                    if c < i {
                        assert(self@.names().contains(c));
                    } else if c > i {
                        assert(self@.names().contains(i));
                    }
                }
                return i;
            }
            i = i + 1;
        }
        assert forall|c: u16| !self@.is_first_free(c) by {
            if LOWEST_WORKSPACE_NR <= c < u16::MAX {
                assert(self@.names().contains(c));
            }
        }
        u16::MAX
    }

    /// The workspace after the active one (wrapping around to the lowest).
    pub fn find_next_workspace(&self) -> (r: u16)
        requires
            self.wf(),
        ensures
            r == self@.next_workspace(),
    {
        let names = self.listed_names();
        match least_above_in(&names, self.active_workspace.name as i32) {
            Some(x) => x,
            None => match least_above_in(&names, -1) {
                Some(x) => x,
                None => LOWEST_WORKSPACE_NR,
            },
        }
    }

    /// The workspace before the active one (wrapping around to the highest).
    pub fn find_previous_workspace(&self) -> (r: u16)
        requires
            self.wf(),
        ensures
            r == self@.previous_workspace(),
    {
        let names = self.listed_names();
        match greatest_below_in(&names, self.active_workspace.name as i32) {
            Some(x) => x,
            None => match greatest_below_in(&names, 0x10000) {
                Some(x) => x,
                None => LOWEST_WORKSPACE_NR,
            },
        }
    }

    /// The workspace after the active one, if there is one.
    pub fn find_next_highest_workspace_nr(&self) -> (r: Option<u16>)
        requires
            self.wf(),
        ensures
            r == least_above(self@.names(), self.active_workspace.name as int),
    {
        let names = self.listed_names();
        least_above_in(&names, self.active_workspace.name as i32)
    }

    /// The workspace before the active one, if there is one.
    pub fn find_next_lowest_workspace_nr(&self) -> (r: Option<u16>)
        requires
            self.wf(),
        ensures
            r == greatest_below(self@.names(), self.active_workspace.name as int),
    {
        let names = self.listed_names();
        greatest_below_in(&names, self.active_workspace.name as i32)
    }

    /// The workspace number that `arg` leads to; number 0 is refused.
    pub fn get_next_workspace_nr(&self, arg: WorkspaceNavigation) -> (r: Result<u16, MoveError>)
        requires
            self.wf(),
        ensures
            match self@.navigation_target(arg) {
                Some(nr) => r == Ok::<u16, MoveError>(nr),
                None => r is Err && r->Err_0.reason() == "workspace nr "@ + decimal(
                    arg->Number_0 as nat,
                ) + " has to be greater than or equal to 1"@,
            },
    {
        match arg {
            WorkspaceNavigation::Next => Ok(self.find_next_workspace()),
            WorkspaceNavigation::Previous => Ok(self.find_previous_workspace()),
            WorkspaceNavigation::NextFree => Ok(self.find_next_free_workspace()),
            WorkspaceNavigation::Number(number) => {
                if number >= LOWEST_WORKSPACE_NR {
                    Ok(number)
                } else {
                    Err(
                        MoveError::new(
                            around_decimal(
                                "workspace nr ",
                                number as u64,
                                " has to be greater than or equal to 1",
                            ),
                        ),
                    )
                }
            },
        }
    }

    /// Whether the active workspace has a focused window.
    pub fn is_window_on_active_workspace_selected(&self) -> (r: bool)
        ensures
            r == self.active_workspace.focused_window is Some,
    {
        match self.active_workspace.get_focused_window() {
            Some(_) => true,
            None => false,
        }
    }

    /// Goes to the workspace that `arg` leads to, creating it first when
    /// `arg` is a number or the next free one.
    pub fn go_to_workspace(&mut self, arg: WorkspaceNavigation, actions: &mut Vec<XAction>) -> (r:
        Result<(), MoveError>)
        requires
            old(self).wf(),
            old(self)@.navigation_target(arg) matches Some(nr) ==> (old(self)@.prepared(
                arg,
                nr,
            ).spaces.contains_key(nr) ==> old(self)@.prepared(arg, nr).spaces[nr].remap_ok(
                old(self).screen_size,
            )),
        ensures
            final(self).wf(),
            old(self)@.go_to_spec(arg, final(self)@, old(actions)@, final(actions)@, r is Ok),
            old(self)@.navigation_target(arg) is None ==> r is Err && r->Err_0.reason()
                == "workspace nr "@ + decimal(arg->Number_0 as nat)
                + " has to be greater than or equal to 1"@,
            match old(self)@.navigation_target(arg) {
                Some(nr) => !old(self)@.prepared(arg, nr).spaces.contains_key(nr) ==> r is Err
                    && r->Err_0.reason() == "could not go to workspace "@ + decimal(nr as nat)
                    + ", it does not exist on screen"@,
                None => true,
            },
    {
        let new_workspace_nr = match self.get_next_workspace_nr(arg) {
            Ok(next_workspace) => next_workspace,
            Err(error) => return Err(error),
        };
        if arg.is_create_if_not_exists() && !self.contains_workspace(new_workspace_nr) {
            self.create_workspace(new_workspace_nr);
        }
        if !self.contains_workspace(new_workspace_nr) {
            return Err(
                MoveError::new(
                    around_decimal(
                        "could not go to workspace ",
                        new_workspace_nr as u64,
                        ", it does not exist on screen",
                    ),
                ),
            );
        }
        if self.active_workspace.name == new_workspace_nr {
            return Ok(());
        }
        let ghost p = self@;
        assert(p.before_switch(new_workspace_nr).spaces.contains_key(new_workspace_nr));
        if self.set_workspace(new_workspace_nr, actions).is_err() {
            return Err(
                MoveError::new(
                    around_decimal("could not set workspace ", new_workspace_nr as u64, ""),
                ),
            );
        }
        Ok(())
    }

    /// Whether moving the focused window to workspace `nr` as `state` stays
    /// within the integer ranges and adds it under its own id.
    pub open spec fn move_ok(&self, nr: u16, state: WindowState) -> bool {
        self@.moves_window(nr) ==> {
            let f = self.active_workspace.focused_window->Some_0;
            &&& self.active_workspace.remove_ok(f, self.screen_size)
            &&& state.window == f
        }
    }

    /// Moves the focused window of the active workspace to workspace `nr`,
    /// where it is added as `state`.
    pub fn move_window_to_workspace_nr(
        &mut self,
        nr: u16,
        state: WindowState,
        actions: &mut Vec<XAction>,
    ) -> (r: Result<(), MoveError>)
        requires
            old(self).wf(),
            old(self).move_ok(nr, state),
        ensures
            final(self).wf(),
            final(self)@ == old(self)@.move_outcome(nr, state),
            old(self)@.move_actions(nr, old(actions)@, final(actions)@),
            r is Ok <==> old(self)@.spaces.contains_key(nr) && (old(self)@.active.name == nr
                || old(self)@.active.focused_window is Some),
            !old(self)@.spaces.contains_key(nr) ==> r is Err && r->Err_0.reason()
                == "could not move screen, workspace "@ + decimal(nr as nat)
                + " does not exist on screen"@,
            old(self)@.spaces.contains_key(nr) && old(self)@.active.name != nr
                && old(self)@.active.focused_window is None ==> r is Err && r->Err_0.reason()
                == "No active window"@,
    {
        proof {
            self.lemma_wf_view();
        }
        if !self.contains_workspace(nr) {
            return Err(
                MoveError::new(
                    around_decimal(
                        "could not move screen, workspace ",
                        nr as u64,
                        " does not exist on screen",
                    ),
                ),
            );
        }
        if self.active_workspace.name == nr {
            return Ok(());
        }
        let active_window = match self.active_workspace.get_focused_window() {
            Some(window) => window,
            None => {
                return Err(MoveError::new(String::from_str("No active window")));
            },
        };
        let ghost m = self@;
        self.active_workspace.remove_window(active_window, &self.screen_size, actions);
        assert(self.active_workspace@ == m.active.without(active_window));
        proof {
            let mid = choose|mid: Seq<XAction>|
                self.active_workspace.remapped(self.screen_size, old(actions)@, mid) && actions@
                    == mid + hidden(active_window);
            assert(m.active.without(active_window).remapped(m.screen_size, old(actions)@, mid));
        }
        let removed = self.workspaces.remove(&nr);
        match removed {
            Some(mut target) => {
                assert(target@ == m.spaces[nr]);
                target.add_window(state);
                self.workspaces.insert(nr, target);
            },
            None => {},
        }
        assert(self@.spaces =~= m.move_outcome(nr, state).spaces);
        assert(self@ == m.move_outcome(nr, state));
        Ok(())
    }

    /// Whether moving the focused window to workspace `nr` of `m`, a
    /// screen with this one's active workspace, stays within the integer
    /// ranges and adds the window under its own id.
    pub open spec fn move_ok_in(&self, m: ScreenModel, nr: u16, state: WindowState) -> bool {
        m.moves_window(nr) ==> {
            let f = self.active_workspace.focused_window->Some_0;
            &&& self.active_workspace.remove_ok(f, self.screen_size)
            &&& state.window == f
        }
    }

    /// Moves the focused window of the active workspace to the workspace
    /// that `arg` leads to, creating it first when `arg` is a number or the
    /// next free one.
    pub fn move_window_to_workspace(
        &mut self,
        arg: WorkspaceNavigation,
        state: WindowState,
        actions: &mut Vec<XAction>,
    ) -> (r: Result<(), MoveError>)
        requires
            old(self).wf(),
            old(self)@.navigation_target(arg) matches Some(nr) ==> old(self).move_ok_in(
                old(self)@.prepared(arg, nr),
                nr,
                state,
            ),
        ensures
            final(self).wf(),
            old(self)@.move_spec(arg, state, final(self)@, old(actions)@, final(actions)@, r is Ok),
            old(self)@.navigation_target(arg) is None ==> r is Err && r->Err_0.reason()
                == "workspace nr "@ + decimal(arg->Number_0 as nat)
                + " has to be greater than or equal to 1"@,
            old(self)@.navigation_target(arg) is Some && old(self)@.active.focused_window is None
                ==> r is Err && r->Err_0.reason() == "No window selected on active workspace"@,
            match old(self)@.navigation_target(arg) {
                Some(nr) => old(self)@.active.focused_window is Some && !old(self)@.prepared(
                    arg,
                    nr,
                ).spaces.contains_key(nr) ==> r is Err && r->Err_0.reason()
                    == "failed to move window to workspace nr "@ + decimal(nr as nat),
                None => true,
            },
    {
        let next_workspace = match self.get_next_workspace_nr(arg) {
            Ok(next_workspace) => next_workspace,
            Err(error) => return Err(error),
        };
        if !self.is_window_on_active_workspace_selected() {
            return Err(MoveError::new(String::from_str("No window selected on active workspace")));
        }
        if arg.is_create_if_not_exists() && !self.contains_workspace(next_workspace) {
            self.create_workspace(next_workspace);
        }
        if self.move_window_to_workspace_nr(next_workspace, state, actions).is_err() {
            let msg = around_decimal("failed to move window to workspace nr ", next_workspace as u64, "");
            proof {
                reveal_strlit("");
                assert(msg@ =~= "failed to move window to workspace nr "@ + decimal(next_workspace as nat));
            }
            return Err(MoveError::new(msg));
        }
        Ok(())
    }

    /// Moves the focused window of the active workspace to the workspace
    /// that `arg` leads to, as `move_window_to_workspace` does, then goes to
    /// that workspace.
    pub fn move_window_to_workspace_and_follow(
        &mut self,
        arg: WorkspaceNavigation,
        state: WindowState,
        actions: &mut Vec<XAction>,
    ) -> (r: Result<(), MoveError>)
        requires
            old(self).wf(),
            old(self)@.navigation_target(arg) matches Some(nr) ==> {
                let p = old(self)@.prepared(arg, nr);
                let q = p.move_outcome(nr, state);
                &&& old(self).move_ok_in(p, nr, state)
                &&& q.spaces.contains_key(nr) ==> q.spaces[nr].remap_ok(old(self).screen_size)
            },
        ensures
            final(self).wf(),
            old(self)@.move_follow_spec(
                arg,
                state,
                final(self)@,
                old(actions)@,
                final(actions)@,
                r is Ok,
            ),
            old(self)@.navigation_target(arg) is None ==> r is Err && r->Err_0.reason()
                == "workspace nr "@ + decimal(arg->Number_0 as nat)
                + " has to be greater than or equal to 1"@,
            old(self)@.navigation_target(arg) is Some && old(self)@.active.focused_window is None
                ==> r is Err && r->Err_0.reason() == "No window selected on active workspace"@,
            match old(self)@.navigation_target(arg) {
                Some(nr) => old(self)@.active.focused_window is Some && !old(self)@.prepared(
                    arg,
                    nr,
                ).spaces.contains_key(nr) ==> r is Err && r->Err_0.reason()
                    == "failed to move window to workspace nr "@ + decimal(nr as nat),
                None => true,
            },
    {
        let next_workspace = match self.get_next_workspace_nr(arg) {
            Ok(next_workspace) => next_workspace,
            Err(error) => return Err(error),
        };
        if !self.is_window_on_active_workspace_selected() {
            return Err(MoveError::new(String::from_str("No window selected on active workspace")));
        }
        if arg.is_create_if_not_exists() && !self.contains_workspace(next_workspace) {
            self.create_workspace(next_workspace);
        }
        let ghost p = self@;
        if self.move_window_to_workspace_nr(next_workspace, state, actions).is_err() {
            let msg = around_decimal("failed to move window to workspace nr ", next_workspace as u64, "");
            proof {
                reveal_strlit("");
                assert(msg@ =~= "failed to move window to workspace nr "@ + decimal(next_workspace as nat));
            }
            return Err(MoveError::new(msg));
        }
        let ghost mid = actions@;
        let ghost q = self@;
        assert(q.spaces.contains_key(next_workspace));
        assert(q.before_switch(next_workspace).spaces.contains_key(next_workspace));
        if self.set_workspace(next_workspace, actions).is_err() {
            let msg = around_decimal("failed to set new workspace ", next_workspace as u64, "");
            return Err(MoveError::new(msg));
        }
        assert(p.move_actions(next_workspace, old(actions)@, mid));
        Ok(())
    }

    /// Adds `state` to the active workspace and lays it out again.
    pub fn on_map_request(&mut self, state: WindowState, actions: &mut Vec<XAction>)
        requires
            old(self).wf(),
            old(self)@.active.with(state).remap_ok(old(self).screen_size),
        ensures
            final(self).wf(),
            final(self)@ == old(self)@.with_active(old(self)@.active.with(state)),
            old(self)@.active.with(state).remapped(
                old(self).screen_size,
                old(actions)@,
                final(actions)@,
            ),
    {
        self.active_workspace.add_window(state);
        self.active_workspace.remap_windows(&self.screen_size, actions);
        assert(self@.spaces =~= old(self)@.with_active(old(self)@.active.with(state)).spaces);
    }

    /// Closes the active workspace: goes to the next lower workspace, else
    /// the next higher one, else to workspace 1 (created if missing), then
    /// closes the workspace that was active (if it is still the active one,
    /// it only loses its windows).
    pub fn quit_workspace_select_new(&mut self, actions: &mut Vec<XAction>) -> (r: Result<
        (),
        QuitError,
    >)
        requires
            old(self).wf(),
            ({
                let p = old(self)@.quit_prepared();
                let n = old(self)@.select_after_quit();
                p.spaces.contains_key(n) ==> p.spaces[n].remap_ok(old(self).screen_size)
            }),
        ensures
            final(self).wf(),
            old(self)@.quit_select_spec(final(self)@, old(actions)@, final(actions)@, r is Ok),
    {
        proof {
            self.lemma_wf_view();
        }
        let new_workspace = match self.find_next_lowest_workspace_nr() {
            Some(number) => number,
            None => match self.find_next_highest_workspace_nr() {
                Some(number) => number,
                None => {
                    self.create_workspace(LOWEST_WORKSPACE_NR);
                    LOWEST_WORKSPACE_NR
                },
            },
        };
        let ghost p = self@;
        assert(p.spaces.contains_key(new_workspace)) by {
            let m = old(self)@;
            match greatest_below(m.names(), m.active.name as int) {
                Some(x) => {
                    assert(m.names().contains(x));
                },
                None => match least_above(m.names(), m.active.name as int) {
                    Some(x) => {
                        assert(m.names().contains(x));
                    },
                    None => {},
                },
            }
        }
        assert(p.before_switch(new_workspace).spaces.contains_key(new_workspace));
        let quit_workspace = self.active_workspace.name;
        if self.set_workspace(new_workspace, actions).is_err() {
            return Err(
                QuitError::new(
                    String::from_str("failed to set new workspace, after no workspace was present"),
                ),
            );
        }
        let ghost mid = actions@;
        let ghost q = self@;
        if quit_workspace == self.active_workspace.name {
            self.active_workspace.kill_all_windows(actions);
            assert(self@.spaces =~= q.with_active(q.active.emptied()).spaces);
            assert(self.active_workspace@ =~= q.active.emptied());
            Ok(())
        } else {
            self.quit_workspace(quit_workspace, actions)
        }
    }

    /// Taking status bar `bar`, of the given width and height at vertical
    /// position `y`, turns this screen into `post` and appends `after` to
    /// `before`: the workspaces give up the bar's height, the bar is placed
    /// and shown, and every workspace is laid out again in some order.
    pub open spec fn bar_added(
        &self,
        post: ScreenInfo,
        y: i16,
        width: u16,
        height: u16,
        bar: WindowState,
        before: Seq<XAction>,
        after: Seq<XAction>,
    ) -> bool {
        let b = placed_bar(self.screen_size, bar, y, width, height);
        let shown = before + seq![
            XAction::Configure {
                window: bar.window,
                x: b.x,
                y: b.y,
                width: width as u32,
                height: height as u32,
            },
            XAction::MapWindow { window: bar.window },
        ] + b.drawn();
        &&& post.screen_size == screen_with_bar(self.screen_size, y, height)
        &&& post.status_bar == Some(b)
        &&& post@.spaces == self@.spaces
        &&& post@.active == self@.active
        &&& post@.listed == self@.listed
        &&& post@.default_layout == self@.default_layout
        &&& exists|ks: Seq<u16>|
            #[trigger] lists_once(ks, self@.spaces.dom()) && remap_chain(
                self@.spaces,
                ks,
                post.screen_size,
                shown,
                after,
            )
    }

    /// Takes a status bar window: the workspaces give up its height at the
    /// top or the bottom of the screen, the bar is placed and shown, and
    /// every workspace is laid out again.
    pub fn add_status_bar(
        &mut self,
        y: i16,
        width: u16,
        height: u16,
        bar: WindowState,
        actions: &mut Vec<XAction>,
    )
        requires
            old(self).wf(),
            height as u32 <= old(self).screen_size.height,
            forall|k: u16| #[trigger]
                old(self)@.spaces.contains_key(k) ==> old(self)@.spaces[k].remap_ok(
                    screen_with_bar(old(self).screen_size, y, height),
                ),
        ensures
            final(self).wf(),
            old(self).bar_added(*final(self), y, width, height, bar, old(actions)@, final(actions)@),
    {
        proof {
            self.lemma_wf_view();
        }
        let ghost m = self@;
        let at_bottom = (y as i32) == ((self.screen_size.height - height as u32) as i32);
        let mut status_bar = bar;
        if at_bottom {
            self.screen_size.ws_height = self.screen_size.height - height as u32;
            self.screen_size.ws_pos_y = 0;
        } else {
            self.screen_size.ws_pos_y = height as i32;
            self.screen_size.ws_height = self.screen_size.height - height as u32;
            status_bar.x = 0;
            status_bar.y = 0;
        }
        status_bar.width = width as u32;
        status_bar.height = height as u32;
        status_bar.border_width = 0;
        status_bar.gap_size = 0;
        actions.push(
            XAction::Configure {
                window: status_bar.window,
                x: status_bar.x,
                y: status_bar.y,
                width: width as u32,
                height: height as u32,
            },
        );
        actions.push(XAction::MapWindow { window: status_bar.window });
        status_bar.draw(actions);
        assert(status_bar == placed_bar(old(self).screen_size, bar, y, width, height));
        self.status_bar = Some(status_bar);
        let ghost shown = actions@;
        assert(shown =~= old(actions)@ + seq![
            XAction::Configure {
                window: bar.window,
                x: status_bar.x,
                y: status_bar.y,
                width: width as u32,
                height: height as u32,
            },
            XAction::MapWindow { window: bar.window },
        ] + status_bar.drawn());
        let names = self.listed_names();
        let n = names.len();
        let mut i: usize = 0;
        let ghost mut mids: Seq<Seq<XAction>> = seq![shown];
        while i < n
            invariant
                n == names@.len(),
                i <= n,
                self.wf(),
                self@.spaces == m.spaces,
                self.screen_size == screen_with_bar(old(self).screen_size, y, height),
                lists_once(names@, m.spaces.dom()),
                forall|k: u16| #[trigger]
                    m.spaces.contains_key(k) ==> m.spaces[k].remap_ok(self.screen_size),
                m.wf(),
                remap_steps(m.spaces, names@.take(i as int), self.screen_size, mids),
                mids[0] == shown,
                mids.last() == actions@,
            decreases n - i,
        {
            let k = names[i];
            let ghost before = actions@;
            assert(m.spaces.contains_key(k)) by {
                assert(names@.to_set().contains(k));
            }
            if self.active_listed && self.active_workspace.name == k {
                self.active_workspace.remap_windows(&self.screen_size, actions);
                assert(m.spaces[k] == self.active_workspace@);
            } else {
                let w = self.workspaces.get(&k).unwrap();
                w.remap_windows(&self.screen_size, actions);
                assert(m.spaces[k] == w@);
            }
            let ghost prev = mids;
            proof {
                mids = mids.push(actions@);
            }
            assert forall|j: int| 0 <= j < i + 1 implies #[trigger] m.spaces[names@.take(i + 1)[j]].remapped(
                self.screen_size,
                mids[j],
                mids[j + 1],
            ) by {
                if j < i {
                    assert(names@.take(i + 1)[j] == names@.take(i as int)[j]);
                    assert(m.spaces[names@.take(i as int)[j]].remapped(self.screen_size, prev[j], prev[j + 1]));
                }
            }
            i = i + 1;
        }
        assert(names@.take(n as int) =~= names@);
        assert(lists_once(names@, old(self)@.spaces.dom()));
        assert(remap_steps(old(self)@.spaces, names@, self.screen_size, mids));
        assert(remap_chain(old(self)@.spaces, names@, self.screen_size, shown, actions@));
    }

    /// Replaces the workspaces by empty ones with the given numbers, the
    /// first of which becomes the active one.
    pub fn set_test_workspaces(&mut self, workspaces: Vec<u16>)
        requires
            old(self).wf(),
        ensures
            final(self).wf(),
            final(self)@.spaces == Map::new(
                |k: u16| workspaces@.contains(k),
                |k: u16| WorkspaceModel::fresh(k, old(self).default_layout),
            ),
            workspaces@.len() > 0 ==> final(self)@.active == WorkspaceModel::fresh(
                workspaces@[0],
                old(self).default_layout,
            ) && final(self)@.listed,
            workspaces@.len() == 0 ==> final(self)@.active == old(self)@.active
                && !final(self)@.listed,
            final(self).same_frame(old(self)),
    {
        self.workspaces.clear();
        self.active_listed = false;
        let n = workspaces.len();
        let mut i: usize = 0;
        while i < n
            invariant
                n == workspaces@.len(),
                i <= n,
                self.wf(),
                self.same_frame(old(self)),
                self@.spaces == Map::new(
                    |k: u16| workspaces@.take(i as int).contains(k),
                    |k: u16| WorkspaceModel::fresh(k, old(self).default_layout),
                ),
                i > 0 ==> self@.active == WorkspaceModel::fresh(
                    workspaces@[0],
                    old(self).default_layout,
                ) && self@.listed,
                i == 0 ==> self@.active == old(self)@.active && !self@.listed,
            decreases n - i,
        {
            let ghost before = self@.spaces;
            if i == 0 {
                assert(!workspaces@.take(0).contains(workspaces@[0]));
                assert(!self@.spaces.contains_key(workspaces@[0]));
                assert(!self.workspaces@.contains_key(workspaces@[0]));
                self.active_workspace = Workspace::new(workspaces[0], self.default_layout);
                self.active_listed = true;
            } else {
                self.create_workspace(workspaces[i]);
            }
            let ghost t1 = workspaces@.take(i + 1);
            let ghost t0 = workspaces@.take(i as int);
            assert(t1 =~= t0.push(workspaces@[i as int]));
            assert forall|k: u16| t1.contains(k) <==> (t0.contains(k) || k == workspaces@[i as int]) by {
                t0.lemma_push_to_set_commute(workspaces@[i as int]);
                assert(t1.to_set().contains(k) == t1.contains(k));
            }
            assert(self@.spaces =~= Map::new(
                |k: u16| workspaces@.take(i + 1).contains(k),
                |k: u16| WorkspaceModel::fresh(k, old(self).default_layout),
            ));
            i = i + 1;
        }
        assert(workspaces@.take(n as int) =~= workspaces@);
    }

    /// Makes the existing workspace `workspace` the active one, without
    /// hiding or laying out any window.
    pub fn set_test_active_workspace(&mut self, workspace: u16)
        requires
            old(self).wf(),
            old(self)@.spaces.contains_key(workspace),
        ensures
            final(self).wf(),
            final(self)@ == old(self)@.switched(workspace),
    {
        let _ = self.activate(workspace);
    }
}

/// Going to the next workspace and then asking for the previous one leads
/// back to the workspace one started on, unless leaving it closed it (it
/// had no windows); going there succeeds.
pub proof fn lemma_next_then_previous(
    m: ScreenModel,
    post: ScreenModel,
    before: Seq<XAction>,
    after: Seq<XAction>,
    ok: bool,
)
    requires
        m.wf(),
        m.listed,
        !m.leaves_empty(m.next_workspace()),
        m.go_to_spec(WorkspaceNavigation::Next, post, before, after, ok),
    ensures
        post.previous_workspace() == m.active.name,
        ok,
{
    let names = m.names();
    let a = m.active.name;
    let n = m.next_workspace();
    assert(names.contains(a));
    lemma_least_above_exists(names, -1, a);
    match least_above(names, a as int) {
        Some(x) => {
            assert(is_least_above(names, a as int, x));
            assert(n == x);
            assert(is_greatest_below(names, x as int, a));
            lemma_greatest_below_is(names, x as int, a);
            assert(post == m.switched(n));
        },
        None => {
            assert forall|y: u16| #[trigger] names.contains(y) implies y <= a by {
                if y > a {
                    lemma_least_above_exists(names, a as int, y);
                }
            }
            let x = least_above(names, -1)->Some_0;
            assert(is_least_above(names, -1, x));
            assert(n == x);
            assert(is_greatest_below(names, 0x10000, a));
            lemma_greatest_below_is(names, 0x10000, a);
            assert(greatest_below(names, x as int) is None) by {
                if greatest_below(names, x as int) is Some {
                    let z = choose|z: u16| is_greatest_below(names, x as int, z);
                    assert(z >= x);
                }
            }
        },
    }
}

/// Going to the previous workspace and then asking for the next one leads
/// back to the workspace one started on, unless leaving it closed it (it
/// had no windows); going there succeeds.
pub proof fn lemma_previous_then_next(
    m: ScreenModel,
    post: ScreenModel,
    before: Seq<XAction>,
    after: Seq<XAction>,
    ok: bool,
)
    requires
        m.wf(),
        m.listed,
        !m.leaves_empty(m.previous_workspace()),
        m.go_to_spec(WorkspaceNavigation::Previous, post, before, after, ok),
    ensures
        post.next_workspace() == m.active.name,
        ok,
{
    let names = m.names();
    let a = m.active.name;
    let n = m.previous_workspace();
    assert(names.contains(a));
    lemma_greatest_below_exists(names, 0x10000, a);
    match greatest_below(names, a as int) {
        Some(x) => {
            assert(is_greatest_below(names, a as int, x));
            assert(n == x);
            assert(is_least_above(names, x as int, a));
            lemma_least_above_is(names, x as int, a);
            assert(post == m.switched(n));
        },
        None => {
            assert forall|y: u16| #[trigger] names.contains(y) implies y >= a by {
                if y < a {
                    lemma_greatest_below_exists(names, a as int, y);
                }
            }
            let x = greatest_below(names, 0x10000)->Some_0;
            assert(is_greatest_below(names, 0x10000, x));
            assert(n == x);
            assert(is_least_above(names, -1, a));
            lemma_least_above_is(names, -1, a);
            assert(least_above(names, x as int) is None) by {
                if least_above(names, x as int) is Some {
                    let z = choose|z: u16| is_least_above(names, x as int, z);
                    assert(z <= x);
                }
            }
        },
    }
}

/// Creating a workspace that is already there changes nothing.
pub proof fn lemma_create_twice(m: ScreenModel, n: u16)
    ensures
        m.created(n).created(n) == m.created(n),
        m.created(n).names() == m.names().insert(n),
{
    assert(m.created(n).names() =~= m.names().insert(n));
}

/// Moving the focused window to another workspace takes it off the active
/// workspace and puts it, as `state`, on the target workspace; the other
/// workspaces keep their windows.
pub proof fn lemma_move_keeps_window(m: ScreenModel, nr: u16, state: WindowState)
    requires
        m.wf(),
        m.moves_window(nr),
        state.window == m.active.focused_window->Some_0,
    ensures
        ({
            let f = m.active.focused_window->Some_0;
            let post = m.move_outcome(nr, state);
            &&& post.spaces[nr].windows.contains_key(f)
            &&& post.spaces[nr].windows[f] == state
            &&& !post.active.windows.contains_key(f)
            &&& post.names() == m.names()
            &&& forall|k: u16|
                #[trigger] m.spaces.contains_key(k) && k != nr && k != m.active.name
                    ==> post.spaces[k] == m.spaces[k]
        }),
{
    let post = m.move_outcome(nr, state);
    assert(post.names() =~= m.names());
}

/// Going to workspace `n`, for a number `n` of at least 1, succeeds and
/// makes `n` the active workspace, created if it was missing.
pub proof fn lemma_go_to_number(
    m: ScreenModel,
    n: u16,
    post: ScreenModel,
    before: Seq<XAction>,
    after: Seq<XAction>,
    ok: bool,
)
    requires
        m.wf(),
        n >= LOWEST_WORKSPACE_NR,
        m.go_to_spec(WorkspaceNavigation::Number(n), post, before, after, ok),
    ensures
        ok,
        post.active.name == n,
        post.spaces.contains_key(n),
{
    let p = m.prepared(WorkspaceNavigation::Number(n), n);
    assert(p.spaces.contains_key(n));
    assert(p.spaces[n].name == n);
    if m.active.name != n {
        assert(p.before_switch(n).spaces.contains_key(n));
        assert(p.before_switch(n).spaces[n].name == n);
    }
}

/// Closing the active workspace goes to the greatest workspace number below
/// it when there is one; else to the least number above it when there is
/// one; else to workspace 1.
pub proof fn lemma_quit_goes_to_next_lower(m: ScreenModel)
    ensures
        ({
            let a = m.active.name as int;
            let r = m.select_after_quit();
            &&& (exists|x: u16| #[trigger] m.spaces.contains_key(x) && x < a) ==> {
                &&& m.spaces.contains_key(r)
                &&& r < a
                &&& forall|y: u16| #[trigger] m.spaces.contains_key(y) && y < a ==> y <= r
            }
            &&& (!exists|x: u16| #[trigger] m.spaces.contains_key(x) && x < a) && (exists|x: u16|
                #[trigger] m.spaces.contains_key(x) && x > a) ==> {
                &&& m.spaces.contains_key(r)
                &&& r > a
                &&& forall|y: u16| #[trigger] m.spaces.contains_key(y) && y > a ==> r <= y
            }
            &&& (!exists|x: u16| #[trigger] m.spaces.contains_key(x) && x != a) ==> r == 1
        }),
{
    let a = m.active.name as int;
    let names = m.names();
    if exists|x: u16| #[trigger] m.spaces.contains_key(x) && x < a {
        let x = choose|x: u16| #[trigger] m.spaces.contains_key(x) && x < a;
        lemma_greatest_below_exists(names, a, x);
        let g = greatest_below(names, a)->Some_0;
        assert(is_greatest_below(names, a, g));
    } else {
        assert(greatest_below(names, a) is None);
        if exists|x: u16| #[trigger] m.spaces.contains_key(x) && x > a {
            let x = choose|x: u16| #[trigger] m.spaces.contains_key(x) && x > a;
            lemma_least_above_exists(names, a, x);
            let l = least_above(names, a)->Some_0;
            assert(is_least_above(names, a, l));
        } else {
            assert(least_above(names, a) is None);
        }
    }
}

/// A status bar of height `h` at the bottom of the screen (`y` is the
/// screen's height less `h`) leaves the workspaces the area above it: they
/// start at the top and end where the bar starts. Anywhere else the bar
/// counts as a top bar: the workspaces start below it and end at the bottom
/// of the screen.
pub proof fn lemma_bar_borders_workspaces(s: ScreenSize, y: i16, h: u16)
    requires
        h <= s.height,
        s.height <= i32::MAX,
    ensures
        y as int == s.height - h ==> {
            let t = screen_with_bar(s, y, h);
            &&& t.ws_pos_y == 0
            &&& t.ws_pos_y + t.ws_height == y
        },
        y as int != s.height - h ==> {
            let t = screen_with_bar(s, y, h);
            &&& t.ws_pos_y == h
            &&& t.ws_pos_y + t.ws_height == s.height
        },
{
}

/// The next workspace is the least number above the active one when there is
/// one; else, wrapping around, the least number in use. The previous one is
/// the greatest number below the active one when there is one; else, wrapping
/// around, the greatest number in use.
pub proof fn lemma_next_and_previous_neighbours(m: ScreenModel)
    ensures
        ({
            let a = m.active.name as int;
            let nx = m.next_workspace();
            let pv = m.previous_workspace();
            &&& (exists|x: u16| #[trigger] m.spaces.contains_key(x) && x > a) ==> {
                &&& m.spaces.contains_key(nx)
                &&& nx > a
                &&& forall|y: u16| #[trigger] m.spaces.contains_key(y) && y > a ==> nx <= y
            }
            &&& (!exists|x: u16| #[trigger] m.spaces.contains_key(x) && x > a) && (exists|x: u16|
                #[trigger] m.spaces.contains_key(x)) ==> {
                &&& m.spaces.contains_key(nx)
                &&& forall|y: u16| #[trigger] m.spaces.contains_key(y) ==> nx <= y
            }
            &&& (exists|x: u16| #[trigger] m.spaces.contains_key(x) && x < a) ==> {
                &&& m.spaces.contains_key(pv)
                &&& pv < a
                &&& forall|y: u16| #[trigger] m.spaces.contains_key(y) && y < a ==> y <= pv
            }
            &&& (!exists|x: u16| #[trigger] m.spaces.contains_key(x) && x < a) && (exists|x: u16|
                #[trigger] m.spaces.contains_key(x)) ==> {
                &&& m.spaces.contains_key(pv)
                &&& forall|y: u16| #[trigger] m.spaces.contains_key(y) ==> y <= pv
            }
            &&& (!exists|x: u16| #[trigger] m.spaces.contains_key(x)) ==> nx == 1 && pv == 1
        }),
{
    let a = m.active.name as int;
    let names = m.names();
    if exists|x: u16| #[trigger] m.spaces.contains_key(x) && x > a {
        let x = choose|x: u16| #[trigger] m.spaces.contains_key(x) && x > a;
        lemma_least_above_exists(names, a, x);
        assert(is_least_above(names, a, least_above(names, a)->Some_0));
    } else {
        assert(least_above(names, a) is None);
        if exists|x: u16| #[trigger] m.spaces.contains_key(x) {
            let x = choose|x: u16| #[trigger] m.spaces.contains_key(x);
            lemma_least_above_exists(names, -1, x);
            assert(is_least_above(names, -1, least_above(names, -1)->Some_0));
        } else {
            assert(least_above(names, -1) is None);
        }
    }
    if exists|x: u16| #[trigger] m.spaces.contains_key(x) && x < a {
        let x = choose|x: u16| #[trigger] m.spaces.contains_key(x) && x < a;
        lemma_greatest_below_exists(names, a, x);
        assert(is_greatest_below(names, a, greatest_below(names, a)->Some_0));
    } else {
        assert(greatest_below(names, a) is None);
        if exists|x: u16| #[trigger] m.spaces.contains_key(x) {
            let x = choose|x: u16| #[trigger] m.spaces.contains_key(x);
            lemma_greatest_below_exists(names, 0x10000, x);
            assert(is_greatest_below(names, 0x10000, greatest_below(names, 0x10000)->Some_0));
        } else {
            assert(greatest_below(names, 0x10000) is None);
        }
    }
}

/// The next free workspace is the lowest number of at least 1 that no
/// workspace uses, when one below the highest number is free.
pub proof fn lemma_next_free_is_lowest_unused(m: ScreenModel, k: u16)
    requires
        1 <= k < u16::MAX,
        !m.spaces.contains_key(k),
    ensures
        ({
            let r = m.next_free_workspace();
            &&& 1 <= r <= k
            &&& !m.spaces.contains_key(r)
            &&& forall|j: u16| 1 <= j < r ==> #[trigger] m.spaces.contains_key(j)
        }),
    decreases k,
{
    if exists|j: u16| 1 <= j < k && !#[trigger] m.spaces.contains_key(j) {
        let j = choose|j: u16| 1 <= j < k && !#[trigger] m.spaces.contains_key(j);
        lemma_next_free_is_lowest_unused(m, j);
    } else {
        assert(m.is_first_free(k));
        let r = m.next_free_workspace();
        assert(m.is_first_free(r));
        if r > k {
            assert(m.names().contains(k));
        }
    }
}

} // verus!
