//! The window manager: its screens, the focused one, and how each command
//! and each X event changes them.
pub mod movement;

use std::collections::HashMap;
use vstd::prelude::*;

use crate::action::{hidden, XAction};
use crate::config::commands::{copy_strings, texts};
use crate::config::Config;
use crate::screeninfo::{ScreenInfo, ScreenModel, ScreenSize, LOWEST_WORKSPACE_NR};
use crate::text::{contains_str, lowercase, str_eq};
use crate::util::contains_id;
use crate::workspace::workspace_layout::{layout_named, next_layout_of, WorkspaceLayout};
use crate::windowstate::WindowState;
use crate::workspace::workspace_navigation::{navigation_parse, WorkspaceNavigation};
use crate::workspace::WorkspaceModel;
use self::movement::{movement_named, Movement};

verus! {

broadcast use vstd::std_specs::hash::group_hash_axioms;

/// A root window of the X server and the size of its screen.
#[derive(Debug, Clone, Copy, PartialEq, Eq, Structural)]
pub struct RootScreen {
    pub root: u32,
    pub width: u16,
    pub height: u16,
}

/// The window manager: one screen per root window.
#[derive(Debug)]
pub struct WindowManager {
    pub screeninfo: HashMap<u32, ScreenInfo>,
    pub config: Config,
    pub focused_screen: u32,
    pub moved_window: Option<u32>,
    pub restart: bool,
}

/// Whether `roots[i]` is the last entry for its root window.
pub open spec fn is_last_for_root(roots: Seq<RootScreen>, i: int) -> bool {
    forall|j: int| i < j < roots.len() ==> #[trigger] roots[j].root != roots[i].root
}

/// Whether a property of type `prop_type` (none for an unset property)
/// lists the atom `name` among `atoms`.
pub open spec fn lists_atom(prop_type: Option<Seq<char>>, atoms: Seq<Seq<char>>, name: Seq<char>) -> bool {
    &&& prop_type == Some("ATOM"@)
    &&& atoms.contains(name)
}

/// Whether the property, as its type name and atom names, lists the atom
/// `name`.
pub fn property_lists_atom(prop_type: &Option<String>, atoms: &Vec<String>, name: &str) -> (r: bool)
    ensures
        r == lists_atom(
            match prop_type {
                Some(t) => Some(t@),
                None => None,
            },
            texts(atoms@),
            name@,
        ),
{
    let is_atom = match prop_type {
        Some(t) => str_eq(t.as_str(), "ATOM"),
        None => false,
    };
    if !is_atom {
        return false;
    }
    let found = contains_str(atoms, name);
    proof {
        let texts = texts(atoms@);
        if found {
            let i = choose|i: int| 0 <= i < atoms@.len() && #[trigger] atoms@[i]@ == name@;
            assert(texts[i] == name@);
        } else {
            assert forall|i: int| 0 <= i < texts.len() implies texts[i] != name@ by {
                assert(atoms@[i]@ != name@);
            }
        }
    }
    found
}

/// The direction that a command argument names, ignoring case.
pub open spec fn parsed_movement(args: Option<String>) -> Option<Movement> {
    match args {
        Some(a) => movement_named(lowercase(a@)),
        None => None,
    }
}

/// The navigation that a command argument stands for.
pub open spec fn parsed_navigation(args: Option<String>) -> Option<WorkspaceNavigation> {
    match args {
        Some(a) => navigation_parse(a@, lowercase(a@)),
        None => None,
    }
}

/// Whether going where `arg` leads from screen `s` keeps the layout of the
/// target within the integer ranges.
pub open spec fn screen_go_to_fits(s: ScreenInfo, arg: WorkspaceNavigation) -> bool {
    s@.navigation_target(arg) matches Some(nr) ==> (s@.prepared(arg, nr).spaces.contains_key(nr)
        ==> s@.prepared(arg, nr).spaces[nr].remap_ok(s.screen_size))
}

/// Whether moving the focused window of screen `s`, as `state`, where `arg`
/// leads keeps the layout of the active workspace within the integer
/// ranges and adds the window under its own id.
pub open spec fn screen_move_fits(s: ScreenInfo, arg: WorkspaceNavigation, state: WindowState) -> bool {
    s@.navigation_target(arg) matches Some(nr) ==> s.move_ok_in(s@.prepared(arg, nr), nr, state)
}

/// Whether moving the focused window of screen `s`, as `state`, where `arg`
/// leads and following it keeps the layouts within the integer ranges.
pub open spec fn screen_move_follow_fits(s: ScreenInfo, arg: WorkspaceNavigation, state: WindowState) -> bool {
    s@.navigation_target(arg) matches Some(nr) ==> {
        let p = s@.prepared(arg, nr);
        let q = p.move_outcome(nr, state);
        &&& s.move_ok_in(p, nr, state)
        &&& q.spaces.contains_key(nr) ==> q.spaces[nr].remap_ok(s.screen_size)
    }
}

/// Whether closing the active workspace of screen `s` keeps the layout of
/// the next one within the integer ranges.
pub open spec fn screen_quit_fits(s: ScreenInfo) -> bool {
    let p = s@.quit_prepared();
    let n = s@.select_after_quit();
    p.spaces.contains_key(n) ==> p.spaces[n].remap_ok(s.screen_size)
}

/// Whether going where `arg` leads from screen `s` keeps the layout of the
/// target within the integer ranges.
pub fn go_to_check(s: &ScreenInfo, arg: WorkspaceNavigation) -> (r: bool)
    requires
        s.wf(),
    ensures
        r == screen_go_to_fits(*s, arg),
{
    match s.get_next_workspace_nr(arg) {
        Ok(nr) => {
            assert(WorkspaceModel::fresh(nr, s.default_layout).remap_ok(s.screen_size));
            if s.contains_workspace(nr) {
                s.space_fits(nr, &s.screen_size)
            } else {
                true
            }
        },
        Err(_) => true,
    }
}

/// Whether moving the focused window of screen `s`, as `state`, where `arg`
/// leads keeps the active workspace within the integer ranges and adds the
/// window under its own id.
pub fn move_to_check(s: &ScreenInfo, arg: WorkspaceNavigation, state: &WindowState) -> (r: bool)
    requires
        s.wf(),
    ensures
        r == screen_move_fits(*s, arg, *state),
{
    match s.get_next_workspace_nr(arg) {
        Ok(nr) => {
            let exists = s.contains_workspace(nr) || arg.is_create_if_not_exists();
            assert(exists == s@.prepared(arg, nr).spaces.contains_key(nr));
            if exists && s.active_workspace.name != nr {
                match s.active_workspace.focused_window {
                    Some(f) => s.active_workspace.remove_ok_check(f, &s.screen_size) && state.window == f,
                    None => true,
                }
            } else {
                true
            }
        },
        Err(_) => true,
    }
}

/// Whether moving the focused window of screen `s`, as `state`, where `arg`
/// leads and following it keeps the layouts within the integer ranges.
pub fn move_follow_check(s: &ScreenInfo, arg: WorkspaceNavigation, state: &WindowState) -> (r: bool)
    requires
        s.wf(),
    ensures
        r == screen_move_follow_fits(*s, arg, *state),
{
    match s.get_next_workspace_nr(arg) {
        Ok(nr) => {
            let first = move_to_check(s, arg, state);
            let contained = s.contains_workspace(nr);
            let exists = contained || arg.is_create_if_not_exists();
            let ghost p = s@.prepared(arg, nr);
            assert(exists == p.spaces.contains_key(nr));
            assert(WorkspaceModel::fresh(nr, s.default_layout).remap_ok(s.screen_size));
            let moves = exists && s.active_workspace.name != nr && s.active_workspace.focused_window.is_some();
            assert(moves == p.moves_window(nr));
            let target = if moves {
                s.space_with_fits(nr, state)
            } else if contained {
                s.space_fits(nr, &s.screen_size)
            } else {
                true
            };
            proof {
                let q = p.move_outcome(nr, *state);
                if moves {
                    assert(q.spaces.contains_key(nr));
                    assert(q.spaces[nr] == p.spaces[nr].with(*state));
                    if !contained {
                        assert(p.spaces[nr] == WorkspaceModel::fresh(nr, s.default_layout));
                    }
                } else {
                    assert(q == p);
                }
            }
            first && target
        },
        Err(_) => true,
    }
}

/// Whether closing the active workspace of screen `s` keeps the layout of
/// the next one within the integer ranges.
pub fn quit_check(s: &ScreenInfo) -> (r: bool)
    requires
        s.wf(),
    ensures
        r == screen_quit_fits(*s),
{
    let n = match s.find_next_lowest_workspace_nr() {
        Some(x) => x,
        None => match s.find_next_highest_workspace_nr() {
            Some(x) => x,
            None => LOWEST_WORKSPACE_NR,
        },
    };
    assert(n == s@.select_after_quit());
    assert(WorkspaceModel::fresh(n, s.default_layout).remap_ok(s.screen_size));
    if s.contains_workspace(n) {
        s.space_fits(n, &s.screen_size)
    } else {
        true
    }
}

/// The screen size once a status bar of height `h` at `y` takes its share.
pub fn bar_screen(s: &ScreenSize, y: i16, h: u16) -> (r: ScreenSize)
    requires
        h as u32 <= s.height,
    ensures
        r == crate::screeninfo::screen_with_bar(*s, y, h),
{
    let at_bottom = (y as i32) == ((s.height - h as u32) as i32);
    if at_bottom {
        ScreenSize { ws_height: s.height - h as u32, ws_pos_y: 0, ..*s }
    } else {
        ScreenSize { ws_pos_y: h as i32, ws_height: s.height - h as u32, ..*s }
    }
}

/// The layout that a command argument names, ignoring case.
pub open spec fn parsed_layout(a: String) -> Option<WorkspaceLayout> {
    layout_named(lowercase(a@))
}

/// Whether the window manager `pre` can move the focus in the direction
/// that `args` names: when it names one, there is a focused screen, and a
/// focused window in a workspace of at least two windows is in its order.
pub open spec fn focus_fits(pre: WindowManager, args: Option<String>) -> bool {
    parsed_movement(args) is Some ==> {
        &&& pre.has_focus()
        &&& pre.focused()@.active.focus_known()
    }
}

/// Moving the focus in the direction that `args` names turns `pre` into
/// `post` and appends `after` to `before`.
pub open spec fn focus_done(
    pre: WindowManager,
    post: WindowManager,
    args: Option<String>,
    before: Seq<XAction>,
    after: Seq<XAction>,
) -> bool {
    &&& match parsed_movement(args) {
            Some(m) => {
                &&& post.active_became(&pre, pre.focused()@.active.focus_moved(m))
                &&& after == pre.focused()@.active.focus_actions(m, before)
            },
            None => post.same_state(&pre) && after == before,
        }
}

/// Whether the window manager `pre` can move the focused window in the
/// direction that `args` names: when it names one, there is a focused
/// screen, and when its active workspace moves its focused window, it finds
/// it and the layout stays within the integer ranges.
pub open spec fn move_fits(pre: WindowManager, args: Option<String>) -> bool {
    parsed_movement(args) matches Some(m) ==> {
        &&& pre.has_focus()
        &&& pre.focused()@.active.move_window_ok(m, pre.focused().screen_size)
    }
}

/// Moving the focused window in the direction that `args` names turns `pre`
/// into `post` and appends `after` to `before`.
pub open spec fn move_done(
    pre: WindowManager,
    post: WindowManager,
    args: Option<String>,
    before: Seq<XAction>,
    after: Seq<XAction>,
) -> bool {
    &&& match parsed_movement(args) {
            Some(m) => {
                &&& post.active_became(&pre, pre.focused()@.active.window_moved(m))
                &&& pre.focused()@.active.move_window_actions(
                    m,
                    pre.focused().screen_size,
                    before,
                    after,
                )
            },
            None => post.same_state(&pre) && after == before,
        }
}

/// Whether the window manager `pre` can take this command: there is a focused
/// screen, and dropping its focused window (when it cannot be asked to close)
/// keeps the layout within the integer ranges.
pub open spec fn kill_fits(pre: WindowManager, softkill_supported: bool) -> bool {
    &&& pre.has_focus()
    &&& pre.focused()@.active.focused_window matches Some(f) ==> (!softkill_supported
            ==> pre.focused().active_workspace.remove_ok(f, pre.focused().screen_size))
}

/// Closing the focused window turns `pre` into `post` and appends `after` to
/// `before`.
pub open spec fn kill_done(
    pre: WindowManager,
    post: WindowManager,
    softkill_supported: bool,
    before: Seq<XAction>,
    after: Seq<XAction>,
) -> bool {
    &&& match pre.focused()@.active.focused_window {
            None => post.same_state(&pre) && after == before,
            Some(f) => if softkill_supported {
                &&& post.screeninfo@ == pre.screeninfo@
                &&& post.same_state(&pre)
                &&& after == before.push(XAction::SoftKill { window: f })
            } else {
                let w = pre.focused()@.active.without(f);
                &&& post.active_became(&pre, w)
                &&& exists|mid: Seq<XAction>|
                    w.remapped(
                        pre.focused().screen_size,
                        before.push(XAction::Kill { window: f }),
                        mid,
                    ) && after == mid + hidden(f)
            },
        }
}

/// Whether the window manager `pre` can set the layout that `args` names, or
/// the next one: there is a focused screen whose active workspace stays
/// within the integer ranges under that layout.
pub open spec fn layout_fits(pre: WindowManager, args: Option<String>) -> bool {
    let a = pre.focused()@.active;
    let sz = pre.focused().screen_size;
    &&& pre.has_focus()
    &&& match args {
        Some(arg) => parsed_layout(arg) matches Some(l) ==> a.with_layout(l).remap_ok(sz),
        None => a.with_layout(next_layout_of(a.layout)).remap_ok(sz),
    }
}

/// Setting the layout that `args` names, or the next one turns `pre` into
/// `post` and appends `after` to `before`.
pub open spec fn layout_done(
    pre: WindowManager,
    post: WindowManager,
    args: Option<String>,
    before: Seq<XAction>,
    after: Seq<XAction>,
) -> bool {
    &&& ({
            let a = pre.focused()@.active;
            let sz = pre.focused().screen_size;
            match args {
                Some(arg) => match parsed_layout(arg) {
                    Some(l) => {
                        &&& post.active_became(&pre, a.with_layout(l))
                        &&& a.with_layout(l).remapped(sz, before, after)
                    },
                    None => post.same_state(&pre) && after == before,
                },
                None => {
                    let n = a.with_layout(next_layout_of(a.layout));
                    &&& post.active_became(&pre, n)
                    &&& exists|mid: Seq<XAction>|
                        n.remapped(sz, before, mid) && n.remapped(sz, mid, after)
                },
            }
        })
}

/// Whether the window manager `pre` can take this command: there is a focused
/// screen, and switching its focused window to or from full screen keeps the
/// layout within the integer ranges.
pub open spec fn fullscreen_fits(pre: WindowManager) -> bool {
    &&& pre.has_focus()
    &&& pre.focused()@.active.focused_window is Some ==> pre.focused()@.active.fullscreen_toggled().remap_ok(pre.focused().screen_size)
}

/// Switching the focused window to or from full screen turns `pre` into
/// `post` and appends `after` to `before`.
pub open spec fn fullscreen_done(
    pre: WindowManager,
    post: WindowManager,
    before: Seq<XAction>,
    after: Seq<XAction>,
) -> bool {
    &&& post.active_became(&pre, pre.focused()@.active.fullscreen_toggled())
    &&& pre.focused()@.active.focused_window is Some ==> pre.focused()@.active.fullscreen_toggled().remapped(
            pre.focused().screen_size,
            before,
            after,
        )
    &&& pre.focused()@.active.focused_window is None ==> after == before
}

/// Whether the window manager `pre` can go to the workspace that `args`
/// leads to: on the focused screen, if there is one, the target stays
/// within the integer ranges.
pub open spec fn go_to_fits(pre: WindowManager, args: Option<String>) -> bool {
    pre.has_focus() ==> (parsed_navigation(args) matches Some(arg) ==> screen_go_to_fits(
        pre.focused(),
        arg,
    ))
}

/// Going to the workspace that `args` leads to turns `pre` into `post` and
/// appends `after` to `before`.
pub open spec fn go_to_done(
    pre: WindowManager,
    post: WindowManager,
    args: Option<String>,
    before: Seq<XAction>,
    after: Seq<XAction>,
) -> bool {
    &&& !pre.has_focus() ==> post.same_state(&pre) && after == before
    &&& pre.has_focus() ==> match parsed_navigation(args) {
            None => post.same_state(&pre) && after == before,
            Some(arg) => {
                &&& post.changed_only(&pre, pre.focused_screen)
                &&& exists|ok: bool|
                    pre.focused()@.go_to_spec(
                        arg,
                        post.focused()@,
                        before,
                        after,
                        ok,
                    )
            },
        }
}

/// Whether the window manager `pre` can move the focused window, as
/// `state`, to the workspace that `args` leads to: on the focused screen,
/// if there is one, the active workspace stays within the integer ranges
/// without it, and `state` is that window's.
pub open spec fn move_to_fits(pre: WindowManager, args: Option<String>, state: WindowState) -> bool {
    pre.has_focus() ==> (parsed_navigation(args) matches Some(arg) ==> screen_move_fits(
        pre.focused(),
        arg,
        state,
    ))
}

/// Moving the focused window, as `state`, to the workspace that `args` leads
/// to turns `pre` into `post` and appends `after` to `before`.
pub open spec fn move_to_done(
    pre: WindowManager,
    post: WindowManager,
    args: Option<String>,
    state: WindowState,
    before: Seq<XAction>,
    after: Seq<XAction>,
) -> bool {
    &&& !pre.has_focus() ==> post.same_state(&pre) && after == before
    &&& pre.has_focus() ==> match parsed_navigation(args) {
            None => post.same_state(&pre) && after == before,
            Some(arg) => {
                &&& post.changed_only(&pre, pre.focused_screen)
                &&& exists|ok: bool|
                    pre.focused()@.move_spec(
                        arg,
                        state,
                        post.focused()@,
                        before,
                        after,
                        ok,
                    )
            },
        }
}

/// Whether the window manager `pre` can move the focused window, as
/// `state`, to the workspace that `args` leads to and go there: on the
/// focused screen, if there is one, both workspaces stay within the integer
/// ranges, and `state` is that window's.
pub open spec fn move_follow_fits(pre: WindowManager, args: Option<String>, state: WindowState) -> bool {
    pre.has_focus() ==> (parsed_navigation(args) matches Some(arg) ==> screen_move_follow_fits(
        pre.focused(),
        arg,
        state,
    ))
}

/// Moving the focused window, as `state`, to the workspace that `args` leads
/// to and going there turns `pre` into `post` and appends `after` to
/// `before`.
pub open spec fn move_follow_done(
    pre: WindowManager,
    post: WindowManager,
    args: Option<String>,
    state: WindowState,
    before: Seq<XAction>,
    after: Seq<XAction>,
) -> bool {
    &&& !pre.has_focus() ==> post.same_state(&pre) && after == before
    &&& pre.has_focus() ==> match parsed_navigation(args) {
            None => post.same_state(&pre) && after == before,
            Some(arg) => {
                &&& post.changed_only(&pre, pre.focused_screen)
                &&& exists|ok: bool|
                    pre.focused()@.move_follow_spec(
                        arg,
                        state,
                        post.focused()@,
                        before,
                        after,
                        ok,
                    )
            },
        }
}

/// Whether the window manager `pre` can take this command: closing the active
/// workspace of the focused screen, if there is one, keeps the layout of the
/// next one within the integer ranges.
pub open spec fn quit_fits(pre: WindowManager) -> bool {
    &&& pre.has_focus() ==> screen_quit_fits(pre.focused())
}

/// Closing the active workspace turns `pre` into `post` and appends `after`
/// to `before`.
pub open spec fn quit_done(
    pre: WindowManager,
    post: WindowManager,
    before: Seq<XAction>,
    after: Seq<XAction>,
) -> bool {
    &&& !pre.has_focus() ==> post.same_state(&pre) && after == before
    &&& pre.has_focus() ==> {
            &&& post.changed_only(&pre, pre.focused_screen)
            &&& exists|ok: bool|
                pre.focused()@.quit_select_spec(
                    post.focused()@,
                    before,
                    after,
                    ok,
                )
        }
}

impl WindowManager {
    /// Every screen is well formed.
    pub open spec fn wf(&self) -> bool {
        forall|k: u32| #[trigger] self.screeninfo@.contains_key(k) ==> self.screeninfo@[k].wf()
    }

    /// Whether there is a screen with the focus.
    pub open spec fn has_focus(&self) -> bool {
        self.screeninfo@.contains_key(self.focused_screen)
    }

    /// The screen with the focus.
    pub open spec fn focused(&self) -> ScreenInfo {
        self.screeninfo@[self.focused_screen]
    }

    /// The screens as values.
    pub open spec fn screens(&self) -> Map<u32, ScreenModel> {
        self.screeninfo@.map_values(|s: ScreenInfo| s@)
    }

    /// `self` is `o` but for screen `k`, which it has.
    pub open spec fn changed_only(&self, o: &WindowManager, k: u32) -> bool {
        &&& self.screeninfo@.contains_key(k)
        &&& self.screeninfo@.remove(k) == o.screeninfo@.remove(k)
        &&& self.focused_screen == o.focused_screen
        &&& self.moved_window == o.moved_window
        &&& self.restart == o.restart
        &&& self.config == o.config
    }

    /// Equal in screens and every other field.
    pub open spec fn same_state(&self, o: &WindowManager) -> bool {
        &&& self.screeninfo@ == o.screeninfo@
        &&& self.focused_screen == o.focused_screen
        &&& self.moved_window == o.moved_window
        &&& self.restart == o.restart
        &&& self.config == o.config
    }

    /// The focused screen's active workspace became `a`, all else the same.
    pub open spec fn active_became(&self, o: &WindowManager, a: WorkspaceModel) -> bool {
        &&& self.changed_only(o, o.focused_screen)
        &&& self.focused()@ == o.focused()@.with_active(a)
        &&& self.focused().screen_size == o.focused().screen_size
    }

    /// Putting a well-formed screen back under `k` keeps the window manager
    /// well formed and changes that screen only.
    proof fn lemma_put_back(pre: WindowManager, post: WindowManager, k: u32, s: ScreenInfo)
        requires
            pre.wf(),
            s.wf(),
            post.screeninfo@ == pre.screeninfo@.remove(k).insert(k, s),
            post.focused_screen == pre.focused_screen,
            post.moved_window == pre.moved_window,
            post.restart == pre.restart,
            post.config == pre.config,
        ensures
            post.wf(),
            post.changed_only(&pre, k),
            post.screeninfo@[k] == s,
    {
        assert(post.screeninfo@.remove(k) =~= pre.screeninfo@.remove(k));
    }

    /// A window manager with one fresh screen per root window, the last
    /// entry of a root counting; the focus is on the last root window, or on
    /// root 0 when there is none.
    pub fn new(config: Config, roots: &Vec<RootScreen>) -> (r: WindowManager)
        ensures
            r.wf(),
            r.config == config,
            r.moved_window is None,
            !r.restart,
            r.focused_screen == (if roots@.len() == 0 {
                0
            } else {
                roots@.last().root
            }),
            forall|k: u32|
                r.screeninfo@.contains_key(k) <==> exists|i: int|
                    0 <= i < roots@.len() && #[trigger] roots@[i].root == k,
            forall|i: int|
                0 <= i < roots@.len() && is_last_for_root(roots@, i) ==> #[trigger] r.screens()[roots@[i].root]
                    == ScreenModel::initial(
                    roots@[i].width as u32,
                    roots@[i].height as u32,
                    config.default_layout,
                ),
    {
        let mut manager = WindowManager {
            screeninfo: HashMap::new(),
            config,
            focused_screen: 0,
            moved_window: None,
            restart: false,
        };
        manager.setup_screens(roots);
        manager
    }

    /// Adds one fresh screen per root window and gives the focus to the last.
    fn setup_screens(&mut self, roots: &Vec<RootScreen>)
        requires
            old(self).wf(),
            old(self).screeninfo@.len() == 0,
            old(self).focused_screen == 0,
        ensures
            final(self).wf(),
            final(self).config == old(self).config,
            final(self).moved_window == old(self).moved_window,
            final(self).restart == old(self).restart,
            final(self).focused_screen == (if roots@.len() == 0 {
                0
            } else {
                roots@.last().root
            }),
            forall|k: u32|
                final(self).screeninfo@.contains_key(k) <==> exists|i: int|
                    0 <= i < roots@.len() && #[trigger] roots@[i].root == k,
            forall|i: int|
                0 <= i < roots@.len() && is_last_for_root(roots@, i) ==> #[trigger] final(self).screens()[roots@[i].root]
                    == ScreenModel::initial(
                    roots@[i].width as u32,
                    roots@[i].height as u32,
                    old(self).config.default_layout,
                ),
    {
        let mut n: usize = 0;
        while n < roots.len()
            invariant
                n <= roots@.len(),
                self.wf(),
                self.config == old(self).config,
                self.moved_window == old(self).moved_window,
                self.restart == old(self).restart,
                self.focused_screen == (if n == 0 {
                    0
                } else {
                    roots@[n - 1].root
                }),
                forall|k: u32|
                    self.screeninfo@.contains_key(k) <==> exists|i: int|
                        0 <= i < n && #[trigger] roots@[i].root == k,
                forall|i: int|
                    0 <= i < n && (forall|j: int| i < j < n ==> #[trigger] roots@[j].root != roots@[i].root)
                        ==> #[trigger] self.screens()[roots@[i].root] == ScreenModel::initial(
                        roots@[i].width as u32,
                        roots@[i].height as u32,
                        old(self).config.default_layout,
                    ),
            decreases roots@.len() - n,
        {
            let rs = roots[n];
            let ghost before = self.screens();
            let screen = ScreenInfo::new(rs.width as u32, rs.height as u32, self.config.default_layout);
            let ghost model = screen@;
            self.screeninfo.insert(rs.root, screen);
            assert(self.screens() =~= before.insert(rs.root, model));
            self.focused_screen = rs.root;
            n = n + 1;
            proof {
                assert forall|k: u32|
                    self.screeninfo@.contains_key(k) implies exists|i: int|
                        0 <= i < n && #[trigger] roots@[i].root == k by {
                    if k == rs.root {
                        assert(roots@[n - 1].root == k);
                    }
                }
                assert forall|i: int|
                    0 <= i < n && (forall|j: int| i < j < n ==> #[trigger] roots@[j].root != roots@[i].root)
                        implies #[trigger] self.screens()[roots@[i].root] == ScreenModel::initial(
                        roots@[i].width as u32,
                        roots@[i].height as u32,
                        old(self).config.default_layout,
                    ) by {
                    if i < n - 1 {
                        assert(roots@[n - 1].root != roots@[i].root);
                    }
                }
            }
        }
    }

    /// The commands run once when the window manager starts.
    pub fn autostart_exec(&self) -> (r: Vec<String>)
        ensures
            texts(r@) == texts(self.config.exec_once@),
    {
        copy_strings(&self.config.exec_once)
    }

    /// The commands run each time the window manager starts or restarts.
    pub fn autostart_exec_always(&self) -> (r: Vec<String>)
        ensures
            texts(r@) == texts(self.config.exec_always@),
    {
        copy_strings(&self.config.exec_always)
    }

    /// Takes a new configuration after a restart; returns the commands to
    /// run again.
    pub fn restart_wm(&mut self, config: Config) -> (r: Vec<String>)
        ensures
            final(self).config == config,
            !final(self).restart,
            final(self).screeninfo@ == old(self).screeninfo@,
            final(self).focused_screen == old(self).focused_screen,
            final(self).moved_window == old(self).moved_window,
            texts(r@) == texts(config.exec_always@),
    {
        self.config = config;
        let commands = self.autostart_exec_always();
        self.restart = false;
        commands
    }

    /// Moves the focus within the active workspace of the focused screen,
    /// in the direction that the argument names; an argument that names
    /// none changes nothing.
    pub fn handle_keypress_focus(&mut self, args_option: Option<String>, actions: &mut Vec<XAction>)
        requires
            old(self).wf(),
            focus_fits(*old(self), args_option),
        ensures
            final(self).wf(),
            focus_done(*old(self), *final(self), args_option, old(actions)@, final(actions)@),

    {
        let ghost pre = *self;
        if let Some(args) = args_option {
            match Movement::try_from(args.as_str()) {
                Ok(movement) => {
                    let key = self.focused_screen;
                    if let Some(mut screen) = self.screeninfo.remove(&key) {
                        let ghost before = screen;
                        screen.active_workspace.move_focus(movement, actions);
                        assert(screen.active_workspace@ == before@.active.focus_moved(movement));
                        proof {
                            ScreenInfo::lemma_with_active(&before, &screen);
                        }
                        let ghost after = screen;
                        self.screeninfo.insert(key, screen);
                        proof {
                            Self::lemma_put_back(pre, *self, key, after);
                        }
                    }
                },
                Err(_) => {},
            }
        }
    }

    /// Moves the focused window of the active workspace of the focused
    /// screen in the direction that the argument names, and lays the
    /// workspace out again; an argument that names none changes nothing.
    pub fn handle_keypress_move(&mut self, args_option: Option<String>, actions: &mut Vec<XAction>)
        requires
            old(self).wf(),
            move_fits(*old(self), args_option),
        ensures
            final(self).wf(),
            move_done(*old(self), *final(self), args_option, old(actions)@, final(actions)@),

    {
        let ghost pre = *self;
        if let Some(args) = args_option {
            match Movement::try_from(args.as_str()) {
                Ok(movement) => {
                    let key = self.focused_screen;
                    if let Some(mut screen) = self.screeninfo.remove(&key) {
                        let ghost before = screen;
                        assert(before@.active.move_window_ok(movement, before.screen_size));
                        screen.active_workspace.move_window(movement, &screen.screen_size, actions);
                        assert(screen.active_workspace@ == before@.active.window_moved(movement));
                        proof {
                            ScreenInfo::lemma_with_active(&before, &screen);
                        }
                        let ghost after = screen;
                        self.screeninfo.insert(key, screen);
                        proof {
                            Self::lemma_put_back(pre, *self, key, after);
                        }
                    }
                },
                Err(_) => {},
            }
        }
    }

    /// Closes the focused window of the active workspace of the focused
    /// screen: asks it to close when it supports that, otherwise
    /// disconnects its client and drops it. Without a focused window nothing
    /// happens.
    pub fn handle_keypress_kill(&mut self, softkill_supported: bool, actions: &mut Vec<XAction>)
        requires
            old(self).wf(),
            kill_fits(*old(self), softkill_supported),
        ensures
            final(self).wf(),
            kill_done(*old(self), *final(self), softkill_supported, old(actions)@, final(actions)@),

    {
        let ghost pre = *self;
        let key = self.focused_screen;
        if let Some(mut screen) = self.screeninfo.remove(&key) {
            let ghost before = screen;
            if let Some(winid) = screen.active_workspace.get_focused_window() {
                screen.active_workspace.kill_window(winid, softkill_supported, &screen.screen_size, actions);
                if !softkill_supported {
                    assert(screen.active_workspace@ == before@.active.without(winid));
                }
            }
            proof {
                ScreenInfo::lemma_with_active(&before, &screen);
            }
            let ghost after = screen;
            self.screeninfo.insert(key, screen);
            proof {
                Self::lemma_put_back(pre, *self, key, after);
                if before@.active.focused_window is None || softkill_supported {
                    assert(self.screeninfo@ =~= pre.screeninfo@);
                }
            }
        }
    }

    /// Sets the layout of the active workspace of the focused screen to the
    /// one the argument names, or without an argument to the next one, and
    /// lays the workspace out again; an argument that names no layout
    /// changes nothing.
    pub fn handle_keypress_layout(&mut self, args: Option<String>, actions: &mut Vec<XAction>)
        requires
            old(self).wf(),
            layout_fits(*old(self), args),
        ensures
            final(self).wf(),
            layout_done(*old(self), *final(self), args, old(actions)@, final(actions)@),

    {
        let ghost pre = *self;
        let layout: Option<WorkspaceLayout> = match &args {
            Some(arg) => match WorkspaceLayout::try_from(arg.as_str()) {
                Ok(l) => Some(l),
                Err(_) => {
                    return;
                },
            },
            None => None,
        };
        let key = self.focused_screen;
        if let Some(mut screen) = self.screeninfo.remove(&key) {
            let ghost before = screen;
            match layout {
                Some(l) => {
                    assert(before@.active.with_layout(l).remap_ok(before.screen_size));
                    screen.active_workspace.set_layout(l, &screen.screen_size, actions);
                    assert(screen.active_workspace@ == before@.active.with_layout(l));
                },
                None => {
                    assert(before@.active.with_layout(next_layout_of(before@.active.layout)).remap_ok(
                        before.screen_size,
                    ));
                    screen.active_workspace.next_layout(&screen.screen_size, actions);
                    let ghost n = before@.active.with_layout(next_layout_of(before@.active.layout));
                    assert(screen.active_workspace@ == n);
                    proof {
                        let mid = choose|mid: Seq<XAction>|
                            screen.active_workspace.remapped(screen.screen_size, old(actions)@, mid)
                                && screen.active_workspace.remapped(screen.screen_size, mid, actions@);
                        assert(n.remapped(before.screen_size, old(actions)@, mid));
                        assert(n.remapped(before.screen_size, mid, actions@));
                    }
                },
            }
            proof {
                ScreenInfo::lemma_with_active(&before, &screen);
            }
            let ghost after = screen;
            self.screeninfo.insert(key, screen);
            proof {
                Self::lemma_put_back(pre, *self, key, after);
                match args {
                    Some(arg) => {
                        assert(layout == parsed_layout(arg));
                    },
                    None => {},
                }
            }
        }
    }

    /// Switches the focused window of the active workspace of the focused
    /// screen to full screen or back, and lays the workspace out again;
    /// without a focused window nothing happens.
    pub fn handle_keypress_fullscreen(&mut self, actions: &mut Vec<XAction>)
        requires
            old(self).wf(),
            fullscreen_fits(*old(self)),
        ensures
            final(self).wf(),
            fullscreen_done(*old(self), *final(self), old(actions)@, final(actions)@),

    {
        let ghost pre = *self;
        let key = self.focused_screen;
        if let Some(mut screen) = self.screeninfo.remove(&key) {
            let ghost before = screen;
            screen.active_workspace.toggle_fullscreen(&screen.screen_size, actions);
            assert(screen.active_workspace@ == before@.active.fullscreen_toggled());
            proof {
                ScreenInfo::lemma_with_active(&before, &screen);
            }
            let ghost after = screen;
            self.screeninfo.insert(key, screen);
            proof {
                Self::lemma_put_back(pre, *self, key, after);
            }
        }
    }

    /// The pointer entered window `event_window`: the active workspace of
    /// the focused screen focuses it, or the window that was just moved,
    /// which is then forgotten.
    pub fn handle_event_enter_notify(&mut self, event_window: u32, actions: &mut Vec<XAction>)
        requires
            old(self).wf(),
            old(self).has_focus(),
        ensures
            final(self).wf(),
            final(self).moved_window is None,
            ({
                let w = match old(self).moved_window {
                    Some(m) => m,
                    None => event_window,
                };
                let post = WindowManager { moved_window: old(self).moved_window, ..*final(self) };
                &&& post.active_became(old(self), old(self).focused()@.active.focused_on(Some(w)))
                &&& final(actions)@ == old(actions)@.push(XAction::Focus { window: w })
            }),
    {
        let ghost pre = *self;
        let mut winid = event_window;
        if let Some(moved) = self.moved_window {
            winid = moved;
        }
        let ghost unmoved = *self;
        self.moved_window = None;
        let key = self.focused_screen;
        if let Some(mut screen) = self.screeninfo.remove(&key) {
            let ghost before = screen;
            screen.active_workspace.focus_window(winid, actions);
            assert(screen.active_workspace@ == before@.active.focused_on(Some(winid)));
            proof {
                ScreenInfo::lemma_with_active(&before, &screen);
            }
            let ghost after = screen;
            self.screeninfo.insert(key, screen);
            proof {
                let mid = WindowManager { moved_window: None, ..unmoved };
                Self::lemma_put_back(mid, *self, key, after);
                let post = WindowManager { moved_window: pre.moved_window, ..*self };
                assert(post.screeninfo@.remove(key) =~= pre.screeninfo@.remove(key));
            }
        }
    }

    /// The pointer left a window: the active workspace of the focused
    /// screen has no focus any more.
    pub fn handle_event_leave_notify(&mut self)
        requires
            old(self).wf(),
            old(self).has_focus(),
        ensures
            final(self).wf(),
            final(self).active_became(old(self), old(self).focused()@.active.focused_on(None)),
    {
        let ghost pre = *self;
        let key = self.focused_screen;
        if let Some(mut screen) = self.screeninfo.remove(&key) {
            let ghost before = screen;
            screen.active_workspace.unfocus_window();
            assert(screen.active_workspace@ == before@.active.focused_on(None));
            proof {
                ScreenInfo::lemma_with_active(&before, &screen);
            }
            let ghost after = screen;
            self.screeninfo.insert(key, screen);
            proof {
                Self::lemma_put_back(pre, *self, key, after);
            }
        }
    }

    /// Window `window` was destroyed: the active workspace of the focused
    /// screen drops it, lays out the rest, and hides it.
    pub fn handle_event_destroy_notify(&mut self, window: u32, actions: &mut Vec<XAction>)
        requires
            old(self).wf(),
            old(self).has_focus(),
            old(self).focused().active_workspace.remove_ok(window, old(self).focused().screen_size),
        ensures
            final(self).wf(),
            final(self).active_became(old(self), old(self).focused()@.active.without(window)),
            exists|mid: Seq<XAction>|
                old(self).focused()@.active.without(window).remapped(
                    old(self).focused().screen_size,
                    old(actions)@,
                    mid,
                ) && final(actions)@ == mid + hidden(window),
    {
        let ghost pre = *self;
        let key = self.focused_screen;
        if let Some(mut screen) = self.screeninfo.remove(&key) {
            let ghost before = screen;
            screen.active_workspace.remove_window(window, &screen.screen_size, actions);
            assert(screen.active_workspace@ == before@.active.without(window));
            proof {
                ScreenInfo::lemma_with_active(&before, &screen);
            }
            let ghost after = screen;
            self.screeninfo.insert(key, screen);
            proof {
                Self::lemma_put_back(pre, *self, key, after);
            }
        }
    }

    /// Goes to the workspace that the argument leads to, on the focused
    /// screen. Returns whether there is a focused screen, whose state
    /// change is then announced.
    pub fn handle_keypress_go_to_workspace(
        &mut self,
        args_option: Option<String>,
        actions: &mut Vec<XAction>,
    ) -> (r: bool)
        requires
            old(self).wf(),
            go_to_fits(*old(self), args_option),
        ensures
            final(self).wf(),
            r == old(self).has_focus(),
            go_to_done(*old(self), *final(self), args_option, old(actions)@, final(actions)@),

    {
        let ghost pre = *self;
        let key = self.focused_screen;
        if !self.screeninfo.contains_key(&key) {
            return false;
        }
        let parsed = WorkspaceNavigation::parse_workspace_navigation(args_option);
        let arg = match parsed {
            Ok(arg) => arg,
            Err(_) => {
                return true;
            },
        };
        if let Some(mut screen) = self.screeninfo.remove(&key) {
            let ghost before = screen;
            assert(before@.navigation_target(arg) matches Some(nr) ==> (before@.prepared(
                arg,
                nr,
            ).spaces.contains_key(nr) ==> before@.prepared(arg, nr).spaces[nr].remap_ok(
                before.screen_size,
            )));
            let res = screen.go_to_workspace(arg, actions);
            let ghost after = screen;
            self.screeninfo.insert(key, screen);
            proof {
                Self::lemma_put_back(pre, *self, key, after);
                assert(before@.go_to_spec(arg, after@, old(actions)@, actions@, res is Ok));
            }
        }
        true
    }

    /// Moves the focused window of the focused screen, as `state`, to the
    /// workspace that the argument leads to. Returns whether there is a
    /// focused screen, whose state change is then announced.
    pub fn handle_move_to_workspace(
        &mut self,
        args_option: Option<String>,
        state: WindowState,
        actions: &mut Vec<XAction>,
    ) -> (r: bool)
        requires
            old(self).wf(),
            move_to_fits(*old(self), args_option, state),
        ensures
            final(self).wf(),
            r == old(self).has_focus(),
            move_to_done(*old(self), *final(self), args_option, state, old(actions)@, final(actions)@),

    {
        let ghost pre = *self;
        let key = self.focused_screen;
        if !self.screeninfo.contains_key(&key) {
            return false;
        }
        let parsed = WorkspaceNavigation::parse_workspace_navigation(args_option);
        let arg = match parsed {
            Ok(arg) => arg,
            Err(_) => {
                return true;
            },
        };
        if let Some(mut screen) = self.screeninfo.remove(&key) {
            let ghost before = screen;
            assert(before@.navigation_target(arg) matches Some(nr) ==> before.move_ok_in(
                before@.prepared(arg, nr),
                nr,
                state,
            ));
            let res = screen.move_window_to_workspace(arg, state, actions);
            let ghost after = screen;
            self.screeninfo.insert(key, screen);
            proof {
                Self::lemma_put_back(pre, *self, key, after);
                assert(before@.move_spec(arg, state, after@, old(actions)@, actions@, res is Ok));
            }
        }
        true
    }

    /// Moves the focused window of the focused screen, as `state`, to the
    /// workspace that the argument leads to and goes there. Returns whether
    /// there is a focused screen, whose state change is then announced.
    pub fn handle_move_to_workspace_follow(
        &mut self,
        args_option: Option<String>,
        state: WindowState,
        actions: &mut Vec<XAction>,
    ) -> (r: bool)
        requires
            old(self).wf(),
            move_follow_fits(*old(self), args_option, state),
        ensures
            final(self).wf(),
            r == old(self).has_focus(),
            move_follow_done(*old(self), *final(self), args_option, state, old(actions)@, final(actions)@),

    {
        let ghost pre = *self;
        let key = self.focused_screen;
        if !self.screeninfo.contains_key(&key) {
            return false;
        }
        let parsed = WorkspaceNavigation::parse_workspace_navigation(args_option);
        let arg = match parsed {
            Ok(arg) => arg,
            Err(_) => {
                return true;
            },
        };
        if let Some(mut screen) = self.screeninfo.remove(&key) {
            let ghost before = screen;
            assert(before@.navigation_target(arg) matches Some(nr) ==> {
                let p = before@.prepared(arg, nr);
                let q = p.move_outcome(nr, state);
                &&& before.move_ok_in(p, nr, state)
                &&& q.spaces.contains_key(nr) ==> q.spaces[nr].remap_ok(before.screen_size)
            });
            let res = screen.move_window_to_workspace_and_follow(arg, state, actions);
            let ghost after = screen;
            self.screeninfo.insert(key, screen);
            proof {
                Self::lemma_put_back(pre, *self, key, after);
                assert(before@.move_follow_spec(arg, state, after@, old(actions)@, actions@, res is Ok));
            }
        }
        true
    }

    /// Closes the active workspace of the focused screen and goes to
    /// another. Returns whether there is a focused screen, whose state
    /// change is then announced.
    pub fn handle_quit_workspace(&mut self, actions: &mut Vec<XAction>) -> (r: bool)
        requires
            old(self).wf(),
            quit_fits(*old(self)),
        ensures
            final(self).wf(),
            r == old(self).has_focus(),
            quit_done(*old(self), *final(self), old(actions)@, final(actions)@),

    {
        let ghost pre = *self;
        let key = self.focused_screen;
        if !self.screeninfo.contains_key(&key) {
            return false;
        }
        if let Some(mut screen) = self.screeninfo.remove(&key) {
            let ghost before = screen;
            let res = screen.quit_workspace_select_new(actions);
            let ghost after = screen;
            self.screeninfo.insert(key, screen);
            proof {
                Self::lemma_put_back(pre, *self, key, after);
                assert(before@.quit_select_spec(after@, old(actions)@, actions@, res is Ok));
            }
        }
        true
    }

    /// A window was created under root `parent`: a dock becomes the status
    /// bar of that screen, with the given geometry.
    pub fn handle_create_notify(
        &mut self,
        parent: u32,
        is_dock: bool,
        y: i16,
        width: u16,
        height: u16,
        bar: WindowState,
        actions: &mut Vec<XAction>,
    )
        requires
            old(self).wf(),
            is_dock ==> {
                let s = old(self).screeninfo@[parent];
                &&& old(self).screeninfo@.contains_key(parent)
                &&& height as u32 <= s.screen_size.height
                &&& forall|k: u16| #[trigger]
                    s@.spaces.contains_key(k) ==> s@.spaces[k].remap_ok(
                        crate::screeninfo::screen_with_bar(s.screen_size, y, height),
                    )
            },
        ensures
            final(self).wf(),
            !is_dock ==> final(self).same_state(old(self)) && final(actions)@ == old(actions)@,
            is_dock ==> {
                &&& final(self).changed_only(old(self), parent)
                &&& old(self).screeninfo@[parent].bar_added(
                    final(self).screeninfo@[parent],
                    y,
                    width,
                    height,
                    bar,
                    old(actions)@,
                    final(actions)@,
                )
            },
    {
        let ghost pre = *self;
        if is_dock {
            if let Some(mut screen) = self.screeninfo.remove(&parent) {
                screen.add_status_bar(y, width, height, bar, actions);
                let ghost after = screen;
                self.screeninfo.insert(parent, screen);
                proof {
                    Self::lemma_put_back(pre, *self, parent, after);
                }
            }
        }
    }

    /// A window under root `parent` asks to be shown: unless it is a dock,
    /// the active workspace of that screen takes it, as `state`, and is laid
    /// out again.
    pub fn handle_map_request(
        &mut self,
        parent: u32,
        is_dock: bool,
        state: WindowState,
        actions: &mut Vec<XAction>,
    )
        requires
            old(self).wf(),
            !is_dock ==> {
                let s = old(self).screeninfo@[parent];
                &&& old(self).screeninfo@.contains_key(parent)
                &&& s@.active.with(state).remap_ok(s.screen_size)
            },
        ensures
            final(self).wf(),
            is_dock ==> final(self).same_state(old(self)) && final(actions)@ == old(actions)@,
            !is_dock ==> {
                let s = old(self).screeninfo@[parent];
                &&& final(self).changed_only(old(self), parent)
                &&& final(self).screeninfo@[parent]@ == s@.with_active(s@.active.with(state))
                &&& s@.active.with(state).remapped(s.screen_size, old(actions)@, final(actions)@)
            },
    {
        let ghost pre = *self;
        if !is_dock {
            if let Some(mut screen) = self.screeninfo.remove(&parent) {
                screen.on_map_request(state, actions);
                let ghost after = screen;
                self.screeninfo.insert(parent, screen);
                proof {
                    Self::lemma_put_back(pre, *self, parent, after);
                }
            }
        }
    }

    /// Whether the focus command with argument `args` can be taken
    /// (`focus_fits`).
    pub fn focus_check(&self, args: &Option<String>) -> (r: bool)
        requires
            self.wf(),
        ensures
            r == focus_fits(*self, *args),
    {
        match args {
            Some(a) => match Movement::try_from(a.as_str()) {
                Ok(_) => {},
                Err(_) => {
                    return true;
                },
            },
            None => {
                return true;
            },
        }
        match self.screeninfo.get(&self.focused_screen) {
            Some(screen) => {
                let ws = &screen.active_workspace;
                match ws.focused_window {
                    Some(f) => ws.order.len() < 2 || contains_id(&ws.order, f),
                    None => true,
                }
            },
            None => false,
        }
    }

    /// Whether the move command with argument `args` can be taken
    /// (`move_fits`).
    pub fn move_check(&self, args: &Option<String>) -> (r: bool)
        requires
            self.wf(),
        ensures
            r == move_fits(*self, *args),
    {
        let mov = match args {
            Some(a) => match Movement::try_from(a.as_str()) {
                Ok(m) => m,
                Err(_) => {
                    return true;
                },
            },
            None => {
                return true;
            },
        };
        let screen = match self.screeninfo.get(&self.focused_screen) {
            Some(screen) => screen,
            None => {
                return false;
            },
        };
        let ws = &screen.active_workspace;
        match ws.focused_window {
            Some(f) => {
                if ws.order.len() < 2 {
                    return true;
                }
                if !contains_id(&ws.order, f) {
                    return false;
                }
                let moved = ws.moved_order_of(mov);
                ws.fits_as(&moved, ws.fullscreen, ws.layout, &screen.screen_size)
            },
            None => true,
        }
    }

    /// Whether the kill command can be taken (`kill_fits`).
    pub fn kill_check(&self, softkill_supported: bool) -> (r: bool)
        requires
            self.wf(),
        ensures
            r == kill_fits(*self, softkill_supported),
    {
        match self.screeninfo.get(&self.focused_screen) {
            Some(screen) => match screen.active_workspace.focused_window {
                Some(f) => softkill_supported || screen.active_workspace.remove_ok_check(
                    f,
                    &screen.screen_size,
                ),
                None => true,
            },
            None => false,
        }
    }

    /// Whether the layout command with argument `args` can be taken
    /// (`layout_fits`).
    pub fn layout_check(&self, args: &Option<String>) -> (r: bool)
        requires
            self.wf(),
        ensures
            r == layout_fits(*self, *args),
    {
        let screen = match self.screeninfo.get(&self.focused_screen) {
            Some(screen) => screen,
            None => {
                return false;
            },
        };
        let ws = &screen.active_workspace;
        let layout = match args {
            Some(a) => match WorkspaceLayout::try_from(a.as_str()) {
                Ok(l) => l,
                Err(_) => {
                    return true;
                },
            },
            None => ws.layout.next(),
        };
        ws.fits_as(&ws.order, ws.fullscreen, layout, &screen.screen_size)
    }

    /// Whether the full-screen command can be taken (`fullscreen_fits`).
    pub fn fullscreen_check(&self) -> (r: bool)
        requires
            self.wf(),
        ensures
            r == fullscreen_fits(*self),
    {
        match self.screeninfo.get(&self.focused_screen) {
            Some(screen) => {
                let ws = &screen.active_workspace;
                match ws.focused_window {
                    Some(f) => {
                        let fullscreen = if ws.fullscreen.is_some() {
                            None
                        } else {
                            Some(f)
                        };
                        ws.fits_as(&ws.order, fullscreen, ws.layout, &screen.screen_size)
                    },
                    None => true,
                }
            },
            None => false,
        }
    }

    /// The navigation that a command argument stands for.
    fn navigation_of(args: &Option<String>) -> (r: Option<WorkspaceNavigation>)
        ensures
            r == parsed_navigation(*args),
    {
        match args {
            Some(a) => match WorkspaceNavigation::try_from(a.as_str()) {
                Ok(n) => Some(n),
                Err(_) => None,
            },
            None => None,
        }
    }

    /// Whether the go-to command with argument `args` can be taken
    /// (`go_to_fits`).
    pub fn go_to_check(&self, args: &Option<String>) -> (r: bool)
        requires
            self.wf(),
        ensures
            r == go_to_fits(*self, *args),
    {
        match self.screeninfo.get(&self.focused_screen) {
            Some(screen) => match Self::navigation_of(args) {
                Some(arg) => go_to_check(screen, arg),
                None => true,
            },
            None => true,
        }
    }

    /// Whether the move-to command with argument `args` and moved window
    /// state `state` can be taken (`move_to_fits`).
    pub fn move_to_check(&self, args: &Option<String>, state: &WindowState) -> (r: bool)
        requires
            self.wf(),
        ensures
            r == move_to_fits(*self, *args, *state),
    {
        match self.screeninfo.get(&self.focused_screen) {
            Some(screen) => match Self::navigation_of(args) {
                Some(arg) => move_to_check(screen, arg, state),
                None => true,
            },
            None => true,
        }
    }

    /// Whether the move-and-follow command with argument `args` and moved
    /// window state `state` can be taken (`move_follow_fits`).
    pub fn move_follow_check(&self, args: &Option<String>, state: &WindowState) -> (r: bool)
        requires
            self.wf(),
        ensures
            r == move_follow_fits(*self, *args, *state),
    {
        match self.screeninfo.get(&self.focused_screen) {
            Some(screen) => match Self::navigation_of(args) {
                Some(arg) => move_follow_check(screen, arg, state),
                None => true,
            },
            None => true,
        }
    }

    /// Whether the quit-workspace command can be taken (`quit_fits`).
    pub fn quit_check(&self) -> (r: bool)
        requires
            self.wf(),
        ensures
            r == quit_fits(*self),
    {
        match self.screeninfo.get(&self.focused_screen) {
            Some(screen) => quit_check(screen),
            None => true,
        }
    }

    /// Whether a window under root `parent` can be shown as `state`
    /// (what `handle_map_request` asks of a window that is not a dock).
    pub fn can_map(&self, parent: u32, state: &WindowState) -> (r: bool)
        requires
            self.wf(),
        ensures
            r == (self.screeninfo@.contains_key(parent) && self.screeninfo@[parent]@.active.with(
                *state,
            ).remap_ok(self.screeninfo@[parent].screen_size)),
    {
        match self.screeninfo.get(&parent) {
            Some(screen) => screen.active_workspace.fits_with(state, &screen.screen_size),
            None => false,
        }
    }

    /// Whether window `window` can be dropped from the active workspace of
    /// the focused screen (what `handle_event_destroy_notify` asks).
    pub fn can_destroy(&self, window: u32) -> (r: bool)
        requires
            self.wf(),
        ensures
            r == (self.has_focus() && self.focused().active_workspace.remove_ok(
                window,
                self.focused().screen_size,
            )),
    {
        match self.screeninfo.get(&self.focused_screen) {
            Some(screen) => screen.active_workspace.remove_ok_check(window, &screen.screen_size),
            None => false,
        }
    }

    /// Whether a status bar of the given height at `y` can be added to the
    /// screen of root `parent` (what `handle_create_notify` asks of a dock).
    pub fn can_add_status_bar(&self, parent: u32, y: i16, height: u16) -> (r: bool)
        requires
            self.wf(),
        ensures
            r == ({
                let s = self.screeninfo@[parent];
                &&& self.screeninfo@.contains_key(parent)
                &&& height as u32 <= s.screen_size.height
                &&& forall|k: u16| #[trigger]
                    s@.spaces.contains_key(k) ==> s@.spaces[k].remap_ok(
                        crate::screeninfo::screen_with_bar(s.screen_size, y, height),
                    )
            }),
    {
        match self.screeninfo.get(&parent) {
            Some(screen) => {
                if height as u32 > screen.screen_size.height {
                    return false;
                }
                let size = bar_screen(&screen.screen_size, y, height);
                screen.all_spaces_fit(&size)
            },
            None => false,
        }
    }

    /// Whether a window's type property, as its type name and atom names,
    /// marks it as a dock (a status bar).
    pub fn atom_window_type_dock(prop_type: &Option<String>, atoms: &Vec<String>) -> (r: bool)
        ensures
            r == lists_atom(
                match prop_type {
                    Some(t) => Some(t@),
                    None => None,
                },
                texts(atoms@),
                "_NET_WM_WINDOW_TYPE_DOCK"@,
            ),
    {
        property_lists_atom(prop_type, atoms, "_NET_WM_WINDOW_TYPE_DOCK")
    }
}

} // verus!
