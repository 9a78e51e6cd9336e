//! What each key does, for every state of the viewer.

use vstd::prelude::*;
use vstd::string::*;

use crate::app::{Action, App, CommitBox, DiffView, Focus};
use crate::diff::{DiffLine, LineKind};
use crate::git::{GitOp, Mode, Status};
use crate::input::{KeyCode, KeyEvent};
use crate::keys::{agents, first_change_no, first_numbered, newline_ends, pasted, pressed};
use crate::laws_diff::law_hunks_are_counted;
use crate::model::PaneRef;
use crate::paths::joined_path;
use crate::scope::Scope;
use crate::text::trim;

verus! {

/// Nothing lies over the panels that would take the keys.
pub open spec fn calm(app: App) -> bool {
    app.notice is None && app.commit is None && !app.show_help
}

/// The key is that character, with or without the control key.
pub open spec fn is_char(key: KeyEvent, c: char, ctrl: bool) -> bool {
    key.code == KeyCode::Char(c) && key.modifiers.control == ctrl
}

/// The key is that character, whatever is held with it.
pub open spec fn any_char(key: KeyEvent, c: char) -> bool {
    key.code == KeyCode::Char(c)
}

/// Nothing changed but for a message with that text.
pub open spec fn told(old: App, new: App, text: Seq<char>) -> bool {
    &&& new == (App { message: new.message, ..old })
    &&& message_text(new) == Some(text)
}

/// The message at the bottom.
pub open spec fn message_text(app: App) -> Option<Seq<char>> {
    match app.message {
        Some(m) => Some(m.0@),
        None => None,
    }
}

// ---------------------------------------------------------------------------------------
// Popups and leaving

/// A notice is closed by any key, and the help, where neither a notice nor the commit box is
/// open; the key does nothing else.
pub proof fn law_any_key_closes_a_popup(old: App, key: KeyEvent, new: App, act: Action)
    requires
        pressed(old, key, new, act),
    ensures
        old.notice is Some ==> new == (App { notice: None, ..old }) && act == Action::Nothing,
        old.notice is None && old.commit is None && old.show_help ==> new == (App {
            show_help: false,
            ..old
        }) && act == Action::Nothing,
{
}

/// The viewer is left by `q`, by `c` with control, and from the repos by escape. Help is shown
/// by a question mark.
pub proof fn law_leaving_and_help(old: App, key: KeyEvent, new: App, act: Action)
    requires
        calm(old),
        pressed(old, key, new, act),
    ensures
        any_char(key, 'q') || is_char(key, 'c', true) || (key.code == KeyCode::Esc && old.focus
            == Focus::Repos) ==> new == old && act == Action::Quit,
        act == Action::Quit ==> any_char(key, 'q') || is_char(key, 'c', true) || (key.code
            == KeyCode::Esc && old.focus == Focus::Repos),
        any_char(key, '?') ==> new == (App { show_help: true, ..old }) && act == Action::Nothing,
{
}

/// The focus goes to the right from the repos to the files to the diff, and to the left back,
/// and stays at the ends.
pub proof fn law_focus_moves_between_panels(old: App, key: KeyEvent, new: App, act: Action)
    requires
        calm(old),
        pressed(old, key, new, act),
    ensures
        any_char(key, 'l') || key.code == KeyCode::Tab || key.code == KeyCode::Right || key.code
            == KeyCode::Enter ==> {
            &&& new == (App { focus: new.focus, ..old })
            &&& act == Action::Nothing
            &&& old.focus == Focus::Repos ==> new.focus == Focus::Files
            &&& old.focus != Focus::Repos ==> new.focus == Focus::Diff
        },
        any_char(key, 'h') || key.code == KeyCode::BackTab || key.code == KeyCode::Left || (key.code
            == KeyCode::Esc && old.focus != Focus::Repos) ==> {
            &&& new == (App { focus: new.focus, ..old })
            &&& act == Action::Nothing
            &&& old.focus == Focus::Diff ==> new.focus == Focus::Files
            &&& old.focus != Focus::Diff ==> new.focus == Focus::Repos
        },
{
}

// ---------------------------------------------------------------------------------------
// Selecting

/// One further down, if there is one.
pub open spec fn below(i: int, len: int) -> int {
    if i + 1 < len {
        i + 1
    } else {
        i
    }
}

/// One further up, if there is one.
pub open spec fn above(i: int) -> int {
    if i > 0 {
        i - 1
    } else {
        i
    }
}

/// Another repo was selected, or the same one again. Another one starts at its first file,
/// whose diff is loaded.
pub open spec fn repo_is(old: App, i: int, new: App, act: Action) -> bool {
    if i == old.repo_idx {
        new == old && act == Action::Nothing
    } else {
        &&& new == (App { repo_idx: i as usize, file_idx: 0, agent_cycle: 0, diff: None, ..old })
        &&& act == (if new.file_list().len() > 0 {
            Action::LoadDiff
        } else {
            Action::Nothing
        })
    }
}

/// Another file was selected, or the same one again. Its diff is loaded, unless one is shown and
/// it is the same one. The diff that is shown stays until the other one is there.
pub open spec fn file_is(old: App, i: int, new: App, act: Action) -> bool {
    if i == old.file_idx && old.diff is Some {
        new == old && act == Action::Nothing
    } else {
        &&& new == (App { file_idx: i as usize, ..old })
        &&& act == (if i < old.file_list().len() {
            Action::LoadDiff
        } else {
            Action::Nothing
        })
    }
}

/// In the lists `j` and down go down by one, `k` and up go up by one, and stay at the ends.
/// Brackets do so for the files whatever has the focus.
pub proof fn law_lists_are_walked_one_by_one(old: App, key: KeyEvent, new: App, act: Action)
    requires
        calm(old),
        old.wf(),
        pressed(old, key, new, act),
    ensures
        ({
            let down = any_char(key, 'j') || key.code == KeyCode::Down;
            let up = any_char(key, 'k') || key.code == KeyCode::Up;
            let repos = old.groups@.len() as int;
            let files = old.file_list().len() as int;
            &&& down && old.focus == Focus::Repos ==> repo_is(
                old,
                below(old.repo_idx as int, repos),
                new,
                act,
            )
            &&& up && old.focus == Focus::Repos ==> repo_is(old, above(old.repo_idx as int), new, act)
            &&& (down && old.focus == Focus::Files) || any_char(key, ']') ==> file_is(
                old,
                below(old.file_idx as int, files),
                new,
                act,
            )
            &&& (up && old.focus == Focus::Files) || any_char(key, '[') ==> file_is(
                old,
                above(old.file_idx as int),
                new,
                act,
            )
        }),
{
    assert(old.file_list() == (App { file_idx: new.file_idx, ..old }).file_list());
}

// ---------------------------------------------------------------------------------------
// Scrolling

/// Old and new side by side: where that is asked for, and where the panel is at least 140 wide
/// unless the other layout is asked for.
pub open spec fn side_by_side(app: App) -> bool {
    app.view == crate::app::View::Split || (app.view == crate::app::View::Auto && app.diff_width >= 140)
}

/// The diff was scrolled by that many rows, as far as it goes; the row that is on top then is
/// stood for by its line.
pub open spec fn went(old: App, delta: int, new: App, act: Action) -> bool {
    &&& act == Action::Nothing
    &&& old.diff is None ==> new == old
    &&& old.diff matches Some(v) ==> {
        let rows = if side_by_side(old) {
            v.split.rows@
        } else {
            v.unified.rows@
        };
        let line_row = if side_by_side(old) {
            v.split.line_row@
        } else {
            v.unified.line_row@
        };
        let top = if v.scroll < line_row.len() {
            line_row[v.scroll as int] as int
        } else {
            0
        };
        let to = if top + delta < 0 {
            0
        } else if top + delta >= rows.len() {
            rows.len() - 1
        } else {
            top + delta
        };
        &&& new == (App { diff: new.diff, ..old })
        &&& new.diff matches Some(w) && w == (DiffView { scroll: w.scroll, ..v }) && w.scroll == (
        if rows.len() == 0 {
            v.scroll
        } else {
            rows[to].anchor_line()
        })
    }
}

/// The height of a page: two rows less than the panel has, and at least one.
pub open spec fn page(app: App) -> int {
    if app.diff_height <= 3 {
        1
    } else if app.diff_height - 2 > isize::MAX {
        isize::MAX as int
    } else {
        app.diff_height - 2
    }
}

/// The diff is scrolled by a row, by half a page, by a page, or to its ends.
pub proof fn law_diffs_are_scrolled_by_rows_and_pages(
    old: App,
    key: KeyEvent,
    new: App,
    act: Action,
)
    requires
        calm(old),
        pressed(old, key, new, act),
    ensures
        ({
            let down = any_char(key, 'j') || key.code == KeyCode::Down;
            let up = any_char(key, 'k') || key.code == KeyCode::Up;
            &&& any_char(key, 'J') || (down && old.focus == Focus::Diff) ==> went(old, 1, new, act)
            &&& any_char(key, 'K') || (up && old.focus == Focus::Diff) ==> went(old, -1, new, act)
            &&& any_char(key, 'f') || key.code == KeyCode::PageDown ==> went(
                old,
                page(old),
                new,
                act,
            )
            &&& any_char(key, 'b') || key.code == KeyCode::PageUp ==> went(old, -page(old), new, act)
            &&& is_char(key, 'd', true) ==> went(old, page(old) / 2, new, act)
            &&& is_char(key, 'u', true) ==> went(old, -(page(old) / 2), new, act)
            &&& any_char(key, 'g') || key.code == KeyCode::Home ==> went(
                old,
                isize::MIN / 2,
                new,
                act,
            )
            &&& any_char(key, 'G') || key.code == KeyCode::End ==> went(
                old,
                isize::MAX / 2,
                new,
                act,
            )
        }),
{
}

/// The keys for the ends go to the first and to the last row, as long as the rows are no more
/// than fit in memory.
pub proof fn law_ends_are_the_ends(old: App, key: KeyEvent, new: App, act: Action)
    requires
        calm(old),
        old.wf(),
        pressed(old, key, new, act),
        old.diff is Some,
        ({
            let rows = if side_by_side(old) {
                old.diff->0.split.rows@
            } else {
                old.diff->0.unified.rows@
            };
            0 < rows.len() <= isize::MAX / 2
        }),
    ensures
        ({
            let rows = if side_by_side(old) {
                old.diff->0.split.rows@
            } else {
                old.diff->0.unified.rows@
            };
            &&& any_char(key, 'g') || key.code == KeyCode::Home ==> new.diff is Some
                && new.diff->0.scroll == rows[0].anchor_line()
            &&& any_char(key, 'G') || key.code == KeyCode::End ==> new.diff is Some
                && new.diff->0.scroll == rows[rows.len() - 1].anchor_line()
        }),
{
    law_diffs_are_scrolled_by_rows_and_pages(old, key, new, act);
    let v = old.diff->0;
    let line_row = if side_by_side(old) {
        v.split.line_row@
    } else {
        v.unified.line_row@
    };
    if v.scroll < line_row.len() {
        assert(line_row[v.scroll as int] >= 0);
    }
}

/// `H` and `L` shift the diff sideways by eight columns, not below zero.
pub proof fn law_diffs_are_shifted_by_eight(old: App, key: KeyEvent, new: App, act: Action)
    requires
        calm(old),
        pressed(old, key, new, act),
        any_char(key, 'H') || any_char(key, 'L'),
    ensures
        act == Action::Nothing,
        old.diff is None ==> new == old,
        old.diff matches Some(v) ==> {
            &&& new == (App { diff: new.diff, ..old })
            &&& new.diff is Some
            &&& new.diff->0 == (DiffView { hscroll: new.diff->0.hscroll, ..v })
            &&& any_char(key, 'H') && v.hscroll >= 8 ==> new.diff->0.hscroll == v.hscroll - 8
            &&& any_char(key, 'H') && v.hscroll < 8 ==> new.diff->0.hscroll == 0
            &&& any_char(key, 'L') && v.hscroll + 8 <= usize::MAX ==> new.diff->0.hscroll
                == v.hscroll + 8
            &&& any_char(key, 'L') && v.hscroll + 8 > usize::MAX ==> new.diff->0.hscroll
                == usize::MAX
        },
{
}

/// `n` goes to the nearest hunk header below the line on top, `N` and `p` to the nearest above
/// it; where there is none, nothing moves.
pub proof fn law_hunks_are_jumped_to(old: App, key: KeyEvent, new: App, act: Action, k: int)
    requires
        calm(old),
        pressed(old, key, new, act),
        old.diff is Some && old.diff->0.lines is Ok,
    ensures
        ({
            let v = old.diff->0;
            let l = v.lines->Ok_0@;
            let is_header = |i: int| 0 <= i < l.len() && l[i].kind == LineKind::Hunk;
            &&& any_char(key, 'n') || any_char(key, 'N') || any_char(key, 'p') ==> act
                == Action::Nothing
            &&& any_char(key, 'n') && is_header(k) && k > v.scroll && (forall|j: int|
                v.scroll < j < k ==> (#[trigger] l[j]).kind != LineKind::Hunk) ==> new == (App {
                diff: Some(DiffView { scroll: k as usize, ..v }),
                ..old
            })
            &&& any_char(key, 'n') && (forall|j: int|
                v.scroll < j < l.len() ==> (#[trigger] l[j]).kind != LineKind::Hunk) ==> new == old
            &&& (any_char(key, 'N') || any_char(key, 'p')) && is_header(k) && k < v.scroll && (
            forall|j: int|
                k < j < v.scroll && j < l.len() ==> (#[trigger] l[j]).kind != LineKind::Hunk)
                ==> new == (App { diff: Some(DiffView { scroll: k as usize, ..v }), ..old })
            &&& (any_char(key, 'N') || any_char(key, 'p')) && (forall|j: int|
                0 <= j < v.scroll && j < l.len() ==> (#[trigger] l[j]).kind != LineKind::Hunk)
                ==> new == old
        }),
{
    let v = old.diff->0;
    let l = v.lines->Ok_0@;
    lemma_next(l, v.scroll + 1);
    lemma_prev(l, v.scroll as int);
}

pub(crate) proof fn lemma_next(l: Seq<DiffLine>, i: int)
    requires
        0 <= i,
    ensures
        match crate::diff::next_hunk(l, i) {
            Some(k) => i <= k < l.len() && l[k].kind == LineKind::Hunk && forall|j: int|
                i <= j < k ==> (#[trigger] l[j]).kind != LineKind::Hunk,
            None => forall|j: int| i <= j < l.len() ==> (#[trigger] l[j]).kind != LineKind::Hunk,
        },
    decreases l.len() - i,
{
    if i < l.len() && l[i].kind != LineKind::Hunk {
        lemma_next(l, i + 1);
    }
}

pub(crate) proof fn lemma_prev(l: Seq<DiffLine>, n: int)
    ensures
        match crate::diff::prev_hunk(l, n) {
            Some(k) => 0 <= k < n && k < l.len() && l[k].kind == LineKind::Hunk && forall|j: int|
                k < j < n && j < l.len() ==> (#[trigger] l[j]).kind != LineKind::Hunk,
            None => forall|j: int|
                0 <= j < n && j < l.len() ==> (#[trigger] l[j]).kind != LineKind::Hunk,
        },
    decreases n,
{
    if n > 0 && !(n - 1 < l.len() && l[n - 1].kind == LineKind::Hunk) {
        lemma_prev(l, n - 1);
    }
}

// ---------------------------------------------------------------------------------------
// Modes, scopes, layouts

/// `m` goes to the next mode: the diff is closed and everything is asked for anew.
pub proof fn law_modes_are_switched(old: App, key: KeyEvent, new: App, act: Action)
    requires
        calm(old),
        pressed(old, key, new, act),
        any_char(key, 'm'),
    ensures
        act == Action::Refresh,
        new == (App {
            mode: new.mode,
            diff: None,
            loading: true,
            message: new.message,
            ..old
        }),
        ({
            let (mode, name) = match old.mode {
                Mode::Uncommitted => (Mode::Unstaged, "unstaged"@),
                Mode::Unstaged => (Mode::Staged, "staged"@),
                Mode::Staged => (Mode::Branch, "branch"@),
                Mode::Branch => (Mode::Uncommitted, "uncommitted"@),
            };
            new.mode == mode && message_text(new) == Some("mode: "@ + name)
        }),
{
}

/// `w` goes to the next scope, and everything is asked for anew; the diff stays until the answer
/// is there.
pub proof fn law_scopes_are_switched(old: App, key: KeyEvent, new: App, act: Action)
    requires
        calm(old),
        pressed(old, key, new, act),
        any_char(key, 'w'),
    ensures
        act == Action::Refresh,
        new == (App { scope: new.scope, loading: true, message: new.message, ..old }),
        ({
            let (scope, name) = match old.scope {
                Scope::All => (Scope::Follow, "follow"@),
                Scope::Follow => if old.here_available {
                    (Scope::Here, "here"@)
                } else {
                    (Scope::All, "all"@)
                },
                Scope::Here => (Scope::All, "all"@),
            };
            new.scope == scope && message_text(new) == Some("scope: "@ + name)
        }),
{
}

/// `s` goes to the other layout, `r` asks for everything anew.
pub proof fn law_layouts_and_refreshes(old: App, key: KeyEvent, new: App, act: Action)
    requires
        calm(old),
        pressed(old, key, new, act),
    ensures
        any_char(key, 's') && side_by_side(old) ==> act == Action::Nothing && told(
            App { view: crate::app::View::Unified, ..old },
            new,
            "unified view"@,
        ),
        any_char(key, 's') && !side_by_side(old) ==> act == Action::Nothing && told(
            App { view: crate::app::View::Split, ..old },
            new,
            "side-by-side view"@,
        ),
        any_char(key, 'r') ==> act == Action::Refresh && new == (App { loading: true, ..old }),
{
}

// ---------------------------------------------------------------------------------------
// Panes and the editor

proof fn lemma_agents(panes: Seq<PaneRef>)
    ensures
        agents(panes) == panes.filter(|p: PaneRef| p.agent is Some),
    decreases panes.len(),
{
    reveal(Seq::filter);
    if panes.len() > 0 {
        lemma_agents(panes.drop_last());
    } else {
        assert(agents(panes) =~= panes.filter(|p: PaneRef| p.agent is Some));
    }
}

/// `a` goes to the panes with agents of the selected repo, in turn, and where there is none to
/// all its panes.
pub proof fn law_agent_panes_are_visited_in_turn(old: App, key: KeyEvent, new: App, act: Action)
    requires
        calm(old),
        pressed(old, key, new, act),
        any_char(key, 'a'),
    ensures
        old.repo_idx >= old.groups@.len() ==> new == old && act == Action::Nothing,
        old.repo_idx < old.groups@.len() ==> {
            let all = old.groups@[old.repo_idx as int].panes@;
            let with_agent = all.filter(|p: PaneRef| p.agent is Some);
            let panes = if with_agent.len() > 0 {
                with_agent
            } else {
                all
            };
            &&& panes.len() == 0 ==> act == Action::Nothing && told(
                old,
                new,
                "no herdr pane in this repo"@,
            )
            &&& panes.len() > 0 ==> {
                &&& act matches Action::FocusPane(id) && id@ == panes[old.agent_cycle as int
                    % panes.len() as int].pane_id@
                &&& new == (App { agent_cycle: new.agent_cycle, ..old })
                &&& old.agent_cycle < usize::MAX ==> new.agent_cycle == old.agent_cycle + 1
                &&& old.agent_cycle == usize::MAX ==> new.agent_cycle == 0
            }
        },
{
    if old.repo_idx < old.groups@.len() {
        lemma_agents(old.groups@[old.repo_idx as int].panes@);
    }
}

proof fn lemma_first_numbered(l: Seq<DiffLine>, i: int, k: int)
    requires
        0 <= i <= k <= l.len(),
        forall|j: int|
            i <= j < k ==> (#[trigger] l[j]).new_no is None || l[j].kind == LineKind::Meta,
        k < l.len() ==> l[k].new_no is Some && l[k].kind != LineKind::Meta,
    ensures
        first_numbered(l, i) == (if k < l.len() {
            l[k].new_no
        } else {
            None
        }),
    decreases k - i,
{
    if i < k {
        assert(l[i].new_no is None || l[i].kind == LineKind::Meta);
        lemma_first_numbered(l, i + 1, k);
    }
}

proof fn lemma_first_change(l: Seq<DiffLine>, i: int, k: int)
    requires
        0 <= i <= k <= l.len(),
        forall|j: int|
            i <= j < k ==> (#[trigger] l[j]).kind != LineKind::Added && l[j].kind
                != LineKind::Removed,
        k < l.len() ==> l[k].kind == LineKind::Added || l[k].kind == LineKind::Removed,
    ensures
        first_change_no(l, i) == (if k < l.len() {
            first_numbered(l, k)
        } else {
            None
        }),
    decreases k - i,
{
    if i < k {
        assert(l[i].kind != LineKind::Added && l[i].kind != LineKind::Removed);
        lemma_first_change(l, i + 1, k);
    }
}

/// `e` opens the selected file in the editor, at the first change from the line on top on: at
/// its line of the new version, or the next one that has one. `c` is that change and `n` that
/// line; the length of the diff where there is none.
pub proof fn law_editor_opens_the_selected_file(
    old: App,
    key: KeyEvent,
    new: App,
    act: Action,
    c: int,
    n: int,
)
    requires
        calm(old),
        old.wf(),
        pressed(old, key, new, act),
        any_char(key, 'e'),
    ensures
        new == old,
        old.selected_file() is None ==> act == Action::Nothing,
        old.selected_file() is Some ==> {
            &&& old.repo_idx < old.groups@.len()
            &&& act matches Action::OpenEditor { path, line } && path@ == joined_path(
                old.groups@[old.repo_idx as int].root@,
                old.selected_file()->0.path@,
            )
            &&& old.diff is None || old.diff->0.lines is Err ==> act->line is None
            &&& old.diff is Some && old.diff->0.lines is Ok ==> {
                let l = old.diff->0.lines->Ok_0@;
                let from = old.diff->0.scroll as int;
                from <= c <= n <= l.len() && (forall|j: int|
                    from <= j < c ==> (#[trigger] l[j]).kind != LineKind::Added && l[j].kind
                        != LineKind::Removed) && (c < l.len() ==> l[c].kind == LineKind::Added
                    || l[c].kind == LineKind::Removed) && (forall|j: int|
                    c <= j < n ==> (#[trigger] l[j]).new_no is None || l[j].kind == LineKind::Meta)
                    && (n < l.len() ==> l[n].new_no is Some && l[n].kind != LineKind::Meta)
                    ==> act->line == (if c < l.len() && n < l.len() {
                    l[n].new_no
                } else {
                    None
                })
            }
        },
{
    if old.selected_file() is Some && old.diff is Some && old.diff->0.lines is Ok {
        let l = old.diff->0.lines->Ok_0@;
        let from = old.diff->0.scroll as int;
        if from <= c <= n <= l.len() && (forall|j: int|
            from <= j < c ==> (#[trigger] l[j]).kind != LineKind::Added && l[j].kind
                != LineKind::Removed) && (c < l.len() ==> l[c].kind == LineKind::Added || l[c].kind
            == LineKind::Removed) && (forall|j: int|
            c <= j < n ==> (#[trigger] l[j]).new_no is None || l[j].kind == LineKind::Meta) && (n
            < l.len() ==> l[n].new_no is Some && l[n].kind != LineKind::Meta) {
            lemma_first_change(l, from, c);
            lemma_first_numbered(l, c, n);
        }
    }
}

// ---------------------------------------------------------------------------------------
// Writing

/// Why nothing can be written: the viewer was started so, or no repo is selected.
pub open spec fn refused(old: App, new: App, act: Action) -> bool {
    &&& act == Action::Nothing
    &&& old.read_only ==> told(old, new, "read-only: herdiff was started with --read-only"@)
    &&& !old.read_only ==> told(old, new, "no repo selected"@)
}

/// Something can be written.
pub open spec fn writable(app: App) -> bool {
    !app.read_only && app.repo_idx < app.groups@.len()
}

/// The action is a write in the selected repo.
pub open spec fn write_in_selected(old: App, new: App, act: Action) -> bool {
    &&& new == old
    &&& act is Git
    &&& act->Git_root == old.groups@[old.repo_idx as int].root
}

/// `A` stages everything in the selected repo, `R` unstages everything, and `C` has git commit
/// by itself.
pub proof fn law_whole_repos_are_staged(old: App, key: KeyEvent, new: App, act: Action)
    requires
        calm(old),
        pressed(old, key, new, act),
        any_char(key, 'A') || any_char(key, 'R') || any_char(key, 'C'),
    ensures
        !writable(old) ==> refused(old, new, act),
        writable(old) && any_char(key, 'A') ==> write_in_selected(old, new, act) && act->op
            == GitOp::StageAll,
        writable(old) && any_char(key, 'R') ==> write_in_selected(old, new, act) && act->op
            == GitOp::UnstageAll,
        writable(old) && any_char(key, 'C') ==> new == old && act == (Action::ExternalCommit {
            root: old.groups@[old.repo_idx as int].root,
        }),
{
}

/// In the files a space stages the selected file, or takes it out of the index: out of it where
/// the index is shown and holds part of the change, else into it where part of the change is
/// outside, else out of it where the index holds the change. A file without local changes says
/// so.
pub proof fn law_space_toggles_the_file(old: App, key: KeyEvent, new: App, act: Action)
    requires
        calm(old),
        pressed(old, key, new, act),
        any_char(key, ' '),
        old.focus == Focus::Files,
    ensures
        old.selected_file() is None ==> new == old && act == Action::Nothing,
        old.selected_file() matches Some(f) ==> {
            let in_index = f.index != ' ' && f.index != '?';
            let outside = f.worktree != ' ';
            let out = (old.mode == Mode::Staged && in_index) || (!outside && in_index);
            &&& !in_index && !outside ==> act == Action::Nothing && told(
                old,
                new,
                f.path@ + " has no local changes to stage"@,
            )
            &&& (in_index || outside) && !writable(old) ==> refused(old, new, act)
            &&& out && writable(old) ==> write_in_selected(old, new, act) && (
            act->op matches GitOp::Unstage(p) && p@ == seq![f.path])
            &&& !out && outside && writable(old) ==> write_in_selected(old, new, act) && (
            act->op matches GitOp::Stage(p) && p@ == seq![f.path])
        },
{
}

/// In the repos a space does nothing.
pub proof fn law_space_leaves_repos_alone(old: App, key: KeyEvent, new: App, act: Action)
    requires
        calm(old),
        pressed(old, key, new, act),
        any_char(key, ' '),
        old.focus == Focus::Repos,
    ensures
        new == old,
        act == Action::Nothing,
{
}

/// In the diff a space stages the hunk at the line on top, or takes it out of the index in
/// staged mode. `h` is the last header at or above that line. Other modes have no such hunks, and
/// an untracked file is staged as a whole.
pub proof fn law_space_toggles_the_hunk(old: App, key: KeyEvent, new: App, act: Action, h: int)
    requires
        calm(old),
        pressed(old, key, new, act),
        any_char(key, ' '),
        old.focus == Focus::Diff,
        old.selected_file() is Some,
    ensures
        ({
            let f = old.selected_file()->0;
            let v = old.diff->0;
            let l = v.lines->Ok_0@;
            let untracked = f.status == Status::Untracked;
            let mode = old.mode == Mode::Unstaged || old.mode == Mode::Staged;
            let loaded = old.diff is Some && v.root@ == old.groups@[old.repo_idx as int].root@
                && v.path@ == f.path@ && v.mode == old.mode;
            &&& untracked && writable(old) ==> write_in_selected(old, new, act) && (
            act->op matches GitOp::Stage(p) && p@ == seq![f.path])
            &&& untracked && !writable(old) ==> refused(old, new, act)
            &&& !untracked && !mode ==> act == Action::Nothing && told(
                old,
                new,
                "hunks can be staged in unstaged mode and unstaged in staged mode (m)"@,
            )
            &&& !untracked && mode && !loaded ==> act == Action::Nothing && told(
                old,
                new,
                "diff is still loading"@,
            )
            &&& !untracked && mode && loaded && v.lines is Ok && 0 <= h <= v.scroll && h < l.len()
                && l[h].kind == LineKind::Hunk && (forall|j: int|
                h < j <= v.scroll && j < l.len() ==> (#[trigger] l[j]).kind != LineKind::Hunk) ==> {
                &&& !writable(old) ==> refused(old, new, act)
                &&& writable(old) ==> write_in_selected(old, new, act) && (
                act->op matches GitOp::ApplyHunk { path, hunk, header, reverse } && path == f.path
                    && header == l[h].text && reverse == (old.mode == Mode::Staged) && hunk
                    == l.take(h).filter(|x: DiffLine| x.kind == LineKind::Hunk).len())
            }
            &&& !untracked && mode && loaded && (v.lines is Err || forall|j: int|
                0 <= j <= v.scroll && j < l.len() ==> (#[trigger] l[j]).kind != LineKind::Hunk)
                ==> act == Action::Nothing && told(old, new, "no hunk here"@)
        }),
{
    let v = old.diff->0;
    let l = v.lines->Ok_0@;
    lemma_prev(l, v.scroll + 1);
    if 0 <= h <= l.len() {
        law_hunks_are_counted(l, h);
    }
}

// ---------------------------------------------------------------------------------------
// The commit box

/// `c` opens an empty commit box for the selected repo, where something is staged there.
pub proof fn law_commit_box_opens(old: App, key: KeyEvent, new: App, act: Action)
    requires
        calm(old),
        pressed(old, key, new, act),
        is_char(key, 'c', false),
    ensures
        act == Action::Nothing,
        !writable(old) ==> refused(old, new, act),
        writable(old) ==> {
            let g = old.groups@[old.repo_idx as int];
            let staged = g.stats is Ok && g.stats->Ok_0.staged > 0;
            &&& !staged ==> told(
                old,
                new,
                "nothing staged: press space on a file or hunk, or A for everything"@,
            )
            &&& staged ==> {
                &&& new == (App { commit: new.commit, ..old })
                &&& new.commit is Some
                &&& new.commit->0.root == g.root
                &&& new.commit->0.message@.len() == 0
                &&& !new.commit->0.busy
            }
        },
{
}

/// Only the message of the commit box changed.
pub open spec fn message_is(old: App, new: App, text: Seq<char>) -> bool {
    &&& new == (App { commit: new.commit, ..old })
    &&& new.commit is Some
    &&& new.commit->0.root == old.commit->0.root
    &&& new.commit->0.busy == old.commit->0.busy
    &&& new.commit->0.message@ == text
}

/// What is typed goes into the message; escape closes the box, and `s` with control commits,
/// unless the message is blank.
pub proof fn law_commit_box_takes_the_keys(old: App, key: KeyEvent, new: App, act: Action, c: char)
    requires
        old.notice is None,
        old.commit is Some && !old.commit->0.busy,
        pressed(old, key, new, act),
    ensures
        ({
            let m = old.commit->0.message@;
            &&& is_char(key, c, false) ==> message_is(old, new, m + seq![c]) && act
                == Action::Nothing
            &&& key.code == KeyCode::Enter ==> message_is(old, new, m + seq!['\n']) && act
                == Action::Nothing
            &&& key.code == KeyCode::Tab ==> message_is(old, new, m + "    "@) && act
                == Action::Nothing
            &&& key.code == KeyCode::Backspace && m.len() > 0 ==> message_is(
                old,
                new,
                m.take(m.len() - 1),
            ) && act == Action::Nothing
            &&& key.code == KeyCode::Backspace && m.len() == 0 ==> message_is(old, new, m) && act
                == Action::Nothing
            &&& key.code == KeyCode::Esc ==> new == (App { commit: None, ..old }) && act
                == Action::Nothing
            &&& is_char(key, 'u', true) ==> message_is(old, new, Seq::empty()) && act
                == Action::Nothing
            &&& is_char(key, 's', true) && trim(m).len() == 0 ==> told(
                old,
                new,
                "write a commit message first"@,
            ) && act == Action::Nothing
            &&& is_char(key, 's', true) && trim(m).len() > 0 ==> {
                &&& new == (App {
                    commit: Some(
                        CommitBox {
                            root: old.commit->0.root,
                            message: old.commit->0.message,
                            busy: true,
                        },
                    ),
                    ..old
                })
                &&& act == (Action::Git {
                    root: old.commit->0.root,
                    op: GitOp::Commit { message: old.commit->0.message },
                })
            }
            &&& is_char(key, c, true) && c != 's' && c != 'u' ==> new == old && act
                == Action::Nothing
            &&& (key.code == KeyCode::Left || key.code == KeyCode::Right || key.code == KeyCode::Up
                || key.code == KeyCode::Down || key.code == KeyCode::Home || key.code
                == KeyCode::End || key.code == KeyCode::PageUp || key.code == KeyCode::PageDown
                || key.code == KeyCode::BackTab || key.code == KeyCode::Other) ==> new == old && act
                == Action::Nothing
        }),
{
    let m = old.commit->0.message@;
    assert(m + seq![c] =~= m.push(c));
    assert(m + seq!['\n'] =~= m.push('\n'));
    if m.len() > 0 {
        assert(m.drop_last() =~= m.take(m.len() - 1));
    }
}

/// What is pasted goes behind the message of an open commit box that waits for keys, and
/// nowhere else.
pub proof fn law_pastes_go_into_the_commit_box(old: App, text: Seq<char>, new: App)
    requires
        pasted(old, text, new),
    ensures
        old.commit is Some && !old.commit->0.busy ==> message_is(
            old,
            new,
            old.commit->0.message@ + newline_ends(text),
        ),
        old.commit is None || old.commit->0.busy ==> new == old,
{
}

/// In pasted text every line end becomes a newline, whichever of the three it is; the rest stays
/// as it is.
pub proof fn law_pasted_line_ends_become_newlines(a: Seq<char>, c: char, b: Seq<char>)
    requires
        !a.contains('\r'),
    ensures
        newline_ends(a) == a,
        newline_ends(a + seq!['\r', '\n'] + b) == a + seq!['\n'] + newline_ends(b),
        c != '\n' ==> newline_ends(a + seq!['\r', c] + b) == a + seq!['\n'] + newline_ends(
            seq![c] + b,
        ),
        newline_ends(a + seq!['\r']) == a + seq!['\n'],
    decreases a.len(),
{
    if a.len() == 0 {
        assert(newline_ends(a) =~= a);
        let x = a + seq!['\r', '\n'] + b;
        assert(x.skip(2) =~= b);
        assert(x[0] == '\r' && x[1] == '\n');
        assert(newline_ends(x) =~= a + seq!['\n'] + newline_ends(b));
        let y = a + seq!['\r', c] + b;
        assert(y.skip(1) =~= seq![c] + b);
        assert(y[0] == '\r' && y[1] == c);
        if c != '\n' {
            assert(newline_ends(y) =~= a + seq!['\n'] + newline_ends(seq![c] + b));
        }
        let z = a + seq!['\r'];
        assert(z.skip(1) =~= Seq::<char>::empty());
        assert(newline_ends(z.skip(1)) =~= Seq::<char>::empty());
        assert(newline_ends(z) =~= a + seq!['\n']);
    } else {
        let t = a.skip(1);
        assert(a[0] != '\r') by {
            assert(a.contains(a[0]));
        }
        assert forall|x: char| t.contains(x) implies a.contains(x) by {
            let k = choose|k: int| 0 <= k < t.len() && t[k] == x;
            assert(a[k + 1] == x);
        }
        law_pasted_line_ends_become_newlines(t, c, b);
        assert(newline_ends(a) =~= a);
        let x = a + seq!['\r', '\n'] + b;
        assert(x.skip(1) =~= t + seq!['\r', '\n'] + b);
        assert(newline_ends(x) =~= a + seq!['\n'] + newline_ends(b));
        let y = a + seq!['\r', c] + b;
        assert(y.skip(1) =~= t + seq!['\r', c] + b);
        if c != '\n' {
            assert(newline_ends(y) =~= a + seq!['\n'] + newline_ends(seq![c] + b));
        }
        let z = a + seq!['\r'];
        assert(z.skip(1) =~= t + seq!['\r']);
        assert(newline_ends(z) =~= a + seq!['\n']);
    }
}

// ---------------------------------------------------------------------------------------
// All other keys

/// Keys without a meaning do nothing.
pub proof fn law_other_keys_do_nothing(old: App, key: KeyEvent, new: App, act: Action, c: char)
    requires
        calm(old),
        pressed(old, key, new, act),
        key.code == KeyCode::Other || key.code == KeyCode::Backspace || (key.code == KeyCode::Char(
            c,
        ) && !seq![
            'q',
            '?',
            'l',
            'h',
            'j',
            'k',
            'J',
            'K',
            'f',
            'b',
            'g',
            'G',
            ' ',
            'A',
            'R',
            'c',
            'C',
            'H',
            'L',
            'n',
            'N',
            'p',
            ']',
            '[',
            'm',
            'w',
            'r',
            'a',
            's',
            'e',
        ].contains(c) && !(key.modifiers.control && (c == 'd' || c == 'u'))),
    ensures
        new == old,
        act == Action::Nothing,
{
    if key.code == KeyCode::Char(c) {
        let known = seq![
            'q',
            '?',
            'l',
            'h',
            'j',
            'k',
            'J',
            'K',
            'f',
            'b',
            'g',
            'G',
            ' ',
            'A',
            'R',
            'c',
            'C',
            'H',
            'L',
            'n',
            'N',
            'p',
            ']',
            '[',
            'm',
            'w',
            'r',
            'a',
            's',
            'e',
        ];
        assert forall|i: int| 0 <= i < known.len() implies known[i] != c by {
            assert(known.contains(known[i]));
        }
        assert(known[0] == 'q' && known[1] == '?' && known[2] == 'l' && known[3] == 'h' && known[4]
            == 'j' && known[5] == 'k' && known[6] == 'J' && known[7] == 'K' && known[8] == 'f'
            && known[9] == 'b' && known[10] == 'g' && known[11] == 'G' && known[12] == ' '
            && known[13] == 'A' && known[14] == 'R' && known[15] == 'c' && known[16] == 'C'
            && known[17] == 'H' && known[18] == 'L' && known[19] == 'n' && known[20] == 'N'
            && known[21] == 'p' && known[22] == ']' && known[23] == '[' && known[24] == 'm'
            && known[25] == 'w' && known[26] == 'r' && known[27] == 'a' && known[28] == 's'
            && known[29] == 'e');
    }
}

} // verus!
