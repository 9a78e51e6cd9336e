//! What the mouse does.

use vstd::prelude::*;

use crate::app::{clamped, Action, App, Focus, WHEEL_COLS, WHEEL_ROWS};
use crate::input::{MouseButton, MouseEvent, MouseEventKind, Rect};
use crate::keys::{file_picked, repo_picked, scrolled, shifted};
use crate::model::RepoGroup;

verus! {

/// Rows that the repos from `from` up to `to` take: one for each and one for each of its panes.
pub open spec fn rows_between(groups: Seq<RepoGroup>, from: int, to: int) -> nat
    decreases to - from,
{
    if to <= from {
        0
    } else {
        rows_between(groups, from, to - 1) + 1 + groups[to - 1].panes@.len()
    }
}

/// The row of a panel that screen row `y` is, its top border not counted; none on a border.
pub open spec fn panel_row(area: Rect, y: u16) -> Option<int> {
    if y <= area.y || y + 1 >= area.end_y() {
        None
    } else {
        Some(y - area.y - 1)
    }
}

/// The row of a panel that screen row `y` is.
fn row_in(area: Rect, y: u16) -> (r: Option<usize>)
    ensures
        match r {
            Some(n) => panel_row(area, y) == Some(n as int) && n <= u16::MAX,
            None => panel_row(area, y) is None,
        },
{
    if y <= area.y || y == u16::MAX || y + 1 >= area.bottom() {
        None
    } else {
        Some((y - area.y - 1) as usize)
    }
}

/// Repo `i` is on screen row `y`.
pub open spec fn repo_on(app: App, y: u16, i: int) -> bool {
    panel_row(app.hit.repos, y) matches Some(n) && app.hit.repos_offset <= i < app.groups@.len()
        && rows_between(app.groups@, app.hit.repos_offset as int, i) <= n < rows_between(
        app.groups@,
        app.hit.repos_offset as int,
        i + 1,
    )
}

/// The file on screen row `y`.
pub open spec fn file_on(app: App, y: u16) -> Option<int> {
    match panel_row(app.hit.files, y) {
        Some(n) => if app.hit.files_offset + n < app.file_list().len() {
            Some(app.hit.files_offset + n)
        } else {
            None
        },
        None => None,
    }
}

/// At most one repo is on a screen row.
pub proof fn law_one_repo_per_row(app: App, y: u16, i: int, j: int)
    requires
        repo_on(app, y, i),
        repo_on(app, y, j),
    ensures
        i == j,
{
    if i < j {
        lemma_rows_grow(app.groups@, app.hit.repos_offset as int, i + 1, j);
    } else if j < i {
        lemma_rows_grow(app.groups@, app.hit.repos_offset as int, j + 1, i);
    }
}

proof fn lemma_rows_grow(groups: Seq<RepoGroup>, from: int, i: int, j: int)
    requires
        from <= i <= j,
    ensures
        rows_between(groups, from, i) <= rows_between(groups, from, j),
    decreases j - i,
{
    if i < j {
        lemma_rows_grow(groups, from, i, j - 1);
    }
}

impl App {
    /// Repo under screen row `y`. Each repo takes one row plus one per pane.
    fn repo_at(&self, y: u16) -> (r: Option<usize>)
        ensures
            match r {
                Some(i) => repo_on(*self, y, i as int),
                None => forall|i: int| !#[trigger] repo_on(*self, y, i),
            },
    {
        let inner: usize = match row_in(self.hit.repos, y) {
            Some(n) => n,
            None => {
                return None;
            },
        };
        let ghost from = self.hit.repos_offset as int;
        let mut top: usize = 0;
        let mut i: usize = self.hit.repos_offset;
        while i < self.groups.len()
            invariant
                from == self.hit.repos_offset,
                from <= i,
                top == rows_between(self.groups@, from, i as int),
                top <= inner,
                panel_row(self.hit.repos, y) == Some(inner as int),
                forall|k: int| k < i ==> !#[trigger] repo_on(*self, y, k),
            decreases self.groups.len() - i,
        {
            let panes: usize = self.groups[i].panes.len();
            if inner - top <= panes {
                assert(repo_on(*self, y, i as int));
                return Some(i);
            }
            top += 1 + panes;
            i += 1;
        }
        None
    }

    /// File under screen row `y`.
    fn file_at(&self, y: u16) -> (r: Option<usize>)
        ensures
            match r {
                Some(i) => file_on(*self, y) == Some(i as int),
                None => file_on(*self, y) is None,
            },
    {
        let inner: usize = match row_in(self.hit.files, y) {
            Some(n) => n,
            None => {
                return None;
            },
        };
        let n: usize = self.files().len();
        if self.hit.files_offset < n && inner < n - self.hit.files_offset {
            Some(self.hit.files_offset + inner)
        } else {
            None
        }
    }
}

/// The panel under a cell of the screen.
pub open spec fn panel_at(app: App, column: u16, row: u16) -> Option<Focus> {
    if app.hit.repos.covers(column, row) {
        Some(Focus::Repos)
    } else if app.hit.files.covers(column, row) {
        Some(Focus::Files)
    } else if app.hit.diff.covers(column, row) {
        Some(Focus::Diff)
    } else {
        None
    }
}

/// `new` and `act` are what turning the wheel by one notch over `panel` comes to.
pub open spec fn wheeled(
    old: App,
    panel: Focus,
    dir: int,
    shift: bool,
    new: App,
    act: Action,
) -> bool {
    match panel {
        Focus::Repos => repo_picked(old, clamped(old.repo_idx + dir, old.groups@.len()), new, act),
        Focus::Files => file_picked(
            old,
            clamped(old.file_idx + dir, old.file_list().len()),
            new,
            act,
        ),
        Focus::Diff => if shift {
            shifted(old, dir * WHEEL_COLS, new, act)
        } else {
            scrolled(old, dir * WHEEL_ROWS, new, act)
        },
    }
}

/// `new` and `act` are what a click on `panel` at screen row `y` comes to: the panel gets the
/// focus, and what is on that row is selected.
pub open spec fn clicked(old: App, panel: Focus, y: u16, new: App, act: Action) -> bool {
    let focused = App { focus: panel, ..old };
    match panel {
        Focus::Repos => {
            ||| exists|i: int| #[trigger] repo_on(old, y, i) && repo_picked(focused, i, new, act)
            ||| (forall|i: int| !#[trigger] repo_on(old, y, i)) && new == focused && act
                == Action::Nothing
        },
        Focus::Files => match file_on(old, y) {
            Some(i) => file_picked(focused, i, new, act),
            None => new == focused && act == Action::Nothing,
        },
        Focus::Diff => new == focused && act == Action::Nothing,
    }
}

/// `new` and `act` are what a mouse event comes to. The commit box takes no clicks, a notice
/// and the help are closed by one, and beside the panels there is nothing to hit.
pub open spec fn moused(old: App, ev: MouseEvent, new: App, act: Action) -> bool {
    if old.commit is Some {
        new == old && act == Action::Nothing
    } else if old.notice is Some {
        &&& act == Action::Nothing
        &&& new == if ev.kind is Down {
            App { notice: None, ..old }
        } else {
            old
        }
    } else if old.show_help {
        &&& act == Action::Nothing
        &&& new == if ev.kind is Down {
            App { show_help: false, ..old }
        } else {
            old
        }
    } else {
        match panel_at(old, ev.column, ev.row) {
            None => new == old && act == Action::Nothing,
            Some(panel) => match ev.kind {
                MouseEventKind::ScrollDown => wheeled(old, panel, 1, ev.modifiers.shift, new, act),
                MouseEventKind::ScrollUp => wheeled(old, panel, -1, ev.modifiers.shift, new, act),
                MouseEventKind::ScrollRight => if panel == Focus::Diff {
                    shifted(old, WHEEL_COLS as int, new, act)
                } else {
                    new == old && act == Action::Nothing
                },
                MouseEventKind::ScrollLeft => if panel == Focus::Diff {
                    shifted(old, -WHEEL_COLS, new, act)
                } else {
                    new == old && act == Action::Nothing
                },
                MouseEventKind::Down(MouseButton::Left) => clicked(old, panel, ev.row, new, act),
                _ => new == old && act == Action::Nothing,
            },
        }
    }
}

impl App {
    /// Handle a mouse event.
    pub fn on_mouse(&mut self, ev: MouseEvent) -> (act: Action)
        ensures
            moused(*old(self), ev, *final(self), act),
    {
        let down = match ev.kind {
            MouseEventKind::Down(_) => true,
            _ => false,
        };
        if self.commit.is_some() {
            return Action::Nothing;
        }
        if self.notice.is_some() {
            if down {
                self.notice = None;
            }
            return Action::Nothing;
        }
        if self.show_help {
            if down {
                self.show_help = false;
            }
            return Action::Nothing;
        }
        let panel = if self.hit.repos.contains(ev.column, ev.row) {
            Focus::Repos
        } else if self.hit.files.contains(ev.column, ev.row) {
            Focus::Files
        } else if self.hit.diff.contains(ev.column, ev.row) {
            Focus::Diff
        } else {
            return Action::Nothing;
        };
        match ev.kind {
            MouseEventKind::ScrollDown => self.wheel(panel, 1, ev.modifiers.shift),
            MouseEventKind::ScrollUp => self.wheel(panel, -1, ev.modifiers.shift),
            MouseEventKind::ScrollRight => if panel == Focus::Diff {
                self.hscroll(WHEEL_COLS)
            } else {
                Action::Nothing
            },
            MouseEventKind::ScrollLeft => if panel == Focus::Diff {
                self.hscroll(-WHEEL_COLS)
            } else {
                Action::Nothing
            },
            MouseEventKind::Down(MouseButton::Left) => self.click(panel, ev.row),
            _ => Action::Nothing,
        }
    }

    fn wheel(&mut self, panel: Focus, dir: isize, shift: bool) -> (act: Action)
        requires
            -1 <= dir <= 1,
        ensures
            wheeled(*old(self), panel, dir as int, shift, *final(self), act),
    {
        match panel {
            Focus::Repos => self.step_repo(dir),
            Focus::Files => self.step_file(dir),
            Focus::Diff => if shift {
                self.hscroll(dir * WHEEL_COLS)
            } else {
                self.scroll_diff(dir * WHEEL_ROWS)
            },
        }
    }

    fn click(&mut self, panel: Focus, row: u16) -> (act: Action)
        ensures
            clicked(*old(self), panel, row, *final(self), act),
    {
        self.focus = panel;
        assert(forall|i: int|
            #![trigger repo_on(*self, row, i)]
            #![trigger repo_on(*old(self), row, i)]
            repo_on(*self, row, i) == repo_on(*old(self), row, i));
        match panel {
            Focus::Repos => match self.repo_at(row) {
                Some(i) => self.go_to_repo(i),
                None => Action::Nothing,
            },
            Focus::Files => match self.file_at(row) {
                Some(i) => self.go_to_file(i),
                None => Action::Nothing,
            },
            Focus::Diff => Action::Nothing,
        }
    }
}

} // verus!
