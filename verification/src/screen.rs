//! One frame of the viewer.

use vstd::prelude::*;

use crate::app::{App, HitMap};
use crate::input::Rect;
use crate::ui::{
    areas_of, files_panel, files_view, inner, lay_out, line, repos_panel, repos_view, Areas, Panel,
    PanelView, Styled,
};
use crate::ui_diff::{diff_panel, diff_view};
use crate::ui_status::{
    center, centered, commit_panel, commit_view, help_panel, help_view, key_table, notice_panel,
    notice_view, status_line, status_view,
};

verus! {

/// What opens on top of the panels, and where.
#[derive(Debug)]
pub struct Popup {
    pub area: Rect,
    /// Rows left free inside the border, above and below.
    pub padding: u16,
    pub panel: Panel,
}

/// A frame: where everything is and what it shows.
#[derive(Debug)]
pub struct Screen {
    pub areas: Areas,
    pub repos: Panel,
    pub files: Panel,
    pub diff: Panel,
    pub status: Vec<Styled>,
    /// From the bottom up.
    pub popups: Vec<Popup>,
}

/// A popup as a value.
pub struct PopupView {
    pub area: Rect,
    pub padding: u16,
    pub panel: PanelView,
}

/// A popup as a value.
pub open spec fn popup_view(p: Popup) -> PopupView {
    PopupView { area: p.area, padding: p.padding, panel: p.panel@ }
}

/// The popups as values.
pub open spec fn popup_views(v: Seq<Popup>) -> Seq<PopupView> {
    v.map_values(|p: Popup| popup_view(p))
}

/// The help, where it is open.
pub open spec fn help_popup(app: App, screen: Rect) -> Seq<PopupView> {
    if app.show_help {
        seq![
            PopupView {
                area: centered(screen, 80, key_table().len() as int + 4),
                padding: 1,
                panel: help_view(),
            },
        ]
    } else {
        Seq::empty()
    }
}

/// The agents that work in the selected repo.
pub open spec fn agents_at_work(app: App) -> Seq<Seq<char>> {
    match app.selected_repo() {
        Some(g) => crate::app::working(g.panes@),
        None => Seq::empty(),
    }
}

/// The commit box, where it is open.
pub open spec fn commit_popup(app: App, screen: Rect) -> Seq<PopupView> {
    match app.commit {
        Some(c) => seq![
            PopupView {
                area: centered(screen, 72, 12),
                padding: 0,
                panel: commit_view(c, agents_at_work(app)),
            },
        ],
        None => Seq::empty(),
    }
}

/// The notice, where there is one.
pub open spec fn notice_popup(app: App, screen: Rect) -> Seq<PopupView> {
    match app.notice {
        Some(n) => seq![
            PopupView { area: centered(screen, 80, 16), padding: 0, panel: notice_view(n) },
        ],
        None => Seq::empty(),
    }
}

/// The state once the panels are at these places: they can be hit there.
pub open spec fn framed(app: App, a: Areas) -> App {
    App {
        diff_height: inner(a.diff.height) as usize,
        diff_width: inner(a.diff.width) as usize,
        hit: HitMap { repos: a.repos, files: a.files, diff: a.diff, ..app.hit },
        ..app
    }
}

fn add_popup(out: &mut Vec<Popup>, area: Rect, padding: u16, panel: Panel)
    ensures
        popup_views(final(out)@) == popup_views(old(out)@).push(
            PopupView { area, padding, panel: panel@ },
        ),
{
    let ghost before = out@;
    out.push(Popup { area, padding, panel });
    assert(popup_views(out@) =~= popup_views(before).push(
        PopupView { area, padding, panel: panel@ },
    ));
}

/// `r` is a frame of the state, with the panels at these places.
pub open spec fn shows(
    app: App,
    screen: Rect,
    areas: Areas,
    data_age: Option<u64>,
    message_age: u64,
    r: Screen,
) -> bool {
    &&& r.areas == areas
    &&& r.repos@ == repos_view(app, areas.repos.width)
    &&& r.files@ == files_view(app, areas.files.width)
    &&& r.diff@ == diff_view(app)
    &&& line(r.status@) == status_view(app, areas.status.width, data_age, message_age)
    &&& popup_views(r.popups@) == help_popup(app, screen) + commit_popup(app, screen)
        + notice_popup(app, screen)
}

/// Draw a frame on a screen of that size. `data_age` is the age of the data and `message_age`
/// that of the message, in seconds. The offsets of the lists are left to the painter.
pub fn draw(app: &mut App, screen: Rect, data_age: Option<u64>, message_age: u64) -> (r: Screen)
    ensures
        *final(app) == framed(*old(app), areas_of(screen)),
        shows(*final(app), screen, areas_of(screen), data_age, message_age, r),
{
    draw_at(app, screen, lay_out(screen), data_age, message_age)
}

/// Draw a frame with the panels at the given places.
pub fn draw_at(
    app: &mut App,
    screen: Rect,
    areas: Areas,
    data_age: Option<u64>,
    message_age: u64,
) -> (r: Screen)
    ensures
        *final(app) == framed(*old(app), areas),
        shows(*final(app), screen, areas, data_age, message_age, r),
{
    app.diff_height = areas.diff.height.saturating_sub(2) as usize;
    app.diff_width = areas.diff.width.saturating_sub(2) as usize;
    app.hit.repos = areas.repos;
    app.hit.files = areas.files;
    app.hit.diff = areas.diff;
    let mut popups: Vec<Popup> = Vec::new();
    assert(popup_views(popups@) =~= Seq::<PopupView>::empty());
    if app.show_help {
        let (area, panel) = help_panel(screen);
        add_popup(&mut popups, area, 1, panel);
    }
    assert(popup_views(popups@) =~= help_popup(*app, screen));
    if let Some(c) = &app.commit {
        let agents = app.working_agents();
        let panel = commit_panel(c, &agents);
        add_popup(&mut popups, center(screen, 72, 12), 0, panel);
    }
    assert(popup_views(popups@) =~= help_popup(*app, screen) + commit_popup(*app, screen));
    if let Some(n) = &app.notice {
        add_popup(&mut popups, center(screen, 80, 16), 0, notice_panel(n));
    }
    assert(popup_views(popups@) =~= help_popup(*app, screen) + commit_popup(*app, screen)
        + notice_popup(*app, screen));
    Screen {
        areas,
        repos: repos_panel(app, areas.repos.width),
        files: files_panel(app, areas.files.width),
        diff: diff_panel(app),
        status: status_line(app, areas.status.width, data_age, message_age),
        popups,
    }
}

} // verus!
