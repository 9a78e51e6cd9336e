//! What holds of the command line: scopes, what `list` prints, and how an editor is started.

use vstd::prelude::*;
use vstd::string::*;

use crate::cli::{
    check_scope, editor_argv, editor_command, editor_of, file_json, file_text, group_json,
    group_text, groups_text, list_json, list_lines, list_scope, list_warning, pane_json, pane_text,
    stats_json, viewer_scope,
};
use crate::git::{FileChange, Mode, RepoStats, Status};
use crate::json::{array_text, indented, json_string, object_text};
use crate::laws_text::law_names_stand_behind_the_last_slash;
use crate::model::{PaneRef, RepoGroup};
use crate::paths::file_name;
use crate::scope::{Scope, SelfPane};
use crate::text::{decimal, padded, views, words};
use crate::worker::Refreshed;

verus! {

// ---------------------------------------------------------------------------------------
// Scope

/// A scope that is asked for is taken, but that of the own workspace is refused outside herdr.
/// Where none is asked for, the viewer follows the focus inside herdr and shows all outside,
/// and `list` shows all.
pub proof fn law_scopes_of_the_command_line(
    asked: Option<Scope>,
    me: SelfPane,
    ok: Result<(), String>,
    viewer: Scope,
    list: Scope,
)
    requires
        call_ensures(check_scope, (asked, &me), ok),
        call_ensures(viewer_scope, (asked, &me), viewer),
        call_ensures(list_scope, (asked,), list),
    ensures
        ({
            let inside = me.pane_id is Some || me.workspace_id is Some;
            &&& ok is Err <==> asked == Some(Scope::Here) && !inside
            &&& ok matches Err(e) ==> e@
                == "--scope here needs to run inside a herdr pane (HERDR_PANE_ID is not set)"@
            &&& asked matches Some(s) ==> viewer == s && list == s
            &&& asked is None && inside ==> viewer == Scope::Follow
            &&& asked is None && !inside ==> viewer == Scope::All
            &&& asked is None ==> list == Scope::All
        }),
{
}

// ---------------------------------------------------------------------------------------
// list

/// The list starts with the scope where that has a label, and goes on with the repos, one
/// behind the other.
pub proof fn law_list_starts_with_the_scope(r: Refreshed, scope: Scope, out: Vec<String>)
    requires
        call_ensures(list_lines, (&r, scope), out),
    ensures
        r.target.label is None ==> views(out@) == groups_text(r.groups@),
        r.target.label matches Some(label) ==> views(out@) == seq![
            "scope "@ + (match scope {
                Scope::All => "all"@,
                Scope::Follow => "follow"@,
                Scope::Here => "here"@,
            }) + ": "@ + label@,
        ] + groups_text(r.groups@),
{
    if r.target.label is None {
        assert(Seq::<Seq<char>>::empty() + groups_text(r.groups@) =~= groups_text(r.groups@));
    }
}

/// The lines of the repos stand in the order of the repos.
pub proof fn law_repos_are_listed_in_order(head: Seq<RepoGroup>, g: RepoGroup)
    ensures
        groups_text(Seq::<RepoGroup>::empty()).len() == 0,
        groups_text(head.push(g)) == groups_text(head) + group_text(g),
{
    assert(head.push(g).drop_last() =~= head);
}

/// A repo that failed has one line with its error. Any other has a line with its branch, the
/// number of its files, its totals and its base, then a line for each pane, then one for each
/// file.
pub proof fn law_lines_of_a_repo(g: RepoGroup, i: int)
    ensures
        g.stats matches Err(e) ==> group_text(g) == seq![g.root@ + "  error: "@ + e@],
        g.stats matches Ok(s) ==> {
            let t = group_text(g);
            let n = g.panes@.len();
            &&& t.len() == 1 + n + s.files@.len()
            &&& t[0] == g.root@ + "  ["@ + s.branch@ + "]  "@ + decimal(s.files@.len())
                + " files  +"@ + decimal(crate::git::added_lines(s.files@) % 0x1_0000_0000) + " -"@
                + decimal(crate::git::removed_lines(s.files@) % 0x1_0000_0000) + "  (vs "@ + s.base@
                + ")"@
            &&& 0 <= i < n ==> t[1 + i] == pane_text(g.panes@[i])
            &&& 0 <= i < s.files@.len() ==> t[1 + n + i] == file_text(s.files@[i])
        },
{
}

/// The line of a pane: its ID, its workspace and tab, its agent and the agent's state. A pane
/// without an agent is a shell.
pub proof fn law_line_of_a_pane(p: PaneRef)
    ensures
        ({
            let agent = if p.agent is Some {
                p.agent->0@
            } else {
                "shell"@
            };
            let state = if p.status is Some {
                p.status->0@
            } else {
                Seq::empty()
            };
            pane_text(p) == "  pane "@ + p.pane_id@ + " "@ + p.workspace@ + "/"@ + p.tab@ + " "@
                + agent + " "@ + state
        }),
{
}

/// The line of a file: the letter of its status, its path, filled up to sixty characters, and
/// how many lines were added and removed. A nested repo and a binary file have no such counts.
pub proof fn law_line_of_a_file(f: FileChange)
    ensures
        ({
            let letter = match f.status {
                Status::Added => 'A',
                Status::Modified => 'M',
                Status::Deleted => 'D',
                Status::TypeChanged => 'T',
                Status::Untracked => '?',
                Status::Other(c) => c,
            };
            let size = if f.path@.len() > 0 && f.path@.last() == '/' {
                "nested repo"@
            } else if f.added is None || f.removed is None {
                "binary"@
            } else {
                "+"@ + decimal(f.added->0 as nat) + " -"@ + decimal(f.removed->0 as nat)
            };
            file_text(f) == "    "@ + seq![letter] + " "@ + padded(f.path@, 60) + " "@ + size
        }),
{
}

/// Where herdr did not answer, the list warns of it.
pub proof fn law_list_warns_of_herdr(r: Refreshed, w: Option<String>)
    requires
        call_ensures(list_warning, (&r,), w),
    ensures
        r.herdr_error is None ==> w is None,
        r.herdr_error matches Some(e) ==> (w matches Some(s) && s@ == "herdr: "@ + e@),
{
}

/// A text as JSON, `null` where there is none.
pub open spec fn text_or_null(s: Option<String>) -> Seq<char> {
    if s is Some {
        json_string(s->0@)
    } else {
        "null"@
    }
}

/// A number as JSON, `null` where there is none.
pub open spec fn number_or_null(n: Option<u32>) -> Seq<char> {
    if n is Some {
        decimal(n->0 as nat)
    } else {
        "null"@
    }
}

/// As JSON the list is an object with the error of herdr, the mode, the repos, the scope and
/// the workspace.
pub proof fn law_json_of_the_list(
    r: Refreshed,
    mode: Mode,
    scope: Scope,
    out: Result<String, String>,
)
    requires
        call_ensures(list_json, (&r, mode, scope), out),
    ensures
        out matches Ok(s) && s@ == indented(
            object_text(
                seq![
                    ("herdr_error"@, text_or_null(r.herdr_error)),
                    (
                        "mode"@,
                        json_string(
                            match mode {
                                Mode::Uncommitted => "uncommitted"@,
                                Mode::Unstaged => "unstaged"@,
                                Mode::Staged => "staged"@,
                                Mode::Branch => "branch"@,
                            },
                        ),
                    ),
                    (
                        "repos"@,
                        array_text(
                            Seq::new(r.groups@.len(), |i: int| group_json(r.groups@[i])),
                        ),
                    ),
                    (
                        "scope"@,
                        json_string(
                            match scope {
                                Scope::All => "all"@,
                                Scope::Follow => "follow"@,
                                Scope::Here => "here"@,
                            },
                        ),
                    ),
                    ("workspace"@, text_or_null(r.target.label)),
                    ("workspace_id"@, text_or_null(r.target.workspace_id)),
                ],
            ),
        ),
{
    assert(r.groups@.map_values(|g: RepoGroup| group_json(g)) =~= Seq::new(
        r.groups@.len(),
        |i: int| group_json(r.groups@[i]),
    ));
}

/// As JSON a repo has its root and its panes, and either its stats or its error.
pub proof fn law_json_of_a_repo(g: RepoGroup)
    ensures
        group_json(g) == object_text(
            seq![
                (
                    "error"@,
                    if g.stats is Ok {
                        "null"@
                    } else {
                        json_string(g.stats->Err_0@)
                    },
                ),
                ("panes"@, array_text(Seq::new(g.panes@.len(), |i: int| pane_json(g.panes@[i])))),
                ("root"@, json_string(g.root@)),
                (
                    "stats"@,
                    if g.stats is Ok {
                        stats_json(g.stats->Ok_0)
                    } else {
                        "null"@
                    },
                ),
            ],
        ),
{
    assert(g.panes@.map_values(|p: PaneRef| pane_json(p)) =~= Seq::new(
        g.panes@.len(),
        |i: int| pane_json(g.panes@[i]),
    ));
}

/// As JSON the stats of a repo are its base, its branch and its files.
pub proof fn law_json_of_stats(s: RepoStats)
    ensures
        stats_json(s) == object_text(
            seq![
                ("base"@, json_string(s.base@)),
                ("branch"@, json_string(s.branch@)),
                ("files"@, array_text(Seq::new(s.files@.len(), |i: int| file_json(s.files@[i])))),
            ],
        ),
{
    assert(s.files@.map_values(|f: FileChange| file_json(f)) =~= Seq::new(
        s.files@.len(),
        |i: int| file_json(s.files@[i]),
    ));
}

/// As JSON a pane has its agent, ID, state, tab, title and workspace.
pub proof fn law_json_of_a_pane(p: PaneRef)
    ensures
        pane_json(p) == object_text(
            seq![
                ("agent"@, text_or_null(p.agent)),
                ("pane_id"@, json_string(p.pane_id@)),
                ("status"@, text_or_null(p.status)),
                ("tab"@, json_string(p.tab@)),
                ("title"@, json_string(p.title@)),
                ("workspace"@, json_string(p.workspace@)),
            ],
        ),
{
}

/// As JSON a file has its counts, `null` for a binary file, its path and the letter of its
/// status.
pub proof fn law_json_of_a_file(f: FileChange)
    ensures
        ({
            let letter = match f.status {
                Status::Added => 'A',
                Status::Modified => 'M',
                Status::Deleted => 'D',
                Status::TypeChanged => 'T',
                Status::Untracked => '?',
                Status::Other(c) => c,
            };
            file_json(f) == object_text(
                seq![
                    ("added"@, number_or_null(f.added)),
                    ("path"@, json_string(f.path@)),
                    ("removed"@, number_or_null(f.removed)),
                    ("status"@, json_string(seq![letter])),
                ],
            )
        }),
{
}

// ---------------------------------------------------------------------------------------
// The editor

/// The editor is the visual one, else the other one, else `vi`.
pub proof fn law_editor_is_the_visual_one(
    visual: Option<String>,
    editor: Option<String>,
    r: String,
)
    requires
        call_ensures(editor_of, (&visual, &editor), r),
    ensures
        visual matches Some(v) ==> r@ == v@,
        visual is None && editor is Some ==> r@ == editor->0@,
        visual is None && editor is None ==> r@ == "vi"@,
{
}

/// An editor is started with its own arguments, then the file, at the line in the form that the
/// editor takes. `name` is the file name of the editor's program.
pub proof fn law_editors_open_at_the_line(
    editor: &str,
    path: &str,
    line: Option<u32>,
    dir: Seq<char>,
    name: Seq<char>,
    rest: Seq<Seq<char>>,
    r: Vec<String>,
)
    requires
        call_ensures(editor_command, (editor, path, line), r),
        !name.contains('/'),
        name.len() > 0,
        name != "."@,
        name != ".."@,
        words(editor@) == seq![name] + rest || words(editor@) == seq![dir + "/"@ + name] + rest,
    ensures
        line is None ==> views(r@) == words(editor@) + seq![path@],
        line matches Some(l) ==> {
            let at = path@ + ":"@ + decimal(l as nat);
            let goto = name == "code"@ || name == "cursor"@;
            let colon = name == "zed"@ || name == "subl"@;
            &&& goto ==> views(r@) == words(editor@) + seq!["--goto"@, at]
            &&& !goto && colon ==> views(r@) == words(editor@) + seq![at]
            &&& !goto && !colon ==> views(r@) == words(editor@) + seq![
                "+"@ + decimal(l as nat),
                path@,
            ]
        },
{
    law_names_stand_behind_the_last_slash(dir, name);
    assert(words(editor@)[0] == name || words(editor@)[0] == dir + "/"@ + name);
}

/// An editor of no words is `vi`.
pub proof fn law_blank_editors_are_vi(editor: &str, path: &str, l: u32, r: Vec<String>)
    requires
        call_ensures(editor_command, (editor, path, Some(l)), r),
        words(editor@).len() == 0,
    ensures
        views(r@) == seq!["vi"@, "+"@ + decimal(l as nat), path@],
{
    reveal_strlit("vi");
    reveal_strlit("code");
    reveal_strlit("cursor");
    reveal_strlit("zed");
    reveal_strlit("subl");
    reveal_strlit(".");
    reveal_strlit("..");
    assert("vi"@[0] == 'v');
    assert(!"vi"@.contains('/'));
    law_names_stand_behind_the_last_slash(Seq::empty(), "vi"@);
    assert(".."@[0] == '.');
    assert("vi"@ != ".."@);
    assert(editor_argv(editor@, path@, Some(l)) =~= seq![
        "vi"@,
        "+"@ + decimal(l as nat),
        path@,
    ]);
}

/// An editor whose program has no file name gets the line as most do.
pub proof fn law_nameless_editors_open_at_the_line(
    editor: &str,
    path: &str,
    l: u32,
    r: Vec<String>,
)
    requires
        call_ensures(editor_command, (editor, path, Some(l)), r),
        words(editor@).len() > 0,
        file_name(words(editor@)[0]) is None,
    ensures
        views(r@) == words(editor@) + seq!["+"@ + decimal(l as nat), path@],
{
    reveal_strlit("code");
    reveal_strlit("cursor");
    reveal_strlit("zed");
    reveal_strlit("subl");
}

} // verus!
