//! What the command line asks for, what `list` prints and how an editor is started.

use serde_json::Value;
use vstd::prelude::*;
use vstd::string::*;

use crate::git::{added_lines, removed_lines, FileChange, Mode, RepoStats};
use crate::json::{
    add_member, array_text, array_value, indented, json_string, json_text, key_ascends,
    member_texts, number_value, object_text, object_value, opt_value, pretty, text_value,
    value_texts,
};
use crate::model::{PaneRef, RepoGroup};
use crate::paths::{file_name, file_name_of};
use crate::scope::{Scope, SelfPane, Target};
use crate::text::{
    before, chars_of, decimal, decimal_of, pad, padded, same_text, views, words, words_of,
};
use crate::worker::Refreshed;

verus! {

// ---------------------------------------------------------------------------------------
// Scope

/// Why a scope that was asked for cannot be had.
pub open spec fn scope_refused(asked: Option<Scope>, me: SelfPane) -> bool {
    asked == Some(Scope::Here) && !me.inside()
}

/// Check the scope that was asked for.
pub fn check_scope(asked: Option<Scope>, me: &SelfPane) -> (r: Result<(), String>)
    ensures
        if scope_refused(asked, *me) {
            r matches Err(e) && e@
                == "--scope here needs to run inside a herdr pane (HERDR_PANE_ID is not set)"@
        } else {
            r == Ok::<(), String>(())
        },
{
    match asked {
        Some(scope) => if scope == Scope::Here && !me.inside_herdr() {
            Err(
                "--scope here needs to run inside a herdr pane (HERDR_PANE_ID is not set)".to_owned(),
            )
        } else {
            Ok(())
        },
        None => Ok(()),
    }
}

/// The scope to start the viewer in: follow inside a herdr pane, all otherwise.
pub fn viewer_scope(asked: Option<Scope>, me: &SelfPane) -> (r: Scope)
    ensures
        r == (match asked {
            Some(s) => s,
            None => if me.inside() {
                Scope::Follow
            } else {
                Scope::All
            },
        }),
{
    match asked {
        Some(s) => s,
        None => if me.inside_herdr() {
            Scope::Follow
        } else {
            Scope::All
        },
    }
}

/// The scope that `list` prints.
pub fn list_scope(asked: Option<Scope>) -> (r: Scope)
    ensures
        r == (match asked {
            Some(s) => s,
            None => Scope::All,
        }),
{
    match asked {
        Some(s) => s,
        None => Scope::All,
    }
}

// ---------------------------------------------------------------------------------------
// list

/// The size of a change, for `list`.
pub open spec fn size_text(f: FileChange) -> Seq<char> {
    if f.names_dir() {
        "nested repo"@
    } else if f.added is Some && f.removed is Some {
        "+"@ + decimal(f.added->0 as nat) + " -"@ + decimal(f.removed->0 as nat)
    } else {
        "binary"@
    }
}

/// The line of a file.
pub open spec fn file_text(f: FileChange) -> Seq<char> {
    "    "@ + seq![f.status.code()] + " "@ + padded(f.path@, 60) + " "@ + size_text(f)
}

/// The text of an optional one, or else another.
pub open spec fn or_text(s: Option<String>, otherwise: Seq<char>) -> Seq<char> {
    match s {
        Some(t) => t@,
        None => otherwise,
    }
}

/// The line of a pane.
pub open spec fn pane_text(p: PaneRef) -> Seq<char> {
    "  pane "@ + p.pane_id@ + " "@ + p.workspace@ + "/"@ + p.tab@ + " "@ + or_text(
        p.agent,
        "shell"@,
    ) + " "@ + or_text(p.status, Seq::empty())
}

/// The first line of a repo.
pub open spec fn repo_text(root: Seq<char>, s: RepoStats) -> Seq<char> {
    root + "  ["@ + s.branch@ + "]  "@ + decimal(s.files@.len()) + " files  +"@ + decimal(
        added_lines(s.files@) % 0x1_0000_0000,
    ) + " -"@ + decimal(removed_lines(s.files@) % 0x1_0000_0000) + "  (vs "@ + s.base@ + ")"@
}

/// The lines of a repo: itself, its panes, its files.
pub open spec fn group_text(g: RepoGroup) -> Seq<Seq<char>> {
    match g.stats {
        Ok(s) => seq![repo_text(g.root@, s)] + g.panes@.map_values(|p: PaneRef| pane_text(p))
            + s.files@.map_values(|f: FileChange| file_text(f)),
        Err(e) => seq![g.root@ + "  error: "@ + e@],
    }
}

/// The lines of all repos.
pub open spec fn groups_text(groups: Seq<RepoGroup>) -> Seq<Seq<char>>
    decreases groups.len(),
{
    if groups.len() == 0 {
        Seq::empty()
    } else {
        groups_text(groups.drop_last()) + group_text(groups.last())
    }
}

/// The line that says what is shown.
pub open spec fn scope_text(scope: Scope, target: Target) -> Seq<Seq<char>> {
    match target.label {
        Some(label) => seq!["scope "@ + scope.name() + ": "@ + label@],
        None => Seq::empty(),
    }
}

fn size_of_change(f: &FileChange) -> (r: String)
    ensures
        r@ == size_text(*f),
{
    if f.is_dir() {
        return "nested repo".to_owned();
    }
    match (f.added, f.removed) {
        (Some(a), Some(d)) => {
            let mut s = "+".to_owned();
            s.append(decimal_of(a as u64).as_str());
            s.append(" -");
            s.append(decimal_of(d as u64).as_str());
            s
        },
        _ => "binary".to_owned(),
    }
}

fn file_line(f: &FileChange) -> (r: String)
    ensures
        r@ == file_text(*f),
{
    let mut s = "    ".to_owned();
    s.push(f.status.letter());
    assert(s@ =~= "    "@ + seq![f.status.code()]);
    s.append(" ");
    s.append(pad(f.path.as_str(), 60).as_str());
    s.append(" ");
    s.append(size_of_change(f).as_str());
    s
}

fn pane_line(p: &PaneRef) -> (r: String)
    ensures
        r@ == pane_text(*p),
{
    let mut s = "  pane ".to_owned();
    s.append(p.pane_id.as_str());
    s.append(" ");
    s.append(p.workspace.as_str());
    s.append("/");
    s.append(p.tab.as_str());
    s.append(" ");
    match &p.agent {
        Some(a) => s.append(a.as_str()),
        None => s.append("shell"),
    }
    s.append(" ");
    match &p.status {
        Some(t) => s.append(t.as_str()),
        None => {
            assert(s@ =~= s@ + Seq::<char>::empty());
        },
    }
    s
}

fn repo_line(root: &str, st: &RepoStats) -> (r: String)
    ensures
        r@ == repo_text(root@, *st),
{
    let (a, d) = st.totals();
    let mut s = root.to_owned();
    s.append("  [");
    s.append(st.branch.as_str());
    s.append("]  ");
    s.append(decimal_of(st.files.len() as u64).as_str());
    s.append(" files  +");
    s.append(decimal_of(a as u64).as_str());
    s.append(" -");
    s.append(decimal_of(d as u64).as_str());
    s.append("  (vs ");
    s.append(st.base.as_str());
    s.append(")");
    s
}

/// Add the lines of a repo.
fn push_group(out: &mut Vec<String>, g: &RepoGroup)
    ensures
        views(final(out)@) == views(old(out)@) + group_text(*g),
{
    let ghost start = views(out@);
    match &g.stats {
        Err(e) => {
            let mut s = g.root.clone();
            s.append("  error: ");
            s.append(e.as_str());
            out.push(s);
            assert(views(out@) =~= start + seq![s@]);
        },
        Ok(st) => {
            let head = repo_line(g.root.as_str(), st);
            out.push(head);
            let ghost first = views(out@);
            assert(first =~= start + seq![head@]);
            let ghost panes = g.panes@.map_values(|p: PaneRef| pane_text(p));
            let mut i: usize = 0;
            assert(first + panes.take(0) =~= first);
            while i < g.panes.len()
                invariant
                    i <= g.panes.len(),
                    panes == g.panes@.map_values(|p: PaneRef| pane_text(p)),
                    views(out@) == first + panes.take(i as int),
                decreases g.panes.len() - i,
            {
                let ghost before = out@;
                out.push(pane_line(&g.panes[i]));
                assert(views(out@) =~= views(before).push(panes[i as int]));
                assert(views(out@) =~= first + panes.take(i + 1));
                i += 1;
            }
            assert(panes.take(i as int) =~= panes);
            let ghost second = views(out@);
            let ghost files = st.files@.map_values(|f: FileChange| file_text(f));
            let mut k: usize = 0;
            assert(second + files.take(0) =~= second);
            while k < st.files.len()
                invariant
                    k <= st.files.len(),
                    files == st.files@.map_values(|f: FileChange| file_text(f)),
                    views(out@) == second + files.take(k as int),
                decreases st.files.len() - k,
            {
                let ghost before = out@;
                out.push(file_line(&st.files[k]));
                assert(views(out@) =~= views(before).push(files[k as int]));
                assert(views(out@) =~= second + files.take(k + 1));
                k += 1;
            }
            assert(files.take(k as int) =~= files);
            assert(views(out@) =~= start + group_text(*g));
        },
    }
}

/// The lines that `list` prints.
pub fn list_lines(r: &Refreshed, scope: Scope) -> (out: Vec<String>)
    ensures
        views(out@) == scope_text(scope, r.target) + groups_text(r.groups@),
{
    let mut out: Vec<String> = Vec::new();
    if let Some(label) = &r.target.label {
        let mut s = "scope ".to_owned();
        s.append(scope.label());
        s.append(": ");
        s.append(label.as_str());
        out.push(s);
    }
    let ghost head = views(out@);
    assert(head =~= scope_text(scope, r.target));
    let mut i: usize = 0;
    assert(r.groups@.take(0) =~= Seq::<RepoGroup>::empty());
    assert(head + groups_text(r.groups@.take(0)) =~= head);
    while i < r.groups.len()
        invariant
            i <= r.groups.len(),
            views(out@) == head + groups_text(r.groups@.take(i as int)),
        decreases r.groups.len() - i,
    {
        assert(r.groups@.take(i + 1).drop_last() =~= r.groups@.take(i as int));
        push_group(&mut out, &r.groups[i]);
        assert(views(out@) =~= head + groups_text(r.groups@.take(i + 1)));
        i += 1;
    }
    assert(r.groups@.take(i as int) =~= r.groups@);
    out
}

/// The line about herdr that `list` prints beside its output.
pub fn list_warning(r: &Refreshed) -> (w: Option<String>)
    ensures
        match r.herdr_error {
            Some(e) => w matches Some(s) && s@ == "herdr: "@ + e@,
            None => w is None,
        },
{
    match &r.herdr_error {
        Some(e) => {
            let mut s = "herdr: ".to_owned();
            s.append(e.as_str());
            Some(s)
        },
        None => None,
    }
}

// ---------------------------------------------------------------------------------------
// list --json

/// A text as JSON; `null` where there is none.
pub open spec fn opt_json(s: Option<String>) -> Seq<char> {
    match s {
        Some(t) => json_string(t@),
        None => "null"@,
    }
}

/// A count as JSON; `null` where there is none.
pub open spec fn count_json(n: Option<u32>) -> Seq<char> {
    match n {
        Some(k) => decimal(k as nat),
        None => "null"@,
    }
}

/// A file as JSON.
pub open spec fn file_json(f: FileChange) -> Seq<char> {
    object_text(
        seq![
            ("added"@, count_json(f.added)),
            ("path"@, json_string(f.path@)),
            ("removed"@, count_json(f.removed)),
            ("status"@, json_string(seq![f.status.code()])),
        ],
    )
}

/// A pane as JSON.
pub open spec fn pane_json(p: PaneRef) -> Seq<char> {
    object_text(
        seq![
            ("agent"@, opt_json(p.agent)),
            ("pane_id"@, json_string(p.pane_id@)),
            ("status"@, opt_json(p.status)),
            ("tab"@, json_string(p.tab@)),
            ("title"@, json_string(p.title@)),
            ("workspace"@, json_string(p.workspace@)),
        ],
    )
}

/// The state of a repo as JSON.
pub open spec fn stats_json(s: RepoStats) -> Seq<char> {
    object_text(
        seq![
            ("base"@, json_string(s.base@)),
            ("branch"@, json_string(s.branch@)),
            ("files"@, array_text(s.files@.map_values(|f: FileChange| file_json(f)))),
        ],
    )
}

/// The error that git gave as JSON; `null` where it gave none.
pub open spec fn error_json(stats: Result<RepoStats, String>) -> Seq<char> {
    match stats {
        Ok(_) => "null"@,
        Err(e) => json_string(e@),
    }
}

/// The state that git told as JSON; `null` where it gave an error.
pub open spec fn state_json(stats: Result<RepoStats, String>) -> Seq<char> {
    match stats {
        Ok(s) => stats_json(s),
        Err(_) => "null"@,
    }
}

/// A repo as JSON: its state, or the error that git gave instead.
pub open spec fn group_json(g: RepoGroup) -> Seq<char> {
    object_text(
        seq![
            ("error"@, error_json(g.stats)),
            ("panes"@, array_text(g.panes@.map_values(|p: PaneRef| pane_json(p)))),
            ("root"@, json_string(g.root@)),
            ("stats"@, state_json(g.stats)),
        ],
    )
}

/// What `list --json` prints, as compact JSON.
pub open spec fn list_json_text(r: Refreshed, mode: Mode, scope: Scope) -> Seq<char> {
    object_text(
        seq![
            ("herdr_error"@, opt_json(r.herdr_error)),
            ("mode"@, json_string(mode.name())),
            ("repos"@, array_text(r.groups@.map_values(|g: RepoGroup| group_json(g)))),
            ("scope"@, json_string(scope.name())),
            ("workspace"@, opt_json(r.target.label)),
            ("workspace_id"@, opt_json(r.target.workspace_id)),
        ],
    )
}

fn opt_text(s: &Option<String>) -> (r: Value)
    ensures
        json_text(r) == opt_json(*s),
{
    match s {
        Some(t) => opt_value(Some(text_value(t.as_str()))),
        None => opt_value(None),
    }
}

fn count_value(n: Option<u32>) -> (r: Value)
    ensures
        json_text(r) == count_json(n),
{
    match n {
        Some(k) => opt_value(Some(number_value(k))),
        None => opt_value(None),
    }
}

fn file_value(f: &FileChange) -> (out: Value)
    ensures
        json_text(out) == file_json(*f),
{
    let mut letter = String::new();
    letter.push(f.status.letter());
    assert(letter@ =~= seq![f.status.code()]);
    let mut m: Vec<(String, Value)> = Vec::new();
    add_member(&mut m, "added", count_value(f.added));
    add_member(&mut m, "path", text_value(f.path.as_str()));
    add_member(&mut m, "removed", count_value(f.removed));
    add_member(&mut m, "status", text_value(letter.as_str()));
    proof {
        let all = seq![
            ("added"@, count_json(f.added)),
            ("path"@, json_string(f.path@)),
            ("removed"@, count_json(f.removed)),
            ("status"@, json_string(seq![f.status.code()])),
        ];
        assert(member_texts(m@) =~= all);
        reveal_strlit("added");
        reveal_strlit("path");
        reveal_strlit("removed");
        reveal_strlit("status");
        assert(before("added"@, "path"@));
        assert(before("path"@, "removed"@));
        assert(before("removed"@, "status"@));
        assert forall|i: int| 0 <= i < all.len() - 1 implies #[trigger] key_ascends(all, i) by {
            assert(i == 0 || i == 1 || i == 2);
        }
    }
    object_value(m)
}

fn pane_value(p: &PaneRef) -> (out: Value)
    ensures
        json_text(out) == pane_json(*p),
{
    let mut m: Vec<(String, Value)> = Vec::new();
    add_member(&mut m, "agent", opt_text(&p.agent));
    add_member(&mut m, "pane_id", text_value(p.pane_id.as_str()));
    add_member(&mut m, "status", opt_text(&p.status));
    add_member(&mut m, "tab", text_value(p.tab.as_str()));
    add_member(&mut m, "title", text_value(p.title.as_str()));
    add_member(&mut m, "workspace", text_value(p.workspace.as_str()));
    proof {
        let all = seq![
            ("agent"@, opt_json(p.agent)),
            ("pane_id"@, json_string(p.pane_id@)),
            ("status"@, opt_json(p.status)),
            ("tab"@, json_string(p.tab@)),
            ("title"@, json_string(p.title@)),
            ("workspace"@, json_string(p.workspace@)),
        ];
        assert(member_texts(m@) =~= all);
        reveal_strlit("agent");
        reveal_strlit("pane_id");
        reveal_strlit("status");
        reveal_strlit("tab");
        reveal_strlit("title");
        reveal_strlit("workspace");
        reveal_with_fuel(before, 2);
        assert(before("agent"@, "pane_id"@));
        assert(before("pane_id"@, "status"@));
        assert(before("status"@, "tab"@));
        assert(before("tab"@, "title"@));
        assert(before("title"@, "workspace"@));
        assert forall|i: int| 0 <= i < all.len() - 1 implies #[trigger] key_ascends(all, i) by {
            assert(i == 0 || i == 1 || i == 2 || i == 3 || i == 4);
        }
    }
    object_value(m)
}

fn files_value(list: &Vec<FileChange>) -> (r: Value)
    ensures
        json_text(r) == array_text(list@.map_values(|f: FileChange| file_json(f))),
{
    let ghost all = list@.map_values(|f: FileChange| file_json(f));
    let mut items: Vec<Value> = Vec::new();
    let mut i: usize = 0;
    assert(value_texts(items@) =~= all.take(0));
    while i < list.len()
        invariant
            i <= list.len(),
            all == list@.map_values(|f: FileChange| file_json(f)),
            value_texts(items@) == all.take(i as int),
        decreases list.len() - i,
    {
        let ghost seen = items@;
        items.push(file_value(&list[i]));
        assert(value_texts(items@) =~= value_texts(seen).push(all[i as int]));
        assert(value_texts(items@) =~= all.take(i + 1));
        i += 1;
    }
    assert(all.take(i as int) =~= all);
    array_value(items)
}

fn panes_value(list: &Vec<PaneRef>) -> (r: Value)
    ensures
        json_text(r) == array_text(list@.map_values(|p: PaneRef| pane_json(p))),
{
    let ghost all = list@.map_values(|p: PaneRef| pane_json(p));
    let mut items: Vec<Value> = Vec::new();
    let mut i: usize = 0;
    assert(value_texts(items@) =~= all.take(0));
    while i < list.len()
        invariant
            i <= list.len(),
            all == list@.map_values(|p: PaneRef| pane_json(p)),
            value_texts(items@) == all.take(i as int),
        decreases list.len() - i,
    {
        let ghost seen = items@;
        items.push(pane_value(&list[i]));
        assert(value_texts(items@) =~= value_texts(seen).push(all[i as int]));
        assert(value_texts(items@) =~= all.take(i + 1));
        i += 1;
    }
    assert(all.take(i as int) =~= all);
    array_value(items)
}

fn stats_value(s: &RepoStats) -> (out: Value)
    ensures
        json_text(out) == stats_json(*s),
{
    let mut m: Vec<(String, Value)> = Vec::new();
    add_member(&mut m, "base", text_value(s.base.as_str()));
    add_member(&mut m, "branch", text_value(s.branch.as_str()));
    add_member(&mut m, "files", files_value(&s.files));
    proof {
        let all = seq![
            ("base"@, json_string(s.base@)),
            ("branch"@, json_string(s.branch@)),
            ("files"@, array_text(s.files@.map_values(|f: FileChange| file_json(f)))),
        ];
        assert(member_texts(m@) =~= all);
        reveal_strlit("base");
        reveal_strlit("branch");
        reveal_strlit("files");
        reveal_with_fuel(before, 2);
        assert(before("base"@, "branch"@));
        assert(before("branch"@, "files"@));
        assert forall|i: int| 0 <= i < all.len() - 1 implies #[trigger] key_ascends(all, i) by {
            assert(i == 0 || i == 1);
        }
    }
    object_value(m)
}

fn group_value(g: &RepoGroup) -> (out: Value)
    ensures
        json_text(out) == group_json(*g),
{
    let (error, stats) = match &g.stats {
        Ok(s) => (opt_value(None), stats_value(s)),
        Err(e) => (text_value(e.as_str()), opt_value(None)),
    };
    let mut m: Vec<(String, Value)> = Vec::new();
    add_member(&mut m, "error", error);
    add_member(&mut m, "panes", panes_value(&g.panes));
    add_member(&mut m, "root", text_value(g.root.as_str()));
    add_member(&mut m, "stats", stats);
    proof {
        let all = seq![
            ("error"@, error_json(g.stats)),
            ("panes"@, array_text(g.panes@.map_values(|p: PaneRef| pane_json(p)))),
            ("root"@, json_string(g.root@)),
            ("stats"@, state_json(g.stats)),
        ];
        assert(member_texts(m@) =~= all);
        reveal_strlit("error");
        reveal_strlit("panes");
        reveal_strlit("root");
        reveal_strlit("stats");
        assert(before("error"@, "panes"@));
        assert(before("panes"@, "root"@));
        assert(before("root"@, "stats"@));
        assert forall|i: int| 0 <= i < all.len() - 1 implies #[trigger] key_ascends(all, i) by {
            assert(i == 0 || i == 1 || i == 2);
        }
    }
    object_value(m)
}

fn groups_value(list: &Vec<RepoGroup>) -> (r: Value)
    ensures
        json_text(r) == array_text(list@.map_values(|g: RepoGroup| group_json(g))),
{
    let ghost all = list@.map_values(|g: RepoGroup| group_json(g));
    let mut items: Vec<Value> = Vec::new();
    let mut i: usize = 0;
    assert(value_texts(items@) =~= all.take(0));
    while i < list.len()
        invariant
            i <= list.len(),
            all == list@.map_values(|g: RepoGroup| group_json(g)),
            value_texts(items@) == all.take(i as int),
        decreases list.len() - i,
    {
        let ghost seen = items@;
        items.push(group_value(&list[i]));
        assert(value_texts(items@) =~= value_texts(seen).push(all[i as int]));
        assert(value_texts(items@) =~= all.take(i + 1));
        i += 1;
    }
    assert(all.take(i as int) =~= all);
    array_value(items)
}

/// What `list --json` prints.
pub fn list_value(r: &Refreshed, mode: Mode, scope: Scope) -> (out: Value)
    ensures
        json_text(out) == list_json_text(*r, mode, scope),
{
    let mut m: Vec<(String, Value)> = Vec::new();
    add_member(&mut m, "herdr_error", opt_text(&r.herdr_error));
    add_member(&mut m, "mode", text_value(mode.label()));
    add_member(&mut m, "repos", groups_value(&r.groups));
    add_member(&mut m, "scope", text_value(scope.label()));
    add_member(&mut m, "workspace", opt_text(&r.target.label));
    add_member(&mut m, "workspace_id", opt_text(&r.target.workspace_id));
    proof {
        let all = seq![
            ("herdr_error"@, opt_json(r.herdr_error)),
            ("mode"@, json_string(mode.name())),
            ("repos"@, array_text(r.groups@.map_values(|g: RepoGroup| group_json(g)))),
            ("scope"@, json_string(scope.name())),
            ("workspace"@, opt_json(r.target.label)),
            ("workspace_id"@, opt_json(r.target.workspace_id)),
        ];
        assert(member_texts(m@) =~= all);
        reveal_strlit("herdr_error");
        reveal_strlit("mode");
        reveal_strlit("repos");
        reveal_strlit("scope");
        reveal_strlit("workspace");
        reveal_strlit("workspace_id");
        reveal_with_fuel(before, 11);
        assert(before("herdr_error"@, "mode"@));
        assert(before("mode"@, "repos"@));
        assert(before("repos"@, "scope"@));
        assert(before("scope"@, "workspace"@));
        assert(before("workspace"@, "workspace_id"@));
        assert forall|i: int| 0 <= i < all.len() - 1 implies #[trigger] key_ascends(all, i) by {
            assert(i == 0 || i == 1 || i == 2 || i == 3 || i == 4);
        }
    }
    object_value(m)
}

/// What `list --json` prints, as indented text. It is owed whatever the refresh found.
pub fn list_json(r: &Refreshed, mode: Mode, scope: Scope) -> (out: Result<String, String>)
    ensures
        out matches Ok(s) && s@ == indented(list_json_text(*r, mode, scope)),
{
    pretty(&list_value(r, mode, scope))
}

// ---------------------------------------------------------------------------------------
// The editor

/// The editor that the environment asks for.
pub open spec fn editor_text(visual: Option<String>, editor: Option<String>) -> Seq<char> {
    match visual {
        Some(v) => v@,
        None => match editor {
            Some(e) => e@,
            None => "vi"@,
        },
    }
}

/// The editor that the environment asks for: `VISUAL`, else `EDITOR`, else vi.
pub fn editor_of(visual: &Option<String>, editor: &Option<String>) -> (r: String)
    ensures
        r@ == editor_text(*visual, *editor),
{
    match visual {
        Some(v) => v.clone(),
        None => match editor {
            Some(e) => e.clone(),
            None => "vi".to_owned(),
        },
    }
}

/// The arguments that open `path` at `line` in the editor called `name`.
pub open spec fn place_args(name: Seq<char>, path: Seq<char>, line: Option<u32>) -> Seq<
    Seq<char>,
> {
    match line {
        None => seq![path],
        Some(l) => {
            let at = path + ":"@ + decimal(l as nat);
            if name == "code"@ || name == "cursor"@ {
                seq!["--goto"@, at]
            } else if name == "zed"@ || name == "subl"@ {
                seq![at]
            } else {
                seq!["+"@ + decimal(l as nat), path]
            }
        },
    }
}

/// The command that opens `path` at `line`: the editor with its own arguments, and the place in
/// the way that editor takes it.
pub open spec fn editor_argv(editor: Seq<char>, path: Seq<char>, line: Option<u32>) -> Seq<
    Seq<char>,
> {
    let parts = if words(editor).len() == 0 {
        seq!["vi"@]
    } else {
        words(editor)
    };
    let name = match file_name(parts[0]) {
        Some(n) => n,
        None => Seq::empty(),
    };
    parts + place_args(name, path, line)
}

fn place_args_of(name: &str, path: &str, line: Option<u32>) -> (r: Vec<String>)
    ensures
        views(r@) == place_args(name@, path@, line),
{
    let mut out: Vec<String> = Vec::new();
    match line {
        None => {
            out.push(path.to_owned());
        },
        Some(l) => {
            let goto = same_text(name, "code") || same_text(name, "cursor");
            if goto || same_text(name, "zed") || same_text(name, "subl") {
                if goto {
                    out.push("--goto".to_owned());
                }
                let mut at = path.to_owned();
                at.append(":");
                at.append(decimal_of(l as u64).as_str());
                out.push(at);
            } else {
                let mut at = "+".to_owned();
                at.append(decimal_of(l as u64).as_str());
                out.push(at);
                out.push(path.to_owned());
            }
        },
    }
    assert(views(out@) =~= place_args(name@, path@, line));
    out
}

/// The command that opens `path` at `line`: program first, then its arguments.
pub fn editor_command(editor: &str, path: &str, line: Option<u32>) -> (r: Vec<String>)
    ensures
        views(r@) == editor_argv(editor@, path@, line),
        r@.len() > 0,
{
    let v = chars_of(editor);
    let mut parts = words_of(&v);
    if parts.len() == 0 {
        parts.push("vi".to_owned());
        assert(views(parts@) =~= seq!["vi"@]);
    }
    let ghost head = views(parts@);
    assert(head[0] == parts[0]@);
    let name = match file_name_of(parts[0].as_str()) {
        Some(n) => n,
        None => String::new(),
    };
    let ghost nm = match file_name(head[0]) {
        Some(n) => n,
        None => Seq::empty(),
    };
    assert(name@ =~= nm);
    let mut args = place_args_of(name.as_str(), path, line);
    let ghost tail = views(args@);
    parts.append(&mut args);
    assert(views(parts@) =~= head + tail);
    parts
}

} // verus!
