//! Which herdr workspace the viewer shows: everything, the one you're looking at, or its own.

use vstd::prelude::*;
use vstd::string::*;

use crate::herdr::{Pane, Snapshot, Workspace};
use crate::text::{opt_clone, opt_view, same_opt_text, same_text};

verus! {

#[derive(Debug, Clone, Copy, PartialEq, Eq, Structural)]
pub enum Scope {
    /// Every repo in every workspace.
    All,
    /// The workspace herdr focus was last on, ignoring focus on herdiff's own pane.
    Follow,
    /// The workspace herdiff itself runs in.
    Here,
}

impl Scope {
    /// The name of the scope.
    pub open spec fn name(self) -> Seq<char> {
        match self {
            Scope::All => "all"@,
            Scope::Follow => "follow"@,
            Scope::Here => "here"@,
        }
    }

    pub fn label(self) -> (r: &'static str)
        ensures
            r@ == self.name(),
    {
        match self {
            Scope::All => "all",
            Scope::Follow => "follow",
            Scope::Here => "here",
        }
    }

    /// The scope that follows this one.
    pub open spec fn successor(self, here_available: bool) -> Scope {
        match self {
            Scope::All => Scope::Follow,
            Scope::Follow => if here_available {
                Scope::Here
            } else {
                Scope::All
            },
            Scope::Here => Scope::All,
        }
    }

    /// Next scope for the `w` key. `Here` is skipped when herdiff isn't inside herdr.
    pub fn next(self, here_available: bool) -> (r: Scope)
        ensures
            r == self.successor(here_available),
    {
        match self {
            Scope::All => Scope::Follow,
            Scope::Follow => if here_available {
                Scope::Here
            } else {
                Scope::All
            },
            Scope::Here => Scope::All,
        }
    }
}

/// Inside herdr the `w` key goes through all scopes in three steps; outside it goes back and
/// forth between two and never offers the scope that makes no sense there.
pub proof fn law_scope_cycle(s: Scope)
    ensures
        s.successor(true).successor(true).successor(true) == s,
        s.successor(true) != s && s.successor(true).successor(true) != s,
        s.successor(false) != Scope::Here,
        s != Scope::Here ==> s.successor(false).successor(false) == s,
{
}

/// herdiff's own location in herdr, from the environment herdr injects into every pane.
#[derive(Debug)]
pub struct SelfPane {
    pub pane_id: Option<String>,
    pub workspace_id: Option<String>,
}

impl Default for SelfPane {
    fn default() -> (r: Self)
        ensures
            r.pane_id is None,
            r.workspace_id is None,
    {
        SelfPane { pane_id: None, workspace_id: None }
    }
}

/// A variable that is set to something.
pub open spec fn set_var(v: Option<String>) -> Option<String> {
    match v {
        Some(s) if s@.len() > 0 => Some(s),
        _ => None,
    }
}

/// Leave out a variable that is set to nothing.
fn non_empty_var(v: Option<String>) -> (r: Option<String>)
    ensures
        r == set_var(v),
{
    match v {
        Some(s) => if s.as_str().is_empty() {
            None
        } else {
            Some(s)
        },
        None => None,
    }
}

impl SelfPane {
    /// Takes the values of `HERDR_PANE_ID` and `HERDR_WORKSPACE_ID`.
    pub fn from_env(pane_id: Option<String>, workspace_id: Option<String>) -> (r: Self)
        ensures
            r.pane_id == set_var(pane_id),
            r.workspace_id == set_var(workspace_id),
    {
        SelfPane { pane_id: non_empty_var(pane_id), workspace_id: non_empty_var(workspace_id) }
    }

    /// Whether herdiff runs inside a herdr pane.
    pub open spec fn inside(self) -> bool {
        self.pane_id is Some || self.workspace_id is Some
    }

    pub fn inside_herdr(&self) -> (r: bool)
        ensures
            r == self.inside(),
    {
        self.pane_id.is_some() || self.workspace_id.is_some()
    }

    /// Current workspace of our pane: from the snapshot when our pane ID is in it, else the
    /// env. A pane moved to another workspace gets a new ID that its process never learns,
    /// so after a move neither source is right.
    pub open spec fn home(self, snap: Snapshot) -> Option<Seq<char>> {
        match self.pane_id {
            Some(id) => match pane_named(snap.panes@, id@) {
                Some(p) => Some(p.workspace_id@),
                None => opt_view(self.workspace_id),
            },
            None => opt_view(self.workspace_id),
        }
    }

    /// Current workspace of our pane.
    fn workspace(&self, snap: &Snapshot) -> (r: Option<String>)
        ensures
            opt_view(r) == self.home(*snap),
    {
        if let Some(id) = &self.pane_id {
            let mut i: usize = 0;
            assert(snap.panes@.skip(0) =~= snap.panes@);
            while i < snap.panes.len()
                invariant
                    i <= snap.panes.len(),
                    self.pane_id == Some(*id),
                    pane_named(snap.panes@.skip(i as int), id@) == pane_named(snap.panes@, id@),
                decreases snap.panes.len() - i,
            {
                assert(snap.panes@.skip(i as int).skip(1) =~= snap.panes@.skip(i + 1));
                assert(snap.panes@.skip(i as int)[0] == snap.panes@[i as int]);
                if same_text(snap.panes[i].pane_id.as_str(), id.as_str()) {
                    return Some(snap.panes[i].workspace_id.clone());
                }
                i += 1;
            }
        }
        opt_clone(&self.workspace_id)
    }
}

/// The first pane with that ID.
pub open spec fn pane_named(panes: Seq<Pane>, id: Seq<char>) -> Option<Pane>
    decreases panes.len(),
{
    if panes.len() == 0 {
        None
    } else if panes[0].pane_id@ == id {
        Some(panes[0])
    } else {
        pane_named(panes.skip(1), id)
    }
}

/// The first workspace with that ID.
pub open spec fn workspace_named(list: Seq<Workspace>, id: Seq<char>) -> Option<Workspace>
    decreases list.len(),
{
    if list.len() == 0 {
        None
    } else if list[0].workspace_id@ == id {
        Some(list[0])
    } else {
        workspace_named(list.skip(1), id)
    }
}

/// Look up a workspace.
fn find_workspace<'a>(list: &'a Vec<Workspace>, id: &str) -> (r: Option<&'a Workspace>)
    ensures
        match r {
            Some(w) => workspace_named(list@, id@) == Some(*w),
            None => workspace_named(list@, id@) is None,
        },
{
    let mut i: usize = 0;
    assert(list@.skip(0) =~= list@);
    while i < list.len()
        invariant
            i <= list.len(),
            workspace_named(list@.skip(i as int), id@) == workspace_named(list@, id@),
        decreases list.len() - i,
    {
        assert(list@.skip(i as int).skip(1) =~= list@.skip(i + 1));
        assert(list@.skip(i as int)[0] == list@[i as int]);
        if same_text(list[i].workspace_id.as_str(), id) {
            return Some(&list[i]);
        }
        i += 1;
    }
    None
}

/// The resolved scope for one snapshot.
#[derive(Debug)]
pub struct Target {
    pub scope: Scope,
    /// `None` = all workspaces.
    pub workspace_id: Option<String>,
    /// Workspace label for the status bar.
    pub label: Option<String>,
}

impl Clone for Target {
    fn clone(&self) -> (r: Self)
        ensures
            r == *self,
    {
        Target {
            scope: self.scope,
            workspace_id: opt_clone(&self.workspace_id),
            label: opt_clone(&self.label),
        }
    }
}

impl Target {
    /// What a selection is remembered under.
    pub open spec fn slot(self) -> Seq<char> {
        match self.workspace_id {
            Some(id) => "ws:"@ + id@,
            None => "all"@,
        }
    }

    /// Key for remembering per-scope selection.
    pub fn key(&self) -> (r: String)
        ensures
            r@ == self.slot(),
    {
        match &self.workspace_id {
            Some(id) => {
                let mut k = "ws:".to_owned();
                k.append(id.as_str());
                k
            },
            None => "all".to_owned(),
        }
    }

    /// Whether a workspace is shown.
    pub open spec fn covers(self, workspace_id: Seq<char>) -> bool {
        match self.workspace_id {
            Some(w) => w@ == workspace_id,
            None => true,
        }
    }

    pub fn includes(&self, workspace_id: &str) -> (r: bool)
        ensures
            r == self.covers(workspace_id@),
    {
        match &self.workspace_id {
            Some(w) => same_text(w.as_str(), workspace_id),
            None => true,
        }
    }
}

/// Selections of different workspaces are remembered under different keys, and none under the
/// key of the selection over all workspaces.
pub proof fn law_keys_are_distinct(a: Target, b: Target)
    ensures
        a.slot() == b.slot() <==> opt_view(a.workspace_id) == opt_view(b.workspace_id),
{
    reveal_strlit("ws:");
    reveal_strlit("all");
    match (a.workspace_id, b.workspace_id) {
        (Some(x), Some(y)) => {
            if a.slot() == b.slot() {
                assert(a.slot().skip(3) =~= x@);
                assert(b.slot().skip(3) =~= y@);
            }
        },
        (Some(_), None) => {
            assert(a.slot()[0] == 'w');
        },
        (None, Some(_)) => {
            assert(b.slot()[0] == 'w');
        },
        (None, None) => {},
    }
}

/// Resolves scopes against snapshots, remembering what `Follow` last followed.
#[derive(Debug)]
pub struct Resolver {
    pub followed: Option<String>,
    pub last: Option<Target>,
}

impl Default for Resolver {
    fn default() -> (r: Self)
        ensures
            r.followed is None,
            r.last is None,
    {
        Resolver { followed: None, last: None }
    }
}

/// The focus is on herdiff itself.
pub open spec fn focus_is_own(snap: Snapshot, me: SelfPane) -> bool {
    me.pane_id is Some && opt_view(snap.focused_pane_id) == opt_view(me.pane_id)
}

/// The workspace is open.
pub open spec fn is_open(snap: Snapshot, ws: Seq<char>) -> bool {
    workspace_named(snap.workspaces@, ws) is Some
}

/// What `Follow` follows after a snapshot, when it followed `prev` before.
pub open spec fn followed_after(prev: Option<Seq<char>>, snap: Snapshot, me: SelfPane) -> Option<
    Seq<char>,
> {
    let seen = if !focus_is_own(snap, me) && snap.focused_workspace_id is Some {
        opt_view(snap.focused_workspace_id)
    } else {
        prev
    };
    match seen {
        Some(ws) => if is_open(snap, ws) {
            Some(ws)
        } else {
            None
        },
        None => None,
    }
}

/// The first of two that is there.
pub open spec fn either(a: Option<Seq<char>>, b: Option<Seq<char>>) -> Option<Seq<char>> {
    match a {
        Some(x) => Some(x),
        None => b,
    }
}

/// A text, empty where there is none.
pub open spec fn or_empty(a: Option<Seq<char>>) -> Seq<char> {
    match a {
        Some(x) => x,
        None => Seq::empty(),
    }
}

/// The workspace that a scope stands for, when `followed` is followed.
pub open spec fn scoped(
    scope: Scope,
    followed: Option<Seq<char>>,
    snap: Snapshot,
    me: SelfPane,
) -> Option<Seq<char>> {
    match scope {
        Scope::All => None,
        Scope::Here => Some(or_empty(me.home(snap))),
        Scope::Follow => Some(
            or_empty(
                either(followed, either(me.home(snap), opt_view(snap.focused_workspace_id))),
            ),
        ),
    }
}

/// What the status bar calls a workspace: its label, else its ID.
pub open spec fn label_for(id: Seq<char>, snap: Snapshot) -> Seq<char> {
    match workspace_named(snap.workspaces@, id) {
        Some(w) if w.label@.len() > 0 => w.label@,
        _ => if id.len() == 0 {
            "none"@
        } else {
            id
        },
    }
}

/// The workspace that a scope stands for while herdr cannot be reached.
pub open spec fn scoped_offline(scope: Scope, followed: Option<Seq<char>>, me: SelfPane) -> Option<
    Seq<char>,
> {
    match scope {
        Scope::All => None,
        Scope::Follow => either(followed, opt_view(me.workspace_id)),
        Scope::Here => opt_view(me.workspace_id),
    }
}

/// `new` is what a resolver becomes and `r` the target it comes to, given a snapshot of the
/// session; `None` where herdr couldn't be reached. The last target for the scope is kept then.
pub open spec fn resolved_to(
    old: Resolver,
    scope: Scope,
    snap: Option<Snapshot>,
    me: SelfPane,
    new: Resolver,
    r: Target,
) -> bool {
    match snap {
        Some(s) => {
            &&& opt_view(new.followed) == followed_after(
                opt_view(old.followed),
                s,
                me,
            )
            &&& new.last == Some(r)
            &&& r.scope == scope
            &&& opt_view(r.workspace_id) == scoped(
                scope,
                opt_view(new.followed),
                s,
                me,
            )
            &&& match r.workspace_id {
                Some(id) => opt_view(r.label) == Some(label_for(id@, s)),
                None => r.label is None,
            }
        },
        None => {
            &&& new == old
            &&& match old.last {
                Some(t) if t.scope == scope => r == t,
                _ => {
                    &&& r.scope == scope
                    &&& opt_view(r.workspace_id) == scoped_offline(
                        scope,
                        opt_view(old.followed),
                        me,
                    )
                    &&& opt_view(r.label) == opt_view(r.workspace_id)
                },
            }
        },
    }
}

impl Resolver {
    /// Record where herdr focus is. Called for every snapshot whatever the scope, so
    /// switching to follow starts from the workspace you were actually in.
    pub fn observe(&mut self, snap: &Snapshot, me: &SelfPane)
        ensures
            opt_view(final(self).followed) == followed_after(
                opt_view(old(self).followed),
                *snap,
                *me,
            ),
            final(self).last == old(self).last,
    {
        let own = me.pane_id.is_some() && same_opt_text(&snap.focused_pane_id, &me.pane_id);
        if !own {
            if let Some(ws) = &snap.focused_workspace_id {
                self.followed = Some(ws.clone());
            }
        }
        // Forget a workspace that has been closed.
        let closed = match &self.followed {
            Some(ws) => find_workspace(&snap.workspaces, ws.as_str()).is_none(),
            None => false,
        };
        if closed {
            self.followed = None;
        }
    }

    /// `snap` is `None` when herdr couldn't be reached. The last target for the scope is
    /// kept then, so a restart or a timeout doesn't throw away what follow was tracking.
    pub fn resolve(&mut self, scope: Scope, snap: Option<&Snapshot>, me: &SelfPane) -> (r: Target)
        ensures
            resolved_to(
                *old(self),
                scope,
                match snap {
                    Some(s) => Some(*s),
                    None => None,
                },
                *me,
                *final(self),
                r,
            ),
    {
        match snap {
            None => {
                if let Some(last) = &self.last {
                    if last.scope == scope {
                        return last.clone();
                    }
                }
                let workspace_id = match scope {
                    Scope::All => None,
                    Scope::Follow => if self.followed.is_some() {
                        opt_clone(&self.followed)
                    } else {
                        opt_clone(&me.workspace_id)
                    },
                    Scope::Here => opt_clone(&me.workspace_id),
                };
                let label = opt_clone(&workspace_id);
                Target { scope, workspace_id, label }
            },
            Some(snap) => {
                self.observe(snap, me);
                let workspace_id = match scope {
                    Scope::All => None,
                    Scope::Here => Some(filled(me.workspace(snap))),
                    Scope::Follow => if self.followed.is_some() {
                        opt_clone(&self.followed)
                    } else {
                        let own = me.workspace(snap);
                        if own.is_some() {
                            own
                        } else {
                            Some(filled(opt_clone(&snap.focused_workspace_id)))
                        }
                    },
                };
                let label = match &workspace_id {
                    Some(id) => Some(workspace_label(snap, id)),
                    None => None,
                };
                let target = Target { scope, workspace_id, label };
                self.last = Some(target.clone());
                target
            },
        }
    }
}

/// A text, empty where there is none.
fn filled(s: Option<String>) -> (r: String)
    ensures
        r@ == or_empty(opt_view(s)),
{
    match s {
        Some(t) => t,
        None => String::new(),
    }
}

/// What the status bar calls a workspace.
fn workspace_label(snap: &Snapshot, id: &String) -> (r: String)
    ensures
        r@ == label_for(id@, *snap),
{
    if let Some(w) = find_workspace(&snap.workspaces, id.as_str()) {
        if !w.label.as_str().is_empty() {
            return w.label.clone();
        }
    }
    if id.as_str().is_empty() {
        "none".to_owned()
    } else {
        id.clone()
    }
}

/// A snapshot that fails keeps the target of the one before, and what is followed.
pub proof fn law_failed_snapshot_keeps_the_target(
    old: Resolver,
    scope: Scope,
    snap: Snapshot,
    me: SelfPane,
    mid: Resolver,
    t: Target,
    new: Resolver,
    r: Target,
)
    requires
        resolved_to(old, scope, Some(snap), me, mid, t),
        resolved_to(mid, scope, None, me, new, r),
    ensures
        r == t,
        new == mid,
{
}

/// While the focus is on herdiff itself, what is followed stays what it was as long as that
/// workspace is open.
pub proof fn law_own_focus_is_ignored(prev: Seq<char>, snap: Snapshot, me: SelfPane)
    requires
        focus_is_own(snap, me),
        is_open(snap, prev),
    ensures
        followed_after(Some(prev), snap, me) == Some(prev),
        scoped(Scope::Follow, followed_after(Some(prev), snap, me), snap, me) == Some(prev),
{
}

/// A workspace that is followed is open.
pub proof fn law_closed_workspace_is_forgotten(
    prev: Option<Seq<char>>,
    snap: Snapshot,
    me: SelfPane,
)
    ensures
        followed_after(prev, snap, me) matches Some(ws) ==> is_open(snap, ws),
{
}

/// Where the focus was seen is followed later: once the focus was on an open workspace and
/// not on herdiff, a snapshot with the focus on herdiff still resolves `Follow` to that
/// workspace, whatever was followed before and whichever scope the first snapshot was taken
/// for.
pub proof fn law_seen_focus_is_followed(
    prev: Option<Seq<char>>,
    seen: Snapshot,
    now: Snapshot,
    me: SelfPane,
)
    requires
        !focus_is_own(seen, me),
        seen.focused_workspace_id is Some,
        is_open(seen, seen.focused_workspace_id->0@),
        focus_is_own(now, me),
        is_open(now, seen.focused_workspace_id->0@),
    ensures
        scoped(
            Scope::Follow,
            followed_after(followed_after(prev, seen, me), now, me),
            now,
            me,
        ) == opt_view(seen.focused_workspace_id),
{
}

} // verus!
