//! What holds of what goes over the herdr socket.

use serde_json::Value;
use vstd::prelude::*;
use vstd::string::*;

use crate::herdr::{
    answer, deliver, focus_params, no_params, pushed, request_id, request_line, settle,
    snapshot_value, subscription_id, subscription_params, Client, Message, Pushed, SocketEnv,
};
use crate::json::{
    all_escaped, array_text, escaped, json, json_string, json_text, member_of, member_text,
    object_text, string_of,
};
use crate::laws_text::law_numbers_read_back;
use crate::paths::joined_path;
use crate::text::{decimal, join, opt_view, trim, views};

verus! {

// ---------------------------------------------------------------------------------------
// The socket

/// The socket is the one that is asked for, else the one that the environment names, else the
/// usual one below the home directory.
pub proof fn law_socket_is_the_one_asked_for(socket: Option<String>, env: SocketEnv, c: Client)
    requires
        call_ensures(Client::new, (socket, &env), c),
    ensures
        socket matches Some(path) ==> c.socket@ == path@,
        socket is None && env.socket_path is Some ==> c.socket@ == env.socket_path->0@,
        socket is None && env.socket_path is None && env.home is Some && env.home->0@.len() > 0
            && env.home->0@.last() != '/' ==> c.socket@ == env.home->0@
            + "/.config/herdr/herdr.sock"@,
        socket is None && env.socket_path is None && env.home is None ==> c.socket@
            == "./herdr/herdr.sock"@,
        socket is None && env.socket_path is None && env.home is Some ==> c.socket@ == joined_path(
            joined_path(joined_path(env.home->0@, ".config"@), "herdr"@),
            "herdr.sock"@,
        ),
{
    reveal_strlit("/.config/herdr/herdr.sock");
    reveal_strlit("./herdr/herdr.sock");
    reveal_strlit(".config");
    reveal_strlit("herdr");
    reveal_strlit("herdr.sock");
    reveal_strlit("/");
    reveal_strlit(".");
    if env.home is Some && env.home->0@.len() > 0 && env.home->0@.last() != '/' {
        let home = env.home->0@;
        let a = joined_path(home, ".config"@);
        assert(a =~= home + "/"@ + ".config"@);
        assert(a.last() == 'g');
        let b = joined_path(a, "herdr"@);
        assert(b =~= a + "/"@ + "herdr"@);
        assert(b.last() == 'r');
        let d = joined_path(b, "herdr.sock"@);
        assert(d =~= b + "/"@ + "herdr.sock"@);
        assert(d =~= home + "/.config/herdr/herdr.sock"@);
    }
    let x = joined_path("."@, "herdr"@);
    assert(x =~= "."@ + "/"@ + "herdr"@);
    assert(x.last() == 'r');
    let y = joined_path(x, "herdr.sock"@);
    assert(y =~= x + "/"@ + "herdr.sock"@);
    assert(y =~= "./herdr/herdr.sock"@);
}

/// Where the socket cannot be reached, the error names it and says why.
pub proof fn law_unreachable_sockets_are_named(c: Client, cause: &str, r: String)
    requires
        call_ensures(Client::unreachable, (&c, cause), r),
    ensures
        r@ == "connect to herdr socket "@ + c.socket@ + ": "@ + cause@,
{
}

// ---------------------------------------------------------------------------------------
// Requests

/// Requests are told apart by their number, and from subscriptions.
pub proof fn law_requests_are_told_apart(m: u64, n: u64, a: String, b: String, sub: String)
    requires
        call_ensures(request_id, (m,), a),
        call_ensures(request_id, (n,), b),
        call_ensures(subscription_id, (n,), sub),
    ensures
        a@ == "herdiff:"@ + decimal(m as nat),
        sub@ == "herdiff:sub:"@ + decimal(n as nat),
        m <= u32::MAX && n <= u32::MAX ==> (a@ == b@ <==> m == n),
{
    reveal_strlit("herdiff:");
    assert(a@.skip(8) =~= decimal(m as nat));
    assert(b@.skip(8) =~= decimal(n as nat));
    if m <= u32::MAX && n <= u32::MAX {
        law_numbers_read_back(m as u32);
        law_numbers_read_back(n as u32);
    }
}

/// A request is an object with the ID, the method and the parameters.
pub proof fn law_requests_hold_what_is_asked(
    id: &str,
    method: &str,
    params: Value,
    none: Value,
    pane: &str,
    focus: Value,
    r: String,
)
    requires
        call_ensures(request_line, (id, method, &params), r),
        call_ensures(no_params, (), none),
        call_ensures(focus_params, (pane,), focus),
    ensures
        r@ == object_text(
            seq![
                ("id"@, json_string(id@)),
                ("method"@, json_string(method@)),
                ("params"@, json_text(params)),
            ],
        ),
        json_text(none) == object_text(Seq::empty()),
        json_text(focus) == object_text(seq![("pane_id"@, json_string(pane@))]),
{
}

/// The subscription for one kind of event of the session.
pub open spec fn on_event(name: Seq<char>) -> Seq<char> {
    object_text(seq![("type"@, json_string(name))])
}

/// The subscriptions are to the events of workspaces, worktrees, tabs and panes of the session,
/// and, for each pane, to the state of its agent.
pub proof fn law_subscriptions_cover_session_and_panes(panes: &[String], r: Value)
    requires
        call_ensures(subscription_params, (panes,), r),
    ensures
        ({
            let session = seq![
                on_event("workspace.created"@),
                on_event("workspace.closed"@),
                on_event("workspace.renamed"@),
                on_event("workspace.focused"@),
                on_event("worktree.created"@),
                on_event("worktree.opened"@),
                on_event("worktree.removed"@),
                on_event("tab.created"@),
                on_event("tab.closed"@),
                on_event("tab.renamed"@),
                on_event("tab.focused"@),
                on_event("pane.created"@),
                on_event("pane.closed"@),
                on_event("pane.updated"@),
                on_event("pane.moved"@),
                on_event("pane.exited"@),
                on_event("pane.focused"@),
                on_event("pane.agent_detected"@),
            ];
            let agents = Seq::new(
                panes@.len(),
                |i: int|
                    object_text(
                        seq![
                            ("pane_id"@, json_string(panes@[i]@)),
                            ("type"@, json_string("pane.agent_status_changed"@)),
                        ],
                    ),
            );
            json_text(r) == object_text(seq![("subscriptions"@, array_text(session + agents))])
        }),
{
    let agents = Seq::new(
        panes@.len(),
        |i: int|
            object_text(
                seq![
                    ("pane_id"@, json_string(panes@[i]@)),
                    ("type"@, json_string("pane.agent_status_changed"@)),
                ],
            ),
    );
    let session = seq![
        on_event("workspace.created"@),
        on_event("workspace.closed"@),
        on_event("workspace.renamed"@),
        on_event("workspace.focused"@),
        on_event("worktree.created"@),
        on_event("worktree.opened"@),
        on_event("worktree.removed"@),
        on_event("tab.created"@),
        on_event("tab.closed"@),
        on_event("tab.renamed"@),
        on_event("tab.focused"@),
        on_event("pane.created"@),
        on_event("pane.closed"@),
        on_event("pane.updated"@),
        on_event("pane.moved"@),
        on_event("pane.exited"@),
        on_event("pane.focused"@),
        on_event("pane.agent_detected"@),
    ];
    assert(crate::herdr::session_events().map_values(
        |e: Seq<char>| crate::herdr::session_subscription(e),
    ) =~= session);
    assert(views(panes@).map_values(|p: Seq<char>| crate::herdr::pane_subscription(p)) =~= agents);
}

// ---------------------------------------------------------------------------------------
// Answers

/// An answer that reports an error fails the request, whatever else it holds. One about another
/// request is passed over. One about this request gives its result, and fails where it has
/// none.
pub proof fn law_answers_settle_their_request(
    id: &str,
    method: &str,
    msg: Message,
    r: Option<Result<Value, String>>,
)
    requires
        call_ensures(settle, (id, method, msg), r),
    ensures
        msg.error matches Some(err) ==> (r matches Some(Err(e)) && e@ == "herdr "@ + method@
            + " failed: "@ + err@),
        msg.error is None && (msg.id is None || msg.id->0@ != id@) ==> r is None,
        msg.error is None && msg.id is Some && msg.id->0@ == id@ && msg.result is Some ==> r
            == Some(Ok::<Value, String>(msg.result->0)),
        msg.error is None && msg.id is Some && msg.id->0@ == id@ && msg.result is None ==> (
        r matches Some(Err(e)) && e@ == "herdr "@ + method@ + ": response without result"@),
{
}

/// The member of that name, where it is a text.
pub open spec fn text_in(v: Value, key: Seq<char>) -> Option<Seq<char>> {
    if member_of(v, key) is Some {
        string_of(member_of(v, key)->0)
    } else {
        None
    }
}

/// A line of the socket is read as JSON, white space around it aside; the members `error`, `id`
/// and `result` decide. A line that is no JSON, or none at all, fails the request.
pub proof fn law_lines_are_read_as_answers(
    id: &str,
    method: &str,
    line: Option<&String>,
    r: Option<Result<Value, String>>,
)
    requires
        call_ensures(answer, (id, method, line), r),
    ensures
        line is None ==> (r matches Some(Err(e)) && e@
            == "herdr closed connection without response to "@ + method@),
        line is Some ==> match json(trim(line->0@)) {
            Err(cause) => r matches Some(Err(e)) && e@ == "bad herdr response: "@ + line->0@ + ": "@
                + cause,
            Ok(v) => if member_of(v, "error"@) is Some {
                r matches Some(Err(e)) && e@ == "herdr "@ + method@ + " failed: "@ + json_text(
                    member_of(v, "error"@)->0,
                )
            } else if text_in(v, "id"@) != Some(id@) {
                r is None
            } else if member_of(v, "result"@) is Some {
                r == Some(Ok::<Value, String>(member_of(v, "result"@)->0))
            } else {
                r matches Some(Err(e)) && e@ == "herdr "@ + method@ + ": response without result"@
            },
        },
{
}

/// The snapshot is the member of that name of the result.
pub proof fn law_snapshot_is_part_of_the_result(result: Value, r: Result<Value, String>)
    requires
        call_ensures(snapshot_value, (&result,), r),
    ensures
        member_of(result, "snapshot"@) matches Some(v) ==> r == Ok::<Value, String>(v),
        member_of(result, "snapshot"@) is None ==> (r matches Err(e) && e@
            == "session.snapshot: missing snapshot"@),
{
}

/// A snapshot is asked for by its method, without parameters; a failed request fails it.
pub proof fn law_snapshots_are_asked_for<A: Fn(&String, &Value) -> Result<Value, String>>(
    c: Client,
    ask: A,
    script: spec_fn(Seq<char>, Seq<char>) -> Result<Value, String>,
    r: Result<Value, String>,
)
    requires
        call_ensures(Client::snapshot::<A>, (&c, &ask), r),
        forall|m: String, p: Value, reply: Result<Value, String>| #[trigger]
            call_ensures(ask, (&m, &p), reply) ==> reply == script(m@, json_text(p)),
    ensures
        match script("session.snapshot"@, object_text(Seq::empty())) {
            Err(e) => r == Err::<Value, String>(e),
            Ok(v) => match member_of(v, "snapshot"@) {
                Some(s) => r == Ok::<Value, String>(s),
                None => r matches Err(e) && e@ == "session.snapshot: missing snapshot"@,
            },
        },
{
}

/// A pane is focused by its ID; the request decides.
pub proof fn law_panes_are_focused_by_id<A: Fn(&String, &Value) -> Result<Value, String>>(
    c: Client,
    pane: &str,
    ask: A,
    script: spec_fn(Seq<char>, Seq<char>) -> Result<Value, String>,
    r: Result<(), String>,
)
    requires
        call_ensures(Client::focus_pane::<A>, (&c, pane, &ask), r),
        forall|m: String, p: Value, reply: Result<Value, String>| #[trigger]
            call_ensures(ask, (&m, &p), reply) ==> reply == script(m@, json_text(p)),
    ensures
        match script("pane.focus"@, object_text(seq![("pane_id"@, json_string(pane@))])) {
            Err(e) => r == Err::<(), String>(e),
            Ok(_) => r is Ok,
        },
{
}

// ---------------------------------------------------------------------------------------
// Events

/// What is pushed: an error ends the subscription, the answer that it has started is no event,
/// and everything else is one.
pub proof fn law_pushed_messages_are_events(
    error: Option<String>,
    kind: Option<String>,
    text: String,
    r: Pushed,
)
    requires
        call_ensures(deliver, (error, kind, text), r),
    ensures
        error matches Some(err) ==> (r matches Pushed::Failed(e) && e@
            == "events.subscribe failed: "@ + err@),
        error is None && opt_view(kind) == Some("subscription_started"@) ==> r is Nothing,
        error is None && opt_view(kind) != Some("subscription_started"@) ==> (
        r matches Pushed::Event(raw) && raw@ == text@),
{
}

/// A pushed line is read as JSON; one that is none is passed over.
pub proof fn law_pushed_lines_are_read(line: &str, r: Pushed)
    requires
        call_ensures(pushed, (line,), r),
    ensures
        match json(line@) {
            Err(_) => r is Nothing,
            Ok(v) => if member_of(v, "error"@) is Some {
                r matches Pushed::Failed(e) && e@ == "events.subscribe failed: "@ + json_text(
                    member_of(v, "error"@)->0,
                )
            } else if member_of(v, "result"@) is Some && text_in(
                member_of(v, "result"@)->0,
                "type"@,
            ) == Some("subscription_started"@) {
                r is Nothing
            } else {
                r matches Pushed::Event(raw) && raw@ == json_text(v)
            },
        },
{
}

// ---------------------------------------------------------------------------------------
// JSON

/// A text as JSON stands between quotes, each of its characters by itself; quotes, backslashes
/// and control characters are escaped.
pub proof fn law_json_texts_are_quoted(a: Seq<char>, b: Seq<char>, c: char)
    ensures
        json_string(a) == seq!['"'] + all_escaped(a) + seq!['"'],
        all_escaped(Seq::<char>::empty()).len() == 0,
        all_escaped(a + b) == all_escaped(a) + all_escaped(b),
        all_escaped(seq!['"']) == seq!['\\', '"'],
        all_escaped(seq!['\\']) == seq!['\\', '\\'],
        all_escaped(seq!['\n']) == seq!['\\', 'n'],
        all_escaped(seq!['\r']) == seq!['\\', 'r'],
        all_escaped(seq!['\t']) == seq!['\\', 't'],
        all_escaped(seq!['\u{8}']) == seq!['\\', 'b'],
        all_escaped(seq!['\u{c}']) == seq!['\\', 'f'],
        c >= ' ' && c != '"' && c != '\\' ==> all_escaped(seq![c]) == seq![c],
        c < ' ' && c != '\n' && c != '\r' && c != '\t' && c != '\u{8}' && c != '\u{c}' ==> {
            let e = all_escaped(seq![c]);
            e.len() == 6 && e.take(4) == seq!['\\', 'u', '0', '0']
        },
    decreases b.len(),
{
    reveal_strlit("\"");
    assert("\""@ =~= seq!['"']);
    lemma_escaped_one('"');
    lemma_escaped_one('\\');
    lemma_escaped_one('\n');
    lemma_escaped_one('\r');
    lemma_escaped_one('\t');
    lemma_escaped_one('\u{8}');
    lemma_escaped_one('\u{c}');
    lemma_escaped_one(c);
    if c < ' ' && c != '\n' && c != '\r' && c != '\t' && c != '\u{8}' && c != '\u{c}' {
        assert(escaped(c).take(4) =~= seq!['\\', 'u', '0', '0']);
    }
    if b.len() == 0 {
        assert(a + b =~= a);
        assert(all_escaped(a) + all_escaped(b) =~= all_escaped(a));
    } else {
        law_json_texts_are_quoted(a, b.drop_last(), c);
        assert((a + b).drop_last() =~= a + b.drop_last());
        assert(all_escaped(a + b) =~= all_escaped(a) + all_escaped(b));
    }
}

proof fn lemma_escaped_one(c: char)
    ensures
        all_escaped(seq![c]) == escaped(c),
{
    let one = seq![c];
    assert(one.drop_last() =~= Seq::<char>::empty());
    assert(all_escaped(one.drop_last()) =~= Seq::<char>::empty());
    assert(all_escaped(one) =~= escaped(c));
}

/// The items of an array stand between brackets, the members of an object between braces, with
/// commas between them; a member is its key, a colon and its value.
pub proof fn law_json_lists_are_bracketed(
    items: Seq<Seq<char>>,
    members: Seq<(Seq<char>, Seq<char>)>,
    k: Seq<char>,
    v: Seq<char>,
)
    ensures
        array_text(items) == seq!['['] + join(items, ","@) + seq![']'],
        object_text(Seq::empty()) == seq!['{', '}'],
        object_text(seq![(k, v)]) == seq!['{'] + json_string(k) + seq![':'] + v + seq!['}'],
        object_text(members) == seq!['{'] + join(
            Seq::new(
                members.len(),
                |i: int| json_string(members[i].0) + seq![':'] + members[i].1,
            ),
            ","@,
        ) + seq!['}'],
{
    reveal_strlit("[");
    reveal_strlit("]");
    reveal_strlit("{");
    reveal_strlit("}");
    reveal_strlit(":");
    assert("["@ =~= seq!['[']);
    assert("]"@ =~= seq![']']);
    assert("{"@ =~= seq!['{']);
    assert("}"@ =~= seq!['}']);
    assert(":"@ =~= seq![':']);
    let f = |m: (Seq<char>, Seq<char>)| member_text(m.0, m.1);
    let none = Seq::<(Seq<char>, Seq<char>)>::empty();
    assert(none.map_values(f) =~= Seq::<Seq<char>>::empty());
    assert(object_text(none) =~= seq!['{', '}']);
    let one = seq![(k, v)];
    assert(one.map_values(f) =~= seq![member_text(k, v)]);
    assert(object_text(one) =~= seq!['{'] + json_string(k) + seq![':'] + v + seq!['}']);
    assert(members.map_values(f) =~= Seq::new(
        members.len(),
        |i: int| json_string(members[i].0) + seq![':'] + members[i].1,
    ));
}

} // verus!
