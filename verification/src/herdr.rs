//! Client side of the herdr socket API (newline-delimited JSON): where the socket is, what
//! goes over it and what the answers mean. Reading and writing the socket is left to the
//! caller.

use serde_json::Value;
use vstd::prelude::*;
use vstd::string::*;

use crate::json::{
    add_member, array_text, array_value, as_text, json, json_string, json_text, key_ascends, member,
    member_of, member_texts, object_text, object_value, parse_json, string_of, text_value,
    value_copy, value_text, value_texts,
};
use crate::paths::{joined_path, path_join};
use crate::text::{before, decimal, decimal_of, opt_view, same_text, trim, trimmed, views};

verus! {

#[derive(Debug)]
pub struct Snapshot {
    /// Workspace that has the focus.
    pub focused_workspace_id: Option<String>,
    /// Pane that has the focus.
    pub focused_pane_id: Option<String>,
    pub workspaces: Vec<Workspace>,
    pub tabs: Vec<Tab>,
    pub panes: Vec<Pane>,
}

#[derive(Debug)]
pub struct Workspace {
    pub workspace_id: String,
    pub label: String,
    pub number: u32,
}

#[derive(Debug)]
pub struct Tab {
    pub tab_id: String,
    pub label: String,
}

#[derive(Debug)]
pub struct Pane {
    pub pane_id: String,
    pub workspace_id: String,
    pub tab_id: String,
    pub cwd: Option<String>,
    pub foreground_cwd: Option<String>,
    pub agent: Option<String>,
    pub agent_status: Option<String>,
    pub terminal_title_stripped: Option<String>,
    pub focused: bool,
}

impl Default for Snapshot {
    fn default() -> (r: Self)
        ensures
            r.focused_workspace_id is None,
            r.focused_pane_id is None,
            r.workspaces@.len() == 0,
            r.tabs@.len() == 0,
            r.panes@.len() == 0,
    {
        Snapshot {
            focused_workspace_id: None,
            focused_pane_id: None,
            workspaces: Vec::new(),
            tabs: Vec::new(),
            panes: Vec::new(),
        }
    }
}

/// A directory, where it is known.
pub open spec fn named_dir(d: Option<String>) -> Option<Seq<char>> {
    match d {
        Some(s) if s@.len() > 0 => Some(s@),
        _ => None,
    }
}

impl Pane {
    /// Directory the pane's foreground process works in; the pane's own where that is not
    /// known.
    pub open spec fn dir(self) -> Option<Seq<char>> {
        match named_dir(self.foreground_cwd) {
            Some(d) => Some(d),
            None => named_dir(self.cwd),
        }
    }

    /// Directory the pane's foreground process works in.
    pub fn work_dir(&self) -> (r: Option<&str>)
        ensures
            match r {
                Some(d) => self.dir() == Some(d@),
                None => self.dir() is None,
            },
    {
        if let Some(d) = &self.foreground_cwd {
            if !d.as_str().is_empty() {
                return Some(d.as_str());
            }
        }
        if let Some(d) = &self.cwd {
            if !d.as_str().is_empty() {
                return Some(d.as_str());
            }
        }
        None
    }
}

// ---------------------------------------------------------------------------------------
// The socket

/// The variables that say where the socket is.
#[derive(Debug)]
pub struct SocketEnv {
    /// `HERDR_SOCKET_PATH`
    pub socket_path: Option<String>,
    /// `HOME`
    pub home: Option<String>,
}

/// Where the socket is unless something else is said: `~/.config/herdr/herdr.sock`.
pub open spec fn usual_socket(env: SocketEnv) -> Seq<char> {
    let base = match env.home {
        Some(home) => joined_path(home@, ".config"@),
        None => "."@,
    };
    joined_path(joined_path(base, "herdr"@), "herdr.sock"@)
}

/// Where the socket is.
pub open spec fn socket_of(socket: Option<String>, env: SocketEnv) -> Seq<char> {
    match socket {
        Some(path) => path@,
        None => match env.socket_path {
            Some(path) => path@,
            None => usual_socket(env),
        },
    }
}

fn default_socket(env: &SocketEnv) -> (r: String)
    ensures
        r@ == usual_socket(*env),
{
    let base = match &env.home {
        Some(home) => path_join(home.as_str(), ".config"),
        None => ".".to_owned(),
    };
    path_join(path_join(base.as_str(), "herdr").as_str(), "herdr.sock")
}

#[derive(Debug)]
pub struct Client {
    pub socket: String,
}

impl Clone for Client {
    fn clone(&self) -> (r: Self)
        ensures
            r == *self,
    {
        Client { socket: self.socket.clone() }
    }
}

impl Client {
    /// A client of the server at `socket`, or at the place that the environment names.
    pub fn new(socket: Option<String>, env: &SocketEnv) -> (r: Self)
        ensures
            r.socket@ == socket_of(socket, *env),
    {
        let socket = match socket {
            Some(path) => path,
            None => match &env.socket_path {
                Some(path) => path.clone(),
                None => default_socket(env),
            },
        };
        Client { socket }
    }

    /// What to say when the server cannot be reached.
    pub fn unreachable(&self, cause: &str) -> (r: String)
        ensures
            r@ == "connect to herdr socket "@ + self.socket@ + ": "@ + cause@,
    {
        let mut s = "connect to herdr socket ".to_owned();
        s.append(self.socket.as_str());
        s.append(": ");
        s.append(cause);
        s
    }
}

// ---------------------------------------------------------------------------------------
// Requests

/// The ID of request number `n`.
pub open spec fn id_of(n: nat) -> Seq<char> {
    "herdiff:"@ + decimal(n)
}

/// The ID of request number `n`.
pub fn request_id(n: u64) -> (r: String)
    ensures
        r@ == id_of(n as nat),
{
    let mut s = "herdiff:".to_owned();
    s.append(decimal_of(n).as_str());
    s
}

/// The ID of a subscription, made as request number `n`.
pub fn subscription_id(n: u64) -> (r: String)
    ensures
        r@ == "herdiff:sub:"@ + decimal(n as nat),
{
    let mut s = "herdiff:sub:".to_owned();
    s.append(decimal_of(n).as_str());
    s
}

/// A request: `params` is JSON text.
pub open spec fn request_text(id: Seq<char>, method: Seq<char>, params: Seq<char>) -> Seq<char> {
    object_text(
        seq![("id"@, json_string(id)), ("method"@, json_string(method)), ("params"@, params)],
    )
}

/// The line that asks for `method`.
pub fn request_line(id: &str, method: &str, params: &Value) -> (r: String)
    ensures
        r@ == request_text(id@, method@, json_text(*params)),
{
    let mut m: Vec<(String, Value)> = Vec::new();
    add_member(&mut m, "id", text_value(id));
    add_member(&mut m, "method", text_value(method));
    add_member(&mut m, "params", value_copy(params));
    proof {
        let all = seq![
            ("id"@, json_string(id@)),
            ("method"@, json_string(method@)),
            ("params"@, json_text(*params)),
        ];
        assert(member_texts(m@) =~= all);
        reveal_strlit("id");
        reveal_strlit("method");
        reveal_strlit("params");
        assert(before("id"@, "method"@));
        assert(before("method"@, "params"@));
        assert forall|i: int| 0 <= i < all.len() - 1 implies #[trigger] key_ascends(all, i) by {
            assert(i == 0 || i == 1);
        }
    }
    value_text(&object_value(m))
}

/// The parameters of a request that has none.
pub fn no_params() -> (r: Value)
    ensures
        json_text(r) == object_text(Seq::empty()),
{
    let m: Vec<(String, Value)> = Vec::new();
    assert(member_texts(m@) =~= Seq::empty());
    object_value(m)
}

/// The parameters of a request to focus a pane.
pub open spec fn focus_text(pane_id: Seq<char>) -> Seq<char> {
    object_text(seq![("pane_id"@, json_string(pane_id))])
}

/// The parameters of a request to focus a pane.
pub fn focus_params(pane_id: &str) -> (r: Value)
    ensures
        json_text(r) == focus_text(pane_id@),
{
    let mut m: Vec<(String, Value)> = Vec::new();
    add_member(&mut m, "pane_id", text_value(pane_id));
    assert(member_texts(m@) =~= seq![("pane_id"@, json_string(pane_id@))]);
    object_value(m)
}

/// The events that concern the session as a whole.
pub open spec fn session_events() -> Seq<Seq<char>> {
    seq![
        "workspace.created"@,
        "workspace.closed"@,
        "workspace.renamed"@,
        "workspace.focused"@,
        "worktree.created"@,
        "worktree.opened"@,
        "worktree.removed"@,
        "tab.created"@,
        "tab.closed"@,
        "tab.renamed"@,
        "tab.focused"@,
        "pane.created"@,
        "pane.closed"@,
        "pane.updated"@,
        "pane.moved"@,
        "pane.exited"@,
        "pane.focused"@,
        "pane.agent_detected"@,
    ]
}

fn session_event_names() -> (r: Vec<&'static str>)
    ensures
        crate::git_run::str_views(r@) == session_events(),
{
    let v = vec![
        "workspace.created",
        "workspace.closed",
        "workspace.renamed",
        "workspace.focused",
        "worktree.created",
        "worktree.opened",
        "worktree.removed",
        "tab.created",
        "tab.closed",
        "tab.renamed",
        "tab.focused",
        "pane.created",
        "pane.closed",
        "pane.updated",
        "pane.moved",
        "pane.exited",
        "pane.focused",
        "pane.agent_detected",
    ];
    assert(crate::git_run::str_views(v@) =~= session_events());
    v
}

/// A subscription to an event of the session.
pub open spec fn session_subscription(event: Seq<char>) -> Seq<char> {
    object_text(seq![("type"@, json_string(event))])
}

/// A subscription to what the agent of a pane does.
pub open spec fn pane_subscription(pane: Seq<char>) -> Seq<char> {
    object_text(
        seq![
            ("pane_id"@, json_string(pane)),
            ("type"@, json_string("pane.agent_status_changed"@)),
        ],
    )
}

/// Subscriptions to the events of the session, and behind them those to what the agents of the
/// panes do.
pub open spec fn subscriptions(panes: Seq<Seq<char>>) -> Seq<Seq<char>> {
    session_events().map_values(|e: Seq<char>| session_subscription(e)) + panes.map_values(
        |p: Seq<char>| pane_subscription(p),
    )
}

/// The parameters of a subscription.
pub open spec fn subscription_text(panes: Seq<Seq<char>>) -> Seq<char> {
    object_text(seq![("subscriptions"@, array_text(subscriptions(panes)))])
}

fn session_subscription_value(event: &str) -> (r: Value)
    ensures
        json_text(r) == session_subscription(event@),
{
    let mut m: Vec<(String, Value)> = Vec::new();
    add_member(&mut m, "type", text_value(event));
    assert(member_texts(m@) =~= seq![("type"@, json_string(event@))]);
    object_value(m)
}

fn pane_subscription_value(pane: &str) -> (r: Value)
    ensures
        json_text(r) == pane_subscription(pane@),
{
    let mut m: Vec<(String, Value)> = Vec::new();
    add_member(&mut m, "pane_id", text_value(pane));
    add_member(&mut m, "type", text_value("pane.agent_status_changed"));
    proof {
        let all = seq![
            ("pane_id"@, json_string(pane@)),
            ("type"@, json_string("pane.agent_status_changed"@)),
        ];
        assert(member_texts(m@) =~= all);
        reveal_strlit("pane_id");
        reveal_strlit("type");
        assert(before("pane_id"@, "type"@));
        assert forall|i: int| 0 <= i < all.len() - 1 implies #[trigger] key_ascends(all, i) by {
            assert(i == 0);
        }
    }
    object_value(m)
}

/// The parameters of a subscription to the events of the session and to what the agents of
/// the panes do.
pub fn subscription_params(pane_ids: &[String]) -> (r: Value)
    ensures
        json_text(r) == subscription_text(views(pane_ids@)),
{
    let names = session_event_names();
    let ghost events = session_events();
    let ghost ids = views(pane_ids@);
    let ghost all = subscriptions(ids);
    let mut items: Vec<Value> = Vec::new();
    let mut i: usize = 0;
    assert(value_texts(items@) =~= all.take(0));
    while i < names.len()
        invariant
            i <= names.len(),
            events == session_events(),
            all == subscriptions(ids),
            crate::git_run::str_views(names@) == events,
            value_texts(items@) == all.take(i as int),
        decreases names.len() - i,
    {
        let ghost seen = items@;
        assert(crate::git_run::str_views(names@)[i as int] == names[i as int]@);
        items.push(session_subscription_value(names[i]));
        assert(value_texts(items@) =~= value_texts(seen).push(all[i as int]));
        assert(value_texts(items@) =~= all.take(i + 1));
        i += 1;
    }
    let mut k: usize = 0;
    while k < pane_ids.len()
        invariant
            k <= pane_ids.len(),
            events == session_events(),
            all == subscriptions(ids),
            ids == views(pane_ids@),
            value_texts(items@) == all.take(events.len() + k),
        decreases pane_ids.len() - k,
    {
        let ghost seen = items@;
        assert(ids[k as int] == pane_ids[k as int]@);
        items.push(pane_subscription_value(pane_ids[k].as_str()));
        assert(value_texts(items@) =~= value_texts(seen).push(all[events.len() + k]));
        assert(value_texts(items@) =~= all.take(events.len() + k + 1));
        k += 1;
    }
    assert(all.take(events.len() + k) =~= all);
    let mut m: Vec<(String, Value)> = Vec::new();
    add_member(&mut m, "subscriptions", array_value(items));
    assert(member_texts(m@) =~= seq![("subscriptions"@, array_text(all))]);
    object_value(m)
}

// ---------------------------------------------------------------------------------------
// Answers

/// What an answer is read for.
#[derive(Debug)]
pub struct Message {
    /// The error it holds, as compact JSON text.
    pub error: Option<String>,
    /// The request it is about.
    pub id: Option<String>,
    pub result: Option<Value>,
}

/// An answer as a value.
pub struct MessageView {
    pub error: Option<Seq<char>>,
    pub id: Option<Seq<char>>,
    pub result: Option<Value>,
}

impl View for Message {
    type V = MessageView;

    open spec fn view(&self) -> MessageView {
        MessageView { error: opt_view(self.error), id: opt_view(self.id), result: self.result }
    }
}

/// The text of a member that is a JSON string.
pub open spec fn text_member(v: Value, key: Seq<char>) -> Option<Seq<char>> {
    match member_of(v, key) {
        Some(m) => string_of(m),
        None => None,
    }
}

/// The error that a message holds, as compact JSON text.
pub open spec fn error_text(msg: Value) -> Option<Seq<char>> {
    match member_of(msg, "error"@) {
        Some(err) => Some(json_text(err)),
        None => None,
    }
}

/// What a message says.
pub open spec fn message_of(msg: Value) -> MessageView {
    MessageView {
        error: error_text(msg),
        id: text_member(msg, "id"@),
        result: member_of(msg, "result"@),
    }
}

fn read_text(v: &Value, key: &str) -> (r: Option<String>)
    ensures
        opt_view(r) == text_member(*v, key@),
{
    match member(v, key) {
        Some(m) => match as_text(m) {
            Some(s) => Some(s.to_owned()),
            None => None,
        },
        None => None,
    }
}

fn read_error(msg: &Value) -> (r: Option<String>)
    ensures
        opt_view(r) == error_text(*msg),
{
    match member(msg, "error") {
        Some(err) => Some(value_text(err)),
        None => None,
    }
}

fn read_message(msg: &Value) -> (r: Message)
    ensures
        r@ == message_of(*msg),
{
    Message {
        error: read_error(msg),
        id: read_text(msg, "id"),
        result: match member(msg, "result") {
            Some(v) => Some(value_copy(v)),
            None => None,
        },
    }
}

/// What a message is to the request with that ID: an error is taken as its answer whatever it
/// is about, and nothing else that is not about it.
pub open spec fn settled(
    id: Seq<char>,
    method: Seq<char>,
    msg: MessageView,
    r: Option<Result<Value, String>>,
) -> bool {
    match msg.error {
        Some(err) => r matches Some(Err(e)) && e@ == "herdr "@ + method + " failed: "@ + err,
        None => if msg.id == Some(id) {
            match msg.result {
                Some(v) => r == Some(Ok::<Value, String>(v)),
                None => r matches Some(Err(e)) && e@ == "herdr "@ + method
                    + ": response without result"@,
            }
        } else {
            r is None
        },
    }
}

/// Take a message as the answer to a request. The result is `None` where it is not about it.
pub fn settle(id: &str, method: &str, msg: Message) -> (r: Option<Result<Value, String>>)
    ensures
        settled(id@, method@, msg@, r),
{
    if let Some(err) = &msg.error {
        let mut e = "herdr ".to_owned();
        e.append(method);
        e.append(" failed: ");
        e.append(err.as_str());
        return Some(Err(e));
    }
    let about = match &msg.id {
        Some(s) => same_text(s.as_str(), id),
        None => false,
    };
    if !about {
        return None;
    }
    match msg.result {
        Some(v) => Some(Ok(v)),
        None => {
            let mut e = "herdr ".to_owned();
            e.append(method);
            e.append(": response without result");
            Some(Err(e))
        },
    }
}

/// What a line from the server is to a request: `None` for a message that is not about it.
pub open spec fn answer_is(
    id: Seq<char>,
    method: Seq<char>,
    line: Option<Seq<char>>,
    r: Option<Result<Value, String>>,
) -> bool {
    match line {
        None => r matches Some(Err(e)) && e@ == "herdr closed connection without response to "@
            + method,
        Some(text) => match json(trim(text)) {
            Err(cause) => r matches Some(Err(e)) && e@ == "bad herdr response: "@ + text + ": "@
                + cause,
            Ok(msg) => settled(id, method, message_of(msg), r),
        },
    }
}

/// Read a line from the server while a request waits for its answer; `None` stands for the end
/// of the connection. The result is `None` where the line is not about the request: read on.
pub fn answer(id: &str, method: &str, line: Option<&String>) -> (r: Option<Result<Value, String>>)
    ensures
        answer_is(
            id@,
            method@,
            match line {
                Some(l) => Some(l@),
                None => None,
            },
            r,
        ),
{
    let text = match line {
        None => {
            let mut e = "herdr closed connection without response to ".to_owned();
            e.append(method);
            return Some(Err(e));
        },
        Some(text) => text,
    };
    match parse_json(trimmed(text.as_str()).as_str()) {
        Ok(msg) => settle(id, method, read_message(&msg)),
        Err(cause) => {
            let mut e = "bad herdr response: ".to_owned();
            e.append(text.as_str());
            e.append(": ");
            e.append(cause.as_str());
            Some(Err(e))
        },
    }
}

/// `r` is the snapshot that the answer to `session.snapshot` holds.
pub open spec fn snapshot_is(result: Value, r: Result<Value, String>) -> bool {
    match member_of(result, "snapshot"@) {
        Some(v) => r == Ok::<Value, String>(v),
        None => r matches Err(e) && e@ == "session.snapshot: missing snapshot"@,
    }
}

/// The snapshot that the answer to `session.snapshot` holds.
pub fn snapshot_value(result: &Value) -> (r: Result<Value, String>)
    ensures
        snapshot_is(*result, r),
{
    match member(result, "snapshot") {
        Some(v) => Ok(value_copy(v)),
        None => Err("session.snapshot: missing snapshot".to_owned()),
    }
}

/// `ask` may answer `reply` when it is asked for `method` with parameters that are `params` as
/// JSON text.
pub open spec fn replies<A: Fn(&String, &Value) -> Result<Value, String>>(
    ask: A,
    method: Seq<char>,
    params: Seq<char>,
    reply: Result<Value, String>,
) -> bool {
    exists|m: String, p: Value|
        m@ == method && json_text(p) == params && #[trigger] call_ensures(ask, (&m, &p), reply)
}

impl Client {
    /// The snapshot of the session, as JSON. `ask` makes one request, given its method and its
    /// parameters, and hands back the result.
    pub fn snapshot<A: Fn(&String, &Value) -> Result<Value, String>>(&self, ask: &A) -> (r: Result<
        Value,
        String,
    >)
        requires
            forall|m: String, p: Value| call_requires(*ask, (&m, &p)),
        ensures
            exists|reply: Result<Value, String>| #[trigger]
                replies(*ask, "session.snapshot"@, object_text(Seq::empty()), reply) && match reply {
                    Ok(v) => snapshot_is(v, r),
                    Err(e) => r == Err::<Value, String>(e),
                },
    {
        let method = "session.snapshot".to_owned();
        let params = no_params();
        let reply = ask(&method, &params);
        assert(replies(*ask, "session.snapshot"@, object_text(Seq::empty()), reply));
        match reply {
            Ok(v) => snapshot_value(&v),
            Err(e) => Err(e),
        }
    }

    /// Give the focus to a pane. `ask` makes one request.
    pub fn focus_pane<A: Fn(&String, &Value) -> Result<Value, String>>(
        &self,
        pane_id: &str,
        ask: &A,
    ) -> (r: Result<(), String>)
        requires
            forall|m: String, p: Value| call_requires(*ask, (&m, &p)),
        ensures
            exists|reply: Result<Value, String>| #[trigger]
                replies(*ask, "pane.focus"@, focus_text(pane_id@), reply) && match reply {
                    Ok(_) => r == Ok::<(), String>(()),
                    Err(e) => r == Err::<(), String>(e),
                },
    {
        let method = "pane.focus".to_owned();
        let params = focus_params(pane_id);
        let reply = ask(&method, &params);
        assert(replies(*ask, "pane.focus"@, focus_text(pane_id@), reply));
        match reply {
            Ok(_) => Ok(()),
            Err(e) => Err(e),
        }
    }
}

/// What a line is to a subscriber.
#[derive(Debug)]
pub enum Pushed {
    /// Nothing that concerns the subscriber.
    Nothing,
    /// The subscription failed.
    Failed(String),
    /// An event, as compact JSON text.
    Event(String),
}

/// The type that a message gives its result.
pub open spec fn result_type(msg: Value) -> Option<Seq<char>> {
    match member_of(msg, "result"@) {
        Some(result) => text_member(result, "type"@),
        None => None,
    }
}

/// What a message is to a subscriber, by the error it holds, the type of its result and its
/// text: all but the note that the subscription has begun is an event.
pub open spec fn delivered(
    error: Option<Seq<char>>,
    kind: Option<Seq<char>>,
    text: Seq<char>,
    r: Pushed,
) -> bool {
    match error {
        Some(err) => r matches Pushed::Failed(e) && e@ == "events.subscribe failed: "@ + err,
        None => if kind == Some("subscription_started"@) {
            r is Nothing
        } else {
            r matches Pushed::Event(raw) && raw@ == text
        },
    }
}

/// Take a message as a subscriber.
pub fn deliver(error: Option<String>, kind: Option<String>, text: String) -> (r: Pushed)
    ensures
        delivered(opt_view(error), opt_view(kind), text@, r),
{
    if let Some(err) = &error {
        let mut e = "events.subscribe failed: ".to_owned();
        e.append(err.as_str());
        return Pushed::Failed(e);
    }
    if let Some(k) = &kind {
        if same_text(k.as_str(), "subscription_started") {
            return Pushed::Nothing;
        }
    }
    Pushed::Event(text)
}

/// What a line is to a subscriber. A line that is no JSON is passed over.
pub open spec fn pushed_is(line: Seq<char>, r: Pushed) -> bool {
    match json(line) {
        Err(_) => r is Nothing,
        Ok(msg) => delivered(error_text(msg), result_type(msg), json_text(msg), r),
    }
}

/// Read a line that the server pushed to a subscriber.
pub fn pushed(line: &str) -> (r: Pushed)
    ensures
        pushed_is(line@, r),
{
    match parse_json(line) {
        Ok(msg) => {
            let kind = match member(&msg, "result") {
                Some(result) => read_text(result, "type"),
                None => None,
            };
            deliver(read_error(&msg), kind, value_text(&msg))
        },
        Err(_) => Pushed::Nothing,
    }
}

} // verus!
