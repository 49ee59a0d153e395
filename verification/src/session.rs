//! The session's state machine and the outbound side of the protocol.
//!
//! One session owns one external tool process. The code here decides what
//! is written and how the state moves; spawning, pipe I/O and timers stay
//! with the caller, who feeds back what happened. States: disconnected
//! (no process held) and connected (process and pipes held); the handshake
//! runs while connected and tears the session down on failure, so a caller
//! never observes a half-initialized ready session.

use vstd::prelude::*;

use crate::error::McpError;
use crate::json::{json_rep, parsed_json, sorted_json, JsonValue, JsonView};
use crate::json::{
    json_line, keys_ordered, lemma_obj_rep, lemma_sorted_members_intro, sorted_members,
};
use crate::text::{str_eq, str_lt};

verus! {

/// The view of an optional JSON argument.
pub open spec fn opt_rep(p: Option<JsonValue>) -> Option<JsonView> {
    match p {
        Option::Some(x) => Option::Some(x@),
        Option::None => Option::None,
    }
}

/// The request envelope: `{"id": .., "jsonrpc": "2.0", "method": ..}` with
/// `params` appended when given (members in ascending key order, as a
/// map-backed object keeps them).
pub open spec fn request_envelope(id: i64, method: Seq<char>, params: Option<JsonView>) -> JsonView {
    match params {
        Option::None => JsonView::Obj(
            seq![
                ("id"@, JsonView::Int(id)),
                ("jsonrpc"@, JsonView::Str("2.0"@)),
                ("method"@, JsonView::Str(method)),
            ],
        ),
        Option::Some(p) => JsonView::Obj(
            seq![
                ("id"@, JsonView::Int(id)),
                ("jsonrpc"@, JsonView::Str("2.0"@)),
                ("method"@, JsonView::Str(method)),
                ("params"@, p),
            ],
        ),
    }
}

/// The notification envelope: `{"jsonrpc": "2.0", "method": ..}` — no id,
/// no reply expected.
pub open spec fn notification_envelope(method: Seq<char>) -> JsonView {
    JsonView::Obj(seq![("jsonrpc"@, JsonView::Str("2.0"@)), ("method"@, JsonView::Str(method))])
}

/// Build the request envelope as a value.
fn request_value(id: i64, method: &str, params: Option<JsonValue>) -> (v: JsonValue)
    requires
        params matches Some(p) ==> sorted_json(p@),
    ensures
        v@ == request_envelope(id, method@, opt_rep(params)),
        sorted_json(v@),
{
    let ghost p_rep = opt_rep(params);
    let mut entries: Vec<(String, JsonValue)> = Vec::new();
    entries.push((String::from_str("id"), JsonValue::Int(id)));
    entries.push((String::from_str("jsonrpc"), JsonValue::Str(String::from_str("2.0"))));
    entries.push((String::from_str("method"), JsonValue::Str(method.to_owned())));
    match params {
        Some(p) => entries.push((String::from_str("params"), p)),
        None => (),
    }
    proof {
        lemma_obj_rep(entries);
    }
    let v = JsonValue::Obj(entries);
    proof {
        reveal_strlit("id");
        reveal_strlit("jsonrpc");
        reveal_strlit("method");
        reveal_strlit("params");
        let es = match v@ {
            JsonView::Obj(inner) => inner,
            _ => Seq::empty(),
        };
        assert(v@ is Obj);
        match p_rep {
            Option::Some(p) => {
                assert(es =~= seq![
                    ("id"@, JsonView::Int(id)),
                    ("jsonrpc"@, JsonView::Str("2.0"@)),
                    ("method"@, JsonView::Str(method@)),
                    ("params"@, p),
                ]);
            },
            Option::None => {
                assert(es =~= seq![
                    ("id"@, JsonView::Int(id)),
                    ("jsonrpc"@, JsonView::Str("2.0"@)),
                    ("method"@, JsonView::Str(method@)),
                ]);
            },
        }
        assert(str_lt("id"@, "jsonrpc"@));
        assert(str_lt("id"@, "method"@));
        assert(str_lt("id"@, "params"@));
        assert(str_lt("jsonrpc"@, "method"@));
        assert(str_lt("jsonrpc"@, "params"@));
        assert(str_lt("method"@, "params"@));
        assert(keys_ordered(es));
        assert(forall|i: int| 0 <= i < es.len() ==> sorted_json((#[trigger] es[i]).1));
        lemma_sorted_members_intro(es);
        assert(sorted_json(v@));
    }
    v
}

/// One line of text framing the request envelope.
fn request_line_value(id: i64, method: &str, params: Option<JsonValue>) -> (r: String)
    requires
        params matches Some(p) ==> sorted_json(p@),
    ensures
        parsed_json(r@) == Some(request_envelope(id, method@, opt_rep(params))),
        forall|i: int| 0 <= i < r@.len() ==> r@[i] != '\n',
{
    let v = request_value(id, method, params);
    json_line(&v)
}

/// One line of text framing a notification envelope.
pub fn notification_line(method: &str) -> (r: String)
    ensures
        parsed_json(r@) == Some(notification_envelope(method@)),
        forall|i: int| 0 <= i < r@.len() ==> r@[i] != '\n',
{
    let mut entries: Vec<(String, JsonValue)> = Vec::new();
    entries.push((String::from_str("jsonrpc"), JsonValue::Str(String::from_str("2.0"))));
    entries.push((String::from_str("method"), JsonValue::Str(method.to_owned())));
    proof {
        lemma_obj_rep(entries);
    }
    let v = JsonValue::Obj(entries);
    proof {
        reveal_strlit("jsonrpc");
        reveal_strlit("method");
        let es = match v@ {
            JsonView::Obj(inner) => inner,
            _ => Seq::empty(),
        };
        assert(v@ is Obj);
        assert(es =~= seq![("jsonrpc"@, JsonView::Str("2.0"@)), ("method"@, JsonView::Str(method@))]);
        assert(str_lt("jsonrpc"@, "method"@));
        assert(keys_ordered(es));
        assert(forall|i: int| 0 <= i < es.len() ==> sorted_json((#[trigger] es[i]).1));
        lemma_sorted_members_intro(es);
        assert(sorted_json(v@));
    }
    json_line(&v)
}

/// The initialize parameters: protocol version, empty capabilities, and
/// the client's identity.
pub open spec fn init_params_rep() -> JsonView {
    JsonView::Obj(
        seq![
            ("capabilities"@, JsonView::Obj(Seq::empty())),
            (
                "clientInfo"@,
                JsonView::Obj(
                    seq![
                        ("name"@, JsonView::Str("AINoteWork"@)),
                        ("version"@, JsonView::Str("0.1.0"@)),
                    ],
                ),
            ),
            ("protocolVersion"@, JsonView::Str("2024-11-05"@)),
        ],
    )
}

/// Build the initialize parameters as a value.
fn init_params_value() -> (v: JsonValue)
    ensures
        v@ == init_params_rep(),
        sorted_json(v@),
{
    let caps = JsonValue::Obj(Vec::new());
    let mut info_entries: Vec<(String, JsonValue)> = Vec::new();
    info_entries.push((String::from_str("name"), JsonValue::Str(String::from_str("AINoteWork"))));
    info_entries.push((String::from_str("version"), JsonValue::Str(String::from_str("0.1.0"))));
    proof {
        lemma_obj_rep(info_entries);
    }
    let info = JsonValue::Obj(info_entries);
    let mut entries: Vec<(String, JsonValue)> = Vec::new();
    entries.push((String::from_str("capabilities"), caps));
    entries.push((String::from_str("clientInfo"), info));
    entries.push((
        String::from_str("protocolVersion"),
        JsonValue::Str(String::from_str("2024-11-05")),
    ));
    proof {
        lemma_obj_rep(entries);
    }
    let v = JsonValue::Obj(entries);
    proof {
        reveal_strlit("capabilities");
        reveal_strlit("clientInfo");
        reveal_strlit("protocolVersion");
        reveal_strlit("name");
        reveal_strlit("version");
        let caps_es = match caps@ {
            JsonView::Obj(inner) => inner,
            _ => Seq::empty(),
        };
        assert(caps_es =~= Seq::<(Seq<char>, JsonView)>::empty());
        assert(sorted_members(caps_es));
        assert(sorted_json(caps@));
        let info_es = match info@ {
            JsonView::Obj(inner) => inner,
            _ => Seq::empty(),
        };
        assert(info_es =~= seq![
            ("name"@, JsonView::Str("AINoteWork"@)),
            ("version"@, JsonView::Str("0.1.0"@)),
        ]);
        assert(str_lt("name"@, "version"@));
        assert(keys_ordered(info_es));
        assert(forall|i: int| 0 <= i < info_es.len() ==> sorted_json((#[trigger] info_es[i]).1));
        lemma_sorted_members_intro(info_es);
        assert(sorted_json(info@));
        let es = match v@ {
            JsonView::Obj(inner) => inner,
            _ => Seq::empty(),
        };
        assert(es =~= seq![
            ("capabilities"@, caps@),
            ("clientInfo"@, info@),
            ("protocolVersion"@, JsonView::Str("2024-11-05"@)),
        ]);
        assert(v@ == init_params_rep());
        assert(str_lt("capabilities"@.skip(1), "clientInfo"@.skip(1)));
        assert(str_lt("capabilities"@, "clientInfo"@));
        assert(str_lt("capabilities"@, "protocolVersion"@));
        assert(str_lt("clientInfo"@, "protocolVersion"@));
        assert(keys_ordered(es));
        assert(forall|i: int| 0 <= i < es.len() ==> sorted_json((#[trigger] es[i]).1));
        lemma_sorted_members_intro(es);
        assert(sorted_json(v@));
    }
    v
}

/// The parameters of a tool call: `{"arguments": .., "name": ..}`.
pub open spec fn tool_call_params_rep(name: Seq<char>, arguments: JsonView) -> JsonView {
    JsonView::Obj(seq![("arguments"@, arguments), ("name"@, JsonView::Str(name))])
}

/// Build the tool-call parameters as a value.
fn tool_call_params_value(name: &str, arguments: JsonValue) -> (v: JsonValue)
    requires
        sorted_json(arguments@),
    ensures
        v@ == tool_call_params_rep(name@, arguments@),
        sorted_json(v@),
{
    let ghost args_rep = arguments@;
    let mut entries: Vec<(String, JsonValue)> = Vec::new();
    entries.push((String::from_str("arguments"), arguments));
    entries.push((String::from_str("name"), JsonValue::Str(name.to_owned())));
    proof {
        lemma_obj_rep(entries);
    }
    let v = JsonValue::Obj(entries);
    proof {
        reveal_strlit("arguments");
        reveal_strlit("name");
        let es = match v@ {
            JsonView::Obj(inner) => inner,
            _ => Seq::empty(),
        };
        assert(es =~= seq![("arguments"@, args_rep), ("name"@, JsonView::Str(name@))]);
        assert(str_lt("arguments"@, "name"@));
        assert(keys_ordered(es));
        assert(forall|i: int| 0 <= i < es.len() ==> sorted_json((#[trigger] es[i]).1));
        lemma_sorted_members_intro(es);
        assert(sorted_json(v@));
    }
    v
}

/// One live session against the external tool process.
pub struct McpSession {
    connected: bool,
    next_id: u64,
}

impl McpSession {
    /// Whether a process handle is held. This does not say the handshake
    /// finished: a call made before then is answered by the far end with a
    /// protocol error, not by this flag.
    pub closed spec fn ready(self) -> bool {
        self.connected
    }

    /// The id the next request will carry.
    pub closed spec fn id_counter(self) -> u64 {
        self.next_id
    }

    /// A fresh, disconnected session whose ids start at 1.
    pub fn new() -> (s: Self)
        ensures
            !s.ready(),
            s.id_counter() == 1,
    {
        McpSession { connected: false, next_id: 1 }
    }

    /// The id the next request will carry.
    pub fn next_request_id(&self) -> (r: u64)
        ensures
            r == self.id_counter(),
    {
        self.next_id
    }

    /// True iff a process handle is currently held.
    pub fn is_connected(&self) -> (r: bool)
        ensures
            r == self.ready(),
    {
        self.connected
    }

    /// Record that a process was spawned and its pipes taken.
    pub fn attach(&mut self)
        ensures
            final(self).ready(),
            final(self).id_counter() == old(self).id_counter(),
    {
        self.connected = true;
    }

    /// Drop the session. Idempotent: disconnecting an already-dead session
    /// is a no-op success.
    pub fn disconnect(&mut self)
        ensures
            !final(self).ready(),
            final(self).id_counter() == old(self).id_counter(),
    {
        self.connected = false;
    }

    /// Record that the handshake did not finish within the connect timeout:
    /// the session is torn down — the caller observes it disconnected,
    /// never half-ready — and the timeout failure is handed back.
    pub fn handshake_failed(&mut self) -> (e: McpError)
        ensures
            !final(self).ready(),
            final(self).id_counter() == old(self).id_counter(),
            e is HandshakeTimeout,
    {
        self.connected = false;
        McpError::HandshakeTimeout
    }

    /// Frame one request as a line to write. The id counter advances once
    /// whether or not the session is live; with no live session the caller
    /// gets the not-connected failure instead of a line.
    pub fn request_line(&mut self, method: &str, params: Option<JsonValue>) -> (r: Result<
        String,
        McpError,
    >)
        requires
            old(self).id_counter() < 0x7fff_ffff_ffff_ffff,
            params matches Some(p) ==> sorted_json(p@),
        ensures
            final(self).id_counter() == old(self).id_counter() + 1,
            final(self).ready() == old(self).ready(),
            !old(self).ready() ==> r matches Err(McpError::NotConnected),
            old(self).ready() ==> (r matches Ok(line) && parsed_json(line@) == Some(
                request_envelope(old(self).id_counter() as i64, method@, opt_rep(params)),
            ) && (forall|i: int| 0 <= i < line@.len() ==> line@[i] != '\n')),
    {
        let id = self.next_id;
        self.next_id = id + 1;
        if !self.connected {
            return Err(McpError::NotConnected);
        }
        Ok(request_line_value(id as i64, method, params))
    }

    /// Frame the handshake's initialize request.
    pub fn initialize_request(&mut self) -> (r: Result<String, McpError>)
        requires
            old(self).id_counter() < 0x7fff_ffff_ffff_ffff,
        ensures
            final(self).id_counter() == old(self).id_counter() + 1,
            final(self).ready() == old(self).ready(),
            !old(self).ready() ==> r matches Err(McpError::NotConnected),
            old(self).ready() ==> (r matches Ok(line) && parsed_json(line@) == Some(
                request_envelope(
                    old(self).id_counter() as i64,
                    "initialize"@,
                    Some(init_params_rep()),
                ),
            )),
    {
        let params = init_params_value();
        self.request_line("initialize", Some(params))
    }

    /// Frame the notification that closes the handshake.
    pub fn initialized_notification() -> (r: String)
        ensures
            parsed_json(r@) == Some(notification_envelope("notifications/initialized"@)),
            forall|i: int| 0 <= i < r@.len() ==> r@[i] != '\n',
    {
        notification_line("notifications/initialized")
    }

    /// Frame the request that lists the far end's tools.
    pub fn tools_list_request(&mut self) -> (r: Result<String, McpError>)
        requires
            old(self).id_counter() < 0x7fff_ffff_ffff_ffff,
        ensures
            final(self).id_counter() == old(self).id_counter() + 1,
            final(self).ready() == old(self).ready(),
            !old(self).ready() ==> r matches Err(McpError::NotConnected),
            old(self).ready() ==> (r matches Ok(line) && parsed_json(line@) == Some(
                request_envelope(old(self).id_counter() as i64, "tools/list"@, None),
            )),
    {
        self.request_line("tools/list", None)
    }

    /// Frame a call of the named tool with the given arguments.
    pub fn tool_call_request(&mut self, name: &str, arguments: JsonValue) -> (r: Result<
        String,
        McpError,
    >)
        requires
            old(self).id_counter() < 0x7fff_ffff_ffff_ffff,
            sorted_json(arguments@),
        ensures
            final(self).id_counter() == old(self).id_counter() + 1,
            final(self).ready() == old(self).ready(),
            !old(self).ready() ==> r matches Err(McpError::NotConnected),
            old(self).ready() ==> (r matches Ok(line) && parsed_json(line@) == Some(
                request_envelope(
                    old(self).id_counter() as i64,
                    "tools/call"@,
                    Some(tool_call_params_rep(name@, arguments@)),
                ),
            )),
    {
        let params = tool_call_params_value(name, arguments);
        self.request_line("tools/call", Some(params))
    }
}

impl Default for McpSession {
    /// The same fresh session `new` gives.
    fn default() -> (s: Self)
        ensures
            !s.ready(),
            s.id_counter() == 1,
    {
        McpSession::new()
    }
}

/// The locations probed for the `npx` package runner, in order: the given
/// name itself, the well-known install paths, and the user's home-derived
/// paths.
pub fn npx_candidates(command: &str, home: &str) -> (r: Vec<String>)
    ensures
        r@.len() == 5,
        r@[0]@ == command@,
        r@[1]@ == "/usr/local/bin/npx"@,
        r@[2]@ == "/opt/homebrew/bin/npx"@,
        r@[3]@ == home@ + "/bin/npx"@,
        r@[4]@ == home@ + "/.nvm/versions/node/*/bin/npx"@,
{
    let mut r: Vec<String> = Vec::new();
    r.push(command.to_owned());
    r.push(String::from_str("/usr/local/bin/npx"));
    r.push(String::from_str("/opt/homebrew/bin/npx"));
    r.push(home.to_owned().concat("/bin/npx"));
    r.push(home.to_owned().concat("/.nvm/versions/node/*/bin/npx"));
    r
}

/// The index of the first true flag.
pub open spec fn first_true(s: Seq<bool>) -> Option<int>
    decreases s.len(),
{
    if s.len() == 0 {
        Option::None
    } else if s[0] {
        Option::Some(0int)
    } else {
        match first_true(s.skip(1)) {
            Option::Some(i) => Option::Some(i + 1),
            Option::None => Option::None,
        }
    }
}

proof fn lemma_first_true_at(s: Seq<bool>, i: int)
    requires
        0 <= i < s.len(),
        forall|j: int| 0 <= j < i ==> !s[j],
        s[i],
    ensures
        first_true(s) == Option::Some(i),
    decreases i,
{
    if i > 0 {
        assert forall|j: int| 0 <= j < i - 1 implies !s.skip(1)[j] by {
            assert(s.skip(1)[j] == s[j + 1]);
        }
        assert(s.skip(1)[i - 1] == s[i]);
        lemma_first_true_at(s.skip(1), i - 1);
    }
}

proof fn lemma_first_true_none(s: Seq<bool>)
    requires
        forall|j: int| 0 <= j < s.len() ==> !s[j],
    ensures
        first_true(s) is None,
    decreases s.len(),
{
    if s.len() > 0 {
        assert forall|j: int| 0 <= j < s.skip(1).len() implies !s.skip(1)[j] by {
            assert(s.skip(1)[j] == s[j + 1]);
        }
        lemma_first_true_none(s.skip(1));
    }
}

/// Resolve the command to spawn: the package-runner alias `npx` is replaced
/// by the first probed location that exists, falling back to the literal
/// name; any other command is kept as given. `exists` holds, for each
/// candidate, whether a file is present at that path.
pub fn resolve_command(command: &str, candidates: &Vec<String>, exists: &Vec<bool>) -> (r: String)
    requires
        candidates@.len() == exists@.len(),
    ensures
        command@ != "npx"@ ==> r@ == command@,
        command@ == "npx"@ ==> match first_true(exists@) {
            Option::Some(k) => r@ == candidates@[k]@,
            Option::None => r@ == command@,
        },
{
    if !str_eq(command, "npx") {
        return command.to_owned();
    }
    let n = candidates.len();
    for i in 0..n
        invariant
            command@ == "npx"@,
            n == candidates@.len(),
            n == exists@.len(),
            forall|j: int| 0 <= j < i ==> !exists@[j],
    {
        if exists[i] {
            proof {
                lemma_first_true_at(exists@, i as int);
            }
            return candidates[i].clone();
        }
    }
    proof {
        lemma_first_true_none(exists@);
    }
    command.to_owned()
}

/// The token handed to the spawned process: the cached value wins over the
/// ambient environment's.
pub fn choose_token(cached: Option<String>, ambient: Option<String>) -> (r: Option<String>)
    ensures
        cached is Some ==> r == cached,
        cached is None ==> r == ambient,
{
    match cached {
        Some(t) => Some(t),
        None => ambient,
    }
}

/// The search path used when the caller's environment has none.
pub fn fallback_path() -> (r: String)
    ensures
        r@ == "/usr/local/bin:/opt/homebrew/bin:/usr/bin:/bin"@,
{
    String::from_str("/usr/local/bin:/opt/homebrew/bin:/usr/bin:/bin")
}

} // verus!
