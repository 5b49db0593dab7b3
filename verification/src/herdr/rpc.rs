use vstd::prelude::*;

use crate::consts::{MARKER, METADATA_SOURCE};
use crate::text::{decimal, push_decimal, str_eq};

verus! {

/// A failed exchange with herdr.
#[derive(Debug)]
pub enum HerdrError {
    /// The socket failed.
    Io(std::io::Error),
    /// herdr's reply was not what the protocol promises.
    Protocol(String),
}

impl From<std::io::Error> for HerdrError {
    fn from(e: std::io::Error) -> (r: Self) {
        HerdrError::Io(e)
    }
}

impl vstd::std_specs::convert::FromSpecImpl<std::io::Error> for HerdrError {
    open spec fn obeys_from_spec() -> bool {
        true
    }

    open spec fn from_spec(e: std::io::Error) -> Self {
        HerdrError::Io(e)
    }
}

/// A JSON value as herdr sends it. A number is held as the text serde_json
/// renders for it (`1e2` as `100.0`).
#[derive(Debug)]
pub enum Json {
    Null,
    Bool(bool),
    Number(String),
    Str(String),
    Array(Vec<Json>),
    Object(Vec<(String, Json)>),
}

/// The value under `key` among an object's fields (the first such field).
pub open spec fn lookup(fields: Seq<(String, Json)>, key: Seq<char>) -> Option<Json>
    decreases fields.len(),
{
    if fields.len() == 0 {
        None
    } else if fields[0].0@ == key {
        Some(fields[0].1)
    } else {
        lookup(fields.drop_first(), key)
    }
}

/// The value under `key` when `v` is an object.
pub open spec fn field(v: Json, key: Seq<char>) -> Option<Json> {
    match v {
        Json::Object(fields) => lookup(fields@, key),
        _ => None,
    }
}

/// The text of a JSON string.
pub open spec fn string_of(v: Option<Json>) -> Option<Seq<char>> {
    match v {
        Some(Json::Str(s)) => Some(s@),
        _ => None,
    }
}

/// Looks up `key` in an object; `None` for a missing key or a non-object.
pub fn json_get<'a>(v: &'a Json, key: &str) -> (r: Option<&'a Json>)
    ensures
        match r {
            Some(x) => field(*v, key@) == Some(*x),
            None => field(*v, key@) is None,
        },
{
    match v {
        Json::Object(fields) => {
            let mut i: usize = 0;
            assert(fields@.subrange(0, fields@.len() as int) =~= fields@);
            while i < fields.len()
                invariant
                    field(*v, key@) == lookup(fields@, key@),
                    i <= fields@.len(),
                    lookup(fields@, key@) == lookup(fields@.subrange(i as int, fields@.len() as int), key@),
                decreases fields@.len() - i,
            {
                let ghost rest = fields@.subrange(i as int, fields@.len() as int);
                assert(rest[0] == fields@[i as int]);
                if str_eq(fields[i].0.as_str(), key) {
                    assert(lookup(rest, key@) == Some(rest[0].1));
                    return Some(&fields[i].1);
                }
                assert(rest.drop_first() =~= fields@.subrange(i + 1, fields@.len() as int));
                i = i + 1;
            }
            None
        },
        _ => None,
    }
}

/// The text of the string under `key`; `None` when the key is missing or its
/// value is not a string.
pub fn str_field<'a>(v: &'a Json, key: &str) -> (r: Option<&'a str>)
    ensures
        match r {
            Some(s) => string_of(field(*v, key@)) == Some(s@),
            None => string_of(field(*v, key@)) is None,
        },
{
    match json_get(v, key) {
        Some(Json::Str(s)) => Some(s.as_str()),
        _ => None,
    }
}

/// A pane's monitoring-relevant state, from a `pane.get` reply.
#[derive(Debug, Clone, PartialEq, Eq)]
pub enum PaneState {
    /// The pane does not exist or is unreachable (the reply is an error).
    Gone,
    /// The pane holds no agent (a plain shell, or the agent has exited).
    NoAgent,
    /// The pane holds an agent; carries its `agent_status`.
    Agent(String),
}

/// What a `pane.get` reply says: no `result.pane` means the pane is gone; a
/// non-empty string `agent` means an agent occupies it, whose status is the
/// string `agent_status` (or `unknown`); anything else means no agent.
pub open spec fn reply_state(reply: Json, r: PaneState) -> bool {
    match field(reply, "result"@) {
        Some(res) => match field(res, "pane"@) {
            Some(pane) => match string_of(field(pane, "agent"@)) {
                Some(agent) if agent.len() > 0 => r matches PaneState::Agent(s) && s@ == match string_of(
                    field(pane, "agent_status"@),
                ) {
                    Some(st) => st,
                    None => "unknown"@,
                },
                _ => r is NoAgent,
            },
            None => r is Gone,
        },
        None => r is Gone,
    }
}

/// Reads a `pane.get` reply: whether the pane exists and whether it holds an
/// agent, with the agent's status.
pub fn parse_pane_state(reply: &Json) -> (r: PaneState)
    ensures
        reply_state(*reply, r),
{
    let pane = match json_get(reply, "result") {
        Some(res) => match json_get(res, "pane") {
            Some(p) => p,
            None => return PaneState::Gone,
        },
        None => return PaneState::Gone,
    };
    match str_field(pane, "agent") {
        Some(agent) if agent.unicode_len() > 0 => {
            let status = match str_field(pane, "agent_status") {
                Some(st) => String::from_str(st),
                None => String::from_str("unknown"),
            };
            PaneState::Agent(status)
        },
        _ => PaneState::NoAgent,
    }
}

/// The status the watcher acts on: an agent's status, or `None` for a pane
/// that is gone or holds no agent (which ends the watch).
pub fn pane_status_of(state: PaneState) -> (r: Option<String>)
    ensures
        match state {
            PaneState::Agent(s) => r == Some(s),
            _ => r is None,
        },
{
    match state {
        PaneState::Agent(s) => Some(s),
        _ => None,
    }
}

/// `serde_json::Error`, the error type of serde_json's parser and serialiser.
#[verifier::external_type_specification]
#[verifier::external_body]
pub struct ExJsonError(serde_json::Error);

/// `serde_json::Value`, the parsed JSON that is converted to [`Json`].
#[verifier::external_type_specification]
#[verifier::external_body]
pub struct ExJsonValue(serde_json::Value);

/// The JSON value a text denotes, as `serde_json::from_str` parses it
/// (converted to [`Json`]); `None` when the text is not JSON.
pub uninterp spec fn json_value(text: Seq<char>) -> Option<Json>;

/// `serde_json::Value` as [`Json`], one variant for one variant (a number
/// as the text serde_json renders for it); used by [`parse_json`].
#[verifier::external_body]
fn json_of_value(v: serde_json::Value) -> Json {
    match v {
        serde_json::Value::Null => Json::Null,
        serde_json::Value::Bool(b) => Json::Bool(b),
        serde_json::Value::Number(n) => Json::Number(n.to_string()),
        serde_json::Value::String(s) => Json::Str(s),
        serde_json::Value::Array(a) => Json::Array(a.into_iter().map(json_of_value).collect()),
        serde_json::Value::Object(m) => Json::Object(
            m.into_iter().map(|(k, v)| (k, json_of_value(v))).collect(),
        ),
    }
}

/// `serde_json::from_str::<serde_json::Value>`: parses a JSON text. Its
/// result is named: it depends on the text alone. It fails exactly when the
/// text is not JSON.
#[verifier::external_body]
fn parse_json(text: &str) -> (r: Result<Json, serde_json::Error>)
    ensures
        r is Ok <==> json_value(text@) is Some,
        r is Ok ==> json_value(text@) == Some(r.unwrap()),
{
    serde_json::from_str::<serde_json::Value>(text).map(json_of_value)
}

/// `serde_json::Error`'s `Display`: the parser's message. Nothing is stated
/// of the text.
#[verifier::external_body]
fn json_error_text(e: &serde_json::Error) -> String {
    e.to_string()
}

/// The status a `pane.get` reply reports: the agent's status (or `unknown`)
/// when a non-empty agent occupies the pane, else `None`.
pub open spec fn reply_status(reply: Json) -> Option<Seq<char>> {
    match field(reply, "result"@) {
        Some(res) => match field(res, "pane"@) {
            Some(pane) => match string_of(field(pane, "agent"@)) {
                Some(agent) if agent.len() > 0 => Some(
                    match string_of(field(pane, "agent_status"@)) {
                        Some(st) => st,
                        None => "unknown"@,
                    },
                ),
                _ => None,
            },
            None => None,
        },
        None => None,
    }
}

/// Reads the reply line of a `pane.get` call: an error when it is not JSON,
/// else the agent status it reports (`None` for a pane that is gone or holds
/// no agent).
pub fn pane_status_from_reply(line: &str) -> (r: Result<Option<String>, HerdrError>)
    ensures
        match json_value(line@) {
            Some(v) => r matches Ok(o) && crate::herdr::opt_text(o) == reply_status(v),
            None => r is Err,
        },
{
    match parse_json(line) {
        Ok(v) => {
            let st = parse_pane_state(&v);
            Ok(pane_status_of(st))
        },
        Err(e) => Err(HerdrError::Protocol(json_error_text(&e))),
    }
}

/// Parses the plugin context JSON; `None` when it is not JSON.
pub(crate) fn parse_context(text: &str) -> (r: Option<Json>)
    ensures
        r == json_value(text@),
{
    match parse_json(text) {
        Ok(v) => Some(v),
        Err(_) => None,
    }
}

/// Checks the reply line of a call whose result is not used: an error when it
/// is not JSON.
pub fn check_reply(line: &str) -> (r: Result<(), HerdrError>)
    ensures
        r is Ok <==> json_value(line@) is Some,
{
    match parse_json(line) {
        Ok(_) => Ok(()),
        Err(e) => Err(HerdrError::Protocol(json_error_text(&e))),
    }
}

/// The lower-case hexadecimal digit of a value below 16.
pub open spec fn hex_lower(n: u32) -> char {
    if n < 10 {
        (n + 0x30) as char
    } else {
        (n + 0x57) as char
    }
}

/// How serde_json writes one character inside a JSON string.
pub open spec fn json_escape_char(c: char) -> Seq<char> {
    if c == '"' {
        seq!['\\', '"']
    } else if c == '\\' {
        seq!['\\', '\\']
    } else if c == '\x08' {
        seq!['\\', 'b']
    } else if c == '\x0c' {
        seq!['\\', 'f']
    } else if c == '\n' {
        seq!['\\', 'n']
    } else if c == '\r' {
        seq!['\\', 'r']
    } else if c == '\t' {
        seq!['\\', 't']
    } else if (c as u32) < 0x20 {
        seq!['\\', 'u', '0', '0', hex_lower((c as u32) / 16), hex_lower((c as u32) % 16)]
    } else {
        seq![c]
    }
}

/// The escaped body of a JSON string.
pub open spec fn json_escaped(s: Seq<char>) -> Seq<char>
    decreases s.len(),
{
    if s.len() == 0 {
        Seq::empty()
    } else {
        json_escape_char(s[0]) + json_escaped(s.drop_first())
    }
}

/// A string written as a JSON string literal.
pub open spec fn json_quoted(s: Seq<char>) -> Seq<char> {
    seq!['"'] + json_escaped(s) + seq!['"']
}

/// `serde_json::to_string` on a `&str`: the string in double quotes, with `"`,
/// `\` and the control characters below U+0020 escaped (`\b \f \n \r \t`, the
/// others as `\u00xx` in lower-case hex) and every other character as is.
/// It cannot fail: a `str` serialises into a `Vec<u8>`, whose writes never fail.
#[verifier::external_body]
fn json_quote(s: &str) -> (r: Result<String, serde_json::Error>)
    ensures
        r is Ok,
        r.unwrap()@ == json_quoted(s@),
{
    serde_json::to_string(s)
}

/// Appends `s` as a JSON string literal.
pub(crate) fn push_quoted(out: &mut String, s: &str)
    ensures
        final(out)@ == old(out)@ + json_quoted(s@),
{
    match json_quote(s) {
        Ok(q) => out.append(q.as_str()),
        Err(_) => {},
    }
}

/// The request line for one call: a compact JSON object with the `id`, the
/// `method` and the already-encoded `params`, ended by a newline.
pub open spec fn request_text(id: Seq<char>, method: Seq<char>, params: Seq<char>) -> Seq<char> {
    "{\"id\":"@ + json_quoted(id) + ",\"method\":"@ + json_quoted(method) + ",\"params\":"@
        + params + "}\n"@
}

/// Frames one JSON-RPC request as a single line.
pub fn request_line(id: &str, method: &str, params: &str) -> (line: String)
    ensures
        line@ == request_text(id@, method@, params@),
{
    let mut line = String::from_str("{\"id\":");
    push_quoted(&mut line, id);
    line.append(",\"method\":");
    push_quoted(&mut line, method);
    line.append(",\"params\":");
    line.append(params);
    line.append("}\n");
    line
}

/// The id of the `seq`-th request of a connection.
pub fn request_id(seq: u64) -> (id: String)
    ensures
        id@ == seq!['r'] + decimal(seq as nat),
{
    let mut id = String::from_str("r");
    proof {
        reveal_strlit("r");
    }
    push_decimal(&mut id, seq);
    id
}

/// The params of `pane.get`.
pub open spec fn pane_get_text(pane_id: Seq<char>) -> Seq<char> {
    "{\"pane_id\":"@ + json_quoted(pane_id) + "}"@
}

/// The params of `pane.get` for one pane.
pub fn pane_get_params(pane_id: &str) -> (p: String)
    ensures
        p@ == pane_get_text(pane_id@),
{
    let mut p = String::from_str("{\"pane_id\":");
    push_quoted(&mut p, pane_id);
    p.append("}");
    p
}

/// The params of `pane.report_metadata` that show the marker (keys in sorted
/// order, as serde_json writes an object).
pub open spec fn set_marker_text(pane_id: Seq<char>) -> Seq<char> {
    "{\"custom_status\":"@ + json_quoted(MARKER@) + ",\"pane_id\":"@ + json_quoted(pane_id)
        + ",\"source\":"@ + json_quoted(METADATA_SOURCE@) + "}"@
}

/// The params that show the monitoring marker next to a pane (with no ttl, so
/// it stays until cleared or the pane closes).
pub fn set_marker_params(pane_id: &str) -> (p: String)
    ensures
        p@ == set_marker_text(pane_id@),
{
    let mut p = String::from_str("{\"custom_status\":");
    push_quoted(&mut p, MARKER);
    p.append(",\"pane_id\":");
    push_quoted(&mut p, pane_id);
    p.append(",\"source\":");
    push_quoted(&mut p, METADATA_SOURCE);
    p.append("}");
    p
}

/// The params of `pane.report_metadata` that clear the marker.
pub open spec fn clear_marker_text(pane_id: Seq<char>) -> Seq<char> {
    "{\"clear_custom_status\":true,\"pane_id\":"@ + json_quoted(pane_id) + ",\"source\":"@
        + json_quoted(METADATA_SOURCE@) + "}"@
}

/// The params that remove the monitoring marker of a pane.
pub fn clear_marker_params(pane_id: &str) -> (p: String)
    ensures
        p@ == clear_marker_text(pane_id@),
{
    let mut p = String::from_str("{\"clear_custom_status\":true,\"pane_id\":");
    push_quoted(&mut p, pane_id);
    p.append(",\"source\":");
    push_quoted(&mut p, METADATA_SOURCE);
    p.append("}");
    p
}

/// The params of `notification.show`.
pub open spec fn notify_text(title: Seq<char>, body: Seq<char>) -> Seq<char> {
    "{\"body\":"@ + json_quoted(body) + ",\"title\":"@ + json_quoted(title) + "}"@
}

/// The params of a herdr notification.
pub fn notify_params(title: &str, body: &str) -> (p: String)
    ensures
        p@ == notify_text(title@, body@),
{
    let mut p = String::from_str("{\"body\":");
    push_quoted(&mut p, body);
    p.append(",\"title\":");
    push_quoted(&mut p, title);
    p.append("}");
    p
}

/// What a status read reported: the status text, or `None` when the pane is
/// gone, holds no agent, or the read failed.
pub open spec fn status_read(r: Result<Option<String>, HerdrError>) -> Option<Seq<char>> {
    match r {
        Ok(Some(s)) => Some(s@),
        _ => None,
    }
}

/// The herdr calls the watcher makes. The ghost histories `statuses`,
/// `markers` and `notices` record, oldest first, what each call asked (for
/// which pane) and was told; each method's contract says how they grow.
pub trait Rpc {
    /// The status reads made so far: the pane asked about, and what was read.
    closed spec fn statuses(&self) -> Seq<(Seq<char>, Option<Seq<char>>)> {
        Seq::empty()
    }

    /// The marker requests made so far: the pane, and `true` to show its
    /// marker, `false` to remove it.
    closed spec fn markers(&self) -> Seq<(Seq<char>, bool)> {
        Seq::empty()
    }

    /// The notifications sent so far, as (title, body).
    closed spec fn notices(&self) -> Seq<(Seq<char>, Seq<char>)> {
        Seq::empty()
    }

    /// The pane's agent status, or `None` when the pane is gone or holds no
    /// agent.
    fn pane_status(&mut self, pane_id: &str) -> (r: Result<Option<String>, HerdrError>)
        ensures
            final(self).statuses() == old(self).statuses().push((pane_id@, status_read(r))),
            final(self).markers() == old(self).markers(),
            final(self).notices() == old(self).notices(),
    ;

    /// Asks herdr to show the monitoring marker next to the pane.
    fn set_marker(&mut self, pane_id: &str) -> (r: Result<(), HerdrError>)
        ensures
            final(self).markers() == old(self).markers().push((pane_id@, true)),
            final(self).statuses() == old(self).statuses(),
            final(self).notices() == old(self).notices(),
    ;

    /// Asks herdr to remove the monitoring marker.
    fn clear_marker(&mut self, pane_id: &str) -> (r: Result<(), HerdrError>)
        ensures
            final(self).markers() == old(self).markers().push((pane_id@, false)),
            final(self).statuses() == old(self).statuses(),
            final(self).notices() == old(self).notices(),
    ;

    /// Shows a herdr notification.
    fn notify(&mut self, title: &str, body: &str) -> (r: Result<(), HerdrError>)
        ensures
            final(self).notices() == old(self).notices().push((title@, body@)),
            final(self).statuses() == old(self).statuses(),
            final(self).markers() == old(self).markers(),
    ;
}

/// The text holds no line break.
pub open spec fn single_line(s: Seq<char>) -> bool {
    forall|i: int| 0 <= i < s.len() ==> s[i] != '\n'
}

proof fn lemma_escaped_single_line(s: Seq<char>)
    ensures
        single_line(json_escaped(s)),
    decreases s.len(),
{
    if s.len() > 0 {
        lemma_escaped_single_line(s.drop_first());
        let c = s[0];
        let e = json_escape_char(c);
        if (c as u32) < 0x20 {
            let n = c as u32;
            assert(hex_lower(n / 16) != '\n');
            assert(hex_lower(n % 16) != '\n');
        }
        assert(single_line(e));
        assert forall|i: int| 0 <= i < json_escaped(s).len() implies json_escaped(s)[i] != '\n' by {
            if i < e.len() {
                assert(json_escaped(s)[i] == e[i]);
            } else {
                assert(json_escaped(s)[i] == json_escaped(s.drop_first())[i - e.len()]);
            }
        }
    }
}

/// Every request is exactly one line: the only line break is the final one,
/// whatever the id and method hold, as long as the encoded params hold none.
pub proof fn lemma_request_is_one_line(id: Seq<char>, method: Seq<char>, params: Seq<char>)
    requires
        single_line(params),
    ensures
        request_text(id, method, params).last() == '\n',
        single_line(request_text(id, method, params).drop_last()),
{
    reveal_strlit("{\"id\":");
    reveal_strlit(",\"method\":");
    reveal_strlit(",\"params\":");
    reveal_strlit("}\n");
    lemma_escaped_single_line(id);
    lemma_escaped_single_line(method);
    let q1 = json_quoted(id);
    let q2 = json_quoted(method);
    let body = "{\"id\":"@ + q1 + ",\"method\":"@ + q2 + ",\"params\":"@ + params + "}"@;
    reveal_strlit("}");
    assert(single_line(q1));
    assert(single_line(q2));
    assert(request_text(id, method, params) =~= body.push('\n'));
    assert(request_text(id, method, params).drop_last() =~= body);
    assert(single_line(body));
}

/// The client side of herdr's API socket: where it is, and how many requests
/// have been made. herdr serves one request per connection, so each request
/// opens a fresh one.
pub struct SocketRpc {
    path: String,
    seq: u64,
}

impl SocketRpc {
    /// The socket's path.
    pub closed spec fn spec_path(&self) -> Seq<char> {
        self.path@
    }

    /// The number of requests made so far (modulo 2^64).
    pub closed spec fn spec_seq(&self) -> u64 {
        self.seq
    }

    /// A client of the socket at `path` that has made no request yet.
    pub fn new(path: &str) -> (r: Self)
        ensures
            r.spec_path() == path@,
            r.spec_seq() == 0,
    {
        SocketRpc { path: String::from_str(path), seq: 0 }
    }

    /// The socket's path.
    pub fn path(&self) -> (p: &str)
        ensures
            p@ == self.spec_path(),
    {
        self.path.as_str()
    }

    /// The line of the next request: the next sequence number becomes its id
    /// (`r1`, `r2`, ...).
    pub fn next_request(&mut self, method: &str, params: &str) -> (line: String)
        ensures
            final(self).spec_path() == old(self).spec_path(),
            final(self).spec_seq() == old(self).spec_seq().wrapping_add(1),
            line@ == request_text(
                seq!['r'] + decimal(final(self).spec_seq() as nat),
                method@,
                params@,
            ),
    {
        self.seq = self.seq.wrapping_add(1);
        let id = request_id(self.seq);
        request_line(id.as_str(), method, params)
    }
}

/// Whatever its status, an agent in the pane is reported: when the reply's
/// `result.pane` has a non-empty string `agent`, the status read is its
/// `agent_status` string (`idle`, `done` and any other included), or
/// `unknown` when that is missing or not a string.
pub proof fn lemma_agent_pane_reports_status(reply: Json, res: Json, pane: Json, agent: Seq<char>)
    requires
        field(reply, "result"@) == Some(res),
        field(res, "pane"@) == Some(pane),
        field(pane, "agent"@) matches Some(Json::Str(a)) && a@ == agent,
        agent.len() > 0,
    ensures
        reply_status(reply) is Some,
        field(pane, "agent_status"@) matches Some(Json::Str(st)) ==> reply_status(reply) == Some(
            st@,
        ),
        !(field(pane, "agent_status"@) matches Some(Json::Str(_))) ==> reply_status(reply)
            == Some("unknown"@),
{
}

/// The status read agrees with the pane's state: it is the agent's status
/// exactly when the reply shows an agent, and nothing for a pane that is gone
/// or holds no agent.
pub proof fn lemma_status_agrees_with_state(reply: Json, r: PaneState)
    requires
        reply_state(reply, r),
    ensures
        reply_status(reply) == match r {
            PaneState::Agent(s) => Some(s@),
            _ => None,
        },
{
}

} // verus!
