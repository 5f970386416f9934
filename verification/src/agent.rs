//! The agent harness seam: reading opencode's server-sent event stream.
//!
//! Frames arrive as byte chunks; a frame ends at a blank line. Each frame's first
//! non-empty `data:` line carries a JSON event, which maps to an `SseEvent` and from there
//! to the `AgentEvent`s the frontend polls. `SseRun` holds the stream's state between
//! chunks; the caller performs the HTTP work it asks for.
use vstd::prelude::*;
use vstd::string::*;
use crate::json::{json_items_at, json_str_at, json_text_at, str_at, text_at, items_at};
use crate::text::{
    decode_lossy, lines_of, opt_view, owned, split_lines, starts_with, trim, trimmed, truncate,
    truncated, utf8_lossy, views,
};
use crate::error::{AppError, is_engine_error};
use crate::types::{AgentEvent, AgentEventView, agent_views};

verus! {

// ------------------------------------------------------------------------------------
// Frame boundaries
// ------------------------------------------------------------------------------------
/// The first `i >= from` with `buf[i..i + 2] == "\n\n"`.
pub open spec fn find_lf_lf(buf: Seq<u8>, from: int) -> Option<int>
    decreases buf.len() - from,
{
    if from < 0 || from + 1 >= buf.len() {
        None
    } else if buf[from] == 10 && buf[from + 1] == 10 {
        Some(from)
    } else {
        find_lf_lf(buf, from + 1)
    }
}

/// The first `i >= from` with `buf[i..i + 4] == "\r\n\r\n"`.
pub open spec fn find_crlf_crlf(buf: Seq<u8>, from: int) -> Option<int>
    decreases buf.len() - from,
{
    if from < 0 || from + 3 >= buf.len() {
        None
    } else if buf[from] == 13 && buf[from + 1] == 10 && buf[from + 2] == 13 && buf[from + 3]
        == 10 {
        Some(from)
    } else {
        find_crlf_crlf(buf, from + 1)
    }
}

/// The index of the last byte of the first complete frame: the end of the earliest frame
/// terminator, `"\n\n"` or `"\r\n\r\n"`, whichever completes first.
pub open spec fn frame_end(buf: Seq<u8>) -> Option<int> {
    match (find_lf_lf(buf, 0), find_crlf_crlf(buf, 0)) {
        (Some(i), Some(j)) => if i + 1 <= j + 3 {
            Some(i + 1)
        } else {
            Some(j + 3)
        },
        (Some(i), None) => Some(i + 1),
        (None, Some(j)) => Some(j + 3),
        (None, None) => None,
    }
}

pub proof fn lemma_find_lf_lf(buf: Seq<u8>, from: int)
    requires
        from >= 0,
    ensures
        find_lf_lf(buf, from) matches Some(i) ==> from <= i && i + 1 < buf.len(),
    decreases buf.len() - from,
{
    if from + 1 < buf.len() && !(buf[from] == 10 && buf[from + 1] == 10) {
        lemma_find_lf_lf(buf, from + 1);
    }
}

pub proof fn lemma_find_crlf_crlf(buf: Seq<u8>, from: int)
    requires
        from >= 0,
    ensures
        find_crlf_crlf(buf, from) matches Some(i) ==> from <= i && i + 3 < buf.len(),
    decreases buf.len() - from,
{
    if from + 3 < buf.len() && !(buf[from] == 13 && buf[from + 1] == 10 && buf[from + 2] == 13
        && buf[from + 3] == 10) {
        lemma_find_crlf_crlf(buf, from + 1);
    }
}

/// A frame end lies inside the buffer.
pub proof fn lemma_frame_end_bounds(buf: Seq<u8>)
    ensures
        frame_end(buf) matches Some(e) ==> 0 < e < buf.len(),
{
    lemma_find_lf_lf(buf, 0);
    lemma_find_crlf_crlf(buf, 0);
}

/// The start of the first `"\n\n"` in `buf`.
fn first_lf_lf(buf: &[u8]) -> (r: Option<usize>)
    ensures
        match r {
            Some(i) => find_lf_lf(buf@, 0) == Some(i as int),
            None => find_lf_lf(buf@, 0) is None,
        },
{
    let n = buf.len();
    let mut i: usize = 0;
    while n - i >= 2
        invariant
            n == buf@.len(),
            i <= n,
            find_lf_lf(buf@, 0) == find_lf_lf(buf@, i as int),
        decreases n - i,
    {
        if buf[i] == 10 && buf[i + 1] == 10 {
            return Some(i);
        }
        i = i + 1;
    }
    None
}

/// The start of the first `"\r\n\r\n"` in `buf`.
fn first_crlf_crlf(buf: &[u8]) -> (r: Option<usize>)
    ensures
        match r {
            Some(j) => find_crlf_crlf(buf@, 0) == Some(j as int),
            None => find_crlf_crlf(buf@, 0) is None,
        },
{
    let n = buf.len();
    let mut j: usize = 0;
    while n - j >= 4
        invariant
            n == buf@.len(),
            j <= n,
            find_crlf_crlf(buf@, 0) == find_crlf_crlf(buf@, j as int),
        decreases n - j,
    {
        if buf[j] == 13 && buf[j + 1] == 10 && buf[j + 2] == 13 && buf[j + 3] == 10 {
            return Some(j);
        }
        j = j + 1;
    }
    None
}

/// Where the first complete SSE frame in `buf` ends (its last byte): at the earliest
/// blank line, whether written `"\n\n"` or `"\r\n\r\n"`.
pub fn find_double_newline(buf: &[u8]) -> (r: Option<usize>)
    ensures
        match r {
            Some(e) => frame_end(buf@) == Some(e as int),
            None => frame_end(buf@) is None,
        },
{
    proof {
        lemma_find_lf_lf(buf@, 0);
        lemma_find_crlf_crlf(buf@, 0);
    }
    let n = buf.len();
    let lf = first_lf_lf(buf);
    let crlf = first_crlf_crlf(buf);
    match lf {
        Some(i) => match crlf {
            Some(j) => {
                assert(i + 1 < n && j + 3 < n);
                if i <= j + 2 {
                    Some(i + 1)
                } else {
                    Some(j + 3)
                }
            },
            None => {
                assert(i + 1 < n);
                Some(i + 1)
            },
        },
        None => match crlf {
            Some(j) => Some(j + 3),
            None => None,
        },
    }
}

// ------------------------------------------------------------------------------------
// Frame payload
// ------------------------------------------------------------------------------------
/// The payload of the first `data:` line of a frame whose trimmed payload is non-empty.
pub open spec fn first_data(lines: Seq<Seq<char>>) -> Option<Seq<char>>
    decreases lines.len(),
{
    if lines.len() == 0 {
        None
    } else {
        let l = lines[0];
        if l.len() >= 5 && l.take(5) == "data:"@ && trimmed(l.skip(5)).len() > 0 {
            Some(trimmed(l.skip(5)))
        } else {
            first_data(lines.drop_first())
        }
    }
}

/// The JSON text of a frame: its first non-empty `data:` payload, trimmed.
pub open spec fn frame_data(frame: Seq<char>) -> Option<Seq<char>> {
    first_data(lines_of(frame))
}

/// Pull the first non-empty `data:` payload out of an SSE frame.
pub fn parse_sse_frame(frame: &str) -> (r: Option<String>)
    ensures
        opt_view(r) == frame_data(frame@),
{
    let lines = split_lines(frame);
    let ghost ls = lines@.map_values(|s: String| s@);
    proof {
        reveal_strlit("data:");
    }
    assert("data:"@.len() == 5);
    let mut i: usize = 0;
    assert(ls.skip(0) =~= ls);
    while i < lines.len()
        invariant
            i <= lines@.len(),
            ls == lines@.map_values(|s: String| s@),
            ls == lines_of(frame@),
            first_data(ls) == first_data(ls.skip(i as int)),
        decreases lines@.len() - i,
    {
        proof {
            reveal_strlit("data:");
        }
        let line = lines[i].as_str();
        assert(ls.skip(i as int)[0] == line@);
        assert(ls.skip(i as int).drop_first() =~= ls.skip(i + 1));
        if starts_with(line, "data:") {
            let payload = trim(line.substring_char(5, line.unicode_len()));
            assert(line@.skip(5) =~= line@.subrange(5, line@.len() as int));
            assert(line@.take(5) =~= line@.subrange(0, 5));
            if payload.unicode_len() > 0 {
                return Some(payload);
            }
        } else {
            assert(line@.take(5) =~= line@.subrange(0, 5));
        }
        i = i + 1;
    }
    None
}

// ------------------------------------------------------------------------------------
// Events
// ------------------------------------------------------------------------------------
/// A bus event of the opencode server, mapped to what the run reacts to.
#[derive(Debug, PartialEq, Eq)]
pub enum SseEvent {
    Delta(String),
    Permission(String, String, Vec<String>),
    ToolCall(String, String, String),
    ToolResult(String, String, bool),
    Idle,
    Error(String),
    Busy,
    Other,
}

/// The abstract value of an `SseEvent`.
pub enum SseEventView {
    Delta(Seq<char>),
    Permission(Seq<char>, Seq<char>, Seq<Seq<char>>),
    ToolCall(Seq<char>, Seq<char>, Seq<char>),
    ToolResult(Seq<char>, Seq<char>, bool),
    Idle,
    Error(Seq<char>),
    Busy,
    Other,
}

impl View for SseEvent {
    type V = SseEventView;

    open spec fn view(&self) -> SseEventView {
        match self {
            SseEvent::Delta(t) => SseEventView::Delta(t@),
            SseEvent::Permission(id, p, pats) => SseEventView::Permission(
                id@,
                p@,
                pats@.map_values(|s: String| s@),
            ),
            SseEvent::ToolCall(c, t, i) => SseEventView::ToolCall(c@, t@, i@),
            SseEvent::ToolResult(c, t, ok) => SseEventView::ToolResult(c@, t@, *ok),
            SseEvent::Idle => SseEventView::Idle,
            SseEvent::Error(m) => SseEventView::Error(m@),
            SseEvent::Busy => SseEventView::Busy,
            SseEvent::Other => SseEventView::Other,
        }
    }
}

/// The string, or the empty string.
pub open spec fn or_empty(o: Option<Seq<char>>) -> Seq<char> {
    match o {
        Some(s) => s,
        None => Seq::empty(),
    }
}

/// The string elements of an array (other elements are skipped).
pub open spec fn str_items(items: Seq<Seq<char>>) -> Seq<Seq<char>>
    decreases items.len(),
{
    if items.len() == 0 {
        seq![]
    } else {
        let rest = str_items(items.drop_last());
        match json_str_at(items.last(), ""@) {
            Some(s) => rest.push(s),
            None => rest,
        }
    }
}

/// The pointer to `member` of the document, or the document itself when it has none.
pub open spec fn member_or_root(t: Seq<char>, member: Seq<char>) -> Seq<char> {
    if json_text_at(t, member) is Some {
        member
    } else {
        ""@
    }
}

/// What decides a bus event's meaning, as read from its JSON. `P` below is the pointer
/// `/properties` when the event has that member, else the event itself (`""`); `Q` is
/// `/properties/part` in the same way.
pub struct SseFields {
    /// `/type`.
    pub kind: Option<String>,
    /// `/properties/delta`.
    pub delta: Option<String>,
    /// `/properties/status/type`.
    pub status: Option<String>,
    /// `/properties/message`.
    pub message: Option<String>,
    /// `P/id`.
    pub id: Option<String>,
    /// `P/permission`.
    pub permission: Option<String>,
    /// The string elements of the array `P/patterns` (none when it is absent).
    pub patterns: Vec<String>,
    /// `Q/type`.
    pub part_type: Option<String>,
    /// `Q/tool`.
    pub tool: Option<String>,
    /// `Q/callID`.
    pub call_id: Option<String>,
    /// `Q/state/status`.
    pub part_status: Option<String>,
    /// The JSON text of `Q/state/input`.
    pub input: Option<String>,
}

pub struct SseFieldsView {
    pub kind: Option<Seq<char>>,
    pub delta: Option<Seq<char>>,
    pub status: Option<Seq<char>>,
    pub message: Option<Seq<char>>,
    pub id: Option<Seq<char>>,
    pub permission: Option<Seq<char>>,
    pub patterns: Seq<Seq<char>>,
    pub part_type: Option<Seq<char>>,
    pub tool: Option<Seq<char>>,
    pub call_id: Option<Seq<char>>,
    pub part_status: Option<Seq<char>>,
    pub input: Option<Seq<char>>,
}

impl View for SseFields {
    type V = SseFieldsView;

    open spec fn view(&self) -> SseFieldsView {
        SseFieldsView {
            kind: opt_view(self.kind),
            delta: opt_view(self.delta),
            status: opt_view(self.status),
            message: opt_view(self.message),
            id: opt_view(self.id),
            permission: opt_view(self.permission),
            patterns: views(self.patterns@),
            part_type: opt_view(self.part_type),
            tool: opt_view(self.tool),
            call_id: opt_view(self.call_id),
            part_status: opt_view(self.part_status),
            input: opt_view(self.input),
        }
    }
}

/// The fields of the JSON event `t`.
pub open spec fn event_fields(t: Seq<char>) -> SseFieldsView {
    let p = member_or_root(t, "/properties"@);
    let q = member_or_root(t, "/properties/part"@);
    SseFieldsView {
        kind: json_str_at(t, "/type"@),
        delta: json_str_at(t, "/properties/delta"@),
        status: json_str_at(t, "/properties/status/type"@),
        message: json_str_at(t, "/properties/message"@),
        id: json_str_at(t, p + "/id"@),
        permission: json_str_at(t, p + "/permission"@),
        patterns: match json_items_at(t, p + "/patterns"@) {
            Some(items) => str_items(items),
            None => seq![],
        },
        part_type: json_str_at(t, q + "/type"@),
        tool: json_str_at(t, q + "/tool"@),
        call_id: json_str_at(t, q + "/callID"@),
        part_status: json_str_at(t, q + "/state/status"@),
        input: json_text_at(t, q + "/state/input"@),
    }
}

/// What a `message.part.updated` event means: tool progress (a call with its input cut
/// to 200 characters, or a result), or nothing.
pub open spec fn tool_part_meaning(f: SseFieldsView) -> SseEventView {
    if f.part_type == Some("tool"@) {
        let tool = or_empty(f.tool);
        let call_id = or_empty(f.call_id);
        let status = or_empty(f.part_status);
        if status == "running"@ {
            SseEventView::ToolCall(
                call_id,
                tool,
                match f.input {
                    Some(input) => truncated(input, 200),
                    None => Seq::empty(),
                },
            )
        } else if status == "completed"@ {
            SseEventView::ToolResult(call_id, tool, true)
        } else if status == "error"@ {
            SseEventView::ToolResult(call_id, tool, false)
        } else {
            SseEventView::Other
        }
    } else {
        SseEventView::Other
    }
}

/// The typed meaning of a bus event with these fields.
pub open spec fn event_meaning(f: SseFieldsView) -> SseEventView {
    if f.kind == Some("message.part.delta"@) {
        SseEventView::Delta(or_empty(f.delta))
    } else if f.kind == Some("permission.asked"@) {
        SseEventView::Permission(or_empty(f.id), or_empty(f.permission), f.patterns)
    } else if f.kind == Some("session.status"@) {
        let status = or_empty(f.status);
        if status == "idle"@ {
            SseEventView::Idle
        } else if status == "error"@ {
            SseEventView::Error("agent run failed"@)
        } else {
            SseEventView::Busy
        }
    } else if f.kind == Some("message.part.updated"@) {
        tool_part_meaning(f)
    } else if f.kind == Some("error"@) {
        SseEventView::Error(
            match f.message {
                Some(m) => m,
                None => "agent error"@,
            },
        )
    } else {
        SseEventView::Other
    }
}

/// The typed meaning of the JSON event `t` from the bus.
pub open spec fn sse_event_of(t: Seq<char>) -> SseEventView {
    event_meaning(event_fields(t))
}

/// Whether an optional string holds exactly `lit`.
fn holds(o: &Option<String>, lit: &str) -> (b: bool)
    ensures
        b == (opt_view(*o) == Some(lit@)),
{
    match o {
        Some(s) => *s == owned(lit),
        None => false,
    }
}

/// The string, or the empty string.
fn unwrap_or_empty(o: Option<String>) -> (r: String)
    ensures
        r@ == or_empty(opt_view(o)),
{
    match o {
        Some(s) => s,
        None => String::new(),
    }
}

/// `text` followed by `suffix`.
fn join(text: &str, suffix: &str) -> (r: String)
    ensures
        r@ == text@ + suffix@,
{
    owned(text).concat(suffix)
}

fn member_or_root_exec(t: &str, member: &str) -> (r: String)
    ensures
        r@ == member_or_root(t@, member@),
{
    proof {
        reveal_strlit("");
    }
    if text_at(t, member).is_some() {
        owned(member)
    } else {
        String::new()
    }
}

fn str_items_exec(items: &Vec<String>) -> (r: Vec<String>)
    ensures
        r@.map_values(|s: String| s@) == str_items(items@.map_values(|s: String| s@)),
{
    let ghost iv = items@.map_values(|s: String| s@);
    let mut out: Vec<String> = Vec::new();
    let mut i: usize = 0;
    while i < items.len()
        invariant
            i <= items@.len(),
            iv == items@.map_values(|s: String| s@),
            out@.map_values(|s: String| s@) == str_items(iv.take(i as int)),
        decreases items@.len() - i,
    {
        let ghost before = out@;
        assert(iv.take(i + 1).drop_last() =~= iv.take(i as int));
        assert(iv.take(i + 1).last() == items@[i as int]@);
        match str_at(items[i].as_str(), "") {
            Some(s) => {
                out.push(s);
                assert(out@.map_values(|s: String| s@) =~= before.map_values(|s: String| s@).push(
                    s@,
                ));
            },
            None => {},
        }
        i = i + 1;
    }
    assert(iv.take(items@.len() as int) =~= iv);
    out
}

/// Read the fields of the JSON event `json` that its kind makes relevant (the others are
/// left empty): they mean what all of its fields mean.
fn read_event_fields(json: &str) -> (f: SseFields)
    ensures
        event_meaning(f@) == sse_event_of(json@),
        f@.kind == json_str_at(json@, "/type"@),
{
    let kind = str_at(json, "/type");
    let mut f = SseFields {
        kind: None,
        delta: None,
        status: None,
        message: None,
        id: None,
        permission: None,
        patterns: Vec::new(),
        part_type: None,
        tool: None,
        call_id: None,
        part_status: None,
        input: None,
    };
    if holds(&kind, "message.part.delta") {
        f.delta = str_at(json, "/properties/delta");
    } else if holds(&kind, "permission.asked") {
        let p = member_or_root_exec(json, "/properties");
        f.id = str_at(json, join(p.as_str(), "/id").as_str());
        f.permission = str_at(json, join(p.as_str(), "/permission").as_str());
        match items_at(json, join(p.as_str(), "/patterns").as_str()) {
            Some(items) => {
                f.patterns = str_items_exec(&items);
            },
            None => {
                assert(views(f.patterns@) =~= seq![]);
            },
        }
    } else if holds(&kind, "session.status") {
        f.status = str_at(json, "/properties/status/type");
    } else if holds(&kind, "message.part.updated") {
        let q = member_or_root_exec(json, "/properties/part");
        f.part_type = str_at(json, join(q.as_str(), "/type").as_str());
        f.tool = str_at(json, join(q.as_str(), "/tool").as_str());
        f.call_id = str_at(json, join(q.as_str(), "/callID").as_str());
        f.part_status = str_at(json, join(q.as_str(), "/state/status").as_str());
        f.input = text_at(json, join(q.as_str(), "/state/input").as_str());
    } else if holds(&kind, "error") {
        f.message = str_at(json, "/properties/message");
    }
    f.kind = kind;
    f
}

/// The typed signal of a bus event with these fields.
pub fn sse_event_from(f: SseFields) -> (e: SseEvent)
    ensures
        e@ == event_meaning(f@),
{
    let kind = f.kind;
    if holds(&kind, "message.part.delta") {
        SseEvent::Delta(unwrap_or_empty(f.delta))
    } else if holds(&kind, "permission.asked") {
        SseEvent::Permission(unwrap_or_empty(f.id), unwrap_or_empty(f.permission), f.patterns)
    } else if holds(&kind, "session.status") {
        let status = Some(unwrap_or_empty(f.status));
        if holds(&status, "idle") {
            SseEvent::Idle
        } else if holds(&status, "error") {
            SseEvent::Error(owned("agent run failed"))
        } else {
            SseEvent::Busy
        }
    } else if holds(&kind, "message.part.updated") {
        if holds(&f.part_type, "tool") {
            let tool = unwrap_or_empty(f.tool);
            let call_id = unwrap_or_empty(f.call_id);
            let status = Some(unwrap_or_empty(f.part_status));
            if holds(&status, "running") {
                let summary = match f.input {
                    Some(input) => truncate(input.as_str(), 200),
                    None => String::new(),
                };
                SseEvent::ToolCall(call_id, tool, summary)
            } else if holds(&status, "completed") {
                SseEvent::ToolResult(call_id, tool, true)
            } else if holds(&status, "error") {
                SseEvent::ToolResult(call_id, tool, false)
            } else {
                SseEvent::Other
            }
        } else {
            SseEvent::Other
        }
    } else if holds(&kind, "error") {
        match f.message {
            Some(m) => SseEvent::Error(m),
            None => SseEvent::Error(owned("agent error")),
        }
    } else {
        SseEvent::Other
    }
}

/// Map a JSON bus event to a typed signal.
pub fn parse_sse_event(json: &str) -> (e: SseEvent)
    ensures
        e@ == sse_event_of(json@),
{
    sse_event_from(read_event_fields(json))
}

/// The spawn-time assertion on the permission net: the effective `permission` config
/// (JSON text) answers `"ask"` for `"*"`.
pub open spec fn has_ask(permission: Seq<char>) -> bool {
    json_str_at(permission, "/*"@) == Some("ask"@)
}

/// Refuse agent mode unless `"*": "ask"` is in force in the effective permission config.
pub fn config_has_ask(permission: &str) -> (b: bool)
    ensures
        b == has_ask(permission@),
{
    holds(&str_at(permission, "/*"), "ask")
}

/// The refusal when the permission net is not in force.
pub open spec fn net_refused() -> Seq<char> {
    "permission net not in force \u{2014} agent refused (fail-closed)"@
}

/// The spawn-time gate, fail-closed: a run goes ahead only when the effective permission
/// config (JSON text) answers `"ask"` for `"*"`; otherwise it is refused.
pub fn check_permission_net(permission: &str) -> (r: Result<(), AppError>)
    ensures
        has_ask(permission@) ==> r is Ok,
        !has_ask(permission@) ==> r is Err && is_engine_error(r->Err_0, net_refused()),
{
    if config_has_ask(permission) {
        Ok(())
    } else {
        Err(AppError::Engine(owned("permission net not in force \u{2014} agent refused (fail-closed)")))
    }
}

// ------------------------------------------------------------------------------------
// The final reply
// ------------------------------------------------------------------------------------
/// The text of one message part: its `text`, when it is a text part.
pub open spec fn part_text(part: Seq<char>) -> Seq<char> {
    if json_str_at(part, "/type"@) == Some("text"@) {
        or_empty(json_str_at(part, "/text"@))
    } else {
        Seq::empty()
    }
}

pub open spec fn parts_text(parts: Seq<Seq<char>>) -> Seq<char>
    decreases parts.len(),
{
    if parts.len() == 0 {
        seq![]
    } else {
        parts_text(parts.drop_last()) + part_text(parts.last())
    }
}

/// All text parts of one message, concatenated.
pub open spec fn message_text(message: Seq<char>) -> Seq<char> {
    match json_items_at(message, "/parts"@) {
        Some(parts) => parts_text(parts),
        None => seq![],
    }
}

pub open spec fn messages_text(messages: Seq<Seq<char>>) -> Seq<char>
    decreases messages.len(),
{
    if messages.len() == 0 {
        seq![]
    } else {
        messages_text(messages.drop_last()) + message_text(messages.last())
    }
}

/// The text of all text parts across a session's messages (a JSON array), or `None` when
/// the body is not a JSON array.
pub open spec fn assistant_text(body: Seq<char>) -> Option<Seq<char>> {
    match json_items_at(body, ""@) {
        Some(messages) => Some(messages_text(messages)),
        None => None,
    }
}

fn message_text_exec(message: &str) -> (r: String)
    ensures
        r@ == message_text(message@),
{
    let mut out = String::new();
    match items_at(message, "/parts") {
        Some(parts) => {
            let ghost pv = parts@.map_values(|s: String| s@);
            let mut i: usize = 0;
            while i < parts.len()
                invariant
                    i <= parts@.len(),
                    pv == parts@.map_values(|s: String| s@),
                    out@ == parts_text(pv.take(i as int)),
                decreases parts@.len() - i,
            {
                let part = parts[i].as_str();
                assert(pv.take(i + 1).drop_last() =~= pv.take(i as int));
                assert(pv.take(i + 1).last() == part@);
                if holds(&str_at(part, "/type"), "text") {
                    let t = unwrap_or_empty(str_at(part, "/text"));
                    out.append(t.as_str());
                } else {
                    assert(out@ + Seq::<char>::empty() =~= out@);
                }
                i = i + 1;
            }
            assert(pv.take(parts@.len() as int) =~= pv);
        },
        None => {},
    }
    out
}

/// Concatenate all text parts of the session's messages (JSON text of an array);
/// `None` when the body is not a JSON array.
pub fn extract_assistant_text(body: &str) -> (r: Option<String>)
    ensures
        opt_view(r) == assistant_text(body@),
{
    proof {
        reveal_strlit("");
    }
    match items_at(body, "") {
        Some(messages) => {
            let ghost mv = messages@.map_values(|s: String| s@);
            let mut out = String::new();
            let mut i: usize = 0;
            while i < messages.len()
                invariant
                    i <= messages@.len(),
                    mv == messages@.map_values(|s: String| s@),
                    out@ == messages_text(mv.take(i as int)),
                decreases messages@.len() - i,
            {
                assert(mv.take(i + 1).drop_last() =~= mv.take(i as int));
                assert(mv.take(i + 1).last() == messages@[i as int]@);
                let t = message_text_exec(messages[i].as_str());
                out.append(t.as_str());
                i = i + 1;
            }
            assert(mv.take(messages@.len() as int) =~= mv);
            Some(out)
        },
        None => None,
    }
}

// ------------------------------------------------------------------------------------
// The run
// ------------------------------------------------------------------------------------
/// Why the stream stops being read.
#[derive(Debug, PartialEq, Eq)]
pub enum SseStop {
    /// The session went idle: fetch the final text and finish with `Done`.
    Idle,
    /// The run failed with this message (an `Error` event, when the server sent one,
    /// is already among the events).
    Failed(String),
}

pub enum SseStopView {
    Idle,
    Failed(Seq<char>),
}

impl View for SseStop {
    type V = SseStopView;

    open spec fn view(&self) -> SseStopView {
        match self {
            SseStop::Idle => SseStopView::Idle,
            SseStop::Failed(m) => SseStopView::Failed(m@),
        }
    }
}

pub open spec fn stop_view(s: Option<SseStop>) -> Option<SseStopView> {
    match s {
        Some(x) => Some(x@),
        None => None,
    }
}

/// What one chunk (or the end of the stream) produced: events to emit, in order, and
/// whether to stop.
pub struct SseFeed {
    pub events: Vec<AgentEvent>,
    pub stop: Option<SseStop>,
}

/// The message of a stream that ended before the session went idle.
pub open spec fn connection_lost() -> Seq<char> {
    "agent connection lost \u{2014} run aborted"@
}

/// The pattern a permission banner shows: the first one asked for, or none.
pub open spec fn first_pattern(patterns: Seq<Seq<char>>) -> Seq<char> {
    if patterns.len() > 0 {
        patterns[0]
    } else {
        seq![]
    }
}

/// One frame's effect: the events it emits, whether it stops the run, and the
/// accumulated reply text afterwards.
pub open spec fn frame_step(frame: Seq<u8>, full: Seq<char>) -> (
    Seq<AgentEventView>,
    Option<SseStopView>,
    Seq<char>,
) {
    match frame_data(utf8_lossy(frame)) {
        None => (seq![], None, full),
        Some(json) => match sse_event_of(json) {
            SseEventView::Delta(t) => (seq![AgentEventView::Delta { text: t }], None, full + t),
            SseEventView::Permission(id, permission, patterns) => (
                seq![
                    AgentEventView::Permission {
                        id,
                        permission,
                        pattern: first_pattern(patterns),
                    },
                ],
                None,
                full,
            ),
            SseEventView::ToolCall(call_id, tool, input) => (
                seq![AgentEventView::ToolCall { call_id, tool, input }],
                None,
                full,
            ),
            SseEventView::ToolResult(call_id, tool, ok) => (
                seq![AgentEventView::ToolResult { call_id, tool, ok }],
                None,
                full,
            ),
            SseEventView::Idle => (seq![], Some(SseStopView::Idle), full),
            SseEventView::Error(m) => (
                seq![AgentEventView::Error { message: m }],
                Some(SseStopView::Failed(m)),
                full,
            ),
            _ => (seq![], None, full),
        },
    }
}

proof fn lemma_str_items_first(items: Seq<Seq<char>>, s: Seq<char>)
    requires
        items.len() > 0,
        json_str_at(items[0], ""@) == Some(s),
    ensures
        str_items(items).len() > 0,
        str_items(items)[0] == s,
    decreases items.len(),
{
    let rest = str_items(items.drop_last());
    if items.len() > 1 {
        assert(items.drop_last()[0] == items[0]);
        lemma_str_items_first(items.drop_last(), s);
        match json_str_at(items.last(), ""@) {
            Some(x) => {
                assert(str_items(items) == rest.push(x));
                assert(rest.push(x)[0] == rest[0]);
            },
            None => {
                assert(str_items(items) == rest);
            },
        }
    } else {
        assert(items.drop_last() =~= Seq::<Seq<char>>::empty());
        assert(rest =~= Seq::<Seq<char>>::empty());
        assert(items.last() == items[0]);
        assert(str_items(items) == rest.push(s));
    }
}

/// A permission prompt shows the first pattern asked for: a frame whose event `t` is a
/// `permission.asked` whose `patterns` array starts with the string `s` emits exactly one
/// event, a `Permission` with the event's id and permission and the pattern `s`, and
/// neither stops the run nor extends the reply.
pub proof fn lemma_permission_shows_first_pattern(
    frame: Seq<u8>,
    full: Seq<char>,
    t: Seq<char>,
    items: Seq<Seq<char>>,
    s: Seq<char>,
)
    requires
        frame_data(utf8_lossy(frame)) == Some(t),
        json_str_at(t, "/type"@) == Some("permission.asked"@),
        json_items_at(t, member_or_root(t, "/properties"@) + "/patterns"@) == Some(items),
        items.len() > 0,
        json_str_at(items[0], ""@) == Some(s),
    ensures
        frame_step(frame, full).0 == seq![
            AgentEventView::Permission {
                id: or_empty(json_str_at(t, member_or_root(t, "/properties"@) + "/id"@)),
                permission: or_empty(
                    json_str_at(t, member_or_root(t, "/properties"@) + "/permission"@),
                ),
                pattern: s,
            },
        ],
        frame_step(frame, full).1 is None,
        frame_step(frame, full).2 == full,
{
    lemma_kinds_distinct();
    lemma_str_items_first(items, s);
}

proof fn lemma_kinds_distinct()
    ensures
        "message.part.delta"@ != "permission.asked"@,
        "message.part.delta"@ != "session.status"@,
        "message.part.delta"@ != "message.part.updated"@,
        "message.part.delta"@ != "error"@,
        "permission.asked"@ != "session.status"@,
        "permission.asked"@ != "message.part.updated"@,
        "permission.asked"@ != "error"@,
        "session.status"@ != "message.part.updated"@,
        "session.status"@ != "error"@,
        "message.part.updated"@ != "error"@,
        "idle"@ != "error"@,
{
    reveal_strlit("message.part.delta");
    reveal_strlit("permission.asked");
    reveal_strlit("session.status");
    reveal_strlit("message.part.updated");
    reveal_strlit("error");
    reveal_strlit("idle");
    assert("message.part.delta"@.len() == 18);
    assert("permission.asked"@.len() == 16);
    assert("session.status"@.len() == 14);
    assert("message.part.updated"@.len() == 20);
    assert("error"@.len() == 5);
    assert("idle"@.len() == 4);
}

/// A delta frame emits its text and extends the reply by exactly that text: a frame whose
/// event is a `message.part.delta` with the string `d` at `/properties/delta` emits one
/// `Delta` with `d`, does not stop the run, and the reply becomes `full + d`.
pub proof fn lemma_delta_frame(frame: Seq<u8>, full: Seq<char>, t: Seq<char>, d: Seq<char>)
    requires
        frame_data(utf8_lossy(frame)) == Some(t),
        json_str_at(t, "/type"@) == Some("message.part.delta"@),
        json_str_at(t, "/properties/delta"@) == Some(d),
    ensures
        frame_step(frame, full) == (
            seq![AgentEventView::Delta { text: d }],
            Option::<SseStopView>::None,
            full + d,
        ),
{
}

/// The run stops when the session goes idle, and fails when it reports an error: a frame
/// whose event is a `session.status` with status type `"idle"` stops the run with `Idle`
/// and emits nothing; with status type `"error"` it emits an error and stops the run as
/// failed; an `error` event with the string `m` at `/properties/message` emits an error
/// with `m` and stops the run as failed with `m`. None of them changes the reply.
pub proof fn lemma_stop_frames(frame: Seq<u8>, full: Seq<char>, t: Seq<char>)
    requires
        frame_data(utf8_lossy(frame)) == Some(t),
    ensures
        json_str_at(t, "/type"@) == Some("session.status"@) && json_str_at(
            t,
            "/properties/status/type"@,
        ) == Some("idle"@) ==> frame_step(frame, full) == (
            Seq::<AgentEventView>::empty(),
            Some(SseStopView::Idle),
            full,
        ),
        json_str_at(t, "/type"@) == Some("session.status"@) && json_str_at(
            t,
            "/properties/status/type"@,
        ) == Some("error"@) ==> frame_step(frame, full) == (
            seq![AgentEventView::Error { message: "agent run failed"@ }],
            Some(SseStopView::Failed("agent run failed"@)),
            full,
        ),
        json_str_at(t, "/type"@) == Some("error"@) ==> (json_str_at(t, "/properties/message"@)
            matches Some(m) ==> frame_step(frame, full) == (
            seq![AgentEventView::Error { message: m }],
            Some(SseStopView::Failed(m)),
            full,
        )),
{
    lemma_kinds_distinct();
}

/// Processing every complete frame of `buf` in order, until one stops the run: the events
/// emitted, the stop, the bytes left over, and the accumulated reply text.
pub open spec fn feed_frames(buf: Seq<u8>, full: Seq<char>) -> (
    Seq<AgentEventView>,
    Option<SseStopView>,
    Seq<u8>,
    Seq<char>,
)
    decreases buf.len(),
{
    match frame_end(buf) {
        None => (seq![], None, buf, full),
        Some(e) => {
            proof {
                lemma_frame_end_bounds(buf);
            }
            let (ev, stop, full2) = frame_step(buf.take(e + 1), full);
            if stop is Some {
                (ev, stop, buf.skip(e + 1), full2)
            } else {
                let (ev2, stop2, rest, full3) = feed_frames(buf.skip(e + 1), full2);
                (ev + ev2, stop2, rest, full3)
            }
        },
    }
}

/// The text of all `Delta` events, in order.
pub open spec fn delta_text(events: Seq<AgentEventView>) -> Seq<char>
    decreases events.len(),
{
    if events.len() == 0 {
        seq![]
    } else {
        delta_text(events.drop_last()) + match events.last() {
            AgentEventView::Delta { text } => text,
            _ => seq![],
        }
    }
}

pub proof fn lemma_delta_text_concat(a: Seq<AgentEventView>, b: Seq<AgentEventView>)
    ensures
        delta_text(a + b) == delta_text(a) + delta_text(b),
    decreases b.len(),
{
    if b.len() == 0 {
        assert(a + b =~= a);
        assert(delta_text(b) =~= seq![]);
        assert(delta_text(a) + delta_text(b) =~= delta_text(a));
    } else {
        lemma_delta_text_concat(a, b.drop_last());
        assert((a + b).drop_last() =~= a + b.drop_last());
        assert(delta_text(a) + delta_text(b) =~= delta_text(a) + delta_text(b.drop_last()) + (
        match b.last() {
            AgentEventView::Delta { text } => text,
            _ => seq![],
        }));
    }
}

/// A frame extends the reply by exactly the text of the deltas it emits.
pub proof fn lemma_frame_step_full(frame: Seq<u8>, full: Seq<char>)
    ensures
        frame_step(frame, full).2 == full + delta_text(frame_step(frame, full).0),
{
    let (ev, _s, f) = frame_step(frame, full);
    if ev.len() == 0 {
        assert(full + delta_text(ev) =~= full);
    } else {
        assert(ev.drop_last() =~= seq![]);
        assert(delta_text(ev.drop_last()) =~= seq![]);
        match ev.last() {
            AgentEventView::Delta { text } => {
                assert(delta_text(ev) =~= text);
            },
            _ => {
                assert(delta_text(ev) =~= seq![]);
                assert(full + delta_text(ev) =~= full);
            },
        }
    }
}

/// The reply text accumulated over a stream is exactly the concatenation, in order, of
/// the `Delta` events emitted for it.
pub proof fn lemma_feed_frames_full(buf: Seq<u8>, full: Seq<char>)
    ensures
        feed_frames(buf, full).3 == full + delta_text(feed_frames(buf, full).0),
    decreases buf.len(),
{
    match frame_end(buf) {
        None => {
            assert(full + delta_text(seq![]) =~= full);
        },
        Some(e) => {
            lemma_frame_end_bounds(buf);
            lemma_frame_step_full(buf.take(e + 1), full);
            let (ev, stop, full2) = frame_step(buf.take(e + 1), full);
            if stop is None {
                lemma_feed_frames_full(buf.skip(e + 1), full2);
                let (ev2, stop2, rest, full3) = feed_frames(buf.skip(e + 1), full2);
                lemma_delta_text_concat(ev, ev2);
                assert(full3 == full + delta_text(ev) + delta_text(ev2));
                assert(full + delta_text(ev + ev2) =~= full + delta_text(ev) + delta_text(ev2));
            }
        },
    }
}

proof fn lemma_find_lf_lf_append(s: Seq<u8>, b: Seq<u8>, from: int)
    requires
        from >= 0,
    ensures
        find_lf_lf(s, from) matches Some(i) ==> find_lf_lf(s + b, from) == Some(i),
    decreases s.len() - from,
{
    if from + 1 < s.len() && !(s[from] == 10 && s[from + 1] == 10) {
        lemma_find_lf_lf_append(s, b, from + 1);
    }
}

proof fn lemma_find_crlf_crlf_append(s: Seq<u8>, b: Seq<u8>, from: int)
    requires
        from >= 0,
    ensures
        find_crlf_crlf(s, from) matches Some(i) ==> find_crlf_crlf(s + b, from) == Some(i),
    decreases s.len() - from,
{
    if from + 3 < s.len() && !(s[from] == 13 && s[from + 1] == 10 && s[from + 2] == 13 && s[from
        + 3] == 10) {
        lemma_find_crlf_crlf_append(s, b, from + 1);
    }
}

proof fn lemma_find_lf_lf_none_append(s: Seq<u8>, b: Seq<u8>, from: int)
    requires
        from >= 0,
        find_lf_lf(s, from) is None,
    ensures
        find_lf_lf(s + b, from) matches Some(i) ==> i + 1 >= s.len(),
    decreases s.len() - from,
{
    lemma_find_lf_lf(s + b, from);
    if from + 1 < s.len() {
        lemma_find_lf_lf_none_append(s, b, from + 1);
    }
}

proof fn lemma_find_crlf_crlf_none_append(s: Seq<u8>, b: Seq<u8>, from: int)
    requires
        from >= 0,
        find_crlf_crlf(s, from) is None,
    ensures
        find_crlf_crlf(s + b, from) matches Some(j) ==> j + 3 >= s.len(),
    decreases s.len() - from,
{
    lemma_find_crlf_crlf(s + b, from);
    if from + 3 < s.len() {
        lemma_find_crlf_crlf_none_append(s, b, from + 1);
    }
}

/// A frame that `s` completes ends at the same byte once more bytes are appended: any
/// terminator that the appended bytes complete ends later.
proof fn lemma_frame_end_append(s: Seq<u8>, b: Seq<u8>)
    ensures
        frame_end(s) matches Some(e) ==> frame_end(s + b) == Some(e),
{
    lemma_frame_end_bounds(s);
    lemma_find_lf_lf_append(s, b, 0);
    lemma_find_crlf_crlf_append(s, b, 0);
    if find_lf_lf(s, 0) is None {
        lemma_find_lf_lf_none_append(s, b, 0);
    }
    if find_crlf_crlf(s, 0) is None {
        lemma_find_crlf_crlf_none_append(s, b, 0);
    }
}

/// The event stream does not depend on where it is cut into chunks: reading `s` followed
/// by `b` gives what reading `s` gives and then, unless `s` already stopped the run, what
/// reading the bytes `s` left over followed by `b` gives, from the reply so far.
pub proof fn lemma_feed_frames_append(s: Seq<u8>, b: Seq<u8>, full: Seq<char>)
    ensures
        feed_frames(s + b, full) == ({
            let (ev, stop, left, f) = feed_frames(s, full);
            match stop {
                Some(x) => (ev, Some(x), left + b, f),
                None => {
                    let (ev2, stop2, left2, f2) = feed_frames(left + b, f);
                    (ev + ev2, stop2, left2, f2)
                },
            }
        }),
    decreases s.len(),
{
    lemma_frame_end_bounds(s);
    lemma_frame_end_append(s, b);
    match frame_end(s) {
        None => {
            assert(seq![] + feed_frames(s + b, full).0 =~= feed_frames(s + b, full).0);
        },
        Some(e) => {
            assert((s + b).take(e + 1) =~= s.take(e + 1));
            assert((s + b).skip(e + 1) =~= s.skip(e + 1) + b);
            let (ev, stop, full2) = frame_step(s.take(e + 1), full);
            if stop is None {
                lemma_feed_frames_append(s.skip(e + 1), b, full2);
                let (ev2, stop2, left2, f2) = feed_frames(s.skip(e + 1), full2);
                if stop2 is None {
                    let (ev3, stop3, left3, f3) = feed_frames(left2 + b, f2);
                    assert(ev + (ev2 + ev3) =~= (ev + ev2) + ev3);
                }
            }
        },
    }
}

/// The state of one run's event stream between chunks: bytes of an unfinished frame, and
/// the reply text accumulated from deltas.
pub struct SseRun {
    buf: Vec<u8>,
    full: String,
}

impl SseRun {
    pub closed spec fn pending(&self) -> Seq<u8> {
        self.buf@
    }

    pub closed spec fn reply(&self) -> Seq<char> {
        self.full@
    }

    /// A run that has seen nothing yet.
    pub fn new() -> (r: Self)
        ensures
            r.pending() == Seq::<u8>::empty(),
            r.reply() == Seq::<char>::empty(),
    {
        SseRun { buf: Vec::new(), full: String::new() }
    }

    /// The reply text accumulated so far.
    pub fn full(&self) -> (r: &String)
        ensures
            r@ == self.reply(),
    {
        &self.full
    }

    fn step_frame(&mut self, frame: &[u8]) -> (r: (Option<AgentEvent>, Option<SseStop>))
        ensures
            (
                match r.0 {
                    Some(e) => seq![e@],
                    None => Seq::<AgentEventView>::empty(),
                },
                stop_view(r.1),
                final(self).full@,
            ) == frame_step(frame@, old(self).full@),
            final(self).buf == old(self).buf,
    {
        let text = decode_lossy(frame);
        match parse_sse_frame(text.as_str()) {
            None => (None, None),
            Some(json) => match parse_sse_event(json.as_str()) {
                SseEvent::Delta(t) => {
                    self.full.append(t.as_str());
                    (Some(AgentEvent::Delta { text: t }), None)
                },
                SseEvent::Permission(id, permission, patterns) => {
                    let pattern = if patterns.len() > 0 {
                        patterns[0].clone()
                    } else {
                        String::new()
                    };
                    (Some(AgentEvent::Permission { id, permission, pattern }), None)
                },
                SseEvent::ToolCall(call_id, tool, input) => (
                    Some(AgentEvent::ToolCall { call_id, tool, input }),
                    None,
                ),
                SseEvent::ToolResult(call_id, tool, ok) => (
                    Some(AgentEvent::ToolResult { call_id, tool, ok }),
                    None,
                ),
                SseEvent::Idle => (None, Some(SseStop::Idle)),
                SseEvent::Error(m) => {
                    let m2 = m.clone();
                    (Some(AgentEvent::Error { message: m }), Some(SseStop::Failed(m2)))
                },
                SseEvent::Busy => (None, None),
                SseEvent::Other => (None, None),
            },
        }
    }

    /// Take in one chunk of the stream and process every frame it completes, in order,
    /// stopping at the first frame that ends the run.
    pub fn feed(&mut self, chunk: &[u8]) -> (r: SseFeed)
        ensures
            (agent_views(r.events@), stop_view(r.stop), final(self).pending(), final(self).reply())
                == feed_frames(old(self).pending() + chunk@, old(self).reply()),
            final(self).reply() == old(self).reply() + delta_text(agent_views(r.events@)),
    {
        let ghost start = self.buf@ + chunk@;
        let ghost full0 = self.full@;
        let mut i: usize = 0;
        while i < chunk.len()
            invariant
                i <= chunk@.len(),
                self.buf@ == old(self).buf@ + chunk@.take(i as int),
                self.full == old(self).full,
            decreases chunk@.len() - i,
        {
            self.buf.push(chunk[i]);
            assert(chunk@.take(i + 1) =~= chunk@.take(i as int).push(chunk@[i as int]));
            i = i + 1;
        }
        assert(chunk@.take(chunk@.len() as int) =~= chunk@);
        proof {
            lemma_feed_frames_full(start, full0);
        }
        let ghost goal = feed_frames(start, full0);
        let mut events: Vec<AgentEvent> = Vec::new();
        loop
            invariant
                start == old(self).buf@ + chunk@,
                full0 == old(self).full@,
                goal == feed_frames(start, full0),
                goal.3 == full0 + delta_text(goal.0),
                agent_views(events@) + feed_frames(self.buf@, self.full@).0 == goal.0,
                feed_frames(self.buf@, self.full@).1 == goal.1,
                feed_frames(self.buf@, self.full@).2 == goal.2,
                feed_frames(self.buf@, self.full@).3 == goal.3,
            decreases self.buf@.len(),
        {
            match find_double_newline(self.buf.as_slice()) {
                None => {
                    assert(agent_views(events@) + seq![] =~= agent_views(events@));
                    assert(goal.0 == agent_views(events@));
                    assert(goal.2 == self.buf@);
                    assert(goal.3 == self.full@);
                    assert(goal.1 is None);
                    return SseFeed { events, stop: None };
                },
                Some(e) => {
                    proof {
                        lemma_frame_end_bounds(self.buf@);
                    }
                    let ghost b = self.buf@;
                    let ghost f = self.full@;
                    let n = self.buf.len();
                    assert(e < n);
                    let mut frame = self.buf.split_off(e + 1);
                    std::mem::swap(&mut self.buf, &mut frame);
                    assert(frame@ =~= b.take(e + 1));
                    assert(self.buf@ =~= b.skip(e + 1));
                    let ghost before = events@;
                    let (ev, stop) = self.step_frame(frame.as_slice());
                    match ev {
                        Some(x) => {
                            events.push(x);
                            assert(agent_views(events@) =~= agent_views(before) + seq![x@]);
                        },
                        None => {
                            assert(agent_views(events@) =~= agent_views(before) + seq![]);
                        },
                    }
                    let ghost (ev1, s1, f1) = frame_step(b.take(e + 1), f);
                    match stop {
                        Some(st) => {
                            assert(s1 is Some);
                            assert(feed_frames(b, f) == (ev1, s1, b.skip(e + 1), f1));
                            assert(agent_views(events@) == agent_views(before) + ev1);
                            assert(goal.0 == agent_views(events@));
                            return SseFeed { events, stop: Some(st) };
                        },
                        None => {
                            let ghost (ev2, _s2, _r2, _f2) = feed_frames(b.skip(e + 1), f1);
                            assert(feed_frames(b, f).0 == ev1 + ev2);
                            assert(agent_views(events@) + ev2 =~= agent_views(before) + (ev1
                                + ev2));
                        },
                    }
                },
            }
        }
    }

    /// The stream ended: process a trailing frame that lacks its blank line. Unless that
    /// frame ends the run, the connection was lost before the session went idle.
    pub fn finish_stream(&mut self) -> (r: SseFeed)
        ensures
            old(self).pending().len() == 0 ==> agent_views(r.events@) == Seq::<
                AgentEventView,
            >::empty() && stop_view(r.stop) == Some(SseStopView::Failed(connection_lost()))
                && final(self).reply() == old(self).reply(),
            old(self).pending().len() > 0 ==> {
                let (ev, stop, full) = frame_step(old(self).pending(), old(self).reply());
                &&& agent_views(r.events@) == ev
                &&& final(self).reply() == full
                &&& stop_view(r.stop) == match stop {
                    Some(s) => Some(s),
                    None => Some(SseStopView::Failed(connection_lost())),
                }
            },
            final(self).pending() == Seq::<u8>::empty(),
    {
        let lost = owned("agent connection lost \u{2014} run aborted");
        if self.buf.len() == 0 {
            let events: Vec<AgentEvent> = Vec::new();
            assert(agent_views(events@) =~= Seq::<AgentEventView>::empty());
            return SseFeed { events, stop: Some(SseStop::Failed(lost)) };
        }
        let mut frame: Vec<u8> = Vec::new();
        std::mem::swap(&mut self.buf, &mut frame);
        let (ev, stop) = self.step_frame(frame.as_slice());
        let mut events: Vec<AgentEvent> = Vec::new();
        match ev {
            Some(x) => {
                events.push(x);
                assert(agent_views(events@) =~= seq![x@]);
            },
            None => {
                assert(agent_views(events@) =~= Seq::<AgentEventView>::empty());
            },
        }
        let stop = match stop {
            Some(s) => s,
            None => SseStop::Failed(lost),
        };
        SseFeed { events, stop: Some(stop) }
    }

    /// The run was cancelled: finish with the partial reply.
    pub fn cancel_event(&self) -> (e: AgentEvent)
        ensures
            e@ == (AgentEventView::Done { text: self.reply() }),
    {
        AgentEvent::Done { text: self.full.clone() }
    }

    /// The session went idle: finish with the text of the session's messages (`messages`
    /// is the JSON body of the message list, if it could be fetched), falling back to the
    /// reply accumulated from deltas.
    pub fn idle_event(&self, messages: Option<String>) -> (e: AgentEvent)
        ensures
            e@ == (AgentEventView::Done {
                text: match messages {
                    Some(body) => match assistant_text(body@) {
                        Some(t) => t,
                        None => self.reply(),
                    },
                    None => self.reply(),
                },
            }),
    {
        let text = match messages {
            Some(body) => match extract_assistant_text(body.as_str()) {
                Some(t) => t,
                None => self.full.clone(),
            },
            None => self.full.clone(),
        };
        AgentEvent::Done { text }
    }
}

} // verus!
