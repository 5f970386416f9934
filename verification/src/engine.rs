//! The engine seam: reading the local engine's JSON replies and its newline-delimited
//! JSON streams (model pull progress, chat tokens).
//!
//! The HTTP work happens in the caller; the streams are fed here chunk by chunk. A line
//! is complete at its `\n`; a trailing line without one is read when the stream ends.
use vstd::prelude::*;
use vstd::string::*;
use crate::agent::or_empty;
use crate::error::{AppError, is_engine_error};
use crate::json::{
    bool_at, items_at, json_bool_at, json_error, json_items_at, json_str_at, json_u64_at,
    parse_error, str_at, u64_at,
};
use crate::text::{decode_lossy, opt_view, owned, trim, trimmed, utf8_lossy};
use crate::types::{
    ChatEvent, ChatEventView, EngineHealth, ModelInfo, PullProgress, PullProgressView, chat_views,
    pct, percent_tenths, progress_views,
};

verus! {

// ------------------------------------------------------------------------------------
// Lines
// ------------------------------------------------------------------------------------
/// The index of the first `\n` byte of `buf` at or after `from`.
pub open spec fn find_lf(buf: Seq<u8>, from: int) -> Option<int>
    decreases buf.len() - from,
{
    if from < 0 || from >= buf.len() {
        None
    } else if buf[from] == 10 {
        Some(from)
    } else {
        find_lf(buf, from + 1)
    }
}

pub proof fn lemma_find_lf(buf: Seq<u8>, from: int)
    requires
        from >= 0,
    ensures
        find_lf(buf, from) matches Some(i) ==> from <= i < buf.len(),
    decreases buf.len() - from,
{
    if from < buf.len() && buf[from] != 10 {
        lemma_find_lf(buf, from + 1);
    }
}

/// The text of a line: its bytes before the `\n`, decoded and trimmed.
pub open spec fn line_text(bytes: Seq<u8>) -> Seq<char> {
    trimmed(utf8_lossy(bytes))
}

/// Line buffer shared by the streams: remove and return the first complete line.
fn take_line(buf: &mut Vec<u8>) -> (r: Option<String>)
    ensures
        match find_lf(old(buf)@, 0) {
            Some(i) => r is Some && r->0@ == line_text(old(buf)@.take(i)) && final(buf)@ == old(
                buf,
            )@.skip(i + 1),
            None => r is None && final(buf)@ == old(buf)@,
        },
{
    let n = buf.len();
    let mut i: usize = 0;
    while i < n && buf[i] != 10
        invariant
            n == buf@.len(),
            i <= n,
            find_lf(buf@, 0) == find_lf(buf@, i as int),
        decreases n - i,
    {
        i = i + 1;
    }
    if i == n {
        return None;
    }
    let ghost b = buf@;
    let mut raw = buf.split_off(i + 1);
    std::mem::swap(buf, &mut raw);
    raw.pop();
    assert(raw@ =~= b.take(i as int));
    assert(buf@ =~= b.skip(i + 1));
    let text = decode_lossy(raw.as_slice());
    Some(trim(text.as_str()))
}

// ------------------------------------------------------------------------------------
// Model pull
// ------------------------------------------------------------------------------------
/// Outcome of one pull progress line.
#[derive(Debug, PartialEq, Eq)]
pub enum PullLine {
    Continue,
    Progress(PullProgress),
    Done,
}

pub enum PullLineView {
    Continue,
    Progress(PullProgressView),
    Done,
}

impl View for PullLine {
    type V = PullLineView;

    open spec fn view(&self) -> PullLineView {
        match self {
            PullLine::Continue => PullLineView::Continue,
            PullLine::Progress(p) => PullLineView::Progress(p@),
            PullLine::Done => PullLineView::Done,
        }
    }
}

/// What a pull line with these fields means: the parse error (when the line is not
/// JSON), `status`, `error`, `completed` and `total`.
pub open spec fn pull_fields_meaning(
    parse_error: Option<Seq<char>>,
    status: Option<Seq<char>>,
    error: Option<Seq<char>>,
    completed: Option<u64>,
    total: Option<u64>,
) -> Result<PullLineView, Seq<char>> {
    match parse_error {
        Some(e) => Err("pull line: "@ + e),
        None => {
            let status = or_empty(status);
            if status == "error"@ {
                Err(
                    match error {
                        Some(m) => m,
                        None => "unknown"@,
                    },
                )
            } else if status == "success"@ {
                Ok(PullLineView::Done)
            } else {
                let completed = match completed {
                    Some(c) => c,
                    None => 0,
                };
                let total = match total {
                    Some(t) => t,
                    None => 0,
                };
                Ok(
                    PullLineView::Progress(
                        PullProgressView {
                            status,
                            completed,
                            total,
                            percent_tenths: percent_tenths(completed as nat, total as nat) as u128,
                        },
                    ),
                )
            }
        },
    }
}

/// What one pull line means: keep going, a progress sample, done, or an error message.
pub open spec fn pull_line(line: Seq<char>) -> Result<PullLineView, Seq<char>> {
    if line.len() == 0 {
        Ok(PullLineView::Continue)
    } else {
        pull_fields_meaning(
            json_error(line),
            json_str_at(line, "/status"@),
            json_str_at(line, "/error"@),
            json_u64_at(line, "/completed"@),
            json_u64_at(line, "/total"@),
        )
    }
}

/// The value of a `u64` option, or zero.
fn or_zero(o: Option<u64>) -> (r: u64)
    ensures
        r == match o {
            Some(v) => v,
            None => 0,
        },
{
    match o {
        Some(v) => v,
        None => 0,
    }
}

fn or_empty_exec(o: Option<String>) -> (r: String)
    ensures
        r@ == or_empty(opt_view(o)),
{
    match o {
        Some(s) => s,
        None => String::new(),
    }
}

/// The outcome of a pull line with these fields (see `pull_fields_meaning`).
pub fn pull_line_from(
    parse_error: Option<String>,
    status: Option<String>,
    error: Option<String>,
    completed: Option<u64>,
    total: Option<u64>,
) -> (r: Result<PullLine, AppError>)
    ensures
        match pull_fields_meaning(
            opt_view(parse_error),
            opt_view(status),
            opt_view(error),
            completed,
            total,
        ) {
            Ok(v) => r is Ok && r->Ok_0@ == v,
            Err(m) => r is Err && is_engine_error(r->Err_0, m),
        },
{
    match parse_error {
        Some(e) => {
            return Err(AppError::Engine(owned("pull line: ").concat(e.as_str())));
        },
        None => {},
    }
    let status = or_empty_exec(status);
    if status == owned("error") {
        let m = match error {
            Some(m) => m,
            None => owned("unknown"),
        };
        Err(AppError::Engine(m))
    } else if status == owned("success") {
        Ok(PullLine::Done)
    } else {
        let completed = or_zero(completed);
        let total = or_zero(total);
        let percent_tenths = pct(completed, total);
        Ok(PullLine::Progress(PullProgress { status, completed, total, percent_tenths }))
    }
}

/// Read one `/api/pull` NDJSON line (already trimmed).
pub fn process_pull_line(line: &str) -> (r: Result<PullLine, AppError>)
    ensures
        match pull_line(line@) {
            Ok(v) => r is Ok && r->Ok_0@ == v,
            Err(m) => r is Err && is_engine_error(r->Err_0, m),
        },
{
    if line.unicode_len() == 0 {
        return Ok(PullLine::Continue);
    }
    pull_line_from(
        parse_error(line),
        str_at(line, "/status"),
        str_at(line, "/error"),
        u64_at(line, "/completed"),
        u64_at(line, "/total"),
    )
}

/// Every complete line of a pull stream, in order, until one ends it: the progress
/// samples, the end (success or an error message), and the bytes left over.
pub open spec fn pull_lines(buf: Seq<u8>) -> (
    Seq<PullProgressView>,
    Option<Result<(), Seq<char>>>,
    Seq<u8>,
)
    decreases buf.len(),
{
    match find_lf(buf, 0) {
        None => (seq![], None, buf),
        Some(i) => {
            proof {
                lemma_find_lf(buf, 0);
            }
            let rest = buf.skip(i + 1);
            match pull_line(line_text(buf.take(i))) {
                Err(m) => (seq![], Some(Err(m)), rest),
                Ok(PullLineView::Done) => (seq![], Some(Ok(())), rest),
                Ok(PullLineView::Continue) => pull_lines(rest),
                Ok(PullLineView::Progress(p)) => {
                    let (ps, end, left) = pull_lines(rest);
                    (seq![p] + ps, end, left)
                },
            }
        },
    }
}

proof fn lemma_find_lf_append(s: Seq<u8>, b: Seq<u8>, from: int)
    requires
        from >= 0,
    ensures
        find_lf(s, from) matches Some(i) ==> find_lf(s + b, from) == Some(i),
    decreases s.len() - from,
{
    if from < s.len() && s[from] != 10 {
        lemma_find_lf_append(s, b, from + 1);
    }
}

/// A pull stream does not depend on where it is cut into chunks: reading `s` followed by
/// `b` gives what reading `s` gives and then, unless `s` already ended the pull, what
/// reading the bytes `s` left over followed by `b` gives. (After an end, `b` is left
/// unread.)
pub proof fn lemma_pull_lines_append(s: Seq<u8>, b: Seq<u8>)
    ensures
        pull_lines(s + b) == ({
            let (ps, end, left) = pull_lines(s);
            match end {
                Some(e) => (ps, Some(e), left + b),
                None => {
                    let (ps2, end2, left2) = pull_lines(left + b);
                    (ps + ps2, end2, left2)
                },
            }
        }),
    decreases s.len(),
{
    lemma_find_lf(s, 0);
    lemma_find_lf_append(s, b, 0);
    match find_lf(s, 0) {
        None => {
            assert(seq![] + pull_lines(s + b).0 =~= pull_lines(s + b).0);
        },
        Some(i) => {
            assert((s + b).take(i) =~= s.take(i));
            assert((s + b).skip(i + 1) =~= s.skip(i + 1) + b);
            match pull_line(line_text(s.take(i))) {
                Ok(PullLineView::Continue) => {
                    lemma_pull_lines_append(s.skip(i + 1), b);
                },
                Ok(PullLineView::Progress(p)) => {
                    lemma_pull_lines_append(s.skip(i + 1), b);
                    let (ps, end, left) = pull_lines(s.skip(i + 1));
                    if end is None {
                        let (ps2, end2, left2) = pull_lines(left + b);
                        assert(seq![p] + (ps + ps2) =~= (seq![p] + ps) + ps2);
                    }
                },
                _ => {},
            }
        },
    }
}

/// The end of a pull stream: the result of reading a trailing line, if any.
pub open spec fn pull_tail(buf: Seq<u8>) -> (Seq<PullProgressView>, Result<(), Seq<char>>) {
    let ended = "pull stream ended before success"@;
    if buf.len() == 0 || line_text(buf).len() == 0 {
        (seq![], Err(ended))
    } else {
        match pull_line(line_text(buf)) {
            Err(m) => (seq![], Err(m)),
            Ok(PullLineView::Done) => (seq![], Ok(())),
            Ok(PullLineView::Progress(p)) => (seq![p], Err(ended)),
            Ok(PullLineView::Continue) => (seq![], Err(ended)),
        }
    }
}

/// A line that says the pull succeeded: it is JSON and its `status` is `"success"`.
pub open spec fn says_success(line: Seq<char>) -> bool {
    json_error(line) is None && json_str_at(line, "/status"@) == Some("success"@)
}

proof fn lemma_pull_line_done(line: Seq<char>)
    ensures
        pull_line(line) == Ok::<PullLineView, Seq<char>>(PullLineView::Done) ==> line.len() > 0
            && says_success(line),
        (line.len() > 0 && json_error(line) is None && json_str_at(line, "/status"@) != Some(
            "success"@,
        ) && json_str_at(line, "/status"@) != Some("error"@)) ==> pull_line(line) matches Ok(
            PullLineView::Progress(_),
        ),
{
    reveal_strlit("success");
    reveal_strlit("error");
    assert("success"@.len() == 7);
    assert("error"@.len() == 5);
    assert("success"@ != "error"@);
}

/// The end of a pull stream is success only when its trailing line says so: the stream
/// ended without a `"success"` line otherwise. In particular a trailing progress line (JSON
/// whose status is neither `"success"` nor `"error"`), or no trailing line at all, ends
/// the pull with "pull stream ended before success".
pub proof fn lemma_pull_tail_success_only_on_success(buf: Seq<u8>)
    ensures
        pull_tail(buf).1 is Ok ==> line_text(buf).len() > 0 && says_success(line_text(buf)),
        (buf.len() == 0 || line_text(buf).len() == 0 || (json_error(line_text(buf)) is None
            && json_str_at(line_text(buf), "/status"@) != Some("success"@) && json_str_at(
            line_text(buf),
            "/status"@,
        ) != Some("error"@))) ==> pull_tail(buf).1 == Err::<(), Seq<char>>(
            "pull stream ended before success"@,
        ),
{
    lemma_pull_line_done(line_text(buf));
}

/// The lines of a pull stream end it in success only when one of them says so: if reading
/// `buf` ends the pull successfully, some complete line of it (bytes `i..j`, ended by the
/// `\n` at `j`) says `"success"`.
pub proof fn lemma_pull_lines_success_only_on_success(buf: Seq<u8>)
    ensures
        pull_lines(buf).1 == Some(Ok::<(), Seq<char>>(())) ==> exists|i: int, j: int|
            0 <= i <= j < buf.len() && buf[j] == 10 && #[trigger] says_success(
                line_text(buf.subrange(i, j)),
            ),
    decreases buf.len(),
{
    lemma_find_lf(buf, 0);
    lemma_find_lf_byte(buf, 0);
    match find_lf(buf, 0) {
        None => {},
        Some(k) => {
            let rest = buf.skip(k + 1);
            lemma_pull_line_done(line_text(buf.take(k)));
            assert(buf.take(k) =~= buf.subrange(0, k));
            match pull_line(line_text(buf.take(k))) {
                Ok(PullLineView::Done) => {
                    assert(says_success(line_text(buf.subrange(0, k))));
                },
                Ok(PullLineView::Continue) | Ok(PullLineView::Progress(_)) => {
                    lemma_pull_lines_success_only_on_success(rest);
                    if pull_lines(buf).1 == Some(Ok::<(), Seq<char>>(())) {
                        let (i, j) = choose|i: int, j: int|
                            0 <= i <= j < rest.len() && rest[j] == 10 && #[trigger] says_success(
                                line_text(rest.subrange(i, j)),
                            );
                        assert(rest.subrange(i, j) =~= buf.subrange(i + k + 1, j + k + 1));
                        assert(buf[j + k + 1] == 10);
                        assert(says_success(line_text(buf.subrange(i + k + 1, j + k + 1))));
                    }
                },
                Err(_) => {},
            }
        },
    }
}

proof fn lemma_find_lf_byte(buf: Seq<u8>, from: int)
    requires
        from >= 0,
    ensures
        find_lf(buf, from) matches Some(i) ==> buf[i] == 10,
    decreases buf.len() - from,
{
    if from < buf.len() && buf[from] != 10 {
        lemma_find_lf_byte(buf, from + 1);
    }
}

/// The spec of a stream end: `Ok` or an engine error with the given message.
pub open spec fn end_matches(r: Result<(), AppError>, s: Result<(), Seq<char>>) -> bool {
    match s {
        Ok(()) => r is Ok,
        Err(m) => r is Err && is_engine_error(r->Err_0, m),
    }
}

/// What one chunk of a pull stream produced.
pub struct PullFeed {
    pub progress: Vec<PullProgress>,
    pub end: Option<Result<(), AppError>>,
}

/// A model pull in progress: the bytes of an unfinished line.
pub struct PullStream {
    buf: Vec<u8>,
}

impl PullStream {
    pub closed spec fn pending(&self) -> Seq<u8> {
        self.buf@
    }

    pub fn new() -> (r: Self)
        ensures
            r.pending() == Seq::<u8>::empty(),
    {
        PullStream { buf: Vec::new() }
    }

    /// Take in one chunk and read every line it completes, until one ends the pull.
    pub fn feed(&mut self, chunk: &[u8]) -> (r: PullFeed)
        ensures
            ({
                let (ps, end, left) = pull_lines(old(self).pending() + chunk@);
                &&& progress_views(r.progress@) == ps
                &&& final(self).pending() == left
                &&& match end {
                    None => r.end is None,
                    Some(s) => r.end is Some && end_matches(r.end->0, s),
                }
            }),
            r.end matches Some(Ok(_)) ==> exists|i: int, j: int|
                0 <= i <= j < (old(self).pending() + chunk@).len() && (old(self).pending()
                    + chunk@)[j] == 10 && #[trigger] says_success(
                    line_text((old(self).pending() + chunk@).subrange(i, j)),
                ),
    {
        let ghost start = self.buf@ + chunk@;
        proof {
            lemma_pull_lines_success_only_on_success(start);
        }
        append_bytes(&mut self.buf, chunk);
        let ghost goal = pull_lines(start);
        let mut progress: Vec<PullProgress> = Vec::new();
        loop
            invariant
                start == old(self).buf@ + chunk@,
                goal == pull_lines(start),
                progress_views(progress@) + pull_lines(self.buf@).0 == goal.0,
                pull_lines(self.buf@).1 == goal.1,
                pull_lines(self.buf@).2 == goal.2,
                goal.1 == Some(Ok::<(), Seq<char>>(())) ==> exists|i: int, j: int|
                    0 <= i <= j < start.len() && start[j] == 10 && #[trigger] says_success(
                        line_text(start.subrange(i, j)),
                    ),
            decreases self.buf@.len(),
        {
            let ghost b = self.buf@;
            proof {
                lemma_find_lf(b, 0);
            }
            match take_line(&mut self.buf) {
                None => {
                    assert(progress_views(progress@) + seq![] =~= progress_views(progress@));
                    return PullFeed { progress, end: None };
                },
                Some(line) => {
                    let ghost before = progress@;
                    match process_pull_line(line.as_str()) {
                        Err(e) => {
                            assert(progress_views(progress@) + seq![] =~= progress_views(
                                progress@,
                            ));
                            return PullFeed { progress, end: Some(Err(e)) };
                        },
                        Ok(PullLine::Done) => {
                            assert(progress_views(progress@) + seq![] =~= progress_views(
                                progress@,
                            ));
                            return PullFeed { progress, end: Some(Ok(())) };
                        },
                        Ok(PullLine::Continue) => {},
                        Ok(PullLine::Progress(p)) => {
                            let ghost pv = p@;
                            progress.push(p);
                            assert(progress_views(progress@) =~= progress_views(before).push(pv));
                            assert(progress_views(progress@) + pull_lines(self.buf@).0
                                =~= progress_views(before) + (seq![pv] + pull_lines(
                                self.buf@,
                            ).0));
                        },
                    }
                },
            }
        }
    }

    /// The stream ended: read a trailing line without `\n`. Unless it reports success,
    /// the pull failed.
    pub fn finish(&mut self) -> (r: (Vec<PullProgress>, Result<(), AppError>))
        ensures
            progress_views(r.0@) == pull_tail(old(self).pending()).0,
            end_matches(r.1, pull_tail(old(self).pending()).1),
            r.1 is Ok ==> line_text(old(self).pending()).len() > 0 && says_success(
                line_text(old(self).pending()),
            ),
            final(self).pending() == Seq::<u8>::empty(),
    {
        proof {
            lemma_pull_tail_success_only_on_success(self.buf@);
        }
        let mut raw: Vec<u8> = Vec::new();
        std::mem::swap(&mut self.buf, &mut raw);
        let mut progress: Vec<PullProgress> = Vec::new();
        assert(progress_views(progress@) =~= seq![]);
        let ended = owned("pull stream ended before success");
        if raw.len() == 0 {
            return (progress, Err(AppError::Engine(ended)));
        }
        let line = trim(decode_lossy(raw.as_slice()).as_str());
        if line.unicode_len() == 0 {
            return (progress, Err(AppError::Engine(ended)));
        }
        match process_pull_line(line.as_str()) {
            Err(e) => (progress, Err(e)),
            Ok(PullLine::Done) => (progress, Ok(())),
            Ok(PullLine::Progress(p)) => {
                progress.push(p);
                assert(progress_views(progress@) =~= seq![progress@[0]@]);
                (progress, Err(AppError::Engine(ended)))
            },
            Ok(PullLine::Continue) => (progress, Err(AppError::Engine(ended))),
        }
    }
}

/// `dst` followed by the bytes of `src`.
pub(crate) fn append_bytes(dst: &mut Vec<u8>, src: &[u8])
    ensures
        final(dst)@ == old(dst)@ + src@,
{
    let mut i: usize = 0;
    while i < src.len()
        invariant
            i <= src@.len(),
            dst@ == old(dst)@ + src@.take(i as int),
        decreases src@.len() - i,
    {
        dst.push(src[i]);
        assert(src@.take(i + 1) =~= src@.take(i as int).push(src@[i as int]));
        i = i + 1;
    }
    assert(src@.take(src@.len() as int) =~= src@);
}

// ------------------------------------------------------------------------------------
// Chat
// ------------------------------------------------------------------------------------
/// Outcome of one chat line.
#[derive(Debug, PartialEq, Eq)]
pub enum ChatLine {
    Continue,
    Done,
}

/// What a chat line with these fields means: the delta it carries (possibly empty) and
/// whether the reply is done, or an error message. The fields are the parse error (when
/// the line is not JSON), `error`, `message.content` and `done`.
pub open spec fn chat_fields_meaning(
    parse_error: Option<Seq<char>>,
    error: Option<Seq<char>>,
    content: Option<Seq<char>>,
    done: Option<bool>,
) -> Result<(Seq<char>, bool), Seq<char>> {
    match parse_error {
        Some(e) => Err("chat line: "@ + e),
        None => match error {
            Some(m) => Err(m),
            None => Ok((or_empty(content), done == Some(true))),
        },
    }
}

/// What one chat line means: the delta it carries (possibly empty) and whether the reply
/// is done, or an error message.
pub open spec fn chat_line(line: Seq<char>) -> Result<(Seq<char>, bool), Seq<char>> {
    if line.len() == 0 {
        Ok((seq![], false))
    } else {
        chat_fields_meaning(
            json_error(line),
            json_str_at(line, "/error"@),
            json_str_at(line, "/message/content"@),
            json_bool_at(line, "/done"@),
        )
    }
}

/// The events a delta emits: one `Delta`, unless it is empty.
pub open spec fn delta_events(delta: Seq<char>) -> Seq<ChatEventView> {
    if delta.len() > 0 {
        seq![ChatEventView::Delta { content: delta }]
    } else {
        seq![]
    }
}

/// The outcome of a chat line with these fields (see `chat_fields_meaning`), extending
/// the reply `full` by its delta and emitting it.
pub fn chat_line_from(
    parse_error: Option<String>,
    error: Option<String>,
    content: Option<String>,
    done: Option<bool>,
    full: &mut String,
) -> (r: Result<(ChatLine, Option<ChatEvent>), AppError>)
    ensures
        match chat_fields_meaning(opt_view(parse_error), opt_view(error), opt_view(content), done) {
            Ok((delta, done)) => {
                &&& r is Ok
                &&& final(full)@ == old(full)@ + delta
                &&& (r->Ok_0.0 == if done {
                    ChatLine::Done
                } else {
                    ChatLine::Continue
                })
                &&& match r->Ok_0.1 {
                    Some(e) => seq![e@],
                    None => seq![],
                } == delta_events(delta)
            },
            Err(m) => r is Err && is_engine_error(r->Err_0, m) && final(full)@ == old(full)@,
        },
{
    match parse_error {
        Some(e) => {
            return Err(AppError::Engine(owned("chat line: ").concat(e.as_str())));
        },
        None => {},
    }
    match error {
        Some(m) => {
            return Err(AppError::Engine(m));
        },
        None => {},
    }
    let done = match done {
        Some(b) => b,
        None => false,
    };
    let delta = or_empty_exec(content);
    let event = if delta.unicode_len() > 0 {
        full.append(delta.as_str());
        Some(ChatEvent::Delta { content: delta })
    } else {
        assert(old(full)@ + delta@ =~= old(full)@);
        None
    };
    Ok((
        if done {
            ChatLine::Done
        } else {
            ChatLine::Continue
        },
        event,
    ))
}

/// Read one `/api/chat` NDJSON line (already trimmed), extending the reply `full` by its
/// delta and emitting it.
pub fn process_chat_line(line: &str, full: &mut String) -> (r: Result<
    (ChatLine, Option<ChatEvent>),
    AppError,
>)
    ensures
        match chat_line(line@) {
            Ok((delta, done)) => {
                &&& r is Ok
                &&& final(full)@ == old(full)@ + delta
                &&& (r->Ok_0.0 == if done {
                    ChatLine::Done
                } else {
                    ChatLine::Continue
                })
                &&& match r->Ok_0.1 {
                    Some(e) => seq![e@],
                    None => seq![],
                } == delta_events(delta)
            },
            Err(m) => r is Err && is_engine_error(r->Err_0, m) && final(full)@ == old(full)@,
        },
{
    if line.unicode_len() == 0 {
        assert(old(full)@ + seq![] =~= old(full)@);
        return Ok((ChatLine::Continue, None));
    }
    chat_line_from(
        parse_error(line),
        str_at(line, "/error"),
        str_at(line, "/message/content"),
        bool_at(line, "/done"),
        full,
    )
}

/// Every complete line of a chat stream, in order, until one ends it: the events, the end
/// (done, or an error message), the bytes left over, and the reply so far.
pub open spec fn chat_lines(buf: Seq<u8>, full: Seq<char>) -> (
    Seq<ChatEventView>,
    Option<Result<(), Seq<char>>>,
    Seq<u8>,
    Seq<char>,
)
    decreases buf.len(),
{
    match find_lf(buf, 0) {
        None => (seq![], None, buf, full),
        Some(i) => {
            proof {
                lemma_find_lf(buf, 0);
            }
            let rest = buf.skip(i + 1);
            match chat_line(line_text(buf.take(i))) {
                Err(m) => (seq![], Some(Err(m)), rest, full),
                Ok((delta, done)) => if done {
                    (delta_events(delta), Some(Ok(())), rest, full + delta)
                } else {
                    let (ev, end, left, f) = chat_lines(rest, full + delta);
                    (delta_events(delta) + ev, end, left, f)
                },
            }
        },
    }
}

/// A chat stream does not depend on where it is cut into chunks: reading `s` followed by
/// `b` gives what reading `s` gives and then, unless `s` already ended the reply, what
/// reading the bytes `s` left over followed by `b` gives, from the reply so far.
pub proof fn lemma_chat_lines_append(s: Seq<u8>, b: Seq<u8>, full: Seq<char>)
    ensures
        chat_lines(s + b, full) == ({
            let (ev, end, left, f) = chat_lines(s, full);
            match end {
                Some(e) => (ev, Some(e), left + b, f),
                None => {
                    let (ev2, end2, left2, f2) = chat_lines(left + b, f);
                    (ev + ev2, end2, left2, f2)
                },
            }
        }),
    decreases s.len(),
{
    lemma_find_lf(s, 0);
    lemma_find_lf_append(s, b, 0);
    match find_lf(s, 0) {
        None => {
            assert(seq![] + chat_lines(s + b, full).0 =~= chat_lines(s + b, full).0);
        },
        Some(i) => {
            assert((s + b).take(i) =~= s.take(i));
            assert((s + b).skip(i + 1) =~= s.skip(i + 1) + b);
            match chat_line(line_text(s.take(i))) {
                Ok((delta, done)) => {
                    if !done {
                        lemma_chat_lines_append(s.skip(i + 1), b, full + delta);
                        let (ev, end, left, f) = chat_lines(s.skip(i + 1), full + delta);
                        if end is None {
                            let (ev2, end2, left2, f2) = chat_lines(left + b, f);
                            assert(delta_events(delta) + (ev + ev2) =~= (delta_events(delta)
                                + ev) + ev2);
                        }
                    }
                },
                _ => {},
            }
        },
    }
}

/// A line that says the reply is done: JSON without an `error` string, whose `done` is
/// `true`.
pub open spec fn says_done(line: Seq<char>) -> bool {
    json_error(line) is None && json_str_at(line, "/error"@) is None && json_bool_at(line, "/done"@)
        == Some(true)
}

/// A chat stream ends in success only at a line that says the reply is done: if reading
/// `buf` ends the reply successfully, some complete line of it (bytes `i..j`, ended by the
/// `\n` at `j`) says so.
pub proof fn lemma_chat_lines_done_only_on_done(buf: Seq<u8>, full: Seq<char>)
    ensures
        chat_lines(buf, full).1 == Some(Ok::<(), Seq<char>>(())) ==> exists|i: int, j: int|
            0 <= i <= j < buf.len() && buf[j] == 10 && #[trigger] says_done(
                line_text(buf.subrange(i, j)),
            ),
    decreases buf.len(),
{
    lemma_find_lf(buf, 0);
    lemma_find_lf_byte(buf, 0);
    match find_lf(buf, 0) {
        None => {},
        Some(k) => {
            let rest = buf.skip(k + 1);
            assert(buf.take(k) =~= buf.subrange(0, k));
            match chat_line(line_text(buf.take(k))) {
                Ok((delta, done)) => {
                    if done {
                        assert(says_done(line_text(buf.subrange(0, k))));
                    } else {
                        lemma_chat_lines_done_only_on_done(rest, full + delta);
                        if chat_lines(buf, full).1 == Some(Ok::<(), Seq<char>>(())) {
                            let (i, j) = choose|i: int, j: int|
                                0 <= i <= j < rest.len() && rest[j] == 10 && #[trigger] says_done(
                                    line_text(rest.subrange(i, j)),
                                );
                            assert(rest.subrange(i, j) =~= buf.subrange(i + k + 1, j + k + 1));
                            assert(buf[j + k + 1] == 10);
                            assert(says_done(line_text(buf.subrange(i + k + 1, j + k + 1))));
                        }
                    }
                },
                Err(_) => {},
            }
        },
    }
}

/// The text of all `Delta` events, in order.
pub open spec fn chat_delta_text(events: Seq<ChatEventView>) -> Seq<char>
    decreases events.len(),
{
    if events.len() == 0 {
        seq![]
    } else {
        chat_delta_text(events.drop_last()) + match events.last() {
            ChatEventView::Delta { content } => content,
            _ => seq![],
        }
    }
}

proof fn lemma_chat_delta_text_concat(a: Seq<ChatEventView>, b: Seq<ChatEventView>)
    ensures
        chat_delta_text(a + b) == chat_delta_text(a) + chat_delta_text(b),
    decreases b.len(),
{
    if b.len() == 0 {
        assert(a + b =~= a);
        assert(chat_delta_text(a) + chat_delta_text(b) =~= chat_delta_text(a));
    } else {
        lemma_chat_delta_text_concat(a, b.drop_last());
        assert((a + b).drop_last() =~= a + b.drop_last());
        assert(chat_delta_text(a) + chat_delta_text(b) =~= chat_delta_text(a) + chat_delta_text(
            b.drop_last(),
        ) + (match b.last() {
            ChatEventView::Delta { content } => content,
            _ => seq![],
        }));
    }
}

proof fn lemma_delta_events_text(delta: Seq<char>)
    ensures
        chat_delta_text(delta_events(delta)) == delta,
{
    if delta.len() > 0 {
        let e = delta_events(delta);
        assert(e.len() == 1);
        assert(e.drop_last() =~= Seq::<ChatEventView>::empty());
        assert(chat_delta_text(e.drop_last()) =~= seq![]);
        assert(e.last() == ChatEventView::Delta { content: delta });
        assert(chat_delta_text(e) =~= seq![] + delta);
    } else {
        assert(delta =~= seq![]);
    }
}

/// The chat reply is exactly the concatenation, in order, of the deltas emitted for it:
/// whatever a stream's lines hold, the reply after reading them equals the reply before
/// followed by the text of every `Delta` event emitted.
pub proof fn lemma_chat_deltas_reassemble(buf: Seq<u8>, full: Seq<char>)
    ensures
        chat_lines(buf, full).3 == full + chat_delta_text(chat_lines(buf, full).0),
    decreases buf.len(),
{
    match find_lf(buf, 0) {
        None => {
            assert(full + chat_delta_text(seq![]) =~= full);
        },
        Some(i) => {
            lemma_find_lf(buf, 0);
            let rest = buf.skip(i + 1);
            match chat_line(line_text(buf.take(i))) {
                Err(m) => {
                    assert(full + chat_delta_text(seq![]) =~= full);
                },
                Ok((delta, done)) => {
                    lemma_delta_events_text(delta);
                    if !done {
                        lemma_chat_deltas_reassemble(rest, full + delta);
                        let (ev, end, left, f) = chat_lines(rest, full + delta);
                        lemma_chat_delta_text_concat(delta_events(delta), ev);
                        assert(full + chat_delta_text(delta_events(delta) + ev) =~= full + delta
                            + chat_delta_text(ev));
                    }
                },
            }
        },
    }
}

/// What one chunk of a chat stream produced.
pub struct ChatFeed {
    pub events: Vec<ChatEvent>,
    pub end: Option<Result<(), AppError>>,
}

/// A streaming chat reply: the bytes of an unfinished line and the reply so far.
pub struct ChatStream {
    buf: Vec<u8>,
    full: String,
}

impl ChatStream {
    pub closed spec fn pending(&self) -> Seq<u8> {
        self.buf@
    }

    pub closed spec fn reply(&self) -> Seq<char> {
        self.full@
    }

    pub fn new() -> (r: Self)
        ensures
            r.pending() == Seq::<u8>::empty(),
            r.reply() == Seq::<char>::empty(),
    {
        ChatStream { buf: Vec::new(), full: String::new() }
    }

    /// The reply so far.
    pub fn full(&self) -> (r: &String)
        ensures
            r@ == self.reply(),
    {
        &self.full
    }

    /// Take in one chunk and read every line it completes, until one ends the reply.
    /// The reply grows by exactly the deltas emitted.
    pub fn feed(&mut self, chunk: &[u8]) -> (r: ChatFeed)
        ensures
            ({
                let (ev, end, left, f) = chat_lines(old(self).pending() + chunk@, old(self).reply());
                &&& chat_views(r.events@) == ev
                &&& final(self).pending() == left
                &&& final(self).reply() == f
                &&& match end {
                    None => r.end is None,
                    Some(s) => r.end is Some && end_matches(r.end->0, s),
                }
            }),
            final(self).reply() == old(self).reply() + chat_delta_text(chat_views(r.events@)),
    {
        let ghost start = self.buf@ + chunk@;
        let ghost full0 = self.full@;
        append_bytes(&mut self.buf, chunk);
        proof {
            lemma_chat_deltas_reassemble(start, full0);
        }
        let ghost goal = chat_lines(start, full0);
        let mut events: Vec<ChatEvent> = Vec::new();
        loop
            invariant
                start == old(self).buf@ + chunk@,
                full0 == old(self).full@,
                goal == chat_lines(start, full0),
                goal.3 == full0 + chat_delta_text(goal.0),
                chat_views(events@) + chat_lines(self.buf@, self.full@).0 == goal.0,
                chat_lines(self.buf@, self.full@).1 == goal.1,
                chat_lines(self.buf@, self.full@).2 == goal.2,
                chat_lines(self.buf@, self.full@).3 == goal.3,
            decreases self.buf@.len(),
        {
            let ghost b = self.buf@;
            let ghost f = self.full@;
            proof {
                lemma_find_lf(b, 0);
            }
            match take_line(&mut self.buf) {
                None => {
                    assert(chat_views(events@) + seq![] =~= chat_views(events@));
                    return ChatFeed { events, end: None };
                },
                Some(line) => {
                    let ghost before = events@;
                    match process_chat_line(line.as_str(), &mut self.full) {
                        Err(e) => {
                            assert(chat_views(events@) + seq![] =~= chat_views(events@));
                            return ChatFeed { events, end: Some(Err(e)) };
                        },
                        Ok((outcome, ev)) => {
                            match ev {
                                Some(x) => {
                                    events.push(x);
                                    assert(chat_views(events@) =~= chat_views(before) + seq![x@]);
                                },
                                None => {
                                    assert(chat_views(events@) =~= chat_views(before) + seq![]);
                                },
                            }
                            match outcome {
                                ChatLine::Done => {
                                    return ChatFeed { events, end: Some(Ok(())) };
                                },
                                ChatLine::Continue => {
                                    let ghost (delta, _d) = chat_line(line_text(b.take(
                                        find_lf(b, 0)->0,
                                    )))->Ok_0;
                                    assert(chat_views(events@) + chat_lines(self.buf@, self.full@).0
                                        =~= chat_views(before) + (delta_events(delta)
                                        + chat_lines(self.buf@, self.full@).0));
                                },
                            }
                        },
                    }
                },
            }
        }
    }

    /// The stream ended: read a trailing line without `\n` (its error, if any, is the
    /// reply's error); otherwise the reply is what the deltas gave.
    pub fn finish(&mut self) -> (r: (Vec<ChatEvent>, Result<(), AppError>))
        ensures
            old(self).pending().len() == 0 || line_text(old(self).pending()).len() == 0 ==> {
                &&& chat_views(r.0@) == Seq::<ChatEventView>::empty()
                &&& r.1 is Ok
                &&& final(self).reply() == old(self).reply()
            },
            old(self).pending().len() > 0 && line_text(old(self).pending()).len() > 0 ==> match chat_line(
                line_text(old(self).pending()),
            ) {
                Ok((delta, _done)) => {
                    &&& chat_views(r.0@) == delta_events(delta)
                    &&& r.1 is Ok
                    &&& final(self).reply() == old(self).reply() + delta
                },
                Err(m) => {
                    &&& chat_views(r.0@) == Seq::<ChatEventView>::empty()
                    &&& r.1 is Err && is_engine_error(r.1->Err_0, m)
                    &&& final(self).reply() == old(self).reply()
                },
            },
            final(self).pending() == Seq::<u8>::empty(),
    {
        let mut raw: Vec<u8> = Vec::new();
        std::mem::swap(&mut self.buf, &mut raw);
        let mut events: Vec<ChatEvent> = Vec::new();
        assert(chat_views(events@) =~= seq![]);
        if raw.len() == 0 {
            return (events, Ok(()));
        }
        let line = trim(decode_lossy(raw.as_slice()).as_str());
        if line.unicode_len() == 0 {
            return (events, Ok(()));
        }
        match process_chat_line(line.as_str(), &mut self.full) {
            Err(e) => (events, Err(e)),
            Ok((_outcome, ev)) => {
                match ev {
                    Some(x) => {
                        events.push(x);
                        assert(chat_views(events@) =~= seq![x@]);
                    },
                    None => {},
                }
                (events, Ok(()))
            },
        }
    }
}

// ------------------------------------------------------------------------------------
// One-shot replies
// ------------------------------------------------------------------------------------
/// The health a successful `/api/version` reply reports: running, with its version
/// (`"?"` when none is given); an error when the body is not JSON.
pub open spec fn health_from(body: Seq<char>) -> Result<Option<Seq<char>>, Seq<char>> {
    match json_error(body) {
        Some(e) => Err("version parse: "@ + e),
        None => Ok(
            Some(
                match json_str_at(body, "/version"@) {
                    Some(v) => v,
                    None => "?"@,
                },
            ),
        ),
    }
}

/// Read a successful `/api/version` reply.
pub fn engine_health_from(body: &str) -> (r: Result<EngineHealth, AppError>)
    ensures
        match health_from(body@) {
            Ok(v) => r is Ok && (r->Ok_0 matches EngineHealth::Running { version } && Some(
                version@,
            ) == v),
            Err(m) => r is Err && is_engine_error(r->Err_0, m),
        },
{
    match parse_error(body) {
        Some(e) => Err(AppError::Engine(owned("version parse: ").concat(e.as_str()))),
        None => {
            let version = match str_at(body, "/version") {
                Some(v) => v,
                None => owned("?"),
            };
            Ok(EngineHealth::Running { version })
        },
    }
}

/// One model entry of `/api/tags`: name, size and modification time, each empty or zero
/// when missing.
pub open spec fn model_entry(m: Seq<char>) -> (Seq<char>, u64, Seq<char>) {
    (
        or_empty(json_str_at(m, "/name"@)),
        match json_u64_at(m, "/size"@) {
            Some(s) => s,
            None => 0,
        },
        or_empty(json_str_at(m, "/modified_at"@)),
    )
}

pub open spec fn model_entries(ms: Seq<Seq<char>>) -> Seq<(Seq<char>, u64, Seq<char>)> {
    ms.map_values(|m: Seq<char>| model_entry(m))
}

/// The models a successful `/api/tags` reply lists (none when `models` is missing).
pub open spec fn models_from(body: Seq<char>) -> Result<Seq<(Seq<char>, u64, Seq<char>)>, Seq<char>> {
    match json_error(body) {
        Some(e) => Err("tags parse: "@ + e),
        None => match json_items_at(body, "/models"@) {
            Some(ms) => Ok(model_entries(ms)),
            None => Ok(seq![]),
        },
    }
}

pub open spec fn model_info_view(m: ModelInfo) -> (Seq<char>, u64, Seq<char>) {
    (m.name@, m.size_bytes, m.modified_at@)
}

/// Read a successful `/api/tags` reply.
pub fn parse_model_list(body: &str) -> (r: Result<Vec<ModelInfo>, AppError>)
    ensures
        match models_from(body@) {
            Ok(v) => r is Ok && r->Ok_0@.map_values(|m: ModelInfo| model_info_view(m)) == v,
            Err(m) => r is Err && is_engine_error(r->Err_0, m),
        },
{
    match parse_error(body) {
        Some(e) => {
            return Err(AppError::Engine(owned("tags parse: ").concat(e.as_str())));
        },
        None => {},
    }
    let mut out: Vec<ModelInfo> = Vec::new();
    match items_at(body, "/models") {
        Some(models) => {
            let ghost mv = models@.map_values(|s: String| s@);
            let mut i: usize = 0;
            while i < models.len()
                invariant
                    i <= models@.len(),
                    mv == models@.map_values(|s: String| s@),
                    out@.map_values(|m: ModelInfo| model_info_view(m)) == model_entries(
                        mv.take(i as int),
                    ),
                decreases models@.len() - i,
            {
                let m = models[i].as_str();
                let info = ModelInfo {
                    name: or_empty_exec(str_at(m, "/name")),
                    size_bytes: or_zero(u64_at(m, "/size")),
                    modified_at: or_empty_exec(str_at(m, "/modified_at")),
                };
                let ghost before = out@;
                assert(model_info_view(info) == model_entry(m@));
                out.push(info);
                assert(out@ =~= before.push(info));
                assert(mv.take(i + 1) =~= mv.take(i as int).push(m@));
                assert(mv[i as int] == m@);
                assert(out@.map_values(|m: ModelInfo| model_info_view(m)) =~= before.map_values(
                    |m: ModelInfo| model_info_view(m),
                ).push(model_info_view(info)));
                assert(model_entries(mv.take(i + 1)) =~= model_entries(mv.take(i as int)).push(
                    model_entry(m@),
                ));
                assert(out@.map_values(|m: ModelInfo| model_info_view(m)) =~= model_entries(
                    mv.take(i + 1),
                ));
                i = i + 1;
            }
            assert(mv.take(models@.len() as int) =~= mv);
        },
        None => {
            assert(out@.map_values(|m: ModelInfo| model_info_view(m)) =~= seq![]);
        },
    }
    Ok(out)
}

} // verus!
