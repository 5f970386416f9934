//! Agent capability: the tier floor and the smoke test. The smoke test is a scripted
//! agentic run in a temporary directory, scored pass/fail on its file effect; its record
//! is persisted by the caller so that the unlocked state survives restarts.
use vstd::prelude::*;
use crate::config::opt_str_view;
use crate::text::{owned, trim, trimmed, truncate, truncated};
use crate::types::SmokeResult;

verus! {

/// The tier floor for agent mode: 32 GB of RAM or more (RAM in tenths of a gigabyte, as
/// the probe shows it). Below it agent mode stays locked whatever the smoke test says.
pub fn tier_unlocks_agent(ram_tenths_gb: u64) -> (r: bool)
    ensures
        r == (ram_tenths_gb >= 320),
{
    ram_tenths_gb >= 320
}

/// How a smoke run ended.
pub enum SmokeRun {
    /// The run finished; the agent's final reply.
    Finished { reply: String },
    /// The run failed with this message.
    RunError { message: String },
    /// The run did not finish in time.
    Timeout,
}

/// The detail recorded for a smoke run.
pub open spec fn smoke_detail(run: SmokeRun) -> Seq<char> {
    match run {
        SmokeRun::Finished { reply } => "reply: "@ + truncated(reply@, 160),
        SmokeRun::RunError { message } => "run error: "@ + message@,
        SmokeRun::Timeout => "timeout"@,
    }
}

/// Whether `t` occurs in `s` as a run of consecutive characters (`str::contains`).
pub open spec fn contains_text(s: Seq<char>, t: Seq<char>) -> bool {
    exists|i: int| 0 <= i && i + t.len() <= s.len() && #[trigger] s.subrange(i, i + t.len()) == t
}

/// The smoke test's pass rule: the file the run was asked to write exists, and its
/// trimmed content contains `ok`.
pub open spec fn file_passes(content: Option<Seq<char>>) -> bool {
    match content {
        Some(c) => contains_text(trimmed(c), "ok"@),
        None => false,
    }
}

/// Score the file the run left behind: `content` is its text, or `None` when it could not
/// be read.
pub fn smoke_file_passes(content: Option<&str>) -> (b: bool)
    ensures
        b == file_passes(opt_str_view(content)),
{
    proof {
        reveal_strlit("ok");
    }
    let c = match content {
        Some(x) => {
            let t = trim(x);
            assert(opt_str_view(content) == Some(x@));
            t
        },
        None => {
            return false;
        },
    };
    assert(file_passes(opt_str_view(content)) == contains_text(c@, "ok"@));
    let n = c.as_str().unicode_len();
    if n < 2 {
        assert(!contains_text(c@, "ok"@));
        return false;
    }
    assert("ok"@ =~= seq!['o', 'k']);
    let mut i: usize = 0;
    while i < n - 1
        invariant
            n == c@.len(),
            n >= 2,
            i <= n - 1,
            "ok"@ == seq!['o', 'k'],
            file_passes(opt_str_view(content)) == contains_text(c@, "ok"@),
            forall|k: int| 0 <= k < i ==> #[trigger] c@.subrange(k, k + 2) != "ok"@,
        decreases n - i,
    {
        if c.as_str().get_char(i) == 'o' && c.as_str().get_char(i + 1) == 'k' {
            assert(c@.subrange(i as int, i + 2) =~= "ok"@);
            assert(c@.subrange(i as int, i as int + "ok"@.len()) == "ok"@);
            return true;
        }
        assert(c@.subrange(i as int, i + 2)[0] == c@[i as int]);
        assert(c@.subrange(i as int, i + 2)[1] == c@[i + 1]);
        i = i + 1;
    }
    false
}

/// The record of a smoke run: passed exactly when the file the run was asked to write
/// (`content`, or `None` when it could not be read) passes the rule.
pub fn smoke_result(content: Option<&str>, model: String, ts_ms: i64, run: SmokeRun) -> (r:
    SmokeResult)
    ensures
        r.passed == file_passes(opt_str_view(content)),
        r.model == model,
        r.ts_ms == ts_ms,
        r.detail@ == smoke_detail(run),
{
    let detail = match &run {
        SmokeRun::Finished { reply } => owned("reply: ").concat(truncate(reply.as_str(), 160).as_str()),
        SmokeRun::RunError { message } => owned("run error: ").concat(message.as_str()),
        SmokeRun::Timeout => owned("timeout"),
    };
    SmokeResult { passed: smoke_file_passes(content), model, ts_ms, detail }
}

} // verus!
