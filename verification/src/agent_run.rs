//! Agent run orchestration: the state the app keeps about the agent (chosen workspace,
//! the current run, buffered events, a pending permission, the last snapshot) and the
//! transitions between its states.
//!
//! The app owns the sidecar process, the cancel flag and the HTTP calls; each step below
//! is what it does to this state. Permission prompts are buffered; one left unanswered
//! for five minutes is denied.
use std::collections::VecDeque;
use vstd::prelude::*;
use crate::cookbook::{cookbook_entry, model_for_tier};
use crate::error::{AppError, error_message, is_engine_error};
use crate::smoke::tier_unlocks_agent;
use crate::text::{drain_front, owned};
use crate::types::{
    AgentEvent, AgentEventView, AgentStatusView, ModelDescriptor, ProbeResult, SmokeResult,
    agent_views,
};

verus! {

/// How long a permission prompt may stay unanswered before it is denied.
pub const AUTO_DENY_MS: i64 = 300000;

/// A permission prompt waiting for the user.
#[derive(Debug, PartialEq, Eq)]
pub struct PendingPermission {
    pub id: String,
    pub asked_at_ms: i64,
}

/// The app's agent state.
#[derive(Debug)]
pub struct AgentState {
    /// The folder agent runs may work in; empty until chosen.
    pub workspace: String,
    pub running: bool,
    /// Events buffered for the frontend poll, oldest first.
    pub output: VecDeque<AgentEvent>,
    pub pending: Option<PendingPermission>,
    pub base_url: Option<String>,
    pub session_id: Option<String>,
    /// The pre-run snapshot commit of the most recent run (review and undo).
    pub last_snapshot: Option<String>,
    pub last_reply: String,
}

/// The state before anything happened.
pub fn init() -> (s: AgentState)
    ensures
        s.workspace@ == Seq::<char>::empty(),
        !s.running,
        s.output@ == Seq::<AgentEvent>::empty(),
        s.pending is None,
        s.base_url is None,
        s.session_id is None,
        s.last_snapshot is None,
        s.last_reply@ == Seq::<char>::empty(),
{
    AgentState {
        workspace: String::new(),
        running: false,
        output: VecDeque::new(),
        pending: None,
        base_url: None,
        session_id: None,
        last_snapshot: None,
        last_reply: String::new(),
    }
}

/// Store the chosen workspace; `is_dir` tells whether the path names a directory.
pub fn set_workspace(state: &mut AgentState, path: String, is_dir: bool) -> (r: Result<
    (),
    AppError,
>)
    ensures
        !is_dir ==> (r is Err && is_engine_error(r->Err_0, "not a directory: "@ + path@)
            && *final(state) == *old(state)),
        is_dir ==> r is Ok && *final(state) == (AgentState { workspace: path, ..*old(state) }),
{
    if !is_dir {
        return Err(AppError::Engine(owned("not a directory: ").concat(path.as_str())));
    }
    state.workspace = path;
    Ok(())
}

/// Why agent mode is locked, if it is.
pub open spec fn locked_reason(tier_ok: bool, passed: bool) -> Option<Seq<char>> {
    if !tier_ok {
        Some("Agent mode needs 32 GB or more RAM."@)
    } else if !passed {
        Some("Run the capability smoke test to unlock agent mode."@)
    } else {
        None
    }
}

/// Whether the last recorded smoke test passed.
pub open spec fn smoke_passed(last: Option<SmokeResult>) -> bool {
    match last {
        Some(r) => r.passed,
        None => false,
    }
}

/// The agent view: run status, workspace, and the capability check (tier floor and a
/// passed smoke test) for the probed machine and the last smoke record.
pub fn status(state: &AgentState, probe: &ProbeResult, last_smoke: Option<SmokeResult>) -> (r:
    AgentStatusView)
    ensures
        r.running == state.running,
        state.workspace@.len() == 0 ==> r.workspace is None,
        state.workspace@.len() > 0 ==> r.workspace == Some(state.workspace),
        r.unlocked == (probe.ram_tenths_gb >= 320 && smoke_passed(last_smoke)),
        match r.locked_reason {
            Some(m) => locked_reason(probe.ram_tenths_gb >= 320, smoke_passed(last_smoke))
                == Some(m@),
            None => locked_reason(probe.ram_tenths_gb >= 320, smoke_passed(last_smoke)) is None,
        },
        r.locked_reason is None <==> r.unlocked,
        r.last_smoke == last_smoke,
{
    let tier_ok = tier_unlocks_agent(probe.ram_tenths_gb);
    let passed = match &last_smoke {
        Some(s) => s.passed,
        None => false,
    };
    let reason = if !tier_ok {
        Some(owned("Agent mode needs 32 GB or more RAM."))
    } else if !passed {
        Some(owned("Run the capability smoke test to unlock agent mode."))
    } else {
        None
    };
    let workspace = if state.workspace.as_str().unicode_len() == 0 {
        None
    } else {
        Some(state.workspace.clone())
    };
    AgentStatusView {
        running: state.running,
        workspace,
        unlocked: tier_ok && passed,
        locked_reason: reason,
        last_smoke,
    }
}

/// The model agent runs use: the recommendation for the machine's tier.
pub fn recommended_desc(probe: &ProbeResult) -> (r: Result<ModelDescriptor, AppError>)
    ensures
        probe.tier matches Some(t) ==> r is Ok && r->Ok_0@ == cookbook_entry(t),
        probe.tier is None ==> r is Err && is_engine_error(r->Err_0, "no tier for this machine"@),
{
    match probe.tier {
        Some(t) => Ok(model_for_tier(t)),
        None => Err(AppError::Engine(owned("no tier for this machine"))),
    }
}

/// A permission denied for lack of an answer: its id, and where to send the denial.
#[derive(Debug)]
pub struct AutoDeny {
    pub id: String,
    pub base_url: Option<String>,
    pub session_id: Option<String>,
}

/// What a poll drains.
#[derive(Debug)]
pub struct Drained {
    pub auto_deny: Option<AutoDeny>,
    pub events: Vec<AgentEvent>,
}

/// Whether a prompt asked at `asked_at_ms` has waited longer than the limit at `now_ms`.
pub open spec fn expired(asked_at_ms: i64, now_ms: i64) -> bool {
    now_ms - asked_at_ms > AUTO_DENY_MS
}

/// The message appended when a prompt is denied for lack of an answer.
pub open spec fn auto_denied_message() -> Seq<char> {
    "Permission auto-denied after 5 minutes."@
}

/// Drain the buffered events at time `now_ms`. A permission prompt unanswered for more
/// than five minutes is denied first: it is cleared, an error event is added, and the
/// caller is told where to send the denial. Every buffered event is returned, oldest
/// first, and the buffer is left empty.
pub fn drain_output(state: &mut AgentState, now_ms: i64) -> (r: Drained)
    ensures
        final(state).output@ == Seq::<AgentEvent>::empty(),
        final(state).workspace == old(state).workspace,
        final(state).running == old(state).running,
        final(state).base_url == old(state).base_url,
        final(state).session_id == old(state).session_id,
        final(state).last_snapshot == old(state).last_snapshot,
        final(state).last_reply == old(state).last_reply,
        match old(state).pending {
            Some(p) => if expired(p.asked_at_ms, now_ms) {
                &&& r.auto_deny matches Some(a) && a.id == p.id && a.base_url == old(
                    state,
                ).base_url && a.session_id == old(state).session_id
                &&& final(state).pending is None
                &&& agent_views(r.events@) == agent_views(old(state).output@).push(
                    AgentEventView::Error { message: auto_denied_message() },
                )
            } else {
                &&& r.auto_deny is None
                &&& final(state).pending == old(state).pending
                &&& r.events@ == old(state).output@
            },
            None => {
                &&& r.auto_deny is None
                &&& final(state).pending is None
                &&& r.events@ == old(state).output@
            },
        },
{
    let expired_now = match &state.pending {
        Some(p) => (now_ms as i128) - (p.asked_at_ms as i128) > (AUTO_DENY_MS as i128),
        None => false,
    };
    let mut auto_deny: Option<AutoDeny> = None;
    if expired_now {
        let p = state.pending.take();
        match p {
            Some(p) => {
                auto_deny = Some(
                    AutoDeny {
                        id: p.id,
                        base_url: state.base_url.clone(),
                        session_id: state.session_id.clone(),
                    },
                );
            },
            None => {},
        }
        let ghost before = state.output@;
        state.output.push_back(AgentEvent::Error { message: owned("Permission auto-denied after 5 minutes.") });
        assert(agent_views(state.output@) =~= agent_views(before).push(
            AgentEventView::Error { message: auto_denied_message() },
        ));
    }
    let events = drain_front(&mut state.output);
    Drained { auto_deny, events }
}

/// A run may start only when none is active and a workspace is chosen.
pub fn check_can_run(state: &AgentState) -> (r: Result<(), AppError>)
    ensures
        state.running ==> r is Err && is_engine_error(r->Err_0, "an agent run is already active"@),
        !state.running && state.workspace@.len() == 0 ==> r is Err && is_engine_error(
            r->Err_0,
            "choose a workspace first"@,
        ),
        !state.running && state.workspace@.len() > 0 ==> r is Ok,
{
    if state.running {
        return Err(AppError::Engine(owned("an agent run is already active")));
    }
    if state.workspace.as_str().unicode_len() == 0 {
        return Err(AppError::Engine(owned("choose a workspace first")));
    }
    Ok(())
}

/// A locked agent refuses the run, with the reason it is locked.
pub fn check_unlocked(status: &AgentStatusView) -> (r: Result<(), AppError>)
    ensures
        status.unlocked ==> r is Ok,
        !status.unlocked ==> r is Err && is_engine_error(
            r->Err_0,
            match status.locked_reason {
                Some(m) => m@,
                None => "agent mode locked"@,
            },
        ),
{
    if status.unlocked {
        Ok(())
    } else {
        match &status.locked_reason {
            Some(m) => Err(AppError::Engine(m.clone())),
            None => Err(AppError::Engine(owned("agent mode locked"))),
        }
    }
}

/// A run starts after its pre-run snapshot `commit`: the snapshot is recorded, the
/// previous reply and buffered events are dropped, and the run is marked active.
pub fn begin_run(state: &mut AgentState, commit: String)
    ensures
        *final(state) == (AgentState {
            last_snapshot: Some(commit),
            last_reply: final(state).last_reply,
            output: final(state).output,
            running: true,
            ..*old(state)
        }),
        final(state).last_reply@ == Seq::<char>::empty(),
        final(state).output@ == Seq::<AgentEvent>::empty(),
{
    state.last_snapshot = Some(commit);
    state.last_reply = String::new();
    state.output.clear();
    state.running = true;
}

/// The session of the active run is known: where the sidecar listens and its id.
pub fn attach_session(state: &mut AgentState, base_url: String, session_id: String)
    ensures
        *final(state) == (AgentState {
            base_url: Some(base_url),
            session_id: Some(session_id),
            ..*old(state)
        }),
{
    state.base_url = Some(base_url);
    state.session_id = Some(session_id);
}

/// Buffer an event of the run at `now_ms`; a permission prompt becomes the pending one.
pub fn record_event(state: &mut AgentState, event: AgentEvent, now_ms: i64)
    ensures
        final(state).output@ == old(state).output@.push(event),
        event matches AgentEvent::Permission { id, .. } ==> final(state).pending == Some(
            PendingPermission { id, asked_at_ms: now_ms },
        ),
        !(event is Permission) ==> final(state).pending == old(state).pending,
        final(state).workspace == old(state).workspace,
        final(state).running == old(state).running,
        final(state).base_url == old(state).base_url,
        final(state).session_id == old(state).session_id,
        final(state).last_snapshot == old(state).last_snapshot,
        final(state).last_reply == old(state).last_reply,
{
    match &event {
        AgentEvent::Permission { id, .. } => {
            state.pending = Some(PendingPermission { id: id.clone(), asked_at_ms: now_ms });
        },
        _ => {},
    }
    state.output.push_back(event);
}

/// Whether the last buffered event is an error.
pub open spec fn ends_with_error(output: Seq<AgentEvent>) -> bool {
    output.len() > 0 && output.last() is Error
}

/// Finalize a run: it is no longer active and its session is forgotten. A failure is
/// reported as an error event unless the last buffered event already is one.
pub fn finish(state: &mut AgentState, result: Option<Result<(), AppError>>)
    ensures
        !final(state).running,
        final(state).base_url is None,
        final(state).session_id is None,
        final(state).pending is None,
        final(state).workspace == old(state).workspace,
        final(state).last_snapshot == old(state).last_snapshot,
        final(state).last_reply == old(state).last_reply,
        match result {
            Some(Err(e)) => if ends_with_error(old(state).output@) {
                final(state).output@ == old(state).output@
            } else {
                agent_views(final(state).output@) == agent_views(old(state).output@).push(
                    AgentEventView::Error { message: error_message(e) },
                )
            },
            _ => final(state).output@ == old(state).output@,
        },
{
    state.running = false;
    state.base_url = None;
    state.session_id = None;
    state.pending = None;
    match result {
        Some(Err(e)) => {
            let n = state.output.len();
            let dup = n > 0 && match &state.output[n - 1] {
                AgentEvent::Error { .. } => true,
                _ => false,
            };
            if !dup {
                let ghost before = state.output@;
                state.output.push_back(AgentEvent::Error { message: e.message() });
                assert(agent_views(state.output@) =~= agent_views(before).push(
                    AgentEventView::Error { message: error_message(e) },
                ));
            }
        },
        _ => {},
    }
}

/// A run that failed before its event stream: report the error and finalize.
pub fn fail_run(state: &mut AgentState, error: &AppError)
    ensures
        !final(state).running,
        final(state).base_url is None,
        final(state).session_id is None,
        final(state).pending is None,
        agent_views(final(state).output@) == agent_views(old(state).output@).push(
            AgentEventView::Error { message: error_message(*error) },
        ),
        final(state).workspace == old(state).workspace,
        final(state).last_snapshot == old(state).last_snapshot,
        final(state).last_reply == old(state).last_reply,
{
    let ghost before = state.output@;
    state.output.push_back(AgentEvent::Error { message: error.message() });
    assert(agent_views(state.output@) =~= agent_views(before).push(
        AgentEventView::Error { message: error_message(*error) },
    ));
    finish(state, None);
}

/// Where and how to answer a permission prompt.
#[derive(Debug)]
pub struct PermissionReply {
    pub base_url: String,
    pub session_id: String,
    /// `"once"` to allow, `"reject"` to deny.
    pub response: String,
}

/// Answer the pending permission (allow once, or reject). Without an active run there is
/// nothing to answer and the state is left as it is.
pub fn respond_permission(state: &mut AgentState, allow: bool) -> (r: Result<
    PermissionReply,
    AppError,
>)
    ensures
        match (old(state).base_url, old(state).session_id) {
            (Some(b), Some(s)) => {
                &&& r is Ok
                &&& r->Ok_0.base_url == b
                &&& r->Ok_0.session_id == s
                &&& r->Ok_0.response@ == if allow {
                    "once"@
                } else {
                    "reject"@
                }
                &&& *final(state) == (AgentState { pending: None, ..*old(state) })
            },
            _ => r is Err && is_engine_error(r->Err_0, "no active agent run"@) && *final(state)
                == *old(state),
        },
{
    let base = match &state.base_url {
        Some(b) => b.clone(),
        None => {
            return Err(AppError::Engine(owned("no active agent run")));
        },
    };
    let sid = match &state.session_id {
        Some(s) => s.clone(),
        None => {
            return Err(AppError::Engine(owned("no active agent run")));
        },
    };
    state.pending = None;
    let response = if allow {
        owned("once")
    } else {
        owned("reject")
    };
    Ok(PermissionReply { base_url: base, session_id: sid, response })
}

/// The session to abort when the user cancels, if a run has one.
pub fn cancel_target(state: &AgentState) -> (r: Option<(String, String)>)
    ensures
        match (state.base_url, state.session_id) {
            (Some(b), Some(s)) => r == Some((b, s)),
            _ => r is None,
        },
{
    match (&state.base_url, &state.session_id) {
        (Some(b), Some(s)) => Some((b.clone(), s.clone())),
        _ => None,
    }
}

/// Restore the workspace to the most recent run's pre-run snapshot: which workspace,
/// and which commit.
pub fn restore_snapshot(state: &AgentState) -> (r: Result<(String, String), AppError>)
    ensures
        state.last_snapshot matches Some(c) ==> r == Ok::<(String, String), AppError>(
            (state.workspace, c),
        ),
        state.last_snapshot is None ==> r is Err && is_engine_error(
            r->Err_0,
            "no snapshot for this workspace"@,
        ),
{
    match &state.last_snapshot {
        Some(c) => Ok((state.workspace.clone(), c.clone())),
        None => Err(AppError::Engine(owned("no snapshot for this workspace"))),
    }
}

} // verus!
