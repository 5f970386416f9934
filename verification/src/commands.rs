//! The app's shared state behind its commands: the single chat (history, streamed-event
//! buffer, whether a reply is streaming), the install lifecycle, and the views the
//! frontend polls. The app holds these behind locks and does the I/O; the transitions
//! are made here.
use std::collections::VecDeque;
use vstd::prelude::*;
use crate::cookbook::{
    COOKBOOK_AS_OF, cookbook_entry, find_by_tag, is_installed, model_for_tier, recommendation,
    tier_of_tag,
};
use crate::error::{AppError, error_message, is_engine_error};
use crate::text::{dec, drain_front, owned, u64_to_dec};
use crate::types::{
    ChatEvent, ChatEventView, ChatHistoryView, ChatMessage, InstallState, ModelDescriptor,
    ModelInfo, ProbeResult, PullProgress, Recommendation, chat_views,
};

verus! {

// ------------------------------------------------------------------------------------
// The recommended model
// ------------------------------------------------------------------------------------
/// The recommended model's tag for this machine, if the probe succeeded and found a tier.
pub open spec fn recommended_tag(probe: Option<ProbeResult>) -> Option<Seq<char>> {
    match probe {
        Some(p) => match p.tier {
            Some(t) => Some(cookbook_entry(t).tag),
            None => None,
        },
        None => None,
    }
}

/// The recommended model tag for this machine (chat runs on the recommendation).
pub fn recommended_model_tag(probe: Option<&ProbeResult>) -> (r: Option<String>)
    ensures
        match r {
            Some(s) => recommended_tag(match probe {
                Some(p) => Some(*p),
                None => None,
            }) == Some(s@),
            None => recommended_tag(match probe {
                Some(p) => Some(*p),
                None => None,
            }) is None,
        },
{
    match probe {
        Some(p) => match p.tier {
            Some(t) => Some(model_for_tier(t).tag),
            None => None,
        },
        None => None,
    }
}

/// The recommended model for this machine, or why there is none.
pub fn recommended_desc(probe: Option<&ProbeResult>) -> (r: Result<ModelDescriptor, AppError>)
    ensures
        match probe {
            Some(p) => match p.tier {
                Some(t) => r is Ok && r->Ok_0@ == cookbook_entry(t),
                None => r is Err && is_engine_error(r->Err_0, "no model for this machine"@),
            },
            None => r is Err && is_engine_error(r->Err_0, "no model for this machine"@),
        },
{
    let tag = match recommended_model_tag(probe) {
        Some(t) => t,
        None => {
            return Err(AppError::Engine(owned("no model for this machine")));
        },
    };
    proof {
        match probe {
            Some(p) => match p.tier {
                Some(t) => {
                    crate::cookbook::lemma_find_by_tag_inverts_model_for_tier(t);
                },
                None => {},
            },
            None => {},
        }
    }
    match find_by_tag(tag.as_str()) {
        Some(d) => Ok(d),
        None => Err(AppError::Engine(owned("unknown model: ").concat(tag.as_str()))),
    }
}

/// The recommendation view: the cookbook's recommendation, or, for a machine without a
/// tier, the probe alone with no model.
pub fn recommendation_or_default(probe: &ProbeResult, installed_tags: &[String]) -> (r:
    Recommendation)
    ensures
        r.probe == *probe,
        r.as_of@ == COOKBOOK_AS_OF@,
        probe.tier is None ==> r.model is None && !r.already_installed,
        probe.tier matches Some(t) ==> (r.model matches Some(m) && m@ == cookbook_entry(t))
            && r.already_installed == is_installed(cookbook_entry(t).tag, installed_tags@),
{
    match recommendation(probe, installed_tags) {
        Some(rec) => rec,
        None => Recommendation {
            probe: probe.clone(),
            model: None,
            as_of: owned(COOKBOOK_AS_OF),
            already_installed: false,
        },
    }
}

/// Whether the recommended model is among the engine's models.
pub fn recommended_installed(probe: Option<&ProbeResult>, models: &[ModelInfo]) -> (r: bool)
    ensures
        r == match recommended_tag(
            match probe {
                Some(p) => Some(*p),
                None => None,
            },
        ) {
            Some(tag) => exists|i: int| 0 <= i < models@.len() && #[trigger] models@[i].name@ == tag,
            None => false,
        },
{
    let tag = match recommended_model_tag(probe) {
        Some(t) => t,
        None => {
            return false;
        },
    };
    let ghost pv = match probe {
        Some(p) => Some(*p),
        None => None,
    };
    let mut i: usize = 0;
    while i < models.len()
        invariant
            i <= models@.len(),
            pv == match probe {
                Some(p) => Some(*p),
                None => None,
            },
            recommended_tag(pv) == Some(tag@),
            forall|k: int| 0 <= k < i ==> #[trigger] models@[k].name@ != tag@,
        decreases models@.len() - i,
    {
        if models[i].name == tag {
            assert(models@[i as int].name@ == tag@);
            return true;
        }
        i = i + 1;
    }
    false
}

/// The OpenAI-compatible endpoint of the engine sidecar on `port` (what the agent
/// harness's provider points at).
pub fn openai_base_url(port: u16) -> (r: String)
    ensures
        r@ == "http://127.0.0.1:"@ + dec(port as nat) + "/v1"@,
{
    owned("http://127.0.0.1:").concat(u64_to_dec(port as u64).as_str()).concat("/v1")
}

/// The base URL of a local server on `port`.
pub fn local_base_url(port: u16) -> (r: String)
    ensures
        r@ == "http://127.0.0.1:"@ + dec(port as nat),
{
    owned("http://127.0.0.1:").concat(u64_to_dec(port as u64).as_str())
}

// ------------------------------------------------------------------------------------
// Install
// ------------------------------------------------------------------------------------
/// The first sample of an install.
pub open spec fn starting_progress(p: PullProgress) -> bool {
    p.status@ == "starting"@ && p.completed == 0 && p.total == 0 && p.percent_tenths == 0
}

/// Begin installing `model`: it must be in the cookbook; the install is then running
/// from a `starting` sample.
pub fn start_install(state: &mut InstallState, model: &str) -> (r: Result<ModelDescriptor, AppError>)
    ensures
        match tier_of_tag(model@) {
            Some(t) => {
                &&& r is Ok && r->Ok_0@ == cookbook_entry(t)
                &&& *final(state) matches InstallState::Running { model: m, progress }
                &&& m@ == model@
                &&& starting_progress(progress)
            },
            None => r is Err && is_engine_error(r->Err_0, "unknown model: "@ + model@)
                && *final(state) == *old(state),
        },
{
    match find_by_tag(model) {
        Some(desc) => {
            *state = InstallState::Running {
                model: owned(model),
                progress: PullProgress {
                    status: owned("starting"),
                    completed: 0,
                    total: 0,
                    percent_tenths: 0,
                },
            };
            Ok(desc)
        },
        None => Err(AppError::Engine(owned("unknown model: ").concat(model))),
    }
}

/// A progress sample of the running install; ignored once the install is cancelled.
pub fn install_progress(state: &mut InstallState, model: &String, p: PullProgress, cancelled: bool)
    ensures
        cancelled ==> *final(state) == *old(state),
        !cancelled ==> *final(state) == (InstallState::Running { model: *model, progress: p }),
{
    if !cancelled {
        *state = InstallState::Running { model: model.clone(), progress: p };
    }
}

/// How an install ended: a cancelled install is `Cancelled` whatever the download did;
/// otherwise `Done` or `Failed` with the error's message.
pub fn install_outcome(model: String, cancelled: bool, outcome: Result<(), AppError>) -> (r:
    InstallState)
    ensures
        cancelled ==> r == (InstallState::Cancelled { model }),
        !cancelled && outcome is Ok ==> r == (InstallState::Done { model }),
        !cancelled && outcome is Err ==> (r matches InstallState::Failed { model: m, error }
            && m == model && error@ == error_message(outcome->Err_0)),
{
    if cancelled {
        InstallState::Cancelled { model }
    } else {
        match outcome {
            Ok(()) => InstallState::Done { model },
            Err(e) => InstallState::Failed { model, error: e.message() },
        }
    }
}

// ------------------------------------------------------------------------------------
// Chat
// ------------------------------------------------------------------------------------
/// The single active chat.
#[derive(Debug)]
pub struct ChatState {
    pub messages: Vec<ChatMessage>,
    /// Streamed events for the frontend poll, oldest first.
    pub output: VecDeque<ChatEvent>,
    pub streaming: bool,
}

impl ChatState {
    /// An empty chat, not streaming.
    pub fn new() -> (r: Self)
        ensures
            r.messages@ == Seq::<ChatMessage>::empty(),
            r.output@ == Seq::<ChatEvent>::empty(),
            !r.streaming,
    {
        ChatState { messages: Vec::new(), output: VecDeque::new(), streaming: false }
    }

    /// Whether the persisted history has to be loaded (the first view of a session).
    pub fn needs_history(&self) -> (r: bool)
        ensures
            r == (self.messages@.len() == 0),
    {
        self.messages.len() == 0
    }
}

/// The chat pane's starting state: with the persisted history `stored` loaded when the
/// chat has no messages yet, and the model it runs on.
pub fn get_chat(state: &mut ChatState, stored: Vec<ChatMessage>, model: Option<String>) -> (r:
    ChatHistoryView)
    ensures
        old(state).messages@.len() == 0 ==> final(state).messages@ == stored@,
        old(state).messages@.len() > 0 ==> final(state).messages@ == old(state).messages@,
        r.messages@ == final(state).messages@,
        r.model == model,
        final(state).output == old(state).output,
        final(state).streaming == old(state).streaming,
{
    if state.messages.len() == 0 {
        state.messages = stored;
    }
    let messages = state.messages.clone();
    assert(messages@ =~= state.messages@);
    ChatHistoryView { messages, model }
}

/// Send a user message at `now_ms`: refused while a reply is streaming; otherwise the
/// message joins the history (it is returned for persisting) and streaming begins.
pub fn send_chat(state: &mut ChatState, message: String, now_ms: i64) -> (r: Result<
    ChatMessage,
    AppError,
>)
    ensures
        old(state).streaming ==> (r is Err && is_engine_error(
            r->Err_0,
            "a reply is already streaming \u{2014} wait or cancel"@,
        ) && *final(state) == *old(state)),
        !old(state).streaming ==> {
            &&& r is Ok
            &&& r->Ok_0.role@ == "user"@
            &&& r->Ok_0.content == message
            &&& r->Ok_0.ts == now_ms
            &&& final(state).messages@ == old(state).messages@.push(r->Ok_0)
            &&& final(state).streaming
            &&& final(state).output == old(state).output
        },
{
    if state.streaming {
        return Err(AppError::Engine(owned("a reply is already streaming \u{2014} wait or cancel")));
    }
    let user_msg = ChatMessage { role: owned("user"), content: message, ts: now_ms };
    state.messages.push(user_msg.clone());
    state.streaming = true;
    Ok(user_msg)
}

/// A streamed event: buffered unless the turn was cancelled.
pub fn push_chat_event(state: &mut ChatState, event: ChatEvent, cancelled: bool)
    ensures
        cancelled ==> *final(state) == *old(state),
        !cancelled ==> (final(state).output@ == old(state).output@.push(event)
            && final(state).messages == old(state).messages
            && final(state).streaming == old(state).streaming),
{
    if !cancelled {
        state.output.push_back(event);
    }
}

/// The reply finished at `now_ms` (also after a cancel, with the partial text): streaming
/// ends; an error becomes an error event; a reply becomes a `Done` event and, unless empty,
/// joins the history (it is returned for persisting).
pub fn complete_chat(state: &mut ChatState, result: Result<String, AppError>, now_ms: i64) -> (r:
    Option<ChatMessage>)
    ensures
        !final(state).streaming,
        match result {
            Err(e) => {
                &&& r is None
                &&& final(state).messages == old(state).messages
                &&& chat_views(final(state).output@) == chat_views(old(state).output@).push(
                    ChatEventView::Error { message: error_message(e) },
                )
            },
            Ok(reply) => {
                &&& chat_views(final(state).output@) == chat_views(old(state).output@).push(
                    ChatEventView::Done { full: reply@ },
                )
                &&& reply@.len() == 0 ==> r is None && final(state).messages == old(state).messages
                &&& reply@.len() > 0 ==> {
                    &&& r matches Some(m)
                    &&& m.role@ == "assistant"@ && m.content == reply && m.ts == now_ms
                    &&& final(state).messages@ == old(state).messages@.push(m)
                }
            },
        },
{
    state.streaming = false;
    match result {
        Err(e) => {
            let ghost before = state.output@;
            state.output.push_back(ChatEvent::Error { message: e.message() });
            assert(chat_views(state.output@) =~= chat_views(before).push(
                ChatEventView::Error { message: error_message(e) },
            ));
            None
        },
        Ok(reply) => {
            let mut saved: Option<ChatMessage> = None;
            if reply.as_str().unicode_len() > 0 {
                let m = ChatMessage { role: owned("assistant"), content: reply.clone(), ts: now_ms };
                state.messages.push(m.clone());
                saved = Some(m);
            }
            let ghost before = state.output@;
            state.output.push_back(ChatEvent::Done { full: reply });
            assert(chat_views(state.output@) =~= chat_views(before).push(
                ChatEventView::Done { full: reply@ },
            ));
            saved
        },
    }
}

/// Drain the buffered events, oldest first, leaving the buffer empty.
pub fn poll_chat_output(state: &mut ChatState) -> (r: Vec<ChatEvent>)
    ensures
        r@ == old(state).output@,
        final(state).output@ == Seq::<ChatEvent>::empty(),
        final(state).messages == old(state).messages,
        final(state).streaming == old(state).streaming,
{
    drain_front(&mut state.output)
}

/// Start a new chat: refused while a reply is streaming; otherwise history and buffer
/// are cleared (the caller clears the persisted transcript).
pub fn new_chat(state: &mut ChatState) -> (r: Result<(), AppError>)
    ensures
        old(state).streaming ==> (r is Err && is_engine_error(
            r->Err_0,
            "wait for the current reply before starting a new chat"@,
        ) && *final(state) == *old(state)),
        !old(state).streaming ==> r is Ok && final(state).messages@ == Seq::<ChatMessage>::empty()
            && final(state).output@ == Seq::<ChatEvent>::empty() && !final(state).streaming,
{
    if state.streaming {
        return Err(AppError::Engine(owned("wait for the current reply before starting a new chat")));
    }
    state.messages.clear();
    state.output.clear();
    Ok(())
}

} // verus!
