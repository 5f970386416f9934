//! The values Flint's logic passes around: hardware tiers, model descriptors, probe
//! results, engine and install state, chat and agent events.
//!
//! Quantities that a user sees as decimals are held as integers: a model size and a
//! RAM amount in tenths of a gigabyte, a progress percentage in tenths of a percent.
use vstd::prelude::*;

verus! {

/// Hardware capability tier, named after the RAM class it serves.
#[derive(Debug, Clone, Copy, PartialEq, Eq, Structural)]
pub enum Tier {
    Gb8,
    Gb16,
    Gb32,
    Gb64,
}

/// Position of a tier in the table, smallest first.
pub open spec fn tier_rank(t: Tier) -> int {
    match t {
        Tier::Gb8 => 0,
        Tier::Gb16 => 1,
        Tier::Gb32 => 2,
        Tier::Gb64 => 3,
    }
}

pub open spec fn tier_label(t: Tier) -> Seq<char> {
    match t {
        Tier::Gb8 => "8 GB"@,
        Tier::Gb16 => "16 GB"@,
        Tier::Gb32 => "32 GB"@,
        Tier::Gb64 => "64 GB+"@,
    }
}

impl Tier {
    /// The tier's name as the user sees it.
    pub fn label(&self) -> (r: &'static str)
        ensures
            r@ == tier_label(*self),
    {
        match self {
            Tier::Gb8 => "8 GB",
            Tier::Gb16 => "16 GB",
            Tier::Gb32 => "32 GB",
            Tier::Gb64 => "64 GB+",
        }
    }
}

/// Whether agent mode may run on a tier's model.
#[derive(Debug, Clone, Copy, PartialEq, Eq, Structural)]
pub enum AgentCapability {
    /// Agent mode is gated by the tier floor and the smoke test; every row ships locked.
    Locked,
}

/// What a tier's single recommended model looks like.
#[derive(Debug)]
pub struct ModelDescriptor {
    pub tag: String,
    pub family: String,
    /// Download size in tenths of a gigabyte (22.3 GB is 223).
    pub size_tenths_gb: u32,
    pub license: String,
    pub source: String,
    pub num_ctx: u32,
    /// Chain-of-thought off: the chat pane has no parameters.
    pub think: bool,
    pub agent: AgentCapability,
}

/// The abstract value of a model descriptor.
pub struct ModelDescriptorView {
    pub tag: Seq<char>,
    pub family: Seq<char>,
    pub size_tenths_gb: u32,
    pub license: Seq<char>,
    pub source: Seq<char>,
    pub num_ctx: u32,
    pub think: bool,
    pub agent: AgentCapability,
}

impl View for ModelDescriptor {
    type V = ModelDescriptorView;

    open spec fn view(&self) -> ModelDescriptorView {
        ModelDescriptorView {
            tag: self.tag@,
            family: self.family@,
            size_tenths_gb: self.size_tenths_gb,
            license: self.license@,
            source: self.source@,
            num_ctx: self.num_ctx,
            think: self.think,
            agent: self.agent,
        }
    }
}

impl Clone for ModelDescriptor {
    fn clone(&self) -> (r: Self)
        ensures
            r == *self,
    {
        ModelDescriptor {
            tag: self.tag.clone(),
            family: self.family.clone(),
            size_tenths_gb: self.size_tenths_gb,
            license: self.license.clone(),
            source: self.source.clone(),
            num_ctx: self.num_ctx,
            think: self.think,
            agent: self.agent,
        }
    }
}

/// Result of the hardware probe.
#[derive(Debug)]
pub struct ProbeResult {
    pub chip: String,
    /// Physical RAM in tenths of a gigabyte (GiB), rounded half up.
    pub ram_tenths_gb: u64,
    pub tier: Option<Tier>,
    pub supported: bool,
    pub unsupported_reason: Option<String>,
}

impl Clone for ProbeResult {
    fn clone(&self) -> (r: Self)
        ensures
            r == *self,
    {
        ProbeResult {
            chip: self.chip.clone(),
            ram_tenths_gb: self.ram_tenths_gb,
            tier: self.tier,
            supported: self.supported,
            unsupported_reason: match &self.unsupported_reason {
                Some(s) => Some(s.clone()),
                None => None,
            },
        }
    }
}

/// Full recommendation for the current machine.
#[derive(Debug)]
pub struct Recommendation {
    pub probe: ProbeResult,
    pub model: Option<ModelDescriptor>,
    /// The date of the pinned table, shown so that staleness is visible.
    pub as_of: String,
    pub already_installed: bool,
}

/// Engine reachability.
#[derive(Debug, PartialEq, Eq)]
pub enum EngineHealth {
    Running { version: String },
    NotRunning,
}

/// A model present in the engine's store.
#[derive(Debug, PartialEq, Eq)]
pub struct ModelInfo {
    pub name: String,
    pub size_bytes: u64,
    pub modified_at: String,
}

/// Engine status for the settings view.
#[derive(Debug)]
pub struct EngineStatusView {
    pub health: EngineHealth,
    pub models: Vec<ModelInfo>,
    pub recommended_installed: bool,
}

/// One progress sample of a model download.
#[derive(Debug, PartialEq, Eq)]
pub struct PullProgress {
    pub status: String,
    pub completed: u64,
    pub total: u64,
    /// Completion in tenths of a percent (100.0 % is 1000).
    pub percent_tenths: u128,
}

/// The abstract value of a progress sample.
pub struct PullProgressView {
    pub status: Seq<char>,
    pub completed: u64,
    pub total: u64,
    pub percent_tenths: u128,
}

impl View for PullProgress {
    type V = PullProgressView;

    open spec fn view(&self) -> PullProgressView {
        PullProgressView {
            status: self.status@,
            completed: self.completed,
            total: self.total,
            percent_tenths: self.percent_tenths,
        }
    }
}

/// The views of a sequence of progress samples.
pub open spec fn progress_views(v: Seq<PullProgress>) -> Seq<PullProgressView> {
    v.map_values(|p: PullProgress| p@)
}

/// Completion in tenths of a percent, rounded half up; zero when the total is unknown.
pub open spec fn percent_tenths(completed: nat, total: nat) -> nat {
    if total == 0 {
        0
    } else {
        (completed * 2000 + total) / (total * 2)
    }
}

/// `completed / total` as a percentage rounded to a tenth, held in tenths of a percent.
pub fn pct(completed: u64, total: u64) -> (r: u128)
    ensures
        r == percent_tenths(completed as nat, total as nat),
{
    if total == 0 {
        return 0;
    }
    let c = completed as u128;
    let t = total as u128;
    assert(c * 2000 + t <= 0xffff_ffff_ffff_ffff_ffff_ffff_ffff_ffff) by (nonlinear_arith)
        requires
            c <= 0xffff_ffff_ffff_ffff,
            t <= 0xffff_ffff_ffff_ffff,
    ;
    (c * 2000 + t) / (t * 2)
}

/// A progress percentage stays within 100% while the count stays within the total, and
/// a complete count shows exactly 100%.
pub proof fn lemma_percent_bounds(completed: nat, total: nat)
    requires
        completed <= total,
    ensures
        percent_tenths(completed, total) <= 1000,
        0 < total && completed == total ==> percent_tenths(completed, total) == 1000,
{
    if total > 0 {
        assert((completed * 2000 + total) / (total * 2) <= 1000) by (nonlinear_arith)
            requires
                completed <= total,
                total > 0,
        ;
        if completed == total {
            assert((total * 2000 + total) / (total * 2) == 1000) by (nonlinear_arith)
                requires
                    total > 0,
            ;
        }
    }
}

impl Clone for PullProgress {
    fn clone(&self) -> (r: Self)
        ensures
            r == *self,
    {
        PullProgress {
            status: self.status.clone(),
            completed: self.completed,
            total: self.total,
            percent_tenths: self.percent_tenths,
        }
    }
}

/// Install lifecycle, shared between the download task and the polled frontend.
#[derive(Debug, PartialEq, Eq)]
pub enum InstallState {
    Idle,
    Running { model: String, progress: PullProgress },
    Done { model: String },
    Failed { model: String, error: String },
    Cancelled { model: String },
}

impl Clone for InstallState {
    fn clone(&self) -> (r: Self)
        ensures
            r == *self,
    {
        match self {
            InstallState::Idle => InstallState::Idle,
            InstallState::Running { model, progress } => InstallState::Running {
                model: model.clone(),
                progress: progress.clone(),
            },
            InstallState::Done { model } => InstallState::Done { model: model.clone() },
            InstallState::Failed { model, error } => InstallState::Failed {
                model: model.clone(),
                error: error.clone(),
            },
            InstallState::Cancelled { model } => InstallState::Cancelled { model: model.clone() },
        }
    }
}

/// One chat message.
#[derive(Debug, PartialEq, Eq)]
pub struct ChatMessage {
    pub role: String,
    pub content: String,
    pub ts: i64,
}

impl Clone for ChatMessage {
    fn clone(&self) -> (r: Self)
        ensures
            r == *self,
    {
        ChatMessage { role: self.role.clone(), content: self.content.clone(), ts: self.ts }
    }
}

/// A streamed chat event, buffered for the frontend poll.
#[derive(Debug, PartialEq, Eq)]
pub enum ChatEvent {
    Delta { content: String },
    Done { full: String },
    Error { message: String },
}

/// The abstract value of a chat event.
pub enum ChatEventView {
    Delta { content: Seq<char> },
    Done { full: Seq<char> },
    Error { message: Seq<char> },
}

impl View for ChatEvent {
    type V = ChatEventView;

    open spec fn view(&self) -> ChatEventView {
        match self {
            ChatEvent::Delta { content } => ChatEventView::Delta { content: content@ },
            ChatEvent::Done { full } => ChatEventView::Done { full: full@ },
            ChatEvent::Error { message } => ChatEventView::Error { message: message@ },
        }
    }
}

/// The chat pane's starting state.
#[derive(Debug)]
pub struct ChatHistoryView {
    pub messages: Vec<ChatMessage>,
    pub model: Option<String>,
}

/// A buffered agent-run event, drained by the frontend poll.
#[derive(Debug, PartialEq, Eq)]
pub enum AgentEvent {
    Delta { text: String },
    ToolCall { call_id: String, tool: String, input: String },
    ToolResult { call_id: String, tool: String, ok: bool },
    Permission { id: String, permission: String, pattern: String },
    Done { text: String },
    Error { message: String },
}

/// The abstract value of an agent event.
pub enum AgentEventView {
    Delta { text: Seq<char> },
    ToolCall { call_id: Seq<char>, tool: Seq<char>, input: Seq<char> },
    ToolResult { call_id: Seq<char>, tool: Seq<char>, ok: bool },
    Permission { id: Seq<char>, permission: Seq<char>, pattern: Seq<char> },
    Done { text: Seq<char> },
    Error { message: Seq<char> },
}

impl View for AgentEvent {
    type V = AgentEventView;

    open spec fn view(&self) -> AgentEventView {
        match self {
            AgentEvent::Delta { text } => AgentEventView::Delta { text: text@ },
            AgentEvent::ToolCall { call_id, tool, input } => AgentEventView::ToolCall {
                call_id: call_id@,
                tool: tool@,
                input: input@,
            },
            AgentEvent::ToolResult { call_id, tool, ok } => AgentEventView::ToolResult {
                call_id: call_id@,
                tool: tool@,
                ok: *ok,
            },
            AgentEvent::Permission { id, permission, pattern } => AgentEventView::Permission {
                id: id@,
                permission: permission@,
                pattern: pattern@,
            },
            AgentEvent::Done { text } => AgentEventView::Done { text: text@ },
            AgentEvent::Error { message } => AgentEventView::Error { message: message@ },
        }
    }
}

/// The views of a sequence of agent events.
pub open spec fn agent_views(v: Seq<AgentEvent>) -> Seq<AgentEventView> {
    v.map_values(|e: AgentEvent| e@)
}

/// The views of a sequence of chat events.
pub open spec fn chat_views(v: Seq<ChatEvent>) -> Seq<ChatEventView> {
    v.map_values(|e: ChatEvent| e@)
}

/// Result of the capability smoke test, persisted across launches.
#[derive(Debug, PartialEq, Eq)]
pub struct SmokeResult {
    pub passed: bool,
    pub model: String,
    pub ts_ms: i64,
    pub detail: String,
}

impl Clone for SmokeResult {
    fn clone(&self) -> (r: Self)
        ensures
            r == *self,
    {
        SmokeResult {
            passed: self.passed,
            model: self.model.clone(),
            ts_ms: self.ts_ms,
            detail: self.detail.clone(),
        }
    }
}

/// The agent view's state: run status, the chosen workspace, and the capability check.
#[derive(Debug)]
pub struct AgentStatusView {
    pub running: bool,
    pub workspace: Option<String>,
    /// Tier floor (32 GB and up) and a passed smoke test.
    pub unlocked: bool,
    pub locked_reason: Option<String>,
    pub last_smoke: Option<SmokeResult>,
}

/// One reviewable agent run: the pre-run snapshot marker and the run's final text.
#[derive(Debug)]
pub struct AgentRunView {
    pub run_id: String,
    pub text: String,
    pub snapshot_ts_ms: i64,
    pub changed_files: Vec<String>,
}

} // verus!
