//! The vocabulary that every agent's output is normalized into.
use crate::json;
use crate::json::{Json, JsonView};
use crate::text;
use crate::text::push_text;
use vstd::prelude::*;

verus! {

/// An amount of money in dollars.
///
/// Agents report amounts as doubles. This library never computes with them: it
/// keeps the bit pattern that was reported, and which sum or difference of
/// reported amounts is meant.
#[derive(Debug, PartialEq, Eq)]
pub enum Cost {
    /// A reported double, by its bit pattern.
    Reported(u64),
    /// The first amount plus the second.
    Sum(Box<Cost>, Box<Cost>),
    /// The first amount less the second (nothing counts as zero), at least zero.
    Excess(Box<Cost>, Option<Box<Cost>>),
}

impl Clone for Cost {
    fn clone(&self) -> (copy: Cost)
        ensures
            copy == *self,
        decreases self,
    {
        match self {
            Cost::Reported(bits) => Cost::Reported(*bits),
            Cost::Sum(a, b) => Cost::Sum(Box::new((**a).clone()), Box::new((**b).clone())),
            Cost::Excess(a, b) => Cost::Excess(
                Box::new((**a).clone()),
                match b {
                    Some(b) => Some(Box::new((**b).clone())),
                    None => None,
                },
            ),
        }
    }
}

/// A copy of an optional amount.
pub fn copy_cost(c: &Option<Cost>) -> (copy: Option<Cost>)
    ensures
        copy == *c,
{
    match c {
        Some(c) => Some(c.clone()),
        None => None,
    }
}

/// The sum of two optional amounts; nothing adds nothing.
pub open spec fn cost_sum(a: Option<Cost>, b: Option<Cost>) -> Option<Cost> {
    match (a, b) {
        (Some(a), Some(b)) => Some(Cost::Sum(Box::new(a), Box::new(b))),
        (None, b) => b,
        (a, None) => a,
    }
}

/// What of `total` is beyond `emitted`.
pub open spec fn cost_excess(total: Option<Cost>, emitted: Option<Cost>) -> Option<Cost> {
    match total {
        Some(total) => Some(
            Cost::Excess(
                Box::new(total),
                match emitted {
                    Some(e) => Some(Box::new(e)),
                    None => None,
                },
            ),
        ),
        None => None,
    }
}

/// The amount that a double with this bit pattern reports.
pub open spec fn reported(bits: Option<u64>) -> Option<Cost> {
    match bits {
        Some(bits) => Some(Cost::Reported(bits)),
        None => None,
    }
}

/// The amount that a double with this bit pattern reports.
pub fn reported_cost(bits: Option<u64>) -> (cost: Option<Cost>)
    ensures
        cost == reported(bits),
{
    match bits {
        Some(bits) => Some(Cost::Reported(bits)),
        None => None,
    }
}

/// Whether a process reported a failure.
pub open spec fn bad_exit(exit_code: Option<i32>) -> bool {
    exit_code is Some && exit_code != Some(0i32)
}

/// Whether a process reported a failure.
pub fn exited_badly(exit_code: Option<i32>) -> (bad: bool)
    ensures
        bad == bad_exit(exit_code),
{
    match exit_code {
        Some(code) => code != 0,
        None => false,
    }
}

/// Token counters and cost of some model work.
#[derive(Debug, PartialEq, Eq)]
pub struct AgentUsage {
    pub input_tokens: u64,
    pub output_tokens: u64,
    pub reasoning_tokens: u64,
    pub cache_read_tokens: u64,
    pub cache_write_tokens: u64,
    pub cost_usd: Option<Cost>,
}

impl Clone for AgentUsage {
    fn clone(&self) -> (copy: AgentUsage)
        ensures
            copy == *self,
    {
        AgentUsage {
            input_tokens: self.input_tokens,
            output_tokens: self.output_tokens,
            reasoning_tokens: self.reasoning_tokens,
            cache_read_tokens: self.cache_read_tokens,
            cache_write_tokens: self.cache_write_tokens,
            cost_usd: copy_cost(&self.cost_usd),
        }
    }
}

impl Default for AgentUsage {
    fn default() -> (usage: AgentUsage)
        ensures
            usage == no_usage(),
    {
        AgentUsage {
            input_tokens: 0,
            output_tokens: 0,
            reasoning_tokens: 0,
            cache_read_tokens: 0,
            cache_write_tokens: 0,
            cost_usd: None,
        }
    }
}

/// No work at all.
pub open spec fn no_usage() -> AgentUsage {
    AgentUsage {
        input_tokens: 0,
        output_tokens: 0,
        reasoning_tokens: 0,
        cache_read_tokens: 0,
        cache_write_tokens: 0,
        cost_usd: None,
    }
}

/// The sum of two counters, at most the largest counter.
pub open spec fn plus(a: u64, b: u64) -> u64 {
    if a + b > u64::MAX {
        u64::MAX
    } else {
        (a + b) as u64
    }
}

impl AgentUsage {
    /// This work and `other` together.
    pub open spec fn merged(self, other: AgentUsage) -> AgentUsage {
        AgentUsage {
            input_tokens: plus(self.input_tokens, other.input_tokens),
            output_tokens: plus(self.output_tokens, other.output_tokens),
            reasoning_tokens: plus(self.reasoning_tokens, other.reasoning_tokens),
            cache_read_tokens: plus(self.cache_read_tokens, other.cache_read_tokens),
            cache_write_tokens: plus(self.cache_write_tokens, other.cache_write_tokens),
            cost_usd: cost_sum(self.cost_usd, other.cost_usd),
        }
    }

    /// Adds `other` to this work.
    pub fn merge(&mut self, other: &AgentUsage)
        ensures
            *final(self) == old(self).merged(*other),
    {
        self.input_tokens = self.input_tokens.saturating_add(other.input_tokens);
        self.output_tokens = self.output_tokens.saturating_add(other.output_tokens);
        self.reasoning_tokens = self.reasoning_tokens.saturating_add(other.reasoning_tokens);
        self.cache_read_tokens = self.cache_read_tokens.saturating_add(other.cache_read_tokens);
        self.cache_write_tokens = self.cache_write_tokens.saturating_add(other.cache_write_tokens);
        let mine = self.cost_usd.take();
        self.cost_usd =
        match (mine, &other.cost_usd) {
            (Some(a), Some(b)) => Some(Cost::Sum(Box::new(a), Box::new(b.clone()))),
            (None, Some(b)) => Some(b.clone()),
            (mine, None) => mine,
        };
    }

    /// Whether this reports nothing: no tokens and no cost.
    pub fn is_empty(&self) -> (empty: bool)
        ensures
            empty == (*self == no_usage()),
    {
        self.input_tokens == 0 && self.output_tokens == 0 && self.reasoning_tokens == 0
            && self.cache_read_tokens == 0 && self.cache_write_tokens == 0
            && self.cost_usd.is_none()
    }
}

/// How a run ended.
#[derive(Debug, Clone, Copy, PartialEq, Eq, Structural)]
pub enum IdleOutcome {
    Succeeded,
    Failed,
    Interrupted,
}

/// Who wrote a message.
#[derive(Debug, Clone, Copy, PartialEq, Eq, Structural)]
pub enum MessageRole {
    System,
    User,
    Assistant,
    Tool,
}

/// What a blocked agent waits for.
#[derive(Debug, Clone, Copy, PartialEq, Eq, Structural)]
pub enum AwaitingInputKind {
    Permission,
    Confirmation,
    Choice,
    Pinentry,
    Other,
}

/// A question that an agent asks its user.
#[derive(Debug, PartialEq, Eq)]
pub struct InputRequest {
    pub id: String,
    pub kind: AwaitingInputKind,
    pub message: String,
    pub options: Vec<String>,
    pub allow_always: bool,
}

/// Why a session waits for its user.
#[derive(Debug, PartialEq, Eq)]
pub struct AwaitingInputReason {
    pub kind: AwaitingInputKind,
    pub message: String,
    pub request_id: Option<String>,
    pub options: Vec<String>,
    pub allow_always: bool,
}

/// [`AwaitingInputReason`] over mathematical text.
pub struct ReasonView {
    pub kind: AwaitingInputKind,
    pub message: Seq<char>,
    pub request_id: Option<Seq<char>>,
    pub options: Seq<Seq<char>>,
    pub allow_always: bool,
}

impl View for AwaitingInputReason {
    type V = ReasonView;

    open spec fn view(&self) -> ReasonView {
        ReasonView {
            kind: self.kind,
            message: self.message@,
            request_id: opt_text(self.request_id),
            options: text::views(self.options@),
            allow_always: self.allow_always,
        }
    }
}

impl Clone for AwaitingInputReason {
    fn clone(&self) -> (copy: AwaitingInputReason)
        ensures
            copy@ == self@,
    {
        AwaitingInputReason {
            kind: self.kind,
            message: self.message.clone(),
            request_id: copy_text(&self.request_id),
            options: copy_texts(&self.options),
            allow_always: self.allow_always,
        }
    }
}

/// An optional reason over mathematical text.
pub open spec fn opt_reason(reason: Option<AwaitingInputReason>) -> Option<ReasonView> {
    match reason {
        Some(reason) => Some(reason@),
        None => None,
    }
}

/// [`InputRequest`] over mathematical text.
pub struct InputRequestView {
    pub id: Seq<char>,
    pub kind: AwaitingInputKind,
    pub message: Seq<char>,
    pub options: Seq<Seq<char>>,
    pub allow_always: bool,
}

impl View for InputRequest {
    type V = InputRequestView;

    open spec fn view(&self) -> InputRequestView {
        InputRequestView {
            id: self.id@,
            kind: self.kind,
            message: self.message@,
            options: text::views(self.options@),
            allow_always: self.allow_always,
        }
    }
}

/// An optional text by its characters.
pub open spec fn opt_text(s: Option<String>) -> Option<Seq<char>> {
    match s {
        Some(s) => Some(s@),
        None => None,
    }
}

/// A copy of an optional text.
pub fn copy_text(s: &Option<String>) -> (copy: Option<String>)
    ensures
        opt_text(copy) == opt_text(*s),
{
    match s {
        Some(s) => Some(s.clone()),
        None => None,
    }
}

/// A copy of several texts.
pub fn copy_texts(v: &Vec<String>) -> (copy: Vec<String>)
    ensures
        text::views(copy@) == text::views(v@),
{
    let mut out: Vec<String> = Vec::new();
    let mut i: usize = 0;
    while i < v.len()
        invariant
            i <= v@.len(),
            text::views(out@) == text::views(v@).take(i as int),
        decreases v@.len() - i,
    {
        push_text(&mut out, v[i].clone());
        assert(text::views(out@) == text::views(v@).take(i + 1));
        i += 1;
    }
    assert(text::views(v@).take(i as int) == text::views(v@));
    out
}

impl Clone for InputRequest {
    fn clone(&self) -> (copy: InputRequest)
        ensures
            copy@ == self@,
    {
        InputRequest {
            id: self.id.clone(),
            kind: self.kind,
            message: self.message.clone(),
            options: copy_texts(&self.options),
            allow_always: self.allow_always,
        }
    }
}

/// One normalized step of an agent's life.
#[allow(inconsistent_fields)]
#[derive(Debug, PartialEq, Eq)]
pub enum AgentStateEvent {
    Session { session_id: Option<String>, title: Option<String>, model: Option<String> },
    Title { title: String },
    TurnStarted,
    TextDelta { role: MessageRole, text: String },
    ReasoningDelta { text: String },
    ToolStarted { id: String, name: String, input: Json },
    ToolUpdated { id: String, partial: Json },
    ToolFinished { id: String, name: String, ok: bool, output: Option<Json> },
    InputRequested { request: InputRequest },
    InputResolved { id: String },
    Usage { usage: AgentUsage },
    Error { message: String },
    Idle { outcome: IdleOutcome },
}

/// [`AgentStateEvent`] over mathematical text and trees.
#[allow(inconsistent_fields)]
pub enum EventView {
    Session { session_id: Option<Seq<char>>, title: Option<Seq<char>>, model: Option<Seq<char>> },
    Title { title: Seq<char> },
    TurnStarted,
    TextDelta { role: MessageRole, text: Seq<char> },
    ReasoningDelta { text: Seq<char> },
    ToolStarted { id: Seq<char>, name: Seq<char>, input: JsonView },
    ToolUpdated { id: Seq<char>, partial: JsonView },
    ToolFinished { id: Seq<char>, name: Seq<char>, ok: bool, output: Option<JsonView> },
    InputRequested { request: InputRequestView },
    InputResolved { id: Seq<char> },
    Usage { usage: AgentUsage },
    Error { message: Seq<char> },
    Idle { outcome: IdleOutcome },
}

impl View for AgentStateEvent {
    type V = EventView;

    open spec fn view(&self) -> EventView {
        match *self {
            AgentStateEvent::Session { session_id, title, model } => EventView::Session {
                session_id: opt_text(session_id),
                title: opt_text(title),
                model: opt_text(model),
            },
            AgentStateEvent::Title { title } => EventView::Title { title: title@ },
            AgentStateEvent::TurnStarted => EventView::TurnStarted,
            AgentStateEvent::TextDelta { role, text } => EventView::TextDelta { role, text: text@ },
            AgentStateEvent::ReasoningDelta { text } => EventView::ReasoningDelta { text: text@ },
            AgentStateEvent::ToolStarted { id, name, input } => EventView::ToolStarted {
                id: id@,
                name: name@,
                input: input@,
            },
            AgentStateEvent::ToolUpdated { id, partial } => EventView::ToolUpdated {
                id: id@,
                partial: partial@,
            },
            AgentStateEvent::ToolFinished { id, name, ok, output } => EventView::ToolFinished {
                id: id@,
                name: name@,
                ok,
                output: json::opt_json(output),
            },
            AgentStateEvent::InputRequested { request } => EventView::InputRequested {
                request: request@,
            },
            AgentStateEvent::InputResolved { id } => EventView::InputResolved { id: id@ },
            AgentStateEvent::Usage { usage } => EventView::Usage { usage },
            AgentStateEvent::Error { message } => EventView::Error { message: message@ },
            AgentStateEvent::Idle { outcome } => EventView::Idle { outcome },
        }
    }
}

/// Several events by their views.
pub open spec fn event_views(events: Seq<AgentStateEvent>) -> Seq<EventView> {
    events.map_values(|e: AgentStateEvent| e@)
}

/// Appends one event.
pub fn record(events: &mut Vec<AgentStateEvent>, event: AgentStateEvent)
    ensures
        event_views(final(events)@) == event_views(old(events)@).push(event@),
{
    let ghost before = events@;
    events.push(event);
    assert(event_views(events@) == event_views(before).push(event@));
}

/// One tool invocation of a finished run.
#[derive(Debug, PartialEq, Eq)]
pub struct ToolCall {
    pub id: String,
    pub name: String,
    pub input: Json,
    pub ok: bool,
    pub output: Option<Json>,
}

/// [`ToolCall`] over mathematical text and trees.
pub struct ToolCallView {
    pub id: Seq<char>,
    pub name: Seq<char>,
    pub input: JsonView,
    pub ok: bool,
    pub output: Option<JsonView>,
}

impl View for ToolCall {
    type V = ToolCallView;

    open spec fn view(&self) -> ToolCallView {
        ToolCallView {
            id: self.id@,
            name: self.name@,
            input: self.input@,
            ok: self.ok,
            output: json::opt_json(self.output),
        }
    }
}

impl Clone for ToolCall {
    fn clone(&self) -> (copy: ToolCall)
        ensures
            copy@ == self@,
    {
        ToolCall {
            id: self.id.clone(),
            name: self.name.clone(),
            input: self.input.clone(),
            ok: self.ok,
            output: match &self.output {
                Some(output) => Some(output.clone()),
                None => None,
            },
        }
    }
}

/// Several tool calls by their views.
pub open spec fn call_views(calls: Seq<ToolCall>) -> Seq<ToolCallView> {
    calls.map_values(|c: ToolCall| c@)
}

/// Appends one tool call.
pub fn record_call(calls: &mut Vec<ToolCall>, call: ToolCall)
    ensures
        call_views(final(calls)@) == call_views(old(calls)@).push(call@),
{
    let ghost before = calls@;
    calls.push(call);
    assert(call_views(calls@) == call_views(before).push(call@));
}

/// The structured result of a run.
#[derive(Debug, PartialEq, Eq)]
pub struct RunSummary {
    pub session_id: Option<String>,
    pub title: Option<String>,
    pub text: String,
    pub reasoning: String,
    pub tool_calls: Vec<ToolCall>,
    pub usage: AgentUsage,
    pub outcome: Option<IdleOutcome>,
    pub error: Option<String>,
}

/// [`RunSummary`] over mathematical text and trees.
pub struct SummaryView {
    pub session_id: Option<Seq<char>>,
    pub title: Option<Seq<char>>,
    pub text: Seq<char>,
    pub reasoning: Seq<char>,
    pub tool_calls: Seq<ToolCallView>,
    pub usage: AgentUsage,
    pub outcome: Option<IdleOutcome>,
    pub error: Option<Seq<char>>,
}

impl View for RunSummary {
    type V = SummaryView;

    open spec fn view(&self) -> SummaryView {
        SummaryView {
            session_id: opt_text(self.session_id),
            title: opt_text(self.title),
            text: self.text@,
            reasoning: self.reasoning@,
            tool_calls: call_views(self.tool_calls@),
            usage: self.usage,
            outcome: self.outcome,
            error: opt_text(self.error),
        }
    }
}

/// The summary of a run that has shown nothing yet.
pub open spec fn blank_summary() -> SummaryView {
    SummaryView {
        session_id: None,
        title: None,
        text: Seq::empty(),
        reasoning: Seq::empty(),
        tool_calls: Seq::empty(),
        usage: no_usage(),
        outcome: None,
        error: None,
    }
}

impl Default for RunSummary {
    fn default() -> (summary: RunSummary)
        ensures
            summary@ == blank_summary(),
    {
        let summary = RunSummary {
            session_id: None,
            title: None,
            text: String::new(),
            reasoning: String::new(),
            tool_calls: Vec::new(),
            usage: AgentUsage::default(),
            outcome: None,
            error: None,
        };
        assert(summary@.tool_calls == Seq::<ToolCallView>::empty());
        summary
    }
}

impl Clone for RunSummary {
    fn clone(&self) -> (copy: RunSummary)
        ensures
            copy@ == self@,
    {
        let mut calls: Vec<ToolCall> = Vec::new();
        let mut i: usize = 0;
        assert(call_views(calls@) == call_views(self.tool_calls@).take(0));
        while i < self.tool_calls.len()
            invariant
                i <= self.tool_calls@.len(),
                call_views(calls@) == call_views(self.tool_calls@).take(i as int),
            decreases self.tool_calls@.len() - i,
        {
            record_call(&mut calls, self.tool_calls[i].clone());
            assert(call_views(calls@) == call_views(self.tool_calls@).take(i + 1));
            i += 1;
        }
        assert(call_views(self.tool_calls@).take(i as int) == call_views(self.tool_calls@));
        RunSummary {
            session_id: copy_text(&self.session_id),
            title: copy_text(&self.title),
            text: self.text.clone(),
            reasoning: self.reasoning.clone(),
            tool_calls: calls,
            usage: self.usage.clone(),
            outcome: self.outcome,
            error: copy_text(&self.error),
        }
    }
}

/// The sum of the usage events among `events`.
pub open spec fn usage_told(events: Seq<EventView>) -> AgentUsage
    decreases events.len(),
{
    if events.len() == 0 {
        no_usage()
    } else {
        match events.last() {
            EventView::Usage { usage } => usage_told(events.drop_last()).merged(usage),
            _ => usage_told(events.drop_last()),
        }
    }
}

/// The text that `events` tell, piece by piece.
pub open spec fn text_told(events: Seq<EventView>) -> Seq<char>
    decreases events.len(),
{
    if events.len() == 0 {
        Seq::empty()
    } else {
        match events.last() {
            EventView::TextDelta { text, .. } => text_told(events.drop_last()) + text,
            _ => text_told(events.drop_last()),
        }
    }
}

/// The reasoning that `events` tell, piece by piece.
pub open spec fn reasoning_told(events: Seq<EventView>) -> Seq<char>
    decreases events.len(),
{
    if events.len() == 0 {
        Seq::empty()
    } else {
        match events.last() {
            EventView::ReasoningDelta { text } => reasoning_told(events.drop_last()) + text,
            _ => reasoning_told(events.drop_last()),
        }
    }
}

/// One more event adds what it tells.
pub broadcast proof fn lemma_one_more_event(events: Seq<EventView>, event: EventView)
    ensures
        #![trigger events.push(event)]
        usage_told(events.push(event)) == match event {
            EventView::Usage { usage } => usage_told(events).merged(usage),
            _ => usage_told(events),
        },
        text_told(events.push(event)) == match event {
            EventView::TextDelta { text, .. } => text_told(events) + text,
            _ => text_told(events),
        },
        reasoning_told(events.push(event)) == match event {
            EventView::ReasoningDelta { text } => reasoning_told(events) + text,
            _ => reasoning_told(events),
        },
{
    assert(events.push(event).drop_last() == events);
}

/// Whether a summary's text and reasoning are what the events told.
pub open spec fn retells(summary: SummaryView, events: Seq<EventView>) -> bool {
    summary.text == text_told(events) && summary.reasoning == reasoning_told(events)
}

/// A moment in time: seconds since the epoch, and nanoseconds behind them.
#[derive(Debug, Clone, Copy, PartialEq, Eq, Structural)]
pub struct Moment {
    pub seconds: i64,
    pub nanos: u32,
}

impl Moment {
    /// Whether this is not before `other`.
    pub open spec fn at_or_after(self, other: Moment) -> bool {
        self.seconds > other.seconds || (self.seconds == other.seconds && self.nanos
            >= other.nanos)
    }

    /// Whether this is not before `other`.
    pub fn is_at_or_after(&self, other: &Moment) -> (yes: bool)
        ensures
            yes == self.at_or_after(*other),
    {
        self.seconds > other.seconds || (self.seconds == other.seconds && self.nanos
            >= other.nanos)
    }
}

} // verus!
