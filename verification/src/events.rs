//! The events that the runtime emits.

use vstd::prelude::*;
use crate::clock::{fresh_id, now_millis};
use crate::decimal::{decimal_digits, render_decimal, render_decimal_u64};
use crate::json::{
    json_object,
    member_views,
    raw_member,
    spec_object,
    text_member,
    text_pair,
    Member,
};
use crate::rules::Verdict;
use crate::text::{clone_strings, texts};

verus! {

/// What happened.
#[derive(Debug)]
pub enum EventKind {
    /// The runtime changed its life-cycle state.
    RuntimeLifecycle { status: String },
    /// A command was carried out.
    ImperativeExecuted { kind: String },
    /// An idea was registered.
    IdeaRegistered { id: String },
    /// A contract was registered.
    ContractRegistered { id: String },
    /// A ruleset gave its verdict.
    RuleVerdict { rule: String, verdict: Verdict },
    /// An orchestration began.
    OrchestrationStarted { mode: String, concurrency: usize },
    /// An orchestration ended.
    OrchestrationCompleted { mode: String, concurrency: usize, duration_ms: u64 },
    /// A simulation ran to its end.
    SimulationCompleted { id: String, rounds: usize },
    /// Something went wrong.
    ErrorOccurred { context: String, message: String },
    /// The gateway answered a command; the payload is the answer, as
    /// JSON text.
    CommandExecuted { payload: String },
}

/// An event kind as plain data.
pub enum EventKindView {
    RuntimeLifecycle { status: Seq<char> },
    ImperativeExecuted { kind: Seq<char> },
    IdeaRegistered { id: Seq<char> },
    ContractRegistered { id: Seq<char> },
    RuleVerdict { rule: Seq<char>, verdict: Verdict },
    OrchestrationStarted { mode: Seq<char>, concurrency: nat },
    OrchestrationCompleted { mode: Seq<char>, concurrency: nat, duration_ms: nat },
    SimulationCompleted { id: Seq<char>, rounds: nat },
    ErrorOccurred { context: Seq<char>, message: Seq<char> },
    CommandExecuted { payload: Seq<char> },
}

impl View for EventKind {
    type V = EventKindView;

    open spec fn view(&self) -> EventKindView {
        match self {
            EventKind::RuntimeLifecycle { status } => EventKindView::RuntimeLifecycle {
                status: status@,
            },
            EventKind::ImperativeExecuted { kind } => EventKindView::ImperativeExecuted {
                kind: kind@,
            },
            EventKind::IdeaRegistered { id } => EventKindView::IdeaRegistered { id: id@ },
            EventKind::ContractRegistered { id } => EventKindView::ContractRegistered { id: id@ },
            EventKind::RuleVerdict { rule, verdict } => EventKindView::RuleVerdict {
                rule: rule@,
                verdict: *verdict,
            },
            EventKind::OrchestrationStarted { mode, concurrency } => {
                EventKindView::OrchestrationStarted { mode: mode@, concurrency: *concurrency as nat }
            },
            EventKind::OrchestrationCompleted { mode, concurrency, duration_ms } => {
                EventKindView::OrchestrationCompleted {
                    mode: mode@,
                    concurrency: *concurrency as nat,
                    duration_ms: *duration_ms as nat,
                }
            },
            EventKind::SimulationCompleted { id, rounds } => EventKindView::SimulationCompleted {
                id: id@,
                rounds: *rounds as nat,
            },
            EventKind::ErrorOccurred { context, message } => EventKindView::ErrorOccurred {
                context: context@,
                message: message@,
            },
            EventKind::CommandExecuted { payload } => EventKindView::CommandExecuted {
                payload: payload@,
            },
        }
    }
}

impl EventKindView {
    /// The name of the variant, by which events are looked up.
    pub open spec fn name(self) -> Seq<char> {
        match self {
            EventKindView::RuntimeLifecycle { .. } => "RuntimeLifecycle"@,
            EventKindView::ImperativeExecuted { .. } => "ImperativeExecuted"@,
            EventKindView::IdeaRegistered { .. } => "IdeaRegistered"@,
            EventKindView::ContractRegistered { .. } => "ContractRegistered"@,
            EventKindView::RuleVerdict { .. } => "RuleVerdict"@,
            EventKindView::OrchestrationStarted { .. } => "OrchestrationStarted"@,
            EventKindView::OrchestrationCompleted { .. } => "OrchestrationCompleted"@,
            EventKindView::SimulationCompleted { .. } => "SimulationCompleted"@,
            EventKindView::ErrorOccurred { .. } => "ErrorOccurred"@,
            EventKindView::CommandExecuted { .. } => "command_executed"@,
        }
    }

    /// The members of the kind's JSON object: the name under `kind`,
    /// then the variant's own fields.  Texts are JSON strings, numbers
    /// are written in decimal, and the payload of an answered command is
    /// embedded as it is.
    pub open spec fn members(self) -> Seq<(Seq<char>, Seq<char>)> {
        let head = text_pair("kind"@, self.name());
        match self {
            EventKindView::RuntimeLifecycle { status } => seq![head, text_pair("status"@, status)],
            EventKindView::ImperativeExecuted { kind } => seq![
                head,
                text_pair("imperative"@, kind),
            ],
            EventKindView::IdeaRegistered { id } => seq![head, text_pair("id"@, id)],
            EventKindView::ContractRegistered { id } => seq![head, text_pair("id"@, id)],
            EventKindView::RuleVerdict { rule, verdict } => seq![
                head,
                text_pair("rule"@, rule),
                text_pair("verdict"@, verdict.spec_name()),
            ],
            EventKindView::OrchestrationStarted { mode, concurrency } => seq![
                head,
                text_pair("mode"@, mode),
                ("concurrency"@, decimal_digits(concurrency)),
            ],
            EventKindView::OrchestrationCompleted { mode, concurrency, duration_ms } => seq![
                head,
                text_pair("mode"@, mode),
                ("concurrency"@, decimal_digits(concurrency)),
                ("duration_ms"@, decimal_digits(duration_ms)),
            ],
            EventKindView::SimulationCompleted { id, rounds } => seq![
                head,
                text_pair("id"@, id),
                ("rounds"@, decimal_digits(rounds)),
            ],
            EventKindView::ErrorOccurred { context, message } => seq![
                head,
                text_pair("context"@, context),
                text_pair("message"@, message),
            ],
            EventKindView::CommandExecuted { payload } => seq![head, ("payload"@, payload)],
        }
    }
}

impl EventKind {
    /// The name of the variant.
    pub fn name(&self) -> (s: String)
        ensures
            s@ == self@.name(),
    {
        match self {
            EventKind::RuntimeLifecycle { .. } => "RuntimeLifecycle".to_owned(),
            EventKind::ImperativeExecuted { .. } => "ImperativeExecuted".to_owned(),
            EventKind::IdeaRegistered { .. } => "IdeaRegistered".to_owned(),
            EventKind::ContractRegistered { .. } => "ContractRegistered".to_owned(),
            EventKind::RuleVerdict { .. } => "RuleVerdict".to_owned(),
            EventKind::OrchestrationStarted { .. } => "OrchestrationStarted".to_owned(),
            EventKind::OrchestrationCompleted { .. } => "OrchestrationCompleted".to_owned(),
            EventKind::SimulationCompleted { .. } => "SimulationCompleted".to_owned(),
            EventKind::ErrorOccurred { .. } => "ErrorOccurred".to_owned(),
            EventKind::CommandExecuted { .. } => "command_executed".to_owned(),
        }
    }

    /// A copy of the kind.
    pub fn duplicate(&self) -> (copy: EventKind)
        ensures
            copy@ == self@,
    {
        match self {
            EventKind::RuntimeLifecycle { status } => EventKind::RuntimeLifecycle {
                status: status.clone(),
            },
            EventKind::ImperativeExecuted { kind } => EventKind::ImperativeExecuted {
                kind: kind.clone(),
            },
            EventKind::IdeaRegistered { id } => EventKind::IdeaRegistered { id: id.clone() },
            EventKind::ContractRegistered { id } => EventKind::ContractRegistered {
                id: id.clone(),
            },
            EventKind::RuleVerdict { rule, verdict } => EventKind::RuleVerdict {
                rule: rule.clone(),
                verdict: *verdict,
            },
            EventKind::OrchestrationStarted { mode, concurrency } => {
                EventKind::OrchestrationStarted { mode: mode.clone(), concurrency: *concurrency }
            },
            EventKind::OrchestrationCompleted { mode, concurrency, duration_ms } => {
                EventKind::OrchestrationCompleted {
                    mode: mode.clone(),
                    concurrency: *concurrency,
                    duration_ms: *duration_ms,
                }
            },
            EventKind::SimulationCompleted { id, rounds } => EventKind::SimulationCompleted {
                id: id.clone(),
                rounds: *rounds,
            },
            EventKind::ErrorOccurred { context, message } => EventKind::ErrorOccurred {
                context: context.clone(),
                message: message.clone(),
            },
            EventKind::CommandExecuted { payload } => EventKind::CommandExecuted {
                payload: payload.clone(),
            },
        }
    }

    /// The members of the kind's JSON object: the variant's name under
    /// `kind`, then the variant's own fields.
    pub fn members(&self) -> (list: Vec<Member>)
        ensures
            member_views(list@) == self@.members(),
    {
        let mut list: Vec<Member> = Vec::new();
        list.push(text_member("kind", self.name().as_str()));
        match self {
            EventKind::RuntimeLifecycle { status } => {
                list.push(text_member("status", status.as_str()));
            },
            EventKind::ImperativeExecuted { kind } => {
                list.push(text_member("imperative", kind.as_str()));
            },
            EventKind::IdeaRegistered { id } => {
                list.push(text_member("id", id.as_str()));
            },
            EventKind::ContractRegistered { id } => {
                list.push(text_member("id", id.as_str()));
            },
            EventKind::RuleVerdict { rule, verdict } => {
                list.push(text_member("rule", rule.as_str()));
                list.push(text_member("verdict", verdict.name().as_str()));
            },
            EventKind::OrchestrationStarted { mode, concurrency } => {
                list.push(text_member("mode", mode.as_str()));
                list.push(raw_member("concurrency", render_decimal(*concurrency)));
            },
            EventKind::OrchestrationCompleted { mode, concurrency, duration_ms } => {
                list.push(text_member("mode", mode.as_str()));
                list.push(raw_member("concurrency", render_decimal(*concurrency)));
                list.push(raw_member("duration_ms", render_decimal_u64(*duration_ms)));
            },
            EventKind::SimulationCompleted { id, rounds } => {
                list.push(text_member("id", id.as_str()));
                list.push(raw_member("rounds", render_decimal(*rounds)));
            },
            EventKind::ErrorOccurred { context, message } => {
                list.push(text_member("context", context.as_str()));
                list.push(text_member("message", message.as_str()));
            },
            EventKind::CommandExecuted { payload } => {
                list.push(raw_member("payload", payload.clone()));
            },
        }
        assert(member_views(list@) =~= self@.members());
        list
    }

    /// The kind as a JSON object.
    pub fn to_json(&self) -> (s: String)
        ensures
            s@ == spec_object(self@.members()),
    {
        let list = self.members();
        json_object(&list)
    }
}

/// An event: what happened, when, and for whom.
#[derive(Debug)]
pub struct Event {
    /// The event's identifier.  A fresh event carries a random one; the
    /// timeline and the broker stamp their own.
    pub id: u128,
    /// When the event occurred, in milliseconds since the epoch.
    pub timestamp: i64,
    /// What happened.
    pub kind: EventKind,
    /// The channels on which the event is fanned out.
    pub channels: Vec<String>,
}

/// An event as plain data.
pub struct EventView {
    pub id: u128,
    pub timestamp: i64,
    pub kind: EventKindView,
    pub channels: Seq<Seq<char>>,
}

impl View for Event {
    type V = EventView;

    open spec fn view(&self) -> EventView {
        EventView {
            id: self.id,
            timestamp: self.timestamp,
            kind: self.kind@,
            channels: texts(self.channels@),
        }
    }
}

/// The events of a sequence as plain data.
pub open spec fn event_views(events: Seq<Event>) -> Seq<EventView> {
    events.map_values(|e: Event| e@)
}

impl Event {
    /// A new event of the given kind, at the current time, with a fresh
    /// identifier, on the channel `default`.
    pub fn new(kind: EventKind) -> (event: Event)
        ensures
            event.kind == kind,
            event@.channels == seq!["default"@],
    {
        let mut channels: Vec<String> = Vec::new();
        channels.push("default".to_owned());
        let event = Event { id: fresh_id(), timestamp: now_millis(), kind, channels };
        assert(event@.channels =~= seq!["default"@]);
        event
    }

    /// The same event on other channels.
    pub fn with_channels(self, channels: Vec<String>) -> (event: Event)
        ensures
            event.id == self.id,
            event.timestamp == self.timestamp,
            event.kind == self.kind,
            event.channels == channels,
    {
        Event { id: self.id, timestamp: self.timestamp, kind: self.kind, channels }
    }

    /// A copy of the event.
    pub fn duplicate(&self) -> (copy: Event)
        ensures
            copy@ == self@,
    {
        Event {
            id: self.id,
            timestamp: self.timestamp,
            kind: self.kind.duplicate(),
            channels: clone_strings(&self.channels),
        }
    }

    /// The same event under another identifier.
    pub fn stamped(self, id: u128) -> (event: Event)
        ensures
            event@ == (EventView { id, ..self@ }),
    {
        Event { id, timestamp: self.timestamp, kind: self.kind, channels: self.channels }
    }
}

} // verus!
