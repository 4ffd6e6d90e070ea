//! The runtime: one entry point that reads a command, lets plugins have
//! their say, carries the command out, and records what happened.

use vstd::prelude::*;
use crate::clock::now_millis;
use crate::contracts::{create_contract, ContractError, ContractStore};
use crate::decimal::{decimal_digits, render_decimal};
use crate::events::{EventKind, EventKindView, EventView};
use crate::ideas::{create_idea, IdeaError, IdeaStore};
use crate::json::{
    json_bool,
    json_member,
    json_object,
    json_parse,
    json_reading,
    json_text,
    json_text_array,
    literals,
    lookup_flag,
    lookup_text,
    member_views,
    raw_member,
    spec_array,
    spec_object,
    text_member,
    text_pair,
    text_view,
    JsonTree,
    Member,
};
use crate::parser::ast::{joined, spec_kind_name, Command, Imperative, ImperativeKind, KindView};
use crate::parser::grammar::spec_parse;
use crate::parser::{parse, Error};
use crate::plugin::engine::store_key;
use crate::plugin::hooks::HookType;
use crate::plugin::manager::PluginManager;
use crate::registry::Registry;
use crate::rules::{apply_ruleset, spec_evaluate, spec_rule_for, Verdict};
use crate::simulate::engine::{
    result_views,
    EngineConfig,
    SimulationEngine,
    SimulationMode,
    SimulationResult,
};
use crate::simulate::scenarios::{default_scenario_for_type, default_scenario_name};
use crate::simulate::store::{save_simulation_result, SimulationStore};
use crate::simulate::{run_rounds, simulation_outcome};
use crate::text::{concat, concat3, same_text, texts};
use crate::timeline::Timeline;

verus! {

/// What processing a command can fail with.
#[derive(Debug)]
pub enum RuntimeError {
    /// The text is no command.
    Syntax(String),
    /// The command cannot be carried out on the present state.
    Validation(String),
    /// A plugin refused the command; the reason is the plugin's.
    Veto(String),
}

impl RuntimeError {
    /// The message of the error.
    pub open spec fn spec_message(self) -> Seq<char> {
        match self {
            RuntimeError::Syntax(m) => m@,
            RuntimeError::Validation(m) => m@,
            RuntimeError::Veto(m) => m@,
        }
    }

    /// The context under which the error is recorded in the timeline.
    pub open spec fn spec_context(self) -> Seq<char> {
        match self {
            RuntimeError::Syntax(_) => "parsing"@,
            RuntimeError::Validation(_) => "validation"@,
            RuntimeError::Veto(_) => "plugin_veto"@,
        }
    }

    pub fn message(&self) -> (s: String)
        ensures
            s@ == self.spec_message(),
    {
        match self {
            RuntimeError::Syntax(m) => m.clone(),
            RuntimeError::Validation(m) => m.clone(),
            RuntimeError::Veto(m) => m.clone(),
        }
    }

    pub fn context(&self) -> (s: String)
        ensures
            s@ == self.spec_context(),
    {
        match self {
            RuntimeError::Syntax(_) => "parsing".to_owned(),
            RuntimeError::Validation(_) => "validation".to_owned(),
            RuntimeError::Veto(_) => "plugin_veto".to_owned(),
        }
    }
}

/// The runtime's state.
pub struct Runtime {
    pub registry: Registry,
    pub contracts: ContractStore,
    pub ideas: IdeaStore,
    pub timeline: Timeline,
    pub simulations: SimulationStore,
    pub plugins: PluginManager,
    /// How many workers a parallel orchestration fans out to.
    pub parallelism: usize,
}

/// The kinds of a sequence of events.
pub open spec fn kinds_of(events: Seq<EventView>) -> Seq<EventKindView> {
    events.map_values(|e: EventView| e.kind)
}

/// How many of `wanted` further events a timeline takes: all of them,
/// unless its identifiers run out first.
pub open spec fn room(before: Timeline, wanted: int) -> int {
    if before.next_id + wanted <= u128::MAX {
        wanted
    } else {
        u128::MAX - before.next_id
    }
}

/// What holds of a timeline after events of the given kinds were
/// recorded.  What was there is there still.  Exactly those kinds were
/// added at the end, in that order, each on the default channel and
/// under the next identifier; where the identifiers run out, the kinds
/// that no identifier is left for are missing.
pub open spec fn recorded(before: Timeline, after: Timeline, kinds: Seq<EventKindView>) -> bool {
    let taken = room(before, kinds.len() as int);
    &&& after.wf()
    &&& after.next_id == before.next_id + taken
    &&& after.view().len() == before.view().len() + taken
    &&& after.view().subrange(0, before.view().len() as int) == before.view()
    &&& kinds_of(after.view()) == kinds_of(before.view()) + kinds.take(taken)
    &&& before.next_id + kinds.len() <= u128::MAX ==> kinds_of(after.view()) == kinds_of(
        before.view(),
    ) + kinds
    &&& forall|i: int|
        before.view().len() <= i < after.view().len() ==> (#[trigger] after.view()[i]).channels
            == seq!["default"@] && after.view()[i].id == before.next_id + (i
            - before.view().len())
}

/// Recording one batch of kinds after another records both.
pub proof fn lemma_recorded_then(
    a: Timeline,
    b: Timeline,
    c: Timeline,
    first: Seq<EventKindView>,
    second: Seq<EventKindView>,
)
    requires
        recorded(a, b, first),
        recorded(b, c, second),
    ensures
        recorded(a, c, first + second),
{
    let t1 = room(a, first.len() as int);
    let t2 = room(b, second.len() as int);
    let both = first + second;
    assert(room(a, both.len() as int) == t1 + t2);
    assert(c.view().subrange(0, a.view().len() as int) =~= c.view().subrange(
        0,
        b.view().len() as int,
    ).subrange(0, a.view().len() as int));
    assert(both.take(t1 + t2) =~= first.take(t1) + second.take(t2));
    assert(kinds_of(c.view()) =~= kinds_of(a.view()) + both.take(t1 + t2));
    if a.next_id + both.len() <= u128::MAX {
        assert(both.take(t1 + t2) =~= both);
    }
    assert forall|i: int| a.view().len() <= i < c.view().len() implies (#[trigger] c.view()[i]).channels
        == seq!["default"@] && c.view()[i].id == a.next_id + (i - a.view().len()) by {
        if i < b.view().len() {
            assert(c.view().subrange(0, b.view().len() as int)[i] == c.view()[i]);
        }
    }
}

/// Whether a timeline holds all that another held, at its start.
pub open spec fn extends(before: Timeline, after: Timeline) -> bool {
    &&& after.wf()
    &&& before.next_id <= after.next_id
    &&& before.view().len() <= after.view().len()
    &&& after.view().subrange(0, before.view().len() as int) == before.view()
}

/// Timelines only grow, step by step.
pub proof fn lemma_extends_then(a: Timeline, b: Timeline, c: Timeline)
    requires
        extends(a, b),
        extends(b, c),
    ensures
        extends(a, c),
{
    assert(c.view().subrange(0, a.view().len() as int) =~= c.view().subrange(
        0,
        b.view().len() as int,
    ).subrange(0, a.view().len() as int));
}

/// Recording nothing.
pub proof fn lemma_recorded_nothing(a: Timeline)
    requires
        a.wf(),
    ensures
        recorded(a, a, Seq::empty()),
{
    assert(a.view().subrange(0, a.view().len() as int) =~= a.view());
    assert(Seq::<EventKindView>::empty().take(0) =~= Seq::<EventKindView>::empty());
    assert(kinds_of(a.view()) + Seq::<EventKindView>::empty() =~= kinds_of(a.view()));
}

/// The type under which an entity is simulated: the type it was
/// registered with; `CONTRACT` or `IDEA` where it is a contract or an
/// idea that was not registered; the empty type otherwise.
pub open spec fn spec_entity_type(runtime: Runtime, id: Seq<char>) -> Seq<char> {
    if runtime.registry.view().dom().contains(id) {
        runtime.registry.view()[id].entity_type@
    } else if runtime.contracts.view().dom().contains(id) {
        "CONTRACT"@
    } else if runtime.ideas.view().dom().contains(id) {
        "IDEA"@
    } else {
        Seq::empty()
    }
}

/// Whether the runtime knows an entity, as an idea, a contract or a
/// registered entity.
pub open spec fn spec_known(runtime: Runtime, id: Seq<char>) -> bool {
    runtime.ideas.view().dom().contains(id) || runtime.contracts.view().dom().contains(id)
        || runtime.registry.view().dom().contains(id)
}

/// The content that rules are applied to: the text of an idea, the
/// clauses of a contract joined by commas, and nothing for an entity that
/// is only registered.
pub open spec fn spec_content(runtime: Runtime, id: Seq<char>) -> Seq<char> {
    if runtime.ideas.view().dom().contains(id) {
        runtime.ideas.view()[id].text@
    } else if runtime.contracts.view().dom().contains(id) {
        joined(texts(runtime.contracts.view()[id].clauses@))
    } else {
        Seq::empty()
    }
}

/// How many workers an orchestration mode fans out to.
pub open spec fn spec_concurrency(mode: Seq<char>, parallelism: usize) -> usize {
    if mode == "parallel"@ && parallelism >= 1 {
        parallelism
    } else {
        1
    }
}

impl Runtime {
    /// Every part of the state is well formed.
    pub open spec fn wf(self) -> bool {
        &&& self.registry.wf()
        &&& self.contracts.wf()
        &&& self.ideas.wf()
        &&& self.timeline.wf()
        &&& self.simulations.wf()
        &&& self.plugins.wf()
    }

    /// A runtime with empty stores, an empty timeline and no plugin
    /// loaded.
    pub fn new(plugin_dir: &str, parallelism: usize) -> (runtime: Runtime)
        ensures
            runtime.wf(),
            runtime.parallelism == parallelism,
            runtime.timeline.view().len() == 0,
            runtime.timeline.next_id == 1,
            runtime.plugins.allowed() == crate::plugin::sandbox::default_allowed(),
            runtime.registry.view() == Map::<Seq<char>, crate::registry::Entity>::empty(),
            runtime.contracts.view() == Map::<Seq<char>, crate::contracts::Contract>::empty(),
            runtime.ideas.view() == Map::<Seq<char>, crate::ideas::Idea>::empty(),
            runtime.plugins.table() == crate::plugin::table::empty_table(),
    {
        Runtime {
            registry: Registry::new(),
            contracts: ContractStore::new(),
            ideas: IdeaStore::new(),
            timeline: Timeline::new(),
            simulations: SimulationStore::new(),
            plugins: PluginManager::new(plugin_dir),
            parallelism,
        }
    }

    /// Records an event of the given kind, now, on the default channel.
    pub fn emit(&mut self, kind: EventKind)
        requires
            old(self).timeline.wf(),
        ensures
            recorded(old(self).timeline, final(self).timeline, seq![kind@]),
            final(self).registry == old(self).registry,
            final(self).contracts == old(self).contracts,
            final(self).ideas == old(self).ideas,
            final(self).simulations == old(self).simulations,
            final(self).plugins == old(self).plugins,
            final(self).parallelism == old(self).parallelism,
    {
        let ghost before = self.timeline;
        let appended = self.timeline.record(kind);
        proof {
            let after = self.timeline;
            let kinds = seq![kind@];
            assert(after.view().subrange(0, before.view().len() as int) =~= before.view());
            match appended {
                Some(id) => {
                    assert(kinds.take(1) =~= kinds);
                    assert(kinds_of(after.view()) =~= kinds_of(before.view()) + kinds);
                },
                None => {
                    assert(kinds.take(0) =~= Seq::<EventKindView>::empty());
                    assert(kinds_of(after.view()) =~= kinds_of(before.view()) + kinds.take(0));
                },
            }
        }
    }

    /// Marks the runtime as initialized.
    pub fn init(&mut self)
        requires
            old(self).wf(),
        ensures
            final(self).wf(),
            recorded(
                old(self).timeline,
                final(self).timeline,
                seq![EventKindView::RuntimeLifecycle { status: "initialized"@ }],
            ),
    {
        self.emit(EventKind::RuntimeLifecycle { status: "initialized".to_owned() });
    }

    /// Marks the runtime as shutting down.
    pub fn shutdown(&mut self)
        requires
            old(self).wf(),
        ensures
            final(self).wf(),
            recorded(
                old(self).timeline,
                final(self).timeline,
                seq![EventKindView::RuntimeLifecycle { status: "shutting_down"@ }],
            ),
    {
        self.emit(EventKind::RuntimeLifecycle { status: "shutting_down".to_owned() });
    }

    /// The type under which an entity is simulated.
    pub fn entity_type(&self, id: &str) -> (t: String)
        requires
            self.wf(),
        ensures
            t@ == spec_entity_type(*self, id@),
    {
        match self.registry.entities.get(id) {
            Some(entity) => entity.entity_type.clone(),
            None => {
                if self.contracts.contracts.contains(id) {
                    "CONTRACT".to_owned()
                } else if self.ideas.ideas.contains(id) {
                    "IDEA".to_owned()
                } else {
                    String::new()
                }
            },
        }
    }

    /// The content of an entity that rules are applied to, where the
    /// runtime knows the entity.
    pub fn entity_content(&self, id: &str) -> (r: Option<String>)
        requires
            self.wf(),
        ensures
            match r {
                Some(content) => spec_known(*self, id@) && content@ == spec_content(*self, id@),
                None => !spec_known(*self, id@),
            },
    {
        match self.ideas.ideas.get(id) {
            Some(idea) => Some(idea.text.clone()),
            None => match self.contracts.contracts.get(id) {
                Some(contract) => {
                    let imperative = crate::parser::ast::join_texts(&contract.clauses);
                    Some(imperative)
                },
                None => if self.registry.entities.contains(id) {
                    Some(String::new())
                } else {
                    None
                },
            },
        }
    }

    /// How many workers an orchestration mode fans out to: all there are
    /// for `parallel`, one for anything else.
    pub fn concurrency(&self, mode: &str) -> (n: usize)
        ensures
            n == spec_concurrency(mode@, self.parallelism),
    {
        if same_text(mode, "parallel") && self.parallelism >= 1 {
            self.parallelism
        } else {
            1
        }
    }
}

/// Whether two plugin managers hold the same plugins for the same
/// directory, under the same allow-list and in the same store.
pub open spec fn same_plugins(a: PluginManager, b: PluginManager) -> bool {
    a.plugins == b.plugins && a.plugin_dir == b.plugin_dir && a.allowed_imports
        == b.allowed_imports && store_key(a.store) == store_key(b.store)
}

/// Whether two runtimes differ in nothing but their timelines.
pub open spec fn same_stores(a: Runtime, b: Runtime) -> bool {
    &&& a.registry == b.registry
    &&& a.contracts == b.contracts
    &&& a.ideas == b.ideas
    &&& a.simulations == b.simulations
    &&& same_plugins(a.plugins, b.plugins)
    &&& a.parallelism == b.parallelism
}

/// An event that reports a failure.
pub open spec fn failure(context: Seq<char>, message: Seq<char>) -> EventKindView {
    EventKindView::ErrorOccurred { context, message }
}

/// An event that reports that a command was carried out.
pub open spec fn done(kind: KindView) -> EventKindView {
    EventKindView::ImperativeExecuted { kind: spec_kind_name(kind) }
}

/// What carrying out `DEFINE CONTRACT` comes to.  A new id gets a
/// contract with the given clauses, and the registration and the
/// execution are recorded.  A taken id is a validation error, which is
/// recorded, and nothing else changes.
pub open spec fn contract_defined(
    before: Runtime,
    after: Runtime,
    id: Seq<char>,
    clauses: Seq<Seq<char>>,
    r: Result<String, RuntimeError>,
) -> bool {
    let kind = KindView::DefineContract { id, clauses };
    if before.contracts.view().dom().contains(id) {
        &&& r matches Err(RuntimeError::Validation(m))
        &&& m@ == "Contrato com ID '"@ + id + "' já existe"@
        &&& same_stores(before, after)
        &&& recorded(before.timeline, after.timeline, seq![failure("validation"@, m@)])
    } else {
        &&& r matches Ok(text)
        &&& text@ == "Contrato registrado: "@ + id
        &&& after.contracts.wf()
        &&& after.contracts.view() == before.contracts.view().insert(
            id,
            after.contracts.view()[id],
        )
        &&& after.contracts.view()[id].id@ == id
        &&& texts(after.contracts.view()[id].clauses@) == clauses
        &&& after.registry == before.registry
        &&& after.ideas == before.ideas
        &&& after.simulations == before.simulations
        &&& same_plugins(before.plugins, after.plugins)
        &&& after.parallelism == before.parallelism
        &&& recorded(
            before.timeline,
            after.timeline,
            seq![EventKindView::ContractRegistered { id }, done(kind)],
        )
    }
}

/// What carrying out `DEFINE IDEA` comes to, in the same way.
pub open spec fn idea_defined(
    before: Runtime,
    after: Runtime,
    id: Seq<char>,
    text: Seq<char>,
    r: Result<String, RuntimeError>,
) -> bool {
    let kind = KindView::DefineIdea { id, text };
    if before.ideas.view().dom().contains(id) {
        &&& r matches Err(RuntimeError::Validation(m))
        &&& m@ == "Ideia com ID '"@ + id + "' já existe"@
        &&& same_stores(before, after)
        &&& recorded(before.timeline, after.timeline, seq![failure("validation"@, m@)])
    } else {
        &&& r matches Ok(answer)
        &&& answer@ == "Ideia registrada: "@ + id
        &&& after.ideas.wf()
        &&& after.ideas.view() == before.ideas.view().insert(id, after.ideas.view()[id])
        &&& after.ideas.view()[id].id@ == id
        &&& after.ideas.view()[id].text@ == text
        &&& after.ideas.view()[id].tags@.len() == 0
        &&& after.registry == before.registry
        &&& after.contracts == before.contracts
        &&& after.simulations == before.simulations
        &&& same_plugins(before.plugins, after.plugins)
        &&& after.parallelism == before.parallelism
        &&& recorded(
            before.timeline,
            after.timeline,
            seq![EventKindView::IdeaRegistered { id }, done(kind)],
        )
    }
}

/// What carrying out `SIMULATE ENTITY` comes to: the rounds are run in
/// the random mode under the scenario of the entity's type, their
/// outcomes are saved, and the completion and the execution are
/// recorded.
pub open spec fn entity_simulated(
    before: Runtime,
    after: Runtime,
    id: Seq<char>,
    rounds: nat,
    r: Result<String, RuntimeError>,
) -> bool {
    let kind = KindView::SimulateEntity { id, rounds };
    &&& r matches Ok(answer)
    &&& answer@ == "Simulação concluída para "@ + id + ": "@ + decimal_digits(rounds)
        + " rodadas"@
    &&& exists|results: Seq<SimulationResult>|
        #![auto]
        simulation_outcome(
            SimulationMode::Random,
            default_scenario_name(spec_entity_type(before, id)),
            id,
            rounds,
            results,
        ) && after.simulations.view() == before.simulations.view() + result_views(results)
    &&& after.simulations.wf()
    &&& after.registry == before.registry
    &&& after.contracts == before.contracts
    &&& after.ideas == before.ideas
    &&& same_plugins(before.plugins, after.plugins)
    &&& after.parallelism == before.parallelism
    &&& recorded(
        before.timeline,
        after.timeline,
        seq![EventKindView::SimulationCompleted { id, rounds }, done(kind)],
    )
}

/// What carrying out `ORCHESTRATE` comes to: the start, the completion
/// with the time it took, and the execution are recorded.
pub open spec fn orchestrated(
    before: Runtime,
    after: Runtime,
    mode: Seq<char>,
    r: Result<String, RuntimeError>,
) -> bool {
    let kind = KindView::Orchestrate { mode };
    let concurrency = spec_concurrency(mode, before.parallelism) as nat;
    &&& r matches Ok(answer)
    &&& answer@ == "Orquestração concluída: "@ + mode
    &&& same_stores(before, after)
    &&& exists|duration_ms: nat|
        #![auto]
        recorded(
            before.timeline,
            after.timeline,
            seq![
                EventKindView::OrchestrationStarted { mode, concurrency },
                EventKindView::OrchestrationCompleted { mode, concurrency, duration_ms },
                done(kind),
            ],
        )
}

/// What carrying out `INVOKE RULESET` comes to.  For an entity that the
/// runtime knows, the ruleset is applied to the entity's content, and the
/// verdict and the execution are recorded.  An unknown entity is a
/// validation error, which is recorded.  Nothing else changes.
pub open spec fn ruleset_invoked(
    before: Runtime,
    after: Runtime,
    entity_id: Seq<char>,
    ruleset_id: Seq<char>,
    r: Result<String, RuntimeError>,
) -> bool {
    let kind = KindView::InvokeRuleset { entity_id, ruleset_id };
    let verdict = spec_evaluate(spec_rule_for(ruleset_id), spec_content(before, entity_id));
    &&& same_stores(before, after)
    &&& if spec_known(before, entity_id) {
        &&& r matches Ok(answer)
        &&& answer@ == "Veredito de "@ + ruleset_id + ": "@ + verdict.spec_name()
        &&& recorded(
            before.timeline,
            after.timeline,
            seq![EventKindView::RuleVerdict { rule: ruleset_id, verdict }, done(kind)],
        )
    } else {
        &&& r matches Err(RuntimeError::Validation(m))
        &&& m@ == "Entidade não encontrada: "@ + entity_id
        &&& recorded(before.timeline, after.timeline, seq![failure("validation"@, m@)])
    }
}

/// What carrying out a command comes to.
pub open spec fn executed(
    before: Runtime,
    after: Runtime,
    kind: KindView,
    r: Result<String, RuntimeError>,
) -> bool {
    match kind {
        KindView::DefineContract { id, clauses } => contract_defined(before, after, id, clauses, r),
        KindView::DefineIdea { id, text } => idea_defined(before, after, id, text, r),
        KindView::SimulateEntity { id, rounds } => entity_simulated(before, after, id, rounds, r),
        KindView::Orchestrate { mode } => orchestrated(before, after, mode, r),
        KindView::InvokeRuleset { entity_id, ruleset_id } => ruleset_invoked(
            before,
            after,
            entity_id,
            ruleset_id,
            r,
        ),
    }
}

impl Runtime {
    fn define_contract(&mut self, id: &str, clauses: &Vec<String>) -> (r: Result<
        String,
        RuntimeError,
    >)
        requires
            old(self).wf(),
        ensures
            final(self).wf(),
            contract_defined(*old(self), *final(self), id@, texts(clauses@), r),
    {
        match create_contract(&mut self.contracts, id, clauses) {
            Ok(_) => {
                let ghost start = self.timeline;
                self.emit(EventKind::ContractRegistered { id: id.to_owned() });
                let ghost middle = self.timeline;
                self.emit(EventKind::ImperativeExecuted { kind: "DefineContract".to_owned() });
                proof {
                    let kind = KindView::DefineContract { id: id@, clauses: texts(clauses@) };
                    lemma_recorded_then(
                        start,
                        middle,
                        self.timeline,
                        seq![EventKindView::ContractRegistered { id: id@ }],
                        seq![done(kind)],
                    );
                    assert(seq![EventKindView::ContractRegistered { id: id@ }] + seq![done(kind)]
                        =~= seq![EventKindView::ContractRegistered { id: id@ }, done(kind)]);
                }
                Ok(concat("Contrato registrado: ", id))
            },
            Err(e) => {
                let message = e.message();
                self.emit(
                    EventKind::ErrorOccurred {
                        context: "validation".to_owned(),
                        message: message.clone(),
                    },
                );
                Err(RuntimeError::Validation(message))
            },
        }
    }

    fn define_idea(&mut self, id: &str, text: &str) -> (r: Result<String, RuntimeError>)
        requires
            old(self).wf(),
        ensures
            final(self).wf(),
            idea_defined(*old(self), *final(self), id@, text@, r),
    {
        match create_idea(&mut self.ideas, id, text) {
            Ok(_) => {
                let ghost start = self.timeline;
                self.emit(EventKind::IdeaRegistered { id: id.to_owned() });
                let ghost middle = self.timeline;
                self.emit(EventKind::ImperativeExecuted { kind: "DefineIdea".to_owned() });
                proof {
                    let kind = KindView::DefineIdea { id: id@, text: text@ };
                    lemma_recorded_then(
                        start,
                        middle,
                        self.timeline,
                        seq![EventKindView::IdeaRegistered { id: id@ }],
                        seq![done(kind)],
                    );
                    assert(seq![EventKindView::IdeaRegistered { id: id@ }] + seq![done(kind)]
                        =~= seq![EventKindView::IdeaRegistered { id: id@ }, done(kind)]);
                }
                Ok(concat("Ideia registrada: ", id))
            },
            Err(e) => {
                let message = e.message();
                self.emit(
                    EventKind::ErrorOccurred {
                        context: "validation".to_owned(),
                        message: message.clone(),
                    },
                );
                Err(RuntimeError::Validation(message))
            },
        }
    }

    fn simulate_entity(&mut self, id: &str, rounds: usize) -> (r: Result<String, RuntimeError>)
        requires
            old(self).wf(),
        ensures
            final(self).wf(),
            entity_simulated(*old(self), *final(self), id@, rounds as nat, r),
    {
        let entity_type = self.entity_type(id);
        let scenario = default_scenario_for_type(entity_type.as_str());
        let results = run_rounds(
            &mut self.simulations,
            id,
            &scenario,
            SimulationMode::Random,
            None,
            rounds,
        );
        let ghost start = self.timeline;
        self.emit(EventKind::SimulationCompleted { id: id.to_owned(), rounds });
        let ghost middle = self.timeline;
        self.emit(EventKind::ImperativeExecuted { kind: "SimulateEntity".to_owned() });
        proof {
            let kind = KindView::SimulateEntity { id: id@, rounds: rounds as nat };
            let completed = EventKindView::SimulationCompleted { id: id@, rounds: rounds as nat };
            lemma_recorded_then(start, middle, self.timeline, seq![completed], seq![done(kind)]);
            assert(seq![completed] + seq![done(kind)] =~= seq![completed, done(kind)]);
            assert(simulation_outcome(
                SimulationMode::Random,
                default_scenario_name(spec_entity_type(*old(self), id@)),
                id@,
                rounds as nat,
                results@,
            ));
        }
        let mut answer = concat3("Simulação concluída para ", id, ": ");
        answer.append(render_decimal(rounds).as_str());
        answer.append(" rodadas");
        Ok(answer)
    }

    fn orchestrate(&mut self, mode: &str) -> (r: Result<String, RuntimeError>)
        requires
            old(self).wf(),
        ensures
            final(self).wf(),
            orchestrated(*old(self), *final(self), mode@, r),
    {
        let concurrency = self.concurrency(mode);
        let started = now_millis();
        let ghost start = self.timeline;
        self.emit(EventKind::OrchestrationStarted { mode: mode.to_owned(), concurrency });
        let finished = now_millis();
        let duration_ms: u64 = if finished > started {
            (finished as i128 - started as i128) as u64
        } else {
            0
        };
        let ghost middle = self.timeline;
        self.emit(
            EventKind::OrchestrationCompleted { mode: mode.to_owned(), concurrency, duration_ms },
        );
        let ghost late = self.timeline;
        self.emit(EventKind::ImperativeExecuted { kind: "Orchestrate".to_owned() });
        proof {
            let kind = KindView::Orchestrate { mode: mode@ };
            let first = EventKindView::OrchestrationStarted {
                mode: mode@,
                concurrency: concurrency as nat,
            };
            let second = EventKindView::OrchestrationCompleted {
                mode: mode@,
                concurrency: concurrency as nat,
                duration_ms: duration_ms as nat,
            };
            lemma_recorded_then(start, middle, late, seq![first], seq![second]);
            lemma_recorded_then(start, late, self.timeline, seq![first] + seq![second], seq![done(kind)]);
            assert(seq![first] + seq![second] + seq![done(kind)] =~= seq![first, second, done(kind)]);
        }
        Ok(concat("Orquestração concluída: ", mode))
    }

    fn invoke_ruleset(&mut self, ruleset_id: &str, entity_id: &str) -> (r: Result<
        String,
        RuntimeError,
    >)
        requires
            old(self).wf(),
        ensures
            final(self).wf(),
            ruleset_invoked(*old(self), *final(self), entity_id@, ruleset_id@, r),
    {
        match self.entity_content(entity_id) {
            Some(content) => {
                let verdict = apply_ruleset(ruleset_id, content.as_str());
                let ghost start = self.timeline;
                self.emit(EventKind::RuleVerdict { rule: ruleset_id.to_owned(), verdict });
                let ghost middle = self.timeline;
                self.emit(EventKind::ImperativeExecuted { kind: "InvokeRuleset".to_owned() });
                proof {
                    let kind = KindView::InvokeRuleset {
                        entity_id: entity_id@,
                        ruleset_id: ruleset_id@,
                    };
                    let judged = EventKindView::RuleVerdict { rule: ruleset_id@, verdict };
                    lemma_recorded_then(start, middle, self.timeline, seq![judged], seq![done(kind)]);
                    assert(seq![judged] + seq![done(kind)] =~= seq![judged, done(kind)]);
                }
                let mut answer = concat3("Veredito de ", ruleset_id, ": ");
                answer.append(verdict.name().as_str());
                Ok(answer)
            },
            None => {
                let message = concat("Entidade não encontrada: ", entity_id);
                self.emit(
                    EventKind::ErrorOccurred {
                        context: "validation".to_owned(),
                        message: message.clone(),
                    },
                );
                Err(RuntimeError::Validation(message))
            },
        }
    }

    /// Carries a command out and records what happened.
    pub fn execute(&mut self, command: &Command) -> (r: Result<String, RuntimeError>)
        requires
            old(self).wf(),
        ensures
            final(self).wf(),
            executed(*old(self), *final(self), command@, r),
    {
        match command {
            Command::Imperative(imperative) => match &imperative.kind {
                ImperativeKind::DefineContract { id, clauses } => self.define_contract(
                    id.as_str(),
                    clauses,
                ),
                ImperativeKind::DefineIdea { id, text } => self.define_idea(
                    id.as_str(),
                    text.as_str(),
                ),
                ImperativeKind::SimulateEntity { id, rounds } => self.simulate_entity(
                    id.as_str(),
                    *rounds,
                ),
                ImperativeKind::Orchestrate { mode } => self.orchestrate(mode.as_str()),
                ImperativeKind::InvokeRuleset { entity_id, ruleset_id } => self.invoke_ruleset(
                    ruleset_id.as_str(),
                    entity_id.as_str(),
                ),
            },
        }
    }
}

/// The members of a command's JSON object: the form's name under
/// `kind`, then the command's own fields.
pub open spec fn command_members(kind: KindView) -> Seq<(Seq<char>, Seq<char>)> {
    let head = text_pair("kind"@, spec_kind_name(kind));
    match kind {
        KindView::DefineContract { id, clauses } => seq![
            head,
            text_pair("id"@, id),
            ("clauses"@, spec_array(literals(clauses))),
        ],
        KindView::DefineIdea { id, text } => seq![
            head,
            text_pair("id"@, id),
            text_pair("text"@, text),
        ],
        KindView::SimulateEntity { id, rounds } => seq![
            head,
            text_pair("id"@, id),
            ("rounds"@, decimal_digits(rounds)),
        ],
        KindView::Orchestrate { mode } => seq![head, text_pair("mode"@, mode)],
        KindView::InvokeRuleset { entity_id, ruleset_id } => seq![
            head,
            text_pair("ruleset_id"@, ruleset_id),
            text_pair("entity_id"@, entity_id),
        ],
    }
}

/// The payload that hooks are handed: an object whose member `command`
/// is the command's JSON object.
pub open spec fn spec_hook_payload(kind: KindView) -> Seq<char> {
    spec_object(seq![("command"@, spec_object(command_members(kind)))])
}

/// A command as a JSON object.
pub fn command_json(command: &Command) -> (s: String)
    ensures
        s@ == spec_object(command_members(command@)),
{
    let mut list: Vec<Member> = Vec::new();
    match command {
        Command::Imperative(imperative) => {
            list.push(text_member("kind", imperative.kind.name().as_str()));
            match &imperative.kind {
                ImperativeKind::DefineContract { id, clauses } => {
                    list.push(text_member("id", id.as_str()));
                    list.push(raw_member("clauses", json_text_array(clauses)));
                },
                ImperativeKind::DefineIdea { id, text } => {
                    list.push(text_member("id", id.as_str()));
                    list.push(text_member("text", text.as_str()));
                },
                ImperativeKind::SimulateEntity { id, rounds } => {
                    list.push(text_member("id", id.as_str()));
                    list.push(raw_member("rounds", render_decimal(*rounds)));
                },
                ImperativeKind::Orchestrate { mode } => {
                    list.push(text_member("mode", mode.as_str()));
                },
                ImperativeKind::InvokeRuleset { entity_id, ruleset_id } => {
                    list.push(text_member("ruleset_id", ruleset_id.as_str()));
                    list.push(text_member("entity_id", entity_id.as_str()));
                },
            }
        },
    }
    assert(member_views(list@) =~= command_members(command@));
    json_object(&list)
}

/// The payload that hooks are handed for a command.
pub fn hook_payload(command: &Command) -> (s: String)
    ensures
        s@ == spec_hook_payload(command@),
{
    let mut list: Vec<Member> = Vec::new();
    list.push(raw_member("command", command_json(command)));
    assert(member_views(list@) =~= seq![("command"@, spec_object(command_members(command@)))]);
    json_object(&list)
}

/// Whether a plugin's answer is a veto, and with what reason: it is one
/// exactly when its member `veto` is the boolean `true`; the reason is
/// its member `reason` where that is a text, and empty otherwise.
pub fn veto_decision(veto: Option<bool>, reason: Option<String>) -> (r: Option<String>)
    ensures
        match r {
            Some(why) => veto == Some(true) && why@ == (match reason {
                Some(text) => text@,
                None => Seq::<char>::empty(),
            }),
            None => veto != Some(true),
        },
{
    match veto {
        Some(true) => match reason {
            Some(text) => Some(text),
            None => Some(String::new()),
        },
        _ => None,
    }
}

/// What a plugin's answer to a pre-hook says: a veto, with its reason,
/// exactly when the answer is a JSON object whose member `veto` is the
/// boolean `true`; the reason is the member `reason` where that is a
/// text, and empty otherwise.
pub open spec fn spec_veto(reading: Option<JsonTree>) -> Option<Seq<char>> {
    match reading {
        Some(contents) => if lookup_flag(contents, "veto"@) == Some(true) {
            Some(
                match lookup_text(contents, "reason"@) {
                    Some(reason) => reason,
                    None => Seq::empty(),
                },
            )
        } else {
            None
        },
        None => None,
    }
}

/// Reads a plugin's answer to a pre-hook.  An answer that is no JSON
/// object is no veto.
fn veto_of(answer: &str) -> (r: Option<String>)
    ensures
        text_view(r) == spec_veto(json_reading(answer@)),
{
    match json_parse(answer) {
        Some(document) => {
            let veto = match json_member(&document, "veto") {
                Some(member) => json_bool(&member),
                None => None,
            };
            let reason = match json_member(&document, "reason") {
                Some(member) => json_text(&member),
                None => None,
            };
            veto_decision(veto, reason)
        },
        None => None,
    }
}

/// Whether every kind of a sequence reports a plugin's failure.
pub open spec fn plugin_failures(kinds: Seq<EventKindView>) -> bool {
    forall|i: int|
        0 <= i < kinds.len() ==> (#[trigger] kinds[i] matches EventKindView::ErrorOccurred {
            context,
            ..
        } && context == "plugin"@)
}

/// What running hooks may change: nothing but the timeline, which gets
/// one report for each hook that failed.
pub open spec fn hooked(before: Runtime, after: Runtime) -> bool {
    &&& same_stores(before, after)
    &&& exists|kinds: Seq<EventKindView>|
        #![auto]
        plugin_failures(kinds) && recorded(before.timeline, after.timeline, kinds)
}

/// What a veto comes to: the command is refused with the plugin's
/// reason, the veto is recorded after the reports of the hooks that
/// failed before it, and nothing else changes.
pub open spec fn vetoed(before: Runtime, after: Runtime, r: Result<String, RuntimeError>) -> bool {
    &&& r matches Err(RuntimeError::Veto(reason))
    &&& same_stores(before, after)
    &&& exists|kinds: Seq<EventKindView>|
        #![auto]
        plugin_failures(kinds) && recorded(
            before.timeline,
            after.timeline,
            kinds + seq![failure("plugin_veto"@, reason@)],
        )
}

/// Whether no active plugin serves the hooks around commands.
pub open spec fn unhooked(runtime: Runtime) -> bool {
    forall|id: Seq<char>| #[trigger]
        runtime.plugins.table().dom().contains(id) ==> runtime.plugins.table()[id].function_for(
            "precommand"@,
        ) is None && runtime.plugins.table()[id].function_for("postcommand"@) is None
}

/// What processing a text comes to.
///
/// Text that is no command is a syntax error, which is recorded, and
/// nothing else changes.  A command goes to the pre-hooks first: one of
/// them may veto it.  Otherwise it is carried out, and where that
/// succeeded the post-hooks follow.
pub open spec fn processed(
    before: Runtime,
    after: Runtime,
    text: Seq<char>,
    r: Result<String, RuntimeError>,
) -> bool {
    match spec_parse(text) {
        Err(message) => {
            &&& r matches Err(RuntimeError::Syntax(m))
            &&& m@ == message
            &&& same_stores(before, after)
            &&& recorded(before.timeline, after.timeline, seq![failure("parsing"@, message)])
        },
        Ok(kind) => {
            ||| vetoed(before, after, r)
            ||| exists|ready: Runtime, carried: Runtime|
                #![auto]
                hooked(before, ready) && executed(ready, carried, kind, r) && (if r is Ok {
                    hooked(carried, after)
                } else {
                    carried == after
                })
        },
    }
}

/// Carrying a command out only adds to the timeline.
pub proof fn lemma_executed_extends(
    before: Runtime,
    after: Runtime,
    kind: KindView,
    r: Result<String, RuntimeError>,
)
    requires
        executed(before, after, kind, r),
    ensures
        extends(before.timeline, after.timeline),
{
}

/// Running hooks only adds to the timeline.
pub proof fn lemma_hooked_extends(before: Runtime, after: Runtime)
    requires
        hooked(before, after),
    ensures
        extends(before.timeline, after.timeline),
{
}

/// Processing a text only adds to the timeline.
pub proof fn lemma_processed_extends(
    before: Runtime,
    after: Runtime,
    text: Seq<char>,
    r: Result<String, RuntimeError>,
)
    requires
        processed(before, after, text, r),
    ensures
        extends(before.timeline, after.timeline),
{
    match spec_parse(text) {
        Err(_) => {},
        Ok(kind) => {
            if vetoed(before, after, r) {
            } else {
                let (ready, carried) = choose|ready: Runtime, carried: Runtime|
                    #![auto]
                    hooked(before, ready) && executed(ready, carried, kind, r) && (if r is Ok {
                        hooked(carried, after)
                    } else {
                        carried == after
                    });
                lemma_hooked_extends(before, ready);
                lemma_executed_extends(ready, carried, kind, r);
                lemma_extends_then(before.timeline, ready.timeline, carried.timeline);
                if r is Ok {
                    lemma_hooked_extends(carried, after);
                    lemma_extends_then(before.timeline, carried.timeline, after.timeline);
                }
            }
        },
    }
}

impl Runtime {
    /// Runs the pre-hooks in ascending order of plugin id.  Returns the
    /// reason of the first veto, if any; hooks after a veto are not run.
    fn run_pre_hooks(&mut self, payload: &str) -> (r: (Option<String>, Ghost<Seq<EventKindView>>))
        requires
            old(self).wf(),
        ensures
            final(self).wf(),
            same_stores(*old(self), *final(self)),
            plugin_failures(r.1@),
            recorded(old(self).timeline, final(self).timeline, r.1@),
            unhooked(*old(self)) ==> *final(self) == *old(self) && r.0 is None,
    {
        let hook = HookType::PreCommand.as_str();
        let ids = self.plugins.plugins_serving(hook.as_str());
        let ghost mut kinds: Seq<EventKindView> = Seq::empty();
        proof {
            lemma_recorded_nothing(self.timeline);
            if unhooked(*self) && ids@.len() > 0 {
                assert(texts(ids@).contains(texts(ids@)[0]));
            }
        }
        let mut i: usize = 0;
        while i < ids.len()
            invariant
                i <= ids@.len(),
                self.wf(),
                same_stores(*old(self), *self),
                plugin_failures(kinds),
                recorded(old(self).timeline, self.timeline, kinds),
                unhooked(*old(self)) ==> ids@.len() == 0 && *self == *old(self),
            decreases ids@.len() - i,
        {
            match self.plugins.invoke(ids[i].as_str(), hook.as_str(), payload) {
                Ok(answer) => match veto_of(answer.as_str()) {
                    Some(reason) => {
                        return (Some(reason), Ghost(kinds));
                    },
                    None => {},
                },
                Err(e) => {
                    let ghost start = self.timeline;
                    let message = e.message();
                    self.emit(
                        EventKind::ErrorOccurred { context: "plugin".to_owned(), message: message },
                    );
                    proof {
                        let report = failure("plugin"@, e.message_text());
                        lemma_recorded_then(
                            old(self).timeline,
                            start,
                            self.timeline,
                            kinds,
                            seq![report],
                        );
                        kinds = kinds + seq![report];
                    }
                },
            }
            i = i + 1;
        }
        (None, Ghost(kinds))
    }

    /// Runs the post-hooks in ascending order of plugin id.  A hook that
    /// fails is reported and does not fail the command.
    fn run_post_hooks(&mut self, payload: &str)
        requires
            old(self).wf(),
        ensures
            final(self).wf(),
            hooked(*old(self), *final(self)),
            unhooked(*old(self)) ==> *final(self) == *old(self),
    {
        let hook = HookType::PostCommand.as_str();
        let ids = self.plugins.plugins_serving(hook.as_str());
        let ghost mut kinds: Seq<EventKindView> = Seq::empty();
        proof {
            lemma_recorded_nothing(self.timeline);
            if unhooked(*self) && ids@.len() > 0 {
                assert(texts(ids@).contains(texts(ids@)[0]));
            }
        }
        let mut i: usize = 0;
        while i < ids.len()
            invariant
                i <= ids@.len(),
                self.wf(),
                same_stores(*old(self), *self),
                plugin_failures(kinds),
                recorded(old(self).timeline, self.timeline, kinds),
                unhooked(*old(self)) ==> ids@.len() == 0 && *self == *old(self),
            decreases ids@.len() - i,
        {
            match self.plugins.invoke(ids[i].as_str(), hook.as_str(), payload) {
                Ok(_) => {},
                Err(e) => {
                    let ghost start = self.timeline;
                    let message = e.message();
                    self.emit(
                        EventKind::ErrorOccurred { context: "plugin".to_owned(), message: message },
                    );
                    proof {
                        let report = failure("plugin"@, e.message_text());
                        lemma_recorded_then(
                            old(self).timeline,
                            start,
                            self.timeline,
                            kinds,
                            seq![report],
                        );
                        kinds = kinds + seq![report];
                    }
                },
            }
            i = i + 1;
        }
    }

    /// Processes one command: reads it, runs the pre-hooks, carries it
    /// out, runs the post-hooks, and returns a text that says what was
    /// done.
    pub fn process_command(&mut self, text: &str) -> (r: Result<String, RuntimeError>)
        requires
            old(self).wf(),
        ensures
            final(self).wf(),
            processed(*old(self), *final(self), text@, r),
            unhooked(*old(self)) ==> match spec_parse(text@) {
                Ok(kind) => executed(*old(self), *final(self), kind, r),
                Err(_) => true,
            },
    {
        let command = match parse(text) {
            Ok(command) => command,
            Err(Error::Syntax(message)) => {
                self.emit(
                    EventKind::ErrorOccurred {
                        context: "parsing".to_owned(),
                        message: message.clone(),
                    },
                );
                return Err(RuntimeError::Syntax(message));
            },
        };
        let payload = hook_payload(&command);
        let (veto, Ghost(kinds)) = self.run_pre_hooks(payload.as_str());
        match veto {
            Some(reason) => {
                let ghost start = self.timeline;
                self.emit(
                    EventKind::ErrorOccurred {
                        context: "plugin_veto".to_owned(),
                        message: reason.clone(),
                    },
                );
                proof {
                    lemma_recorded_then(
                        old(self).timeline,
                        start,
                        self.timeline,
                        kinds,
                        seq![failure("plugin_veto"@, reason@)],
                    );
                }
                return Err(RuntimeError::Veto(reason));
            },
            None => {},
        }
        let ghost ready = *self;
        let r = self.execute(&command);
        let ghost carried = *self;
        if r.is_ok() {
            self.run_post_hooks(payload.as_str());
        }
        proof {
            assert(hooked(*old(self), ready));
            assert(executed(ready, carried, command@, r));
        }
        r
    }
}

} // verus!
