//! The simulation routine.

pub mod random;
pub mod scenarios;
pub mod engine;
pub mod store;

use vstd::prelude::*;
use crate::registry::{fetch_entity, Registry};
use crate::simulate::engine::{
    round_from,
    round_outcome,
    EngineConfig,
    SimulationEngine,
    SimulationMode,
    SimulationResult,
    SimulationStatus,
};
use crate::simulate::random::seeded_state;
use crate::simulate::scenarios::{
    catalogue_events,
    catalogue_modifiers,
    catalogue_ranges,
    catalogued,
    chance_views,
    default_scenario_for_type,
    default_scenario_name,
    load_scenario,
    modifier_views,
    range_views,
    Scenario,
};
use crate::simulate::store::{
    clear_results_by_entity,
    get_results_by_entity,
    last_of,
    results_except,
    results_of,
    save_simulation_result,
    SimulationStore,
};
use crate::text::{concat, texts};

verus! {

/// What a simulation can fail with.
#[derive(Debug)]
pub enum SimulateError {
    /// The store holds no results for the entity.
    EntityNotFound(String),
    /// The registry does not know the entity.
    RegistryError(String),
    /// The simulation itself failed.
    SimulationError(String),
    /// The catalogue has no scenario of the name.
    ScenarioNotFound(String),
    /// The results could not be stored.
    StorageError(String),
    /// The configuration makes no sense.
    ConfigError(String),
    /// Anything else.
    Internal(String),
}

impl SimulateError {
    /// The message of the error.
    pub fn message(&self) -> (s: String)
        ensures
            match self {
                SimulateError::EntityNotFound(d) => s@ == "Entidade "@ + d@ + " não encontrada"@,
                SimulateError::RegistryError(d) => s@ == "Erro do registro: "@ + d@,
                SimulateError::SimulationError(d) => s@ == "Erro na simulação: "@ + d@,
                SimulateError::ScenarioNotFound(d) => s@ == "Cenário "@ + d@ + " não encontrado"@,
                SimulateError::StorageError(d) => s@ == "Erro de armazenamento: "@ + d@,
                SimulateError::ConfigError(d) => s@ == "Erro de configuração: "@ + d@,
                SimulateError::Internal(d) => s@ == "Erro interno: "@ + d@,
            },
    {
        match self {
            SimulateError::EntityNotFound(d) => crate::text::concat3(
                "Entidade ",
                d.as_str(),
                " não encontrada",
            ),
            SimulateError::RegistryError(d) => concat("Erro do registro: ", d.as_str()),
            SimulateError::SimulationError(d) => concat("Erro na simulação: ", d.as_str()),
            SimulateError::ScenarioNotFound(d) => crate::text::concat3(
                "Cenário ",
                d.as_str(),
                " não encontrado",
            ),
            SimulateError::StorageError(d) => concat("Erro de armazenamento: ", d.as_str()),
            SimulateError::ConfigError(d) => concat("Erro de configuração: ", d.as_str()),
            SimulateError::Internal(d) => concat("Erro interno: ", d.as_str()),
        }
    }
}

/// How a simulation is to be run.
#[derive(Debug)]
pub struct SimulationConfig {
    pub mode: SimulationMode,
    /// How many rounds to run.
    pub rounds: usize,
    /// The seed of the random numbers, for runs that can be repeated.
    pub random_seed: Option<u64>,
    /// The metrics to collect.
    pub metrics: Vec<String>,
    /// The scenario to run under; without one the entity's type decides.
    pub scenario: Option<String>,
}

impl Default for SimulationConfig {
    /// Ten random rounds, collecting the success rate, the processing
    /// time and the resource usage, under the scenario of the entity's
    /// type.
    fn default() -> (config: SimulationConfig)
        ensures
            config.mode == SimulationMode::Random,
            config.rounds == 10,
            config.random_seed is None,
            config.scenario is None,
            texts(config.metrics@) == seq![
                "success_rate"@,
                "processing_time"@,
                "resource_usage"@,
            ],
    {
        let mut metrics: Vec<String> = Vec::new();
        metrics.push("success_rate".to_owned());
        metrics.push("processing_time".to_owned());
        metrics.push("resource_usage".to_owned());
        assert(texts(metrics@) =~= seq!["success_rate"@, "processing_time"@, "resource_usage"@]);
        SimulationConfig {
            mode: SimulationMode::Random,
            rounds: 10,
            random_seed: None,
            metrics,
            scenario: None,
        }
    }
}

/// The name of the scenario that a simulation runs under: the one that
/// was chosen, or the one that goes with the entity's type.
pub open spec fn chosen_scenario(entity_type: Seq<char>, scenario: Option<String>) -> Seq<char> {
    match scenario {
        Some(name) => name@,
        None => default_scenario_name(entity_type),
    }
}

/// Whether a sequence of outcomes is what a simulation of `rounds`
/// rounds may yield for an entity under a catalogued scenario: one
/// outcome for each round, numbered from 1, each a possible outcome of a
/// round in the given mode.
pub open spec fn simulation_outcome(
    mode: SimulationMode,
    scenario: Seq<char>,
    entity: Seq<char>,
    rounds: nat,
    results: Seq<SimulationResult>,
) -> bool {
    &&& results.len() == rounds
    &&& forall|i: int|
        0 <= i < results.len() ==> {
            &&& (#[trigger] results[i]).round == i + 1
            &&& results[i].entity_id@ == entity
            &&& results[i].status == SimulationStatus::Success
            &&& results[i].metrics.wf()
            &&& round_outcome(
                mode,
                catalogue_ranges(scenario),
                catalogue_events(scenario),
                catalogue_modifiers(scenario),
                entity,
                results[i].metrics.view(),
                texts(results[i].events@),
            )
        }
}

/// A deterministic simulation is a function of the entity and the
/// scenario alone: any two runs of the same number of rounds give, round
/// for round, the same metrics and the same events.
pub proof fn lemma_deterministic(
    scenario: Seq<char>,
    entity: Seq<char>,
    rounds: nat,
    first: Seq<SimulationResult>,
    second: Seq<SimulationResult>,
)
    requires
        simulation_outcome(SimulationMode::Deterministic, scenario, entity, rounds, first),
        simulation_outcome(SimulationMode::Deterministic, scenario, entity, rounds, second),
    ensures
        first.len() == second.len(),
        forall|i: int|
            0 <= i < first.len() ==> (#[trigger] first[i]).metrics.view() == second[i].metrics.view()
                && texts(first[i].events@) == texts(second[i].events@) && first[i].round
                == second[i].round,
{
    assert forall|i: int| 0 <= i < first.len() implies (#[trigger] first[i]).metrics.view()
        == second[i].metrics.view() && texts(first[i].events@) == texts(second[i].events@)
        && first[i].round == second[i].round by {
        assert(second[i].round == i + 1);
    }
}

/// The state of the generator after a number of rounds of a simulation
/// that started in the given state.
pub open spec fn state_after(
    mode: SimulationMode,
    scenario: Seq<char>,
    entity: Seq<char>,
    state: int,
    rounds: nat,
) -> int
    decreases rounds,
{
    if rounds == 0 {
        state
    } else {
        round_from(
            mode,
            catalogue_ranges(scenario),
            catalogue_events(scenario),
            catalogue_modifiers(scenario),
            entity,
            state_after(mode, scenario, entity, state, (rounds - 1) as nat),
        ).next
    }
}

/// Whether a sequence of outcomes is what a simulation of `rounds` rounds
/// yields for an entity under a catalogued scenario when its generator
/// starts in the given state: each round's metrics and events are those
/// that the generator gives in the state the rounds before left it in.
pub open spec fn seeded_outcome(
    mode: SimulationMode,
    scenario: Seq<char>,
    entity: Seq<char>,
    rounds: nat,
    state: int,
    results: Seq<SimulationResult>,
) -> bool {
    &&& results.len() == rounds
    &&& forall|i: int|
        0 <= i < results.len() ==> {
            let round = round_from(
                mode,
                catalogue_ranges(scenario),
                catalogue_events(scenario),
                catalogue_modifiers(scenario),
                entity,
                state_after(mode, scenario, entity, state, i as nat),
            );
            (#[trigger] results[i]).metrics.view() == round.metrics && texts(results[i].events@)
                == round.texts
        }
}

/// What a seed fixes: the outcomes of a simulation whose generator was
/// made from one.  Without a seed nothing is fixed.
pub open spec fn fixed_by_seed(
    random_seed: Option<u64>,
    mode: SimulationMode,
    scenario: Seq<char>,
    entity: Seq<char>,
    rounds: nat,
    results: Seq<SimulationResult>,
) -> bool {
    match random_seed {
        Some(seed) => seeded_outcome(mode, scenario, entity, rounds, seeded_state(seed), results),
        None => true,
    }
}

/// Equal seeds give equal simulations, in every mode: any two runs of the
/// same number of rounds for the same entity under the same scenario and
/// from the same seed give, round for round, the same metrics and the
/// same events.
pub proof fn lemma_seed_repeats(
    seed: u64,
    mode: SimulationMode,
    scenario: Seq<char>,
    entity: Seq<char>,
    rounds: nat,
    first: Seq<SimulationResult>,
    second: Seq<SimulationResult>,
)
    requires
        fixed_by_seed(Some(seed), mode, scenario, entity, rounds, first),
        fixed_by_seed(Some(seed), mode, scenario, entity, rounds, second),
    ensures
        first.len() == second.len(),
        forall|i: int|
            0 <= i < first.len() ==> (#[trigger] first[i]).metrics.view() == second[i].metrics.view()
                && texts(first[i].events@) == texts(second[i].events@),
{
    assert forall|i: int| 0 <= i < first.len() implies (#[trigger] first[i]).metrics.view()
        == second[i].metrics.view() && texts(first[i].events@) == texts(second[i].events@) by {
        let round = round_from(
            mode,
            catalogue_ranges(scenario),
            catalogue_events(scenario),
            catalogue_modifiers(scenario),
            entity,
            state_after(mode, scenario, entity, seeded_state(seed), i as nat),
        );
        assert(second[i].metrics.view() == round.metrics);
    }
}

/// Simulates an entity of the registry for `config.rounds` rounds and
/// saves every round's outcome.
///
/// An entity that the registry does not know is a `RegistryError`; a
/// chosen scenario that is not in the catalogue is `ScenarioNotFound`.
/// Neither saves anything.
pub fn run_simulation_with_config(
    registry: &Registry,
    store: &mut SimulationStore,
    entity_id: &str,
    config: SimulationConfig,
) -> (r: Result<Vec<SimulationResult>, SimulateError>)
    requires
        registry.wf(),
        old(store).wf(),
    ensures
        final(store).wf(),
        match r {
            Ok(results) => {
                &&& registry.view().dom().contains(entity_id@)
                &&& catalogued(
                    chosen_scenario(registry.view()[entity_id@].entity_type@, config.scenario),
                )
                &&& simulation_outcome(
                    config.mode,
                    chosen_scenario(registry.view()[entity_id@].entity_type@, config.scenario),
                    entity_id@,
                    config.rounds as nat,
                    results@,
                )
                &&& fixed_by_seed(
                    config.random_seed,
                    config.mode,
                    chosen_scenario(registry.view()[entity_id@].entity_type@, config.scenario),
                    entity_id@,
                    config.rounds as nat,
                    results@,
                )
                &&& final(store).view() == old(store).view() + crate::simulate::engine::result_views(
                    results@,
                )
            },
            Err(SimulateError::RegistryError(reason)) => !registry.view().dom().contains(entity_id@)
                && reason@ == "Entidade não encontrada: "@ + entity_id@ && *final(store) == *old(store),
            Err(SimulateError::ScenarioNotFound(name)) => {
                &&& registry.view().dom().contains(entity_id@)
                &&& config.scenario matches Some(chosen)
                &&& name@ == chosen@
                &&& !catalogued(chosen@)
                &&& *final(store) == *old(store)
            },
            Err(_) => false,
        },
{
    let entity_type = match fetch_entity(registry, entity_id) {
        Ok((_, entity_type)) => entity_type,
        Err(e) => {
            return Err(SimulateError::RegistryError(e.message()));
        },
    };
    let scenario = match &config.scenario {
        Some(name) => match load_scenario(name.as_str()) {
            Some(scenario) => scenario,
            None => {
                return Err(SimulateError::ScenarioNotFound(name.clone()));
            },
        },
        None => {
            proof {
                reveal_strlit("high_performance");
                reveal_strlit("normal");
            }
            default_scenario_for_type(entity_type.as_str())
        },
    };
    Ok(run_rounds(store, entity_id, &scenario, config.mode, config.random_seed, config.rounds))
}

/// Runs `rounds` rounds for an entity under a scenario and saves every
/// round's outcome.
pub fn run_rounds(
    store: &mut SimulationStore,
    entity_id: &str,
    scenario: &Scenario,
    mode: SimulationMode,
    random_seed: Option<u64>,
    rounds: usize,
) -> (results: Vec<SimulationResult>)
    requires
        old(store).wf(),
        catalogued(scenario.config.name@),
        range_views(scenario.metrics@) == catalogue_ranges(scenario.config.name@),
        chance_views(scenario.events@) == catalogue_events(scenario.config.name@),
        modifier_views(scenario.modifiers@) == catalogue_modifiers(scenario.config.name@),
    ensures
        final(store).wf(),
        simulation_outcome(mode, scenario.config.name@, entity_id@, rounds as nat, results@),
        fixed_by_seed(random_seed, mode, scenario.config.name@, entity_id@, rounds as nat, results@),
        final(store).view() == old(store).view() + crate::simulate::engine::result_views(results@),
{
    let ghost name = scenario.config.name@;
    let mut engine = SimulationEngine::new(EngineConfig { random_seed, mode });
    let ghost start = engine.state();
    let mut results: Vec<SimulationResult> = Vec::new();
    let mut round: usize = 0;
    assert(store.view() + crate::simulate::engine::result_views(results@) =~= store.view());
    while round < rounds
        invariant
            round <= rounds,
            store.wf(),
            engine.mode == mode,
            name == scenario.config.name@,
            range_views(scenario.metrics@) == catalogue_ranges(name),
            chance_views(scenario.events@) == catalogue_events(name),
            modifier_views(scenario.modifiers@) == catalogue_modifiers(name),
            simulation_outcome(mode, name, entity_id@, round as nat, results@),
            seeded_outcome(mode, name, entity_id@, round as nat, start, results@),
            engine.state() == state_after(mode, name, entity_id@, start, round as nat),
            random_seed matches Some(seed) ==> start == seeded_state(seed),
            store.view() == old(store).view() + crate::simulate::engine::result_views(results@),
        decreases rounds - round,
    {
        let result = match engine.simulate_round(entity_id, scenario, round + 1) {
            Ok(result) => result,
            Err(_) => {
                assert(false);
                return results;
            },
        };
        let _ = save_simulation_result(store, &result);
        let ghost before = results@;
        let ghost views = crate::simulate::engine::result_views(results@);
        results.push(result);
        proof {
            assert(crate::simulate::engine::result_views(results@) =~= views.push(result@));
            assert(store.view() =~= old(store).view() + crate::simulate::engine::result_views(
                results@,
            ));
            assert forall|i: int| 0 <= i < results@.len() implies {
                &&& (#[trigger] results@[i]).round == i + 1
                &&& results@[i].entity_id@ == entity_id@
                &&& results@[i].status == SimulationStatus::Success
                &&& results@[i].metrics.wf()
                &&& round_outcome(
                    mode,
                    catalogue_ranges(name),
                    catalogue_events(name),
                    catalogue_modifiers(name),
                    entity_id@,
                    results@[i].metrics.view(),
                    texts(results@[i].events@),
                )
            } by {
                if i < before.len() {
                    assert(results@[i] == before[i]);
                }
            }
            assert forall|i: int| 0 <= i < results@.len() implies {
                let drawn = round_from(
                    mode,
                    catalogue_ranges(name),
                    catalogue_events(name),
                    catalogue_modifiers(name),
                    entity_id@,
                    state_after(mode, name, entity_id@, start, i as nat),
                );
                (#[trigger] results@[i]).metrics.view() == drawn.metrics && texts(
                    results@[i].events@,
                ) == drawn.texts
            } by {
                if i < before.len() {
                    assert(results@[i] == before[i]);
                }
            }
        }
        round = round + 1;
    }
    results
}

/// Simulates an entity for `rounds` rounds with the default
/// configuration.
pub fn run_simulation(
    registry: &Registry,
    store: &mut SimulationStore,
    entity_id: &str,
    rounds: usize,
) -> (r: Result<Vec<SimulationResult>, SimulateError>)
    requires
        registry.wf(),
        old(store).wf(),
    ensures
        final(store).wf(),
        match r {
            Ok(results) => {
                &&& registry.view().dom().contains(entity_id@)
                &&& simulation_outcome(
                    SimulationMode::Random,
                    default_scenario_name(registry.view()[entity_id@].entity_type@),
                    entity_id@,
                    rounds as nat,
                    results@,
                )
                &&& final(store).view() == old(store).view() + crate::simulate::engine::result_views(
                    results@,
                )
            },
            Err(SimulateError::RegistryError(reason)) => !registry.view().dom().contains(entity_id@)
                && reason@ == "Entidade não encontrada: "@ + entity_id@ && *final(store) == *old(store),
            Err(_) => false,
        },
{
    let mut config = SimulationConfig::default();
    config.rounds = rounds;
    run_simulation_with_config(registry, store, entity_id, config)
}

/// The most recent outcomes that were saved for an entity, at most
/// `limit` of them.
pub fn get_simulation_results(store: &SimulationStore, entity_id: &str, limit: usize) -> (r: Result<
    Vec<SimulationResult>,
    SimulateError,
>)
    requires
        store.wf(),
    ensures
        match r {
            Ok(results) => results_of(store.view(), entity_id@).len() > 0
                && crate::simulate::engine::result_views(results@) == last_of(
                results_of(store.view(), entity_id@),
                limit as nat,
            ),
            Err(SimulateError::StorageError(reason)) => results_of(store.view(), entity_id@).len()
                == 0 && reason@ == "Entidade "@ + entity_id@ + " não encontrada"@,
            Err(_) => false,
        },
{
    match get_results_by_entity(store, entity_id, limit) {
        Ok(results) => Ok(results),
        Err(e) => Err(SimulateError::StorageError(e.message())),
    }
}

/// Forgets every outcome that was saved for an entity.
pub fn clear_simulation_results(store: &mut SimulationStore, entity_id: &str) -> (r: Result<
    (),
    SimulateError,
>)
    requires
        old(store).wf(),
    ensures
        final(store).wf(),
        r is Ok,
        final(store).view() == results_except(old(store).view(), entity_id@),
{
    match clear_results_by_entity(store, entity_id) {
        Ok(_) => Ok(()),
        Err(e) => Err(SimulateError::StorageError(e.message())),
    }
}

} // verus!
