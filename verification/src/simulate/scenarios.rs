//! Scenarios: named bundles of metric ranges, events that may occur, and
//! modifiers.  Metric values and factors are fixed-point numbers in
//! millionths; probabilities are parts per million.

use vstd::prelude::*;
use crate::text::{equals_ignoring_ascii_case, same_text};

verus! {

/// One, in millionths.
pub const ONE: u64 = 1000000;

/// Certainty, in parts per million.
pub const CERTAIN: u32 = 1000000;

/// The range that a metric is drawn from.
#[derive(Debug)]
pub struct MetricRange {
    pub name: String,
    /// The least value, in millionths.
    pub min: u64,
    /// The bound above all values, in millionths.
    pub max: u64,
}

/// An event that may occur during a round.
#[derive(Debug)]
pub struct ScenarioEvent {
    pub name: String,
    /// How likely the event is, in parts per million.
    pub probability: u32,
    /// Data that goes with the event, as JSON text.
    pub data: Option<String>,
}

/// A modifier that scales a metric.
#[derive(Debug)]
pub struct ScenarioModifier {
    /// The metric that is scaled.
    pub metric: String,
    /// The factor, in millionths.
    pub factor: u64,
    /// When the modifier is meant to apply.  It is carried along and not
    /// interpreted: every modifier applies.
    pub condition: Option<String>,
}

/// A possible outcome of a scenario.
#[derive(Debug)]
pub struct ScenarioOutcome {
    pub name: String,
    pub condition: String,
    /// The base probability, in parts per million.
    pub probability: u32,
}

/// The description of a scenario.
#[derive(Debug)]
pub struct ScenarioConfig {
    pub name: String,
    pub description: String,
    pub metrics: Vec<MetricRange>,
    pub events: Vec<ScenarioEvent>,
    pub modifiers: Vec<ScenarioModifier>,
    pub outcomes: Vec<ScenarioOutcome>,
}

/// A scenario, ready to be simulated.
#[derive(Debug)]
pub struct Scenario {
    pub config: ScenarioConfig,
    pub metrics: Vec<MetricRange>,
    pub events: Vec<ScenarioEvent>,
    pub modifiers: Vec<ScenarioModifier>,
}

/// A metric range as plain data.
pub struct RangeView {
    pub name: Seq<char>,
    pub min: u64,
    pub max: u64,
}

/// A scenario event as plain data.
pub struct ChanceView {
    pub name: Seq<char>,
    pub probability: u32,
}

/// A modifier as plain data.
pub struct ModifierView {
    pub metric: Seq<char>,
    pub factor: u64,
}

/// A possible outcome as plain data.
pub struct OutcomeView {
    pub name: Seq<char>,
    pub condition: Seq<char>,
    pub probability: u32,
}

pub open spec fn outcome_views(outcomes: Seq<ScenarioOutcome>) -> Seq<OutcomeView> {
    outcomes.map_values(
        |o: ScenarioOutcome|
            OutcomeView { name: o.name@, condition: o.condition@, probability: o.probability },
    )
}

pub open spec fn range_views(ranges: Seq<MetricRange>) -> Seq<RangeView> {
    ranges.map_values(|r: MetricRange| RangeView { name: r.name@, min: r.min, max: r.max })
}

pub open spec fn chance_views(events: Seq<ScenarioEvent>) -> Seq<ChanceView> {
    events.map_values(|e: ScenarioEvent| ChanceView { name: e.name@, probability: e.probability })
}

pub open spec fn modifier_views(modifiers: Seq<ScenarioModifier>) -> Seq<ModifierView> {
    modifiers.map_values(|m: ScenarioModifier| ModifierView { metric: m.metric@, factor: m.factor })
}

/// The names of the scenarios of the catalogue.
pub open spec fn catalogued(name: Seq<char>) -> bool {
    name == "high_performance"@ || name == "low_performance"@ || name == "normal"@
}

/// The metric ranges of a catalogued scenario.
pub open spec fn catalogue_ranges(name: Seq<char>) -> Seq<RangeView> {
    if name == "high_performance"@ {
        seq![
            RangeView { name: "success_rate"@, min: 900000, max: 1000000 },
            RangeView { name: "processing_time"@, min: 5000000, max: 50000000 },
            RangeView { name: "resource_usage"@, min: 100000, max: 400000 },
        ]
    } else if name == "low_performance"@ {
        seq![
            RangeView { name: "success_rate"@, min: 400000, max: 700000 },
            RangeView { name: "processing_time"@, min: 200000000, max: 800000000 },
            RangeView { name: "resource_usage"@, min: 700000, max: 950000 },
        ]
    } else {
        seq![
            RangeView { name: "success_rate"@, min: 700000, max: 900000 },
            RangeView { name: "processing_time"@, min: 50000000, max: 200000000 },
            RangeView { name: "resource_usage"@, min: 400000, max: 700000 },
        ]
    }
}

/// The events of a catalogued scenario.
pub open spec fn catalogue_events(name: Seq<char>) -> Seq<ChanceView> {
    if name == "high_performance"@ {
        seq![
            ChanceView { name: "process_start"@, probability: 1000000 },
            ChanceView { name: "optimization_applied"@, probability: 800000 },
            ChanceView { name: "process_complete"@, probability: 950000 },
        ]
    } else if name == "low_performance"@ {
        seq![
            ChanceView { name: "process_start"@, probability: 900000 },
            ChanceView { name: "resource_exhausted"@, probability: 600000 },
            ChanceView { name: "process_timeout"@, probability: 400000 },
            ChanceView { name: "process_complete"@, probability: 600000 },
        ]
    } else {
        seq![
            ChanceView { name: "process_start"@, probability: 1000000 },
            ChanceView { name: "validation_complete"@, probability: 800000 },
            ChanceView { name: "process_complete"@, probability: 850000 },
        ]
    }
}

/// The modifiers of a catalogued scenario.
pub open spec fn catalogue_modifiers(name: Seq<char>) -> Seq<ModifierView> {
    if name == "high_performance"@ {
        seq![ModifierView { metric: "processing_time"@, factor: 800000 }]
    } else if name == "low_performance"@ {
        seq![
            ModifierView { metric: "success_rate"@, factor: 500000 },
            ModifierView { metric: "processing_time"@, factor: 1500000 },
        ]
    } else {
        Seq::empty()
    }
}

/// The possible outcomes of a catalogued scenario.
pub open spec fn catalogue_outcomes(name: Seq<char>) -> Seq<OutcomeView> {
    if name == "high_performance"@ {
        seq![
            OutcomeView {
                name: "optimal"@,
                condition: "metrics.success_rate > 0.95"@,
                probability: 700000,
            },
            OutcomeView {
                name: "good"@,
                condition: "metrics.success_rate > 0.9"@,
                probability: 250000,
            },
            OutcomeView { name: "acceptable"@, condition: "true"@, probability: 50000 },
        ]
    } else if name == "low_performance"@ {
        seq![
            OutcomeView {
                name: "failure"@,
                condition: "metrics.success_rate < 0.5"@,
                probability: 600000,
            },
            OutcomeView {
                name: "partial_success"@,
                condition: "metrics.success_rate >= 0.5"@,
                probability: 300000,
            },
            OutcomeView {
                name: "success"@,
                condition: "metrics.success_rate >= 0.7"@,
                probability: 100000,
            },
        ]
    } else {
        seq![
            OutcomeView {
                name: "success"@,
                condition: "metrics.success_rate >= 0.8"@,
                probability: 700000,
            },
            OutcomeView {
                name: "partial"@,
                condition: "metrics.success_rate >= 0.7"@,
                probability: 200000,
            },
            OutcomeView { name: "failure"@, condition: "true"@, probability: 100000 },
        ]
    }
}

/// The scenario that an entity of the given type is simulated under
/// unless another is chosen: `high_performance` for contracts, `normal`
/// for everything else.  The type is compared without regard to ASCII
/// case.
pub open spec fn default_scenario_name(entity_type: Seq<char>) -> Seq<char> {
    if crate::text::lower_ascii(entity_type) == "contract"@ {
        "high_performance"@
    } else {
        "normal"@
    }
}

fn range(name: &str, min: u64, max: u64) -> (r: MetricRange)
    ensures
        r.name@ == name@,
        r.min == min,
        r.max == max,
{
    MetricRange { name: name.to_owned(), min, max }
}

fn chance(name: &str, probability: u32) -> (e: ScenarioEvent)
    ensures
        e.name@ == name@,
        e.probability == probability,
{
    ScenarioEvent { name: name.to_owned(), probability, data: None }
}

fn modifier(metric: &str, factor: u64, condition: &str) -> (m: ScenarioModifier)
    ensures
        m.metric@ == metric@,
        m.factor == factor,
{
    ScenarioModifier { metric: metric.to_owned(), factor, condition: Some(condition.to_owned()) }
}

fn outcome(name: &str, condition: &str, probability: u32) -> (o: ScenarioOutcome)
    ensures
        o.name@ == name@,
        o.condition@ == condition@,
        o.probability == probability,
{
    ScenarioOutcome { name: name.to_owned(), condition: condition.to_owned(), probability }
}

fn copy_ranges(ranges: &Vec<MetricRange>) -> (copy: Vec<MetricRange>)
    ensures
        range_views(copy@) == range_views(ranges@),
{
    let mut copy: Vec<MetricRange> = Vec::new();
    let mut i: usize = 0;
    while i < ranges.len()
        invariant
            i <= ranges.len(),
            range_views(copy@) == range_views(ranges@).subrange(0, i as int),
        decreases ranges.len() - i,
    {
        let ghost before = range_views(copy@);
        copy.push(MetricRange { name: ranges[i].name.clone(), min: ranges[i].min, max: ranges[i].max });
        assert(range_views(copy@) =~= before.push(range_views(ranges@)[i as int]));
        assert(range_views(ranges@).subrange(0, i as int + 1) =~= range_views(ranges@).subrange(
            0,
            i as int,
        ).push(range_views(ranges@)[i as int]));
        i = i + 1;
    }
    assert(range_views(ranges@).subrange(0, ranges@.len() as int) =~= range_views(ranges@));
    copy
}

fn copy_events(events: &Vec<ScenarioEvent>) -> (copy: Vec<ScenarioEvent>)
    ensures
        chance_views(copy@) == chance_views(events@),
{
    let mut copy: Vec<ScenarioEvent> = Vec::new();
    let mut i: usize = 0;
    while i < events.len()
        invariant
            i <= events.len(),
            chance_views(copy@) == chance_views(events@).subrange(0, i as int),
        decreases events.len() - i,
    {
        let ghost before = chance_views(copy@);
        let data = match &events[i].data {
            Some(d) => Some(d.clone()),
            None => None,
        };
        copy.push(
            ScenarioEvent { name: events[i].name.clone(), probability: events[i].probability, data },
        );
        assert(chance_views(copy@) =~= before.push(chance_views(events@)[i as int]));
        assert(chance_views(events@).subrange(0, i as int + 1) =~= chance_views(events@).subrange(
            0,
            i as int,
        ).push(chance_views(events@)[i as int]));
        i = i + 1;
    }
    assert(chance_views(events@).subrange(0, events@.len() as int) =~= chance_views(events@));
    copy
}

fn copy_modifiers(modifiers: &Vec<ScenarioModifier>) -> (copy: Vec<ScenarioModifier>)
    ensures
        modifier_views(copy@) == modifier_views(modifiers@),
{
    let mut copy: Vec<ScenarioModifier> = Vec::new();
    let mut i: usize = 0;
    while i < modifiers.len()
        invariant
            i <= modifiers.len(),
            modifier_views(copy@) == modifier_views(modifiers@).subrange(0, i as int),
        decreases modifiers.len() - i,
    {
        let ghost before = modifier_views(copy@);
        let condition = match &modifiers[i].condition {
            Some(c) => Some(c.clone()),
            None => None,
        };
        copy.push(
            ScenarioModifier {
                metric: modifiers[i].metric.clone(),
                factor: modifiers[i].factor,
                condition,
            },
        );
        assert(modifier_views(copy@) =~= before.push(modifier_views(modifiers@)[i as int]));
        assert(modifier_views(modifiers@).subrange(0, i as int + 1) =~= modifier_views(
            modifiers@,
        ).subrange(0, i as int).push(modifier_views(modifiers@)[i as int]));
        i = i + 1;
    }
    assert(modifier_views(modifiers@).subrange(0, modifiers@.len() as int) =~= modifier_views(
        modifiers@,
    ));
    copy
}

impl Scenario {
    /// The scenario that a description stands for: its metrics, events
    /// and modifiers, ready to hand.
    pub fn new(config: ScenarioConfig) -> (scenario: Scenario)
        ensures
            scenario.config == config,
            range_views(scenario.metrics@) == range_views(config.metrics@),
            chance_views(scenario.events@) == chance_views(config.events@),
            modifier_views(scenario.modifiers@) == modifier_views(config.modifiers@),
    {
        let metrics = copy_ranges(&config.metrics);
        let events = copy_events(&config.events);
        let modifiers = copy_modifiers(&config.modifiers);
        Scenario { config, metrics, events, modifiers }
    }
}

fn high_performance() -> (config: ScenarioConfig)
    ensures
        config.name@ == "high_performance"@,
        range_views(config.metrics@) == catalogue_ranges("high_performance"@),
        chance_views(config.events@) == catalogue_events("high_performance"@),
        modifier_views(config.modifiers@) == catalogue_modifiers("high_performance"@),
        outcome_views(config.outcomes@) == catalogue_outcomes("high_performance"@),
{
    let mut metrics: Vec<MetricRange> = Vec::new();
    metrics.push(range("success_rate", 900000, 1000000));
    metrics.push(range("processing_time", 5000000, 50000000));
    metrics.push(range("resource_usage", 100000, 400000));
    let mut events: Vec<ScenarioEvent> = Vec::new();
    events.push(chance("process_start", 1000000));
    events.push(chance("optimization_applied", 800000));
    events.push(chance("process_complete", 950000));
    let mut modifiers: Vec<ScenarioModifier> = Vec::new();
    modifiers.push(modifier("processing_time", 800000, "event:optimization_applied"));
    let mut outcomes: Vec<ScenarioOutcome> = Vec::new();
    outcomes.push(outcome("optimal", "metrics.success_rate > 0.95", 700000));
    outcomes.push(outcome("good", "metrics.success_rate > 0.9", 250000));
    outcomes.push(outcome("acceptable", "true", 50000));
    assert(range_views(metrics@) =~= catalogue_ranges("high_performance"@));
    assert(chance_views(events@) =~= catalogue_events("high_performance"@));
    assert(modifier_views(modifiers@) =~= catalogue_modifiers("high_performance"@));
    assert(outcome_views(outcomes@) =~= catalogue_outcomes("high_performance"@));
    ScenarioConfig {
        name: "high_performance".to_owned(),
        description: "Cenário de alta performance com recursos abundantes".to_owned(),
        metrics,
        events,
        modifiers,
        outcomes,
    }
}

fn low_performance() -> (config: ScenarioConfig)
    ensures
        config.name@ == "low_performance"@,
        range_views(config.metrics@) == catalogue_ranges("low_performance"@),
        chance_views(config.events@) == catalogue_events("low_performance"@),
        modifier_views(config.modifiers@) == catalogue_modifiers("low_performance"@),
        outcome_views(config.outcomes@) == catalogue_outcomes("low_performance"@),
{
    let mut metrics: Vec<MetricRange> = Vec::new();
    metrics.push(range("success_rate", 400000, 700000));
    metrics.push(range("processing_time", 200000000, 800000000));
    metrics.push(range("resource_usage", 700000, 950000));
    let mut events: Vec<ScenarioEvent> = Vec::new();
    events.push(chance("process_start", 900000));
    events.push(chance("resource_exhausted", 600000));
    events.push(chance("process_timeout", 400000));
    events.push(chance("process_complete", 600000));
    let mut modifiers: Vec<ScenarioModifier> = Vec::new();
    modifiers.push(modifier("success_rate", 500000, "event:resource_exhausted"));
    modifiers.push(modifier("processing_time", 1500000, "metrics.resource_usage > 0.85"));
    let mut outcomes: Vec<ScenarioOutcome> = Vec::new();
    outcomes.push(outcome("failure", "metrics.success_rate < 0.5", 600000));
    outcomes.push(outcome("partial_success", "metrics.success_rate >= 0.5", 300000));
    outcomes.push(outcome("success", "metrics.success_rate >= 0.7", 100000));
    proof {
        reveal_strlit("high_performance");
        reveal_strlit("low_performance");
        assert("low_performance"@.len() != "high_performance"@.len());
        assert("low_performance"@ != "high_performance"@);
    }
    assert(range_views(metrics@) =~= catalogue_ranges("low_performance"@));
    assert(chance_views(events@) =~= catalogue_events("low_performance"@));
    assert(modifier_views(modifiers@) =~= catalogue_modifiers("low_performance"@));
    assert(outcome_views(outcomes@) =~= catalogue_outcomes("low_performance"@));
    ScenarioConfig {
        name: "low_performance".to_owned(),
        description: "Cenário de baixa performance com recursos escassos".to_owned(),
        metrics,
        events,
        modifiers,
        outcomes,
    }
}

fn normal() -> (config: ScenarioConfig)
    ensures
        config.name@ == "normal"@,
        range_views(config.metrics@) == catalogue_ranges("normal"@),
        chance_views(config.events@) == catalogue_events("normal"@),
        modifier_views(config.modifiers@) == catalogue_modifiers("normal"@),
        outcome_views(config.outcomes@) == catalogue_outcomes("normal"@),
{
    let mut metrics: Vec<MetricRange> = Vec::new();
    metrics.push(range("success_rate", 700000, 900000));
    metrics.push(range("processing_time", 50000000, 200000000));
    metrics.push(range("resource_usage", 400000, 700000));
    let mut events: Vec<ScenarioEvent> = Vec::new();
    events.push(chance("process_start", 1000000));
    events.push(chance("validation_complete", 800000));
    events.push(chance("process_complete", 850000));
    let modifiers: Vec<ScenarioModifier> = Vec::new();
    let mut outcomes: Vec<ScenarioOutcome> = Vec::new();
    outcomes.push(outcome("success", "metrics.success_rate >= 0.8", 700000));
    outcomes.push(outcome("partial", "metrics.success_rate >= 0.7", 200000));
    outcomes.push(outcome("failure", "true", 100000));
    proof {
        reveal_strlit("high_performance");
        reveal_strlit("low_performance");
        reveal_strlit("normal");
        assert("normal"@.len() != "high_performance"@.len());
        assert("normal"@.len() != "low_performance"@.len());
        assert("normal"@ != "high_performance"@);
        assert("normal"@ != "low_performance"@);
    }
    assert(range_views(metrics@) =~= catalogue_ranges("normal"@));
    assert(chance_views(events@) =~= catalogue_events("normal"@));
    assert(modifier_views(modifiers@) =~= catalogue_modifiers("normal"@));
    assert(outcome_views(outcomes@) =~= catalogue_outcomes("normal"@));
    ScenarioConfig {
        name: "normal".to_owned(),
        description: "Cenário normal com comportamento médio".to_owned(),
        metrics,
        events,
        modifiers,
        outcomes,
    }
}

/// The catalogued scenario of the given name.
pub fn load_scenario(name: &str) -> (r: Option<Scenario>)
    ensures
        r is Some <==> catalogued(name@),
        r matches Some(scenario) ==> {
            &&& scenario.config.name@ == name@
            &&& range_views(scenario.metrics@) == catalogue_ranges(name@)
            &&& chance_views(scenario.events@) == catalogue_events(name@)
            &&& modifier_views(scenario.modifiers@) == catalogue_modifiers(name@)
            &&& outcome_views(scenario.config.outcomes@) == catalogue_outcomes(name@)
        },
{
    if same_text(name, "high_performance") {
        Some(Scenario::new(high_performance()))
    } else if same_text(name, "low_performance") {
        Some(Scenario::new(low_performance()))
    } else if same_text(name, "normal") {
        Some(Scenario::new(normal()))
    } else {
        None
    }
}

/// The scenario for an entity of the given type, where none is chosen.
pub fn default_scenario_for_type(entity_type: &str) -> (scenario: Scenario)
    ensures
        scenario.config.name@ == default_scenario_name(entity_type@),
        range_views(scenario.metrics@) == catalogue_ranges(default_scenario_name(entity_type@)),
        chance_views(scenario.events@) == catalogue_events(default_scenario_name(entity_type@)),
        modifier_views(scenario.modifiers@) == catalogue_modifiers(
            default_scenario_name(entity_type@),
        ),
        outcome_views(scenario.config.outcomes@) == catalogue_outcomes(
            default_scenario_name(entity_type@),
        ),
{
    if equals_ignoring_ascii_case(entity_type, "contract") {
        Scenario::new(high_performance())
    } else {
        Scenario::new(normal())
    }
}

/// The names of the catalogued scenarios.
pub fn list_scenarios() -> (names: Vec<String>)
    ensures
        crate::text::texts(names@) == seq!["high_performance"@, "low_performance"@, "normal"@],
{
    let mut names: Vec<String> = Vec::new();
    names.push("high_performance".to_owned());
    names.push("low_performance".to_owned());
    names.push("normal".to_owned());
    assert(crate::text::texts(names@) =~= seq![
        "high_performance"@,
        "low_performance"@,
        "normal"@,
    ]);
    names
}

} // verus!
