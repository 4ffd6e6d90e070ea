//! The simulation engine: one round at a time.

use vstd::prelude::*;
use crate::clock::{fresh_id, now_millis};
use crate::keyed::KeyedList;
use crate::simulate::random::{
    below_draw,
    ratio_draw,
    rng_below,
    rng_from_entropy,
    rng_from_seed,
    rng_ratio,
    rng_state,
    seeded_state,
};
use crate::simulate::scenarios::{
    chance_views,
    modifier_views,
    range_views,
    ChanceView,
    MetricRange,
    ModifierView,
    RangeView,
    Scenario,
    ScenarioEvent,
    ScenarioModifier,
};
use crate::text::{clone_strings, concat3, texts};

verus! {

/// How metrics and events are chosen.
#[derive(Debug, Clone, Copy, PartialEq, Eq, Structural)]
pub enum SimulationMode {
    /// Every metric is the midpoint of its range, and only certain events
    /// occur.
    Deterministic,
    /// Metrics are drawn from built-in ranges and events occur by
    /// built-in probabilities.
    Random,
    /// Metrics are drawn from the scenario's ranges, events occur by the
    /// scenario's probabilities, and the scenario's modifiers apply.
    Scenario,
}

/// How a simulation ended.
#[derive(Debug, Clone, Copy, PartialEq, Eq, Structural)]
pub enum SimulationStatus {
    Success,
    Failed,
    Interrupted,
    InProgress,
}

/// What an engine is made with.
#[derive(Debug, Clone, Copy)]
pub struct EngineConfig {
    /// The seed of the random number generator; without one the
    /// generator is seeded by the operating system.
    pub random_seed: Option<u64>,
    pub mode: SimulationMode,
}

/// The engine.
pub struct SimulationEngine {
    pub rng: rand::rngs::StdRng,
    pub mode: SimulationMode,
}

/// The outcome of one round.
pub struct SimulationResult {
    pub id: u128,
    pub entity_id: String,
    /// The number of the round, from 1.
    pub round: usize,
    /// When the round ran, in milliseconds since the epoch.
    pub timestamp: i64,
    /// The metrics of the round, in millionths, by name.
    pub metrics: KeyedList<u64>,
    /// The events of the round, each as `name:entity=id`.
    pub events: Vec<String>,
    pub status: SimulationStatus,
}

/// The midpoint of a range.
pub open spec fn midpoint(min: u64, max: u64) -> u64 {
    ((min + max) / 2) as u64
}

/// A value scaled by a factor in millionths, capped at the largest
/// representable value.
pub open spec fn scaled(value: u64, factor: u64) -> u64 {
    if value * factor / 1000000 > u64::MAX {
        u64::MAX
    } else {
        (value * factor / 1000000) as u64
    }
}

/// The midpoints of a list of ranges.
pub open spec fn midpoints(ranges: Seq<RangeView>) -> Seq<u64> {
    ranges.map_values(|r: RangeView| midpoint(r.min, r.max))
}

/// Which events of a list are certain.
pub open spec fn certain(events: Seq<ChanceView>) -> Seq<bool> {
    events.map_values(|e: ChanceView| e.probability >= 1000000)
}

/// Whether a value could have been drawn from a range: a value of the
/// half-open range, or the lower bound where the range is empty.
pub open spec fn drawn_from(range: RangeView, value: u64) -> bool {
    if range.min < range.max {
        range.min <= value < range.max
    } else {
        value == range.min
    }
}

/// Whether a flag could have been drawn for an event: certain events
/// always occur and impossible events never.
pub open spec fn flag_for(event: ChanceView, flag: bool) -> bool {
    (event.probability >= 1000000 ==> flag) && (event.probability == 0 ==> !flag)
}

/// The metrics that a list of ranges and the values drawn for them make:
/// each range's name with its value, a later range of the same name
/// taking the place of an earlier one.
pub open spec fn round_metrics(ranges: Seq<RangeView>, values: Seq<u64>) -> Map<Seq<char>, u64>
    decreases ranges.len(),
{
    if ranges.len() == 0 || values.len() != ranges.len() {
        Map::empty()
    } else {
        round_metrics(ranges.drop_last(), values.drop_last()).insert(
            ranges.last().name,
            values.last(),
        )
    }
}

/// The text that reports an event of an entity.
pub open spec fn event_text(name: Seq<char>, entity: Seq<char>) -> Seq<char> {
    name + ":entity="@ + entity
}

/// The event texts of a round: those events whose flag is set, in the
/// order of the scenario.
pub open spec fn round_events(events: Seq<ChanceView>, flags: Seq<bool>, entity: Seq<char>) -> Seq<Seq<char>>
    decreases events.len(),
{
    if events.len() == 0 || flags.len() != events.len() {
        Seq::empty()
    } else if flags.last() {
        round_events(events.drop_last(), flags.drop_last(), entity).push(
            event_text(events.last().name, entity),
        )
    } else {
        round_events(events.drop_last(), flags.drop_last(), entity)
    }
}

/// Metrics after the modifiers were applied, one after the other: each
/// scales the metric it names, and does nothing where no metric has that
/// name.
pub open spec fn modified(metrics: Map<Seq<char>, u64>, modifiers: Seq<ModifierView>) -> Map<Seq<char>, u64>
    decreases modifiers.len(),
{
    if modifiers.len() == 0 {
        metrics
    } else {
        let base = modified(metrics, modifiers.drop_last());
        let last = modifiers.last();
        if base.dom().contains(last.metric) {
            base.insert(last.metric, scaled(base[last.metric], last.factor))
        } else {
            base
        }
    }
}

/// The ranges that the random mode draws from.
pub open spec fn builtin_ranges() -> Seq<RangeView> {
    seq![
        RangeView { name: "success_rate"@, min: 500000, max: 1000000 },
        RangeView { name: "processing_time"@, min: 10000000, max: 500000000 },
        RangeView { name: "resource_usage"@, min: 100000, max: 900000 },
    ]
}

/// The events that the random mode draws.
pub open spec fn builtin_events() -> Seq<ChanceView> {
    seq![
        ChanceView { name: "process_start"@, probability: 700000 },
        ChanceView { name: "validation_complete"@, probability: 500000 },
        ChanceView { name: "resource_allocation"@, probability: 300000 },
    ]
}

pub fn midpoint_of(min: u64, max: u64) -> (r: u64)
    ensures
        r == midpoint(min, max),
{
    ((min as u128 + max as u128) / 2) as u64
}

pub fn scale(value: u64, factor: u64) -> (r: u64)
    ensures
        r == scaled(value, factor),
{
    assert(value * factor <= 0xffff_ffff_ffff_ffff * 0xffff_ffff_ffff_ffff) by (nonlinear_arith)
        requires
            value <= 0xffff_ffff_ffff_ffff,
            factor <= 0xffff_ffff_ffff_ffff,
    ;
    let wide: u128 = (value as u128) * (factor as u128) / 1000000;
    if wide > u64::MAX as u128 {
        u64::MAX
    } else {
        wide as u64
    }
}

/// The metrics of a round, from the values chosen for the ranges.
pub fn metrics_from_values(ranges: &Vec<MetricRange>, values: &Vec<u64>) -> (metrics: KeyedList<u64>)
    requires
        values@.len() == ranges@.len(),
    ensures
        metrics.wf(),
        metrics.view() == round_metrics(range_views(ranges@), values@),
{
    let mut metrics: KeyedList<u64> = KeyedList::new();
    let mut i: usize = 0;
    assert(range_views(ranges@).subrange(0, 0) =~= Seq::<RangeView>::empty());
    while i < ranges.len()
        invariant
            i <= ranges@.len(),
            values@.len() == ranges@.len(),
            metrics.wf(),
            metrics.view() == round_metrics(
                range_views(ranges@).subrange(0, i as int),
                values@.subrange(0, i as int),
            ),
        decreases ranges@.len() - i,
    {
        let ghost next = range_views(ranges@).subrange(0, i as int + 1);
        let ghost nextv = values@.subrange(0, i as int + 1);
        assert(next.drop_last() =~= range_views(ranges@).subrange(0, i as int));
        assert(nextv.drop_last() =~= values@.subrange(0, i as int));
        assert(next.last().name == ranges@[i as int].name@);
        assert(nextv.last() == values@[i as int]);
        metrics.put(ranges[i].name.clone(), values[i]);
        i = i + 1;
    }
    assert(range_views(ranges@).subrange(0, ranges@.len() as int) =~= range_views(ranges@));
    assert(values@.subrange(0, ranges@.len() as int) =~= values@);
    metrics
}

/// Applies modifiers to metrics.
pub fn apply_modifiers(metrics: &mut KeyedList<u64>, modifiers: &Vec<ScenarioModifier>)
    requires
        old(metrics).wf(),
    ensures
        final(metrics).wf(),
        final(metrics).view() == modified(old(metrics).view(), modifier_views(modifiers@)),
{
    let mut i: usize = 0;
    assert(modifier_views(modifiers@).subrange(0, 0) =~= Seq::<ModifierView>::empty());
    while i < modifiers.len()
        invariant
            i <= modifiers@.len(),
            metrics.wf(),
            metrics.view() == modified(
                old(metrics).view(),
                modifier_views(modifiers@).subrange(0, i as int),
            ),
        decreases modifiers@.len() - i,
    {
        let ghost next = modifier_views(modifiers@).subrange(0, i as int + 1);
        assert(next.drop_last() =~= modifier_views(modifiers@).subrange(0, i as int));
        assert(next.last().metric == modifiers@[i as int].metric@);
        assert(next.last().factor == modifiers@[i as int].factor);
        let current = match metrics.get(modifiers[i].metric.as_str()) {
            Some(value) => Some(*value),
            None => None,
        };
        match current {
            Some(value) => {
                metrics.put(modifiers[i].metric.clone(), scale(value, modifiers[i].factor));
            },
            None => {},
        }
        i = i + 1;
    }
    assert(modifier_views(modifiers@).subrange(0, modifiers@.len() as int) =~= modifier_views(
        modifiers@,
    ));
}

/// The event texts of a round, from the flags chosen for the events.
pub fn events_from_flags(events: &Vec<ScenarioEvent>, flags: &Vec<bool>, entity_id: &str) -> (list:
    Vec<String>)
    requires
        flags@.len() == events@.len(),
    ensures
        texts(list@) == round_events(chance_views(events@), flags@, entity_id@),
{
    let mut list: Vec<String> = Vec::new();
    let mut i: usize = 0;
    assert(chance_views(events@).subrange(0, 0) =~= Seq::<ChanceView>::empty());
    while i < events.len()
        invariant
            i <= events@.len(),
            flags@.len() == events@.len(),
            texts(list@) == round_events(
                chance_views(events@).subrange(0, i as int),
                flags@.subrange(0, i as int),
                entity_id@,
            ),
        decreases events@.len() - i,
    {
        let ghost next = chance_views(events@).subrange(0, i as int + 1);
        let ghost nextf = flags@.subrange(0, i as int + 1);
        assert(next.drop_last() =~= chance_views(events@).subrange(0, i as int));
        assert(nextf.drop_last() =~= flags@.subrange(0, i as int));
        assert(next.last().name == events@[i as int].name@);
        assert(nextf.last() == flags@[i as int]);
        if flags[i] {
            let ghost before = texts(list@);
            list.push(concat3(events[i].name.as_str(), ":entity=", entity_id));
            assert(texts(list@) =~= before.push(event_text(events@[i as int].name@, entity_id@)));
        }
        i = i + 1;
    }
    assert(chance_views(events@).subrange(0, events@.len() as int) =~= chance_views(events@));
    assert(flags@.subrange(0, events@.len() as int) =~= flags@);
    list
}

/// The midpoint of every range.
pub fn midpoint_values(ranges: &Vec<MetricRange>) -> (values: Vec<u64>)
    ensures
        values@ == midpoints(range_views(ranges@)),
{
    let mut values: Vec<u64> = Vec::new();
    let mut i: usize = 0;
    while i < ranges.len()
        invariant
            i <= ranges@.len(),
            values@ == midpoints(range_views(ranges@)).subrange(0, i as int),
        decreases ranges@.len() - i,
    {
        values.push(midpoint_of(ranges[i].min, ranges[i].max));
        assert(values@ =~= midpoints(range_views(ranges@)).subrange(0, i as int + 1));
        i = i + 1;
    }
    assert(midpoints(range_views(ranges@)).subrange(0, ranges@.len() as int) =~= midpoints(
        range_views(ranges@),
    ));
    values
}

/// For every event, whether it is certain.
pub fn certain_flags(events: &Vec<ScenarioEvent>) -> (flags: Vec<bool>)
    ensures
        flags@ == certain(chance_views(events@)),
{
    let mut flags: Vec<bool> = Vec::new();
    let mut i: usize = 0;
    while i < events.len()
        invariant
            i <= events@.len(),
            flags@ == certain(chance_views(events@)).subrange(0, i as int),
        decreases events@.len() - i,
    {
        flags.push(events[i].probability >= 1000000);
        assert(flags@ =~= certain(chance_views(events@)).subrange(0, i as int + 1));
        i = i + 1;
    }
    assert(certain(chance_views(events@)).subrange(0, events@.len() as int) =~= certain(
        chance_views(events@),
    ));
    flags
}

/// Whether the values could have been drawn from the ranges, one each.
pub open spec fn values_drawn(ranges: Seq<RangeView>, values: Seq<u64>) -> bool {
    values.len() == ranges.len() && forall|i: int|
        0 <= i < ranges.len() ==> drawn_from(#[trigger] ranges[i], values[i])
}

/// Whether the flags could have been drawn for the events, one each.
pub open spec fn flags_drawn(events: Seq<ChanceView>, flags: Seq<bool>) -> bool {
    flags.len() == events.len() && forall|i: int|
        0 <= i < events.len() ==> flag_for(#[trigger] events[i], flags[i])
}

/// Values drawn from a generator, and the generator's state after the
/// draws.
pub struct ValuesDrawn {
    pub values: Seq<u64>,
    pub next: int,
}

/// Flags drawn from a generator, and the generator's state after the
/// draws.
pub struct FlagsDrawn {
    pub flags: Seq<bool>,
    pub next: int,
}

/// The values that a generator in the given state gives for a list of
/// ranges, one after the other: a number of each range, or the lower
/// bound, without a draw, where the range is empty.
pub open spec fn values_from(state: int, ranges: Seq<RangeView>) -> ValuesDrawn
    decreases ranges.len(),
{
    if ranges.len() == 0 {
        ValuesDrawn { values: Seq::empty(), next: state }
    } else {
        let before = values_from(state, ranges.drop_last());
        let range = ranges.last();
        if range.min < range.max {
            let draw = below_draw(before.next, range.min, range.max);
            ValuesDrawn { values: before.values.push(draw.value), next: draw.next }
        } else {
            ValuesDrawn { values: before.values.push(range.min), next: before.next }
        }
    }
}

/// The flags that a generator in the given state gives for a list of
/// events, one after the other: a certain event occurs, without a draw,
/// and any other by its odds in a million.
pub open spec fn flags_from(state: int, events: Seq<ChanceView>) -> FlagsDrawn
    decreases events.len(),
{
    if events.len() == 0 {
        FlagsDrawn { flags: Seq::empty(), next: state }
    } else {
        let before = flags_from(state, events.drop_last());
        let event = events.last();
        if event.probability >= 1000000 {
            FlagsDrawn { flags: before.flags.push(true), next: before.next }
        } else {
            let draw = ratio_draw(before.next, event.probability, 1000000);
            FlagsDrawn { flags: before.flags.push(draw.flag), next: draw.next }
        }
    }
}

fn draw_values(rng: &mut rand::rngs::StdRng, ranges: &Vec<MetricRange>) -> (values: Vec<u64>)
    ensures
        values_drawn(range_views(ranges@), values@),
        values@ == values_from(rng_state(*old(rng)), range_views(ranges@)).values,
        rng_state(*final(rng)) == values_from(rng_state(*old(rng)), range_views(ranges@)).next,
{
    let ghost all = range_views(ranges@);
    let ghost start = rng_state(*rng);
    let mut values: Vec<u64> = Vec::new();
    let mut i: usize = 0;
    assert(all.subrange(0, 0) =~= Seq::<RangeView>::empty());
    while i < ranges.len()
        invariant
            i <= ranges@.len(),
            all == range_views(ranges@),
            values@.len() == i,
            forall|j: int| 0 <= j < i ==> drawn_from(#[trigger] all[j], values@[j]),
            values@ == values_from(start, all.subrange(0, i as int)).values,
            rng_state(*rng) == values_from(start, all.subrange(0, i as int)).next,
        decreases ranges@.len() - i,
    {
        let ghost next = all.subrange(0, i as int + 1);
        assert(next.drop_last() =~= all.subrange(0, i as int));
        assert(next.last() == all[i as int]);
        let value = if ranges[i].min < ranges[i].max {
            rng_below(rng, ranges[i].min, ranges[i].max)
        } else {
            ranges[i].min
        };
        values.push(value);
        i = i + 1;
    }
    assert(all.subrange(0, ranges@.len() as int) =~= all);
    values
}

fn draw_flags(rng: &mut rand::rngs::StdRng, events: &Vec<ScenarioEvent>) -> (flags: Vec<bool>)
    ensures
        flags_drawn(chance_views(events@), flags@),
        flags@ == flags_from(rng_state(*old(rng)), chance_views(events@)).flags,
        rng_state(*final(rng)) == flags_from(rng_state(*old(rng)), chance_views(events@)).next,
{
    let ghost all = chance_views(events@);
    let ghost start = rng_state(*rng);
    let mut flags: Vec<bool> = Vec::new();
    let mut i: usize = 0;
    assert(all.subrange(0, 0) =~= Seq::<ChanceView>::empty());
    while i < events.len()
        invariant
            i <= events@.len(),
            all == chance_views(events@),
            flags@.len() == i,
            forall|j: int| 0 <= j < i ==> flag_for(#[trigger] all[j], flags@[j]),
            flags@ == flags_from(start, all.subrange(0, i as int)).flags,
            rng_state(*rng) == flags_from(start, all.subrange(0, i as int)).next,
        decreases events@.len() - i,
    {
        let ghost next = all.subrange(0, i as int + 1);
        assert(next.drop_last() =~= all.subrange(0, i as int));
        assert(next.last() == all[i as int]);
        let flag = if events[i].probability >= 1000000 {
            true
        } else {
            rng_ratio(rng, events[i].probability, 1000000)
        };
        flags.push(flag);
        i = i + 1;
    }
    assert(all.subrange(0, events@.len() as int) =~= all);
    flags
}

fn builtin_profile() -> (r: (Vec<MetricRange>, Vec<ScenarioEvent>))
    ensures
        range_views(r.0@) == builtin_ranges(),
        chance_views(r.1@) == builtin_events(),
{
    let mut ranges: Vec<MetricRange> = Vec::new();
    ranges.push(MetricRange { name: "success_rate".to_owned(), min: 500000, max: 1000000 });
    ranges.push(MetricRange { name: "processing_time".to_owned(), min: 10000000, max: 500000000 });
    ranges.push(MetricRange { name: "resource_usage".to_owned(), min: 100000, max: 900000 });
    let mut events: Vec<ScenarioEvent> = Vec::new();
    events.push(ScenarioEvent { name: "process_start".to_owned(), probability: 700000, data: None });
    events.push(
        ScenarioEvent { name: "validation_complete".to_owned(), probability: 500000, data: None },
    );
    events.push(
        ScenarioEvent { name: "resource_allocation".to_owned(), probability: 300000, data: None },
    );
    assert(range_views(ranges@) =~= builtin_ranges());
    assert(chance_views(events@) =~= builtin_events());
    (ranges, events)
}

/// What a round in a given mode may come to, for a scenario and an
/// entity.
///
/// In the deterministic mode the outcome is fixed by the scenario.  In
/// the other modes the metrics are made of values drawn from the ranges
/// and the events of flags drawn for the events; in the scenario mode the
/// scenario's modifiers are then applied.
pub open spec fn round_outcome(
    mode: SimulationMode,
    ranges: Seq<RangeView>,
    events: Seq<ChanceView>,
    modifiers: Seq<ModifierView>,
    entity: Seq<char>,
    metrics: Map<Seq<char>, u64>,
    texts: Seq<Seq<char>>,
) -> bool {
    match mode {
        SimulationMode::Deterministic => metrics == round_metrics(ranges, midpoints(ranges))
            && texts == round_events(events, certain(events), entity),
        SimulationMode::Random => exists|values: Seq<u64>, flags: Seq<bool>|
            #![auto]
            values_drawn(builtin_ranges(), values) && flags_drawn(builtin_events(), flags)
                && metrics == round_metrics(builtin_ranges(), values) && texts == round_events(
                builtin_events(),
                flags,
                entity,
            ),
        SimulationMode::Scenario => exists|values: Seq<u64>, flags: Seq<bool>|
            #![auto]
            values_drawn(ranges, values) && flags_drawn(events, flags) && metrics == modified(
                round_metrics(ranges, values),
                modifiers,
            ) && texts == round_events(events, flags, entity),
    }
}

/// What a round comes to: its metrics, its events, and the state of the
/// generator after it.
pub struct RoundDrawn {
    pub metrics: Map<Seq<char>, u64>,
    pub texts: Seq<Seq<char>>,
    pub next: int,
}

/// What a round in a given mode comes to for a generator in the given
/// state.
///
/// In the deterministic mode nothing is drawn.  In the other modes the
/// values are drawn first, one for each range, and then the flags, one
/// for each event: from the built-in ranges and events in the random
/// mode, and from the scenario's in the scenario mode, where the
/// scenario's modifiers are then applied.
pub open spec fn round_from(
    mode: SimulationMode,
    ranges: Seq<RangeView>,
    events: Seq<ChanceView>,
    modifiers: Seq<ModifierView>,
    entity: Seq<char>,
    state: int,
) -> RoundDrawn {
    match mode {
        SimulationMode::Deterministic => RoundDrawn {
            metrics: round_metrics(ranges, midpoints(ranges)),
            texts: round_events(events, certain(events), entity),
            next: state,
        },
        SimulationMode::Random => {
            let drawn = values_from(state, builtin_ranges());
            let tossed = flags_from(drawn.next, builtin_events());
            RoundDrawn {
                metrics: round_metrics(builtin_ranges(), drawn.values),
                texts: round_events(builtin_events(), tossed.flags, entity),
                next: tossed.next,
            }
        },
        SimulationMode::Scenario => {
            let drawn = values_from(state, ranges);
            let tossed = flags_from(drawn.next, events);
            RoundDrawn {
                metrics: modified(round_metrics(ranges, drawn.values), modifiers),
                texts: round_events(events, tossed.flags, entity),
                next: tossed.next,
            }
        },
    }
}

impl SimulationEngine {
    /// The state of the engine's generator.
    pub open spec fn state(self) -> int {
        rng_state(self.rng)
    }

    /// An engine in the given mode.  With a seed the engine's random
    /// numbers are fixed by the seed.
    pub fn new(config: EngineConfig) -> (engine: SimulationEngine)
        ensures
            engine.mode == config.mode,
            config.random_seed matches Some(seed) ==> engine.state() == seeded_state(seed),
    {
        let rng = match config.random_seed {
            Some(seed) => rng_from_seed(seed),
            None => rng_from_entropy(),
        };
        SimulationEngine { rng, mode: config.mode }
    }

    /// Simulates one round for an entity under a scenario.
    pub fn simulate_round(&mut self, entity_id: &str, scenario: &Scenario, round: usize) -> (r: Result<
        SimulationResult,
        crate::simulate::SimulateError,
    >)
        ensures
            final(self).mode == old(self).mode,
            final(self).state() == round_from(
                old(self).mode,
                range_views(scenario.metrics@),
                chance_views(scenario.events@),
                modifier_views(scenario.modifiers@),
                entity_id@,
                old(self).state(),
            ).next,
            r matches Ok(result) && {
                &&& result.entity_id@ == entity_id@
                &&& result.round == round
                &&& result.status == SimulationStatus::Success
                &&& result.metrics.wf()
                &&& result.metrics.view() == round_from(
                    old(self).mode,
                    range_views(scenario.metrics@),
                    chance_views(scenario.events@),
                    modifier_views(scenario.modifiers@),
                    entity_id@,
                    old(self).state(),
                ).metrics
                &&& texts(result.events@) == round_from(
                    old(self).mode,
                    range_views(scenario.metrics@),
                    chance_views(scenario.events@),
                    modifier_views(scenario.modifiers@),
                    entity_id@,
                    old(self).state(),
                ).texts
                &&& round_outcome(
                    old(self).mode,
                    range_views(scenario.metrics@),
                    chance_views(scenario.events@),
                    modifier_views(scenario.modifiers@),
                    entity_id@,
                    result.metrics.view(),
                    texts(result.events@),
                )
            },
    {
        let (metrics, events) = match self.mode {
            SimulationMode::Deterministic => {
                let values = midpoint_values(&scenario.metrics);
                let flags = certain_flags(&scenario.events);
                (
                    metrics_from_values(&scenario.metrics, &values),
                    events_from_flags(&scenario.events, &flags, entity_id),
                )
            },
            SimulationMode::Random => {
                let (ranges, chances) = builtin_profile();
                let values = draw_values(&mut self.rng, &ranges);
                let flags = draw_flags(&mut self.rng, &chances);
                (
                    metrics_from_values(&ranges, &values),
                    events_from_flags(&chances, &flags, entity_id),
                )
            },
            SimulationMode::Scenario => {
                let values = draw_values(&mut self.rng, &scenario.metrics);
                let flags = draw_flags(&mut self.rng, &scenario.events);
                let mut metrics = metrics_from_values(&scenario.metrics, &values);
                apply_modifiers(&mut metrics, &scenario.modifiers);
                (metrics, events_from_flags(&scenario.events, &flags, entity_id))
            },
        };
        Ok(
            SimulationResult {
                id: fresh_id(),
                entity_id: entity_id.to_owned(),
                round,
                timestamp: now_millis(),
                metrics,
                events,
                status: SimulationStatus::Success,
            },
        )
    }
}

/// A round's outcome as plain data.
pub struct ResultView {
    pub id: u128,
    pub entity_id: Seq<char>,
    pub round: nat,
    pub timestamp: i64,
    pub metrics: Map<Seq<char>, u64>,
    pub events: Seq<Seq<char>>,
    pub status: SimulationStatus,
}

impl View for SimulationResult {
    type V = ResultView;

    open spec fn view(&self) -> ResultView {
        ResultView {
            id: self.id,
            entity_id: self.entity_id@,
            round: self.round as nat,
            timestamp: self.timestamp,
            metrics: self.metrics.view(),
            events: texts(self.events@),
            status: self.status,
        }
    }
}

/// The outcomes of a sequence as plain data.
pub open spec fn result_views(results: Seq<SimulationResult>) -> Seq<ResultView> {
    results.map_values(|r: SimulationResult| r@)
}

/// A copy of a list of metrics.
pub fn copy_metrics(metrics: &KeyedList<u64>) -> (copy: KeyedList<u64>)
    ensures
        copy.view() == metrics.view(),
        metrics.wf() ==> copy.wf(),
{
    let mut values: Vec<u64> = Vec::new();
    let mut i: usize = 0;
    while i < metrics.values.len()
        invariant
            i <= metrics.values@.len(),
            values@ == metrics.values@.subrange(0, i as int),
        decreases metrics.values@.len() - i,
    {
        values.push(metrics.values[i]);
        assert(values@ =~= metrics.values@.subrange(0, i as int + 1));
        i = i + 1;
    }
    assert(metrics.values@.subrange(0, metrics.values@.len() as int) =~= metrics.values@);
    let copy = KeyedList { keys: clone_strings(&metrics.keys), values };
    proof {
        assert(copy.keys@ == metrics.keys@);
        assert(copy.values@ == metrics.values@);
        assert forall|k: Seq<char>| copy.has(k) == metrics.has(k) by {
            if metrics.has(k) {
                let i = metrics.position(k);
                assert(copy.keys@[i]@ == k);
            }
            if copy.has(k) {
                let i = copy.position(k);
                assert(metrics.keys@[i]@ == k);
            }
        }
        assert forall|k: Seq<char>| copy.position(k) == metrics.position(k) by {}
        assert(copy.view() =~= metrics.view());
    }
    copy
}

impl SimulationResult {
    /// A copy of the outcome.
    pub fn duplicate(&self) -> (copy: SimulationResult)
        ensures
            copy@ == self@,
            self.metrics.wf() ==> copy.metrics.wf(),
    {
        SimulationResult {
            id: self.id,
            entity_id: self.entity_id.clone(),
            round: self.round,
            timestamp: self.timestamp,
            metrics: copy_metrics(&self.metrics),
            events: clone_strings(&self.events),
            status: self.status,
        }
    }
}

/// The sum of the `success_rate` metrics of the outcomes that have one.
pub open spec fn rate_sum(results: Seq<ResultView>) -> nat
    decreases results.len(),
{
    if results.len() == 0 {
        0
    } else if results.last().metrics.dom().contains("success_rate"@) {
        rate_sum(results.drop_last()) + results.last().metrics["success_rate"@] as nat
    } else {
        rate_sum(results.drop_last())
    }
}

/// How many of the outcomes have a `success_rate` metric.
pub open spec fn rate_count(results: Seq<ResultView>) -> nat
    decreases results.len(),
{
    if results.len() == 0 {
        0
    } else if results.last().metrics.dom().contains("success_rate"@) {
        rate_count(results.drop_last()) + 1
    } else {
        rate_count(results.drop_last())
    }
}

/// The score of a simulation: the mean of the `success_rate` metrics,
/// rounded down to a millionth; zero where no outcome has that metric.
pub open spec fn spec_score(results: Seq<ResultView>) -> nat {
    if rate_count(results) == 0 {
        0
    } else {
        rate_sum(results) / rate_count(results)
    }
}

/// Scores a simulation by its outcomes: the mean success rate, in
/// millionths.
pub fn evaluate_simulation(results: &Vec<SimulationResult>) -> (score: u64)
    requires
        forall|i: int| 0 <= i < results@.len() ==> (#[trigger] results@[i]).metrics.wf(),
    ensures
        score == spec_score(result_views(results@)),
{
    let mut sum: u128 = 0;
    let mut count: u64 = 0;
    let mut i: usize = 0;
    let ghost views = result_views(results@);
    assert(views.subrange(0, 0) =~= Seq::<ResultView>::empty());
    while i < results.len()
        invariant
            i <= results@.len(),
            views == result_views(results@),
            forall|j: int| 0 <= j < results@.len() ==> (#[trigger] results@[j]).metrics.wf(),
            sum == rate_sum(views.subrange(0, i as int)),
            count == rate_count(views.subrange(0, i as int)),
            count <= i,
            sum <= count * 0xffff_ffff_ffff_ffff,
        decreases results@.len() - i,
    {
        let ghost next = views.subrange(0, i as int + 1);
        assert(next.drop_last() =~= views.subrange(0, i as int));
        assert(next.last() == results@[i as int]@);
        match results[i].metrics.get("success_rate") {
            Some(rate) => {
                assert((count + 1) * 0xffff_ffff_ffff_ffff == count * 0xffff_ffff_ffff_ffff
                    + 0xffff_ffff_ffff_ffff) by (nonlinear_arith);
                assert(count * 0xffff_ffff_ffff_ffff <= 0xffff_ffff_ffff_ffff
                    * 0xffff_ffff_ffff_ffff) by (nonlinear_arith)
                    requires
                        count <= 0xffff_ffff_ffff_ffff,
                ;
                sum = sum + *rate as u128;
                count = count + 1;
            },
            None => {},
        }
        i = i + 1;
    }
    assert(views.subrange(0, results@.len() as int) =~= views);
    if count == 0 {
        0
    } else {
        assert(sum / (count as u128) <= 0xffff_ffff_ffff_ffff) by (nonlinear_arith)
            requires
                sum <= count * 0xffff_ffff_ffff_ffff,
                count > 0,
        ;
        (sum / count as u128) as u64
    }
}

} // verus!
