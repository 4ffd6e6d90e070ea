//! The store of simulation outcomes, kept in memory in the order in
//! which they were saved.

use vstd::prelude::*;
use crate::simulate::engine::{result_views, ResultView, SimulationResult};
use crate::simulate::SimulateError;
use crate::text::same_text;

verus! {

/// The outcomes that were saved, oldest first.
pub struct SimulationStore {
    pub results: Vec<SimulationResult>,
}

/// The outcomes of one entity among a sequence, in their order.
pub open spec fn results_of(results: Seq<ResultView>, entity: Seq<char>) -> Seq<ResultView>
    decreases results.len(),
{
    if results.len() == 0 {
        Seq::empty()
    } else if results.last().entity_id == entity {
        results_of(results.drop_last(), entity).push(results.last())
    } else {
        results_of(results.drop_last(), entity)
    }
}

/// The outcomes of all entities but one among a sequence, in their
/// order.
pub open spec fn results_except(results: Seq<ResultView>, entity: Seq<char>) -> Seq<ResultView>
    decreases results.len(),
{
    if results.len() == 0 {
        Seq::empty()
    } else if results.last().entity_id != entity {
        results_except(results.drop_last(), entity).push(results.last())
    } else {
        results_except(results.drop_last(), entity)
    }
}

/// The last `limit` elements of a sequence, or all of it where it has no
/// more.
pub open spec fn last_of(results: Seq<ResultView>, limit: nat) -> Seq<ResultView> {
    if results.len() > limit {
        results.subrange(results.len() - limit, results.len() as int)
    } else {
        results
    }
}

impl SimulationStore {
    /// The saved outcomes as plain data, oldest first.
    pub open spec fn view(self) -> Seq<ResultView> {
        result_views(self.results@)
    }

    /// Every saved outcome has well-formed metrics.
    pub open spec fn wf(self) -> bool {
        forall|i: int| 0 <= i < self.results@.len() ==> (#[trigger] self.results@[i]).metrics.wf()
    }

    /// A store without outcomes.
    pub fn new() -> (store: SimulationStore)
        ensures
            store.wf(),
            store.view() == Seq::<ResultView>::empty(),
    {
        let store = SimulationStore { results: Vec::new() };
        assert(store.view() =~= Seq::<ResultView>::empty());
        store
    }
}

/// Saves a copy of an outcome.
pub fn save_simulation_result(store: &mut SimulationStore, result: &SimulationResult) -> (r: Result<
    (),
    SimulateError,
>)
    requires
        old(store).wf(),
        result.metrics.wf(),
    ensures
        final(store).wf(),
        r is Ok,
        final(store).view() == old(store).view().push(result@),
{
    let ghost before = store.results@;
    store.results.push(result.duplicate());
    assert(store.view() =~= result_views(before).push(result@));
    assert forall|i: int| 0 <= i < store.results@.len() implies (
    #[trigger] store.results@[i]).metrics.wf() by {
        if i < before.len() {
            assert(store.results@[i] == before[i]);
        }
    }
    Ok(())
}

/// The most recent outcomes of an entity, at most `limit` of them, oldest
/// first.  Fails with `EntityNotFound` where the store holds no outcome
/// of the entity.
pub fn get_results_by_entity(store: &SimulationStore, entity_id: &str, limit: usize) -> (r: Result<
    Vec<SimulationResult>,
    SimulateError,
>)
    requires
        store.wf(),
    ensures
        match r {
            Ok(results) => results_of(store.view(), entity_id@).len() > 0 && result_views(results@)
                == last_of(results_of(store.view(), entity_id@), limit as nat) && forall|i: int|
                0 <= i < results@.len() ==> (#[trigger] results@[i]).metrics.wf(),
            Err(SimulateError::EntityNotFound(missing)) => results_of(store.view(), entity_id@).len()
                == 0 && missing@ == entity_id@,
            Err(_) => false,
        },
{
    let mut places: Vec<usize> = Vec::new();
    let mut i: usize = 0;
    let ghost views = store.view();
    assert(views.subrange(0, 0) =~= Seq::<ResultView>::empty());
    while i < store.results.len()
        invariant
            i <= store.results@.len(),
            views == store.view(),
            places@.len() == results_of(views.subrange(0, i as int), entity_id@).len(),
            forall|j: int|
                0 <= j < places@.len() ==> (#[trigger] places@[j]) < i && views[places@[j] as int]
                    == results_of(views.subrange(0, i as int), entity_id@)[j],
        decreases store.results@.len() - i,
    {
        let ghost next = views.subrange(0, i as int + 1);
        assert(next.drop_last() =~= views.subrange(0, i as int));
        assert(next.last() == store.results@[i as int]@);
        if same_text(store.results[i].entity_id.as_str(), entity_id) {
            places.push(i);
        }
        i = i + 1;
    }
    assert(views.subrange(0, store.results@.len() as int) =~= views);
    if places.len() == 0 {
        return Err(SimulateError::EntityNotFound(entity_id.to_owned()));
    }
    let ghost all = results_of(views, entity_id@);
    let start: usize = if places.len() > limit {
        places.len() - limit
    } else {
        0
    };
    let mut results: Vec<SimulationResult> = Vec::new();
    let mut k: usize = start;
    while k < places.len()
        invariant
            start <= k <= places@.len(),
            views == store.view(),
            store.wf(),
            all == results_of(views, entity_id@),
            places@.len() == all.len(),
            forall|j: int|
                0 <= j < places@.len() ==> (#[trigger] places@[j]) < store.results@.len()
                    && views[places@[j] as int] == all[j],
            result_views(results@) == all.subrange(start as int, k as int),
            forall|j: int| 0 <= j < results@.len() ==> (#[trigger] results@[j]).metrics.wf(),
        decreases places@.len() - k,
    {
        let ghost before = result_views(results@);
        let ghost prior = results@;
        let place = places[k];
        assert(views[place as int] == store.results@[place as int]@);
        results.push(store.results[place].duplicate());
        assert(result_views(results@) =~= before.push(all[k as int]));
        assert(all.subrange(start as int, k as int + 1) =~= all.subrange(
            start as int,
            k as int,
        ).push(all[k as int]));
        assert forall|j: int| 0 <= j < results@.len() implies (
        #[trigger] results@[j]).metrics.wf() by {
            if j < prior.len() {
                assert(results@[j] == prior[j]);
            }
        }
        k = k + 1;
    }
    assert(last_of(all, limit as nat) =~= all.subrange(start as int, all.len() as int));
    Ok(results)
}

/// Forgets every outcome of an entity.  The outcomes of other entities
/// stay, in their order.
pub fn clear_results_by_entity(store: &mut SimulationStore, entity_id: &str) -> (r: Result<
    (),
    SimulateError,
>)
    requires
        old(store).wf(),
    ensures
        final(store).wf(),
        r is Ok,
        final(store).view() == results_except(old(store).view(), entity_id@),
{
    let mut kept: Vec<SimulationResult> = Vec::new();
    let mut i: usize = 0;
    let ghost views = store.view();
    assert(views.subrange(0, 0) =~= Seq::<ResultView>::empty());
    while i < store.results.len()
        invariant
            i <= store.results@.len(),
            *store == *old(store),
            store.wf(),
            views == store.view(),
            result_views(kept@) == results_except(views.subrange(0, i as int), entity_id@),
            forall|j: int| 0 <= j < kept@.len() ==> (#[trigger] kept@[j]).metrics.wf(),
        decreases store.results@.len() - i,
    {
        let ghost next = views.subrange(0, i as int + 1);
        assert(next.drop_last() =~= views.subrange(0, i as int));
        assert(next.last() == store.results@[i as int]@);
        if !same_text(store.results[i].entity_id.as_str(), entity_id) {
            let ghost before = result_views(kept@);
            let ghost prior = kept@;
            kept.push(store.results[i].duplicate());
            assert(result_views(kept@) =~= before.push(store.results@[i as int]@));
            assert forall|j: int| 0 <= j < kept@.len() implies (#[trigger] kept@[j]).metrics.wf() by {
                if j < prior.len() {
                    assert(kept@[j] == prior[j]);
                }
            }
        }
        i = i + 1;
    }
    assert(views.subrange(0, store.results@.len() as int) =~= views);
    store.results = kept;
    Ok(())
}

/// Copies of all saved outcomes, oldest first.
pub fn list_results(store: &SimulationStore) -> (results: Vec<SimulationResult>)
    requires
        store.wf(),
    ensures
        result_views(results@) == store.view(),
        forall|i: int| 0 <= i < results@.len() ==> (#[trigger] results@[i]).metrics.wf(),
{
    let mut results: Vec<SimulationResult> = Vec::new();
    let mut i: usize = 0;
    while i < store.results.len()
        invariant
            i <= store.results@.len(),
            store.wf(),
            result_views(results@) == store.view().subrange(0, i as int),
            forall|j: int| 0 <= j < results@.len() ==> (#[trigger] results@[j]).metrics.wf(),
        decreases store.results@.len() - i,
    {
        let ghost before = result_views(results@);
        let ghost prior = results@;
        results.push(store.results[i].duplicate());
        assert(result_views(results@) =~= before.push(store.results@[i as int]@));
        assert(store.view().subrange(0, i as int + 1) =~= store.view().subrange(0, i as int).push(
            store.view()[i as int],
        ));
        assert forall|j: int| 0 <= j < results@.len() implies (
        #[trigger] results@[j]).metrics.wf() by {
            if j < prior.len() {
                assert(results@[j] == prior[j]);
            }
        }
        i = i + 1;
    }
    assert(store.view().subrange(0, store.results@.len() as int) =~= store.view());
    results
}

} // verus!
