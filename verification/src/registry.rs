//! The registry of logical entities: each id names at most one entity.

use vstd::prelude::*;
use crate::clock::now_millis;
use crate::keyed::KeyedList;
use crate::text::{concat, texts};

verus! {

/// A registered entity.  It is never changed after it was registered;
/// registering its id again puts a new entity in its place.
#[derive(Debug)]
pub struct Entity {
    /// The id the caller chose.
    pub logical_id: String,
    /// The entity's type tag, such as `CONTRACT` or `IDEA`.
    pub entity_type: String,
    /// When the entity was registered, in milliseconds since the epoch.
    pub created_at: i64,
}

/// What a registry operation can fail with.
#[derive(Debug)]
pub enum RegistryError {
    /// No entity has the id.
    NotFound(String),
}

impl RegistryError {
    /// The message of the error.
    pub fn message(&self) -> (s: String)
        ensures
            self matches RegistryError::NotFound(id) && s@ == "Entidade não encontrada: "@ + id@,
    {
        match self {
            RegistryError::NotFound(id) => concat("Entidade não encontrada: ", id.as_str()),
        }
    }
}

/// The registry.
pub struct Registry {
    pub entities: KeyedList<Entity>,
}

impl Registry {
    /// The live entities, by id.
    pub open spec fn view(self) -> Map<Seq<char>, Entity> {
        self.entities.view()
    }

    /// Every id names at most one entity, and every entity is filed
    /// under its own id.
    pub open spec fn wf(self) -> bool {
        &&& self.entities.wf()
        &&& forall|i: int|
            0 <= i < self.entities.keys@.len() ==> (#[trigger] self.entities.values@[i]).logical_id@
                == self.entities.keys@[i]@
    }

    /// An empty registry.
    pub fn new() -> (registry: Registry)
        ensures
            registry.wf(),
            registry.view() == Map::<Seq<char>, Entity>::empty(),
    {
        Registry { entities: KeyedList::new() }
    }

    /// In a well-formed registry two places that hold the same id are the
    /// same place, and the entity under an id carries that id.
    pub proof fn lemma_unique(self, i: int, j: int)
        requires
            self.wf(),
            0 <= i < self.entities.keys@.len(),
            0 <= j < self.entities.keys@.len(),
            self.entities.values@[i].logical_id@ == self.entities.values@[j].logical_id@,
        ensures
            i == j,
            self.view().dom().contains(self.entities.values@[i].logical_id@),
            self.view()[self.entities.values@[i].logical_id@] == self.entities.values@[i],
    {
        if i < j {
            assert(self.entities.keys@[i]@ != self.entities.keys@[j]@);
        } else if j < i {
            assert(self.entities.keys@[j]@ != self.entities.keys@[i]@);
        }
        self.entities.lemma_entry(i);
    }

    proof fn lemma_filed(self, key: Seq<char>)
        requires
            self.wf(),
            self.view().dom().contains(key),
        ensures
            self.view()[key].logical_id@ == key,
    {
        let p = self.entities.position(key);
        self.entities.lemma_entry(p);
    }
}

/// Registers an entity under `logical_id`, with the current time as its
/// creation time.  An entity that had the id is replaced.  Returns the
/// id.
pub fn register_entity(registry: &mut Registry, logical_id: &str, entity_type: &str) -> (r: Result<
    String,
    RegistryError,
>)
    requires
        old(registry).wf(),
    ensures
        final(registry).wf(),
        r matches Ok(id) && id@ == logical_id@,
        final(registry).view().dom() == old(registry).view().dom().insert(logical_id@),
        final(registry).view()[logical_id@].logical_id@ == logical_id@,
        final(registry).view()[logical_id@].entity_type@ == entity_type@,
        forall|k: Seq<char>|
            k != logical_id@ && old(registry).view().dom().contains(k)
                ==> #[trigger] final(registry).view()[k] == old(registry).view()[k],
{
    let entity = Entity {
        logical_id: logical_id.to_owned(),
        entity_type: entity_type.to_owned(),
        created_at: now_millis(),
    };
    let ghost before = registry.entities;
    let replaced = registry.entities.put(logical_id.to_owned(), entity);
    proof {
        let after = registry.entities;
        assert forall|i: int| 0 <= i < after.keys@.len() implies (
        #[trigger] after.values@[i]).logical_id@ == after.keys@[i]@ by {
            after.lemma_entry(i);
            let k = after.keys@[i]@;
            assert(texts(after.keys@).len() == after.keys@.len());
            assert(texts(before.keys@).len() == before.keys@.len());
            assert(texts(after.keys@)[i] == k);
            if k != logical_id@ {
                if replaced {
                    assert(texts(before.keys@)[i] == k);
                } else {
                    assert(texts(before.keys@).push(logical_id@)[i] == k);
                    assert(i < before.keys@.len());
                    assert(texts(before.keys@)[i] == k);
                }
                before.lemma_entry(i);
            }
        }
    }
    Ok(logical_id.to_owned())
}

/// Looks an entity up by its id: the id and the type of the entity, or
/// `NotFound` with the id where no entity has it.
pub fn fetch_entity(registry: &Registry, id: &str) -> (r: Result<(String, String), RegistryError>)
    requires
        registry.wf(),
    ensures
        match r {
            Ok((logical_id, entity_type)) => {
                &&& registry.view().dom().contains(id@)
                &&& logical_id@ == id@
                &&& entity_type@ == registry.view()[id@].entity_type@
            },
            Err(RegistryError::NotFound(missing)) => !registry.view().dom().contains(id@)
                && missing@ == id@,
        },
{
    match registry.entities.get(id) {
        Some(entity) => {
            proof {
                registry.lemma_filed(id@);
            }
            Ok((entity.logical_id.clone(), entity.entity_type.clone()))
        },
        None => Err(RegistryError::NotFound(id.to_owned())),
    }
}

/// The ids of the entities whose type is exactly `entity_type`, each
/// once, in the order in which the ids were first registered.
pub fn list_entities_by_type(registry: &Registry, entity_type: &str) -> (r: Result<
    Vec<String>,
    RegistryError,
>)
    requires
        registry.wf(),
    ensures
        r matches Ok(ids) && (forall|k: Seq<char>| #[trigger]
            texts(ids@).contains(k) <==> (registry.view().dom().contains(k)
                && registry.view()[k].entity_type@ == entity_type@)) && (forall|a: int, b: int|
            0 <= a < b < ids@.len() ==> ids@[a]@ != ids@[b]@),
{
    let mut ids: Vec<String> = Vec::new();
    let mut i: usize = 0;
    let list = &registry.entities;
    while i < list.keys.len()
        invariant
            i <= list.keys@.len(),
            *list == registry.entities,
            registry.wf(),
            forall|a: int|
                0 <= a < ids@.len() ==> exists|j: int|
                    0 <= j < i && list.keys@[j]@ == (#[trigger] ids@[a])@
                        && list.values@[j].entity_type@ == entity_type@,
            forall|j: int|
                0 <= j < i && (#[trigger] list.values@[j]).entity_type@ == entity_type@
                    ==> texts(ids@).contains(list.keys@[j]@),
            forall|a: int, b: int| 0 <= a < b < ids@.len() ==> ids@[a]@ != ids@[b]@,
        decreases list.keys@.len() - i,
    {
        if crate::text::same_text(list.values[i].entity_type.as_str(), entity_type) {
            let ghost before = ids@;
            ids.push(list.keys[i].clone());
            proof {
                let n = before.len() as int;
                assert(texts(ids@)[n] == list.keys@[i as int]@);
                assert forall|j: int|
                    0 <= j < i + 1 && (#[trigger] list.values@[j]).entity_type@
                        == entity_type@ implies texts(ids@).contains(list.keys@[j]@) by {
                    if j < i {
                        let a = choose|a: int|
                            0 <= a < before.len() && texts(before)[a] == list.keys@[j]@;
                        assert(texts(ids@)[a] == list.keys@[j]@);
                    }
                }
                assert forall|a: int, b: int| 0 <= a < b < ids@.len() implies ids@[a]@
                    != ids@[b]@ by {
                    if b == n {
                        assert(ids@[a] == before[a]);
                        let j = choose|j: int|
                            0 <= j < i && list.keys@[j]@ == before[a]@
                                && list.values@[j].entity_type@ == entity_type@;
                        assert(list.keys@[j]@ != list.keys@[i as int]@);
                    }
                }
                assert forall|a: int| 0 <= a < ids@.len() implies exists|j: int|
                    0 <= j < i + 1 && list.keys@[j]@ == (#[trigger] ids@[a])@
                        && list.values@[j].entity_type@ == entity_type@ by {
                    if a < n {
                        assert(ids@[a] == before[a]);
                        let j = choose|j: int|
                            0 <= j < i && list.keys@[j]@ == before[a]@
                                && list.values@[j].entity_type@ == entity_type@;
                        assert(0 <= j < i + 1 && list.keys@[j]@ == ids@[a]@
                            && list.values@[j].entity_type@ == entity_type@);
                    } else {
                        assert(0 <= i < i + 1 && list.keys@[i as int]@ == ids@[a]@
                            && list.values@[i as int].entity_type@ == entity_type@);
                    }
                }
            }
        }
        i = i + 1;
    }
    proof {
        assert forall|k: Seq<char>| #[trigger]
            texts(ids@).contains(k) <==> (registry.view().dom().contains(k)
                && registry.view()[k].entity_type@ == entity_type@) by {
            if texts(ids@).contains(k) {
                let a = choose|a: int| 0 <= a < texts(ids@).len() && texts(ids@)[a] == k;
                assert(ids@[a]@ == k);
                let j = choose|j: int|
                    0 <= j < i && list.keys@[j]@ == ids@[a]@ && list.values@[j].entity_type@
                        == entity_type@;
                list.lemma_entry(j);
            }
            if registry.view().dom().contains(k) && registry.view()[k].entity_type@
                == entity_type@ {
                let p = list.position(k);
                list.lemma_entry(p);
            }
        }
    }
    Ok(ids)
}

/// Removes the entity with the given id.  `true` where there was one,
/// `false` where there was none; nothing is kept of a removed entity.
pub fn remove_entity(registry: &mut Registry, id: &str) -> (r: Result<bool, RegistryError>)
    requires
        old(registry).wf(),
    ensures
        final(registry).wf(),
        r matches Ok(removed) && removed == old(registry).view().dom().contains(id@),
        final(registry).view() == old(registry).view().remove(id@),
{
    let ghost before = *registry;
    let taken = registry.entities.take(id);
    proof {
        let after = registry.entities;
        assert forall|i: int| 0 <= i < after.keys@.len() implies (
        #[trigger] after.values@[i]).logical_id@ == after.keys@[i]@ by {
            after.lemma_entry(i);
            let k = after.keys@[i]@;
            assert(before.view().dom().contains(k));
            before.lemma_filed(k);
        }
    }
    Ok(taken.is_some())
}

} // verus!
