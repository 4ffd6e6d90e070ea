//! The store of ideas: an id, a free text, tags, and two timestamps.

use vstd::prelude::*;
use crate::clock::now_millis;
use crate::keyed::KeyedList;
use crate::text::{clone_strings, concat3, holds_text, texts};

verus! {

/// An idea.
#[derive(Debug)]
pub struct Idea {
    pub id: String,
    pub text: String,
    /// When the idea was created, in milliseconds since the epoch.
    pub created_at: i64,
    /// When the idea was last changed.
    pub updated_at: i64,
    /// The idea's tags, each once, in the order in which they were added.
    pub tags: Vec<String>,
}

/// What an idea operation can fail with.
#[derive(Debug)]
pub enum IdeaError {
    /// An idea with the id exists already.
    AlreadyExists(String),
    /// No idea has the id.
    NotFound(String),
}

impl IdeaError {
    /// The message of the error.
    pub fn message(&self) -> (s: String)
        ensures
            match self {
                IdeaError::AlreadyExists(id) => s@ == "Ideia com ID '"@ + id@ + "' já existe"@,
                IdeaError::NotFound(id) => s@ == "Ideia com ID '"@ + id@ + "' não encontrada"@,
            },
    {
        match self {
            IdeaError::AlreadyExists(id) => concat3("Ideia com ID '", id.as_str(), "' já existe"),
            IdeaError::NotFound(id) => concat3("Ideia com ID '", id.as_str(), "' não encontrada"),
        }
    }
}

/// The ideas, by id.
pub struct IdeaStore {
    pub ideas: KeyedList<Idea>,
}

impl IdeaStore {
    pub open spec fn view(self) -> Map<Seq<char>, Idea> {
        self.ideas.view()
    }

    pub open spec fn wf(self) -> bool {
        self.ideas.wf()
    }

    /// A store without ideas.
    pub fn new() -> (store: IdeaStore)
        ensures
            store.wf(),
            store.view() == Map::<Seq<char>, Idea>::empty(),
    {
        IdeaStore { ideas: KeyedList::new() }
    }
}

/// The tags after `added` were added to `tags`: each new tag goes to the
/// end, unless it is there already.
pub open spec fn merged_tags(tags: Seq<Seq<char>>, added: Seq<Seq<char>>) -> Seq<Seq<char>>
    decreases added.len(),
{
    if added.len() == 0 {
        tags
    } else {
        let base = merged_tags(tags, added.drop_last());
        if base.contains(added.last()) {
            base
        } else {
            base.push(added.last())
        }
    }
}

/// Creates an idea without tags.  Fails with `AlreadyExists`, and changes
/// nothing, where the id is taken.
pub fn create_idea(store: &mut IdeaStore, id: &str, text: &str) -> (r: Result<(), IdeaError>)
    requires
        old(store).wf(),
    ensures
        final(store).wf(),
        match r {
            Ok(_) => {
                &&& !old(store).view().dom().contains(id@)
                &&& final(store).view() == old(store).view().insert(id@, final(store).view()[id@])
                &&& final(store).view()[id@].id@ == id@
                &&& final(store).view()[id@].text@ == text@
                &&& final(store).view()[id@].tags@.len() == 0
                &&& final(store).view()[id@].created_at == final(store).view()[id@].updated_at
                &&& texts(final(store).ideas.keys@) == texts(old(store).ideas.keys@).push(id@)
            },
            Err(IdeaError::AlreadyExists(taken)) => old(store).view().dom().contains(id@) && taken@
                == id@ && *final(store) == *old(store),
            Err(_) => false,
        },
{
    if store.ideas.contains(id) {
        return Err(IdeaError::AlreadyExists(id.to_owned()));
    }
    let now = now_millis();
    let idea = Idea {
        id: id.to_owned(),
        text: text.to_owned(),
        created_at: now,
        updated_at: now,
        tags: Vec::new(),
    };
    store.ideas.put(id.to_owned(), idea);
    Ok(())
}

/// The id, the text and the creation time of an idea.
pub fn get_idea(store: &IdeaStore, id: &str) -> (r: Result<(String, String, i64), IdeaError>)
    requires
        store.wf(),
    ensures
        match r {
            Ok((found, text, created_at)) => {
                &&& store.view().dom().contains(id@)
                &&& found@ == id@
                &&& text@ == store.view()[id@].text@
                &&& created_at == store.view()[id@].created_at
            },
            Err(IdeaError::NotFound(missing)) => !store.view().dom().contains(id@) && missing@
                == id@,
            Err(_) => false,
        },
{
    match store.ideas.get(id) {
        Some(idea) => Ok((id.to_owned(), idea.text.clone(), idea.created_at)),
        None => Err(IdeaError::NotFound(id.to_owned())),
    }
}

/// The ids of all ideas, in the order in which they were created.
pub fn list_ideas(store: &IdeaStore) -> (r: Result<Vec<String>, IdeaError>)
    ensures
        r matches Ok(ids) && ids@ == store.ideas.keys@,
{
    Ok(clone_strings(&store.ideas.keys))
}

/// Replaces the text of an idea and refreshes its update time.  Fails
/// with `NotFound`, and changes nothing, where no idea has the id.
pub fn update_idea(store: &mut IdeaStore, id: &str, text: &str) -> (r: Result<(), IdeaError>)
    requires
        old(store).wf(),
    ensures
        final(store).wf(),
        match r {
            Ok(_) => {
                &&& old(store).view().dom().contains(id@)
                &&& final(store).view() == old(store).view().insert(id@, final(store).view()[id@])
                &&& final(store).view()[id@].id@ == id@
                &&& final(store).view()[id@].text@ == text@
                &&& final(store).view()[id@].tags@ == old(store).view()[id@].tags@
                &&& final(store).view()[id@].created_at == old(store).view()[id@].created_at
            },
            Err(IdeaError::NotFound(missing)) => !old(store).view().dom().contains(id@) && missing@
                == id@ && *final(store) == *old(store),
            Err(_) => false,
        },
{
    let (created_at, tags) = match store.ideas.get(id) {
        Some(idea) => (idea.created_at, clone_strings(&idea.tags)),
        None => {
            return Err(IdeaError::NotFound(id.to_owned()));
        },
    };
    let idea = Idea {
        id: id.to_owned(),
        text: text.to_owned(),
        created_at,
        updated_at: now_millis(),
        tags,
    };
    store.ideas.put(id.to_owned(), idea);
    Ok(())
}

/// Adds tags to an idea, skipping those it has already, and refreshes
/// its update time.  Fails with `NotFound`, and changes nothing, where no
/// idea has the id.
pub fn add_tags(store: &mut IdeaStore, id: &str, tags: &Vec<String>) -> (r: Result<(), IdeaError>)
    requires
        old(store).wf(),
    ensures
        final(store).wf(),
        match r {
            Ok(_) => {
                &&& old(store).view().dom().contains(id@)
                &&& final(store).view() == old(store).view().insert(id@, final(store).view()[id@])
                &&& final(store).view()[id@].id@ == id@
                &&& final(store).view()[id@].text@ == old(store).view()[id@].text@
                &&& texts(final(store).view()[id@].tags@) == merged_tags(
                    texts(old(store).view()[id@].tags@),
                    texts(tags@),
                )
                &&& final(store).view()[id@].created_at == old(store).view()[id@].created_at
            },
            Err(IdeaError::NotFound(missing)) => !old(store).view().dom().contains(id@) && missing@
                == id@ && *final(store) == *old(store),
            Err(_) => false,
        },
{
    let (created_at, text, mut merged) = match store.ideas.get(id) {
        Some(idea) => (idea.created_at, idea.text.clone(), clone_strings(&idea.tags)),
        None => {
            return Err(IdeaError::NotFound(id.to_owned()));
        },
    };
    let ghost base = texts(merged@);
    let mut i: usize = 0;
    assert(texts(tags@).subrange(0, 0) =~= Seq::<Seq<char>>::empty());
    while i < tags.len()
        invariant
            i <= tags.len(),
            texts(merged@) == merged_tags(base, texts(tags@).subrange(0, i as int)),
        decreases tags.len() - i,
    {
        let ghost done = texts(tags@).subrange(0, i as int);
        let ghost next = texts(tags@).subrange(0, i as int + 1);
        assert(next.drop_last() =~= done);
        assert(next.last() == tags@[i as int]@);
        if !holds_text(&merged, tags[i].as_str()) {
            let ghost before = texts(merged@);
            merged.push(tags[i].clone());
            assert(texts(merged@) =~= before.push(tags@[i as int]@));
        }
        i = i + 1;
    }
    assert(texts(tags@).subrange(0, tags@.len() as int) =~= texts(tags@));
    let idea = Idea { id: id.to_owned(), text, created_at, updated_at: now_millis(), tags: merged };
    store.ideas.put(id.to_owned(), idea);
    Ok(())
}

/// Removes an idea.  Fails with `NotFound` where no idea has the id.
pub fn remove_idea(store: &mut IdeaStore, id: &str) -> (r: Result<(), IdeaError>)
    requires
        old(store).wf(),
    ensures
        final(store).wf(),
        final(store).view() == old(store).view().remove(id@),
        match r {
            Ok(_) => old(store).view().dom().contains(id@),
            Err(IdeaError::NotFound(missing)) => !old(store).view().dom().contains(id@) && missing@
                == id@,
            Err(_) => false,
        },
{
    match store.ideas.take(id) {
        Some(_) => Ok(()),
        None => Err(IdeaError::NotFound(id.to_owned())),
    }
}

} // verus!
