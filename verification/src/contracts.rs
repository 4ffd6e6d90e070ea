//! The store of contracts: an id, a list of clauses, and two timestamps.

use vstd::prelude::*;
use crate::clock::now_millis;
use crate::keyed::KeyedList;
use crate::text::{clone_strings, concat3, texts};

verus! {

/// A contract.
#[derive(Debug)]
pub struct Contract {
    pub id: String,
    pub clauses: Vec<String>,
    /// When the contract was created, in milliseconds since the epoch.
    pub created_at: i64,
    /// When the clauses were last set.
    pub updated_at: i64,
}

/// What a contract operation can fail with.
#[derive(Debug)]
pub enum ContractError {
    /// A contract with the id exists already.
    AlreadyExists(String),
    /// No contract has the id.
    NotFound(String),
}

impl ContractError {
    /// The message of the error.
    pub fn message(&self) -> (s: String)
        ensures
            match self {
                ContractError::AlreadyExists(id) => s@ == "Contrato com ID '"@ + id@
                    + "' já existe"@,
                ContractError::NotFound(id) => s@ == "Contrato com ID '"@ + id@
                    + "' não encontrado"@,
            },
    {
        match self {
            ContractError::AlreadyExists(id) => concat3(
                "Contrato com ID '",
                id.as_str(),
                "' já existe",
            ),
            ContractError::NotFound(id) => concat3(
                "Contrato com ID '",
                id.as_str(),
                "' não encontrado",
            ),
        }
    }
}

/// The contracts, by id.
pub struct ContractStore {
    pub contracts: KeyedList<Contract>,
}

impl ContractStore {
    pub open spec fn view(self) -> Map<Seq<char>, Contract> {
        self.contracts.view()
    }

    pub open spec fn wf(self) -> bool {
        self.contracts.wf()
    }

    /// A store without contracts.
    pub fn new() -> (store: ContractStore)
        ensures
            store.wf(),
            store.view() == Map::<Seq<char>, Contract>::empty(),
    {
        ContractStore { contracts: KeyedList::new() }
    }
}

/// Creates a contract with the given clauses.  Fails with `AlreadyExists`,
/// and changes nothing, where the id is taken.
pub fn create_contract(store: &mut ContractStore, id: &str, clauses: &Vec<String>) -> (r: Result<
    (),
    ContractError,
>)
    requires
        old(store).wf(),
    ensures
        final(store).wf(),
        match r {
            Ok(_) => {
                &&& !old(store).view().dom().contains(id@)
                &&& final(store).view() == old(store).view().insert(id@, final(store).view()[id@])
                &&& final(store).view()[id@].id@ == id@
                &&& final(store).view()[id@].clauses@ == clauses@
                &&& final(store).view()[id@].created_at == final(store).view()[id@].updated_at
                &&& texts(final(store).contracts.keys@) == texts(old(store).contracts.keys@).push(
                    id@,
                )
            },
            Err(ContractError::AlreadyExists(taken)) => old(store).view().dom().contains(id@)
                && taken@ == id@ && *final(store) == *old(store),
            Err(_) => false,
        },
{
    if store.contracts.contains(id) {
        return Err(ContractError::AlreadyExists(id.to_owned()));
    }
    let now = now_millis();
    let contract = Contract {
        id: id.to_owned(),
        clauses: clone_strings(clauses),
        created_at: now,
        updated_at: now,
    };
    store.contracts.put(id.to_owned(), contract);
    Ok(())
}

/// The id, the clauses and the creation time of a contract.
pub fn get_contract(store: &ContractStore, id: &str) -> (r: Result<
    (String, Vec<String>, i64),
    ContractError,
>)
    requires
        store.wf(),
    ensures
        match r {
            Ok((found, clauses, created_at)) => {
                &&& store.view().dom().contains(id@)
                &&& found@ == id@
                &&& clauses@ == store.view()[id@].clauses@
                &&& created_at == store.view()[id@].created_at
            },
            Err(ContractError::NotFound(missing)) => !store.view().dom().contains(id@) && missing@
                == id@,
            Err(_) => false,
        },
{
    match store.contracts.get(id) {
        Some(contract) => Ok((id.to_owned(), clone_strings(&contract.clauses), contract.created_at)),
        None => Err(ContractError::NotFound(id.to_owned())),
    }
}

/// The ids of all contracts, in the order in which they were created.
pub fn list_contracts(store: &ContractStore) -> (r: Result<Vec<String>, ContractError>)
    ensures
        r matches Ok(ids) && ids@ == store.contracts.keys@,
{
    Ok(clone_strings(&store.contracts.keys))
}

/// Replaces the clauses of a contract and refreshes its update time.
/// Fails with `NotFound`, and changes nothing, where no contract has the
/// id.
pub fn update_contract(store: &mut ContractStore, id: &str, clauses: &Vec<String>) -> (r: Result<
    (),
    ContractError,
>)
    requires
        old(store).wf(),
    ensures
        final(store).wf(),
        match r {
            Ok(_) => {
                &&& old(store).view().dom().contains(id@)
                &&& final(store).view() == old(store).view().insert(id@, final(store).view()[id@])
                &&& final(store).view()[id@].id@ == id@
                &&& final(store).view()[id@].clauses@ == clauses@
                &&& final(store).view()[id@].created_at == old(store).view()[id@].created_at
            },
            Err(ContractError::NotFound(missing)) => !old(store).view().dom().contains(id@)
                && missing@ == id@ && *final(store) == *old(store),
            Err(_) => false,
        },
{
    let created_at = match store.contracts.get(id) {
        Some(contract) => contract.created_at,
        None => {
            return Err(ContractError::NotFound(id.to_owned()));
        },
    };
    let contract = Contract {
        id: id.to_owned(),
        clauses: clone_strings(clauses),
        created_at,
        updated_at: now_millis(),
    };
    store.contracts.put(id.to_owned(), contract);
    Ok(())
}

} // verus!
