//! What the server settles before it talks to the list store: where the
//! store is, under which key the collection lies, and what a request gets
//! when the pool has no connection for it.

use vstd::prelude::*;

use crate::error::RepositoryError;

verus! {

/// The address of the list store where none is configured.
pub open spec fn default_database_url() -> Seq<char> {
    "redis://localhost"@
}

/// The key of the one list that holds the collection.
pub open spec fn collection_key() -> Seq<char> {
    "todos"@
}

/// The address of the list store: the configured one, and the local store
/// where none is configured.
pub fn database_url(configured: Option<String>) -> (url: String)
    ensures
        url@ == match configured {
            Some(address) => address@,
            None => default_database_url(),
        },
{
    match configured {
        Some(address) => address,
        None => String::from_str("redis://localhost"),
    }
}

/// The key of the one list that holds the collection.
pub fn todos_key() -> (key: &'static str)
    ensures
        key@ == collection_key(),
{
    "todos"
}

/// The connection of a request: the one that the pool handed out, and a
/// failure that says that the pool is exhausted where it handed out none.
pub fn checked_out<C>(connection: Option<C>) -> (r: Result<C, RepositoryError>)
    ensures
        match connection {
            Some(connection) => r == Ok::<C, RepositoryError>(connection),
            None => r matches Err(error) && error is PoolExhausted,
        },
{
    match connection {
        Some(connection) => Ok(connection),
        None => Err(RepositoryError::PoolExhausted),
    }
}

} // verus!
