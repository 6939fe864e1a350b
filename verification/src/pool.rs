//! A pool of connections to one database, whatever its backend.

use crate::backend::Backend;
use vstd::prelude::*;

verus! {

/// An open pool, tagged with its backend. The four parameters are the pool types of the four
/// drivers: a pool is carried here, never looked into.
pub enum DbPool<S, M, P, X> {
    Sqlite(S),
    MySql(M),
    Postgres(P),
    Mssql(X),
}

impl<S, M, P, X> DbPool<S, M, P, X> {
    /// The backend that the pool is connected to.
    pub open spec fn kind(&self) -> Backend {
        match self {
            DbPool::Sqlite(_) => Backend::Sqlite,
            DbPool::MySql(_) => Backend::MySql,
            DbPool::Postgres(_) => Backend::Postgres,
            DbPool::Mssql(_) => Backend::Mssql,
        }
    }

    /// The backend that the pool is connected to.
    pub fn backend(&self) -> (r: Backend)
        ensures
            r == self.kind(),
    {
        match self {
            DbPool::Sqlite(_) => Backend::Sqlite,
            DbPool::MySql(_) => Backend::MySql,
            DbPool::Postgres(_) => Backend::Postgres,
            DbPool::Mssql(_) => Backend::Mssql,
        }
    }
}

} // verus!
