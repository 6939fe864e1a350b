//! What the embedding application sets up before the first database is loaded.

use crate::backend::Backend;
use crate::migration::{Migration, MigrationList};
use crate::registry::Migrations;
use vstd::prelude::*;

verus! {

/// The configuration that the host hands over at startup.
#[derive(Debug, Clone)]
pub struct PluginConfig {
    preload: Vec<String>,
}

impl PluginConfig {
    /// A configuration that asks for these databases to be loaded at startup, in this order.
    pub fn new(preload: Vec<String>) -> (r: PluginConfig)
        ensures
            r.preload_list() == preload,
    {
        PluginConfig { preload }
    }

    /// The identifiers of the databases to load at startup.
    pub closed spec fn preload_list(&self) -> Vec<String> {
        self.preload
    }

    /// The identifiers of the databases to load at startup.
    pub fn preload(&self) -> (r: &Vec<String>)
        ensures
            *r == self.preload_list(),
    {
        &self.preload
    }
}

impl Default for PluginConfig {
    /// Nothing is loaded at startup.
    fn default() -> (r: PluginConfig)
        ensures
            r.preload_list()@ == Seq::<String>::empty(),
    {
        PluginConfig { preload: Vec::new() }
    }
}

/// Collects the migrations of the databases before the plugin is built.
pub struct Builder {
    migrations: Migrations,
}

impl Builder {
    /// The migrations registered so far, by identifier.
    pub closed spec fn registered(&self) -> Map<Seq<char>, MigrationList> {
        self.migrations@
    }

    /// A builder without migrations.
    pub fn new() -> (r: Builder)
        ensures
            r.registered() == Map::<Seq<char>, MigrationList>::empty(),
    {
        Builder { migrations: Migrations::new() }
    }

    /// Add migrations to a database. Migrations added before for the same identifier are
    /// replaced.
    #[must_use]
    pub fn add_migrations(self, db_url: &str, migrations: Vec<Migration>) -> (r: Builder)
        ensures
            r.registered() == self.registered().insert(db_url@, MigrationList(migrations)),
    {
        let mut table = self.migrations;
        table.register(db_url, migrations);
        Builder { migrations: table }
    }

    /// The table of waiting migrations that the operations start from.
    pub fn into_migrations(self) -> (r: Migrations)
        ensures
            r@ == self.registered(),
    {
        self.migrations
    }
}

impl Default for Builder {
    fn default() -> (r: Builder)
        ensures
            r.registered() == Map::<Seq<char>, MigrationList>::empty(),
    {
        Builder::new()
    }
}

/// The identifier of the row that a statement inserted last, as far as the backend tells.
/// A backend that does not tell has a variant without a number, so that "not told" cannot
/// be taken for a number.
#[derive(Debug, Clone, Copy, PartialEq, Eq, Structural)]
pub enum LastInsertId {
    Sqlite(i64),
    MySql(u64),
    Postgres,
    Mssql,
}

impl LastInsertId {
    /// The backends whose results carry such an identifier.
    pub open spec fn told_by(backend: Backend) -> bool {
        backend == Backend::Sqlite || backend == Backend::MySql
    }

    /// The backend of the statement.
    pub open spec fn backend(self) -> Backend {
        match self {
            LastInsertId::Sqlite(_) => Backend::Sqlite,
            LastInsertId::MySql(_) => Backend::MySql,
            LastInsertId::Postgres => Backend::Postgres,
            LastInsertId::Mssql => Backend::Mssql,
        }
    }

    /// The identifier for a statement that ran on a backend, from what the driver's result
    /// holds: the embedded backend tells a row identifier, MySQL an insert identifier, and
    /// the other two tell nothing, so that neither number is used for them.
    pub fn last_insert_id(backend: Backend, rowid: i64, id: u64) -> (r: LastInsertId)
        ensures
            r.backend() == backend,
            backend == Backend::Sqlite ==> r == LastInsertId::Sqlite(rowid),
            backend == Backend::MySql ==> r == LastInsertId::MySql(id),
    {
        match backend {
            Backend::Sqlite => LastInsertId::Sqlite(rowid),
            Backend::MySql => LastInsertId::MySql(id),
            Backend::Postgres => LastInsertId::Postgres,
            Backend::Mssql => LastInsertId::Mssql,
        }
    }

    /// The number that the backend told, if it told one.
    pub open spec fn number(self) -> Option<int> {
        match self {
            LastInsertId::Sqlite(id) => Some(id as int),
            LastInsertId::MySql(id) => Some(id as int),
            LastInsertId::Postgres => None,
            LastInsertId::Mssql => None,
        }
    }

    /// Whether the backend told a number.
    pub fn is_told(&self) -> (r: bool)
        ensures
            r == self.number() is Some,
            r == Self::told_by(self.backend()),
    {
        match self {
            LastInsertId::Sqlite(_) => true,
            LastInsertId::MySql(_) => true,
            _ => false,
        }
    }
}

} // verus!
