//! The two tables that the operations share: the open pools and the migrations that wait
//! for their database to be loaded.
//!
//! Each table is a value of its own, so that each can stand behind its own lock. The
//! operations here decide; connecting, migrating, querying and closing are done by whoever
//! holds the pools.

use crate::backend::{backend_of, ConnectPlan};
use crate::binder::{bind_values, binding_fails, binds_to, Binding};
use crate::error::{Error, ErrorView};
use crate::migration::{is_apply_order, Migration, MigrationList};
use crate::pool::DbPool;
use crate::table::{holds_all, Table};
use crate::value::{accepted, accepting_fails, accepts_to, DynValue, DynValueView, JsonInput};
use vstd::prelude::*;
use vstd::string::StringExecFns;

verus! {

/// What looking a database up gives: its pool, or `DatabaseNotLoaded` with the identifier.
pub open spec fn found<P>(pools: Map<Seq<char>, P>, db: Seq<char>) -> Result<P, ErrorView> {
    if pools.contains_key(db) {
        Ok(pools[db])
    } else {
        Err(ErrorView::DatabaseNotLoaded(db))
    }
}

/// The pools that stay open after a close: none where no identifier is given; all but the
/// one named where it is open; where it is not, the close fails with `DatabaseNotLoaded`.
pub open spec fn after_close<P>(pools: Map<Seq<char>, P>, db: Option<Seq<char>>) -> Result<
    Map<Seq<char>, P>,
    ErrorView,
> {
    match db {
        None => Ok(Map::empty()),
        Some(name) => if pools.contains_key(name) {
            Ok(pools.remove(name))
        } else {
            Err(ErrorView::DatabaseNotLoaded(name))
        },
    }
}

/// `closed` holds the pools that a close takes out: the one named, or every pool once.
pub open spec fn taken_out<P>(pools: Map<Seq<char>, P>, db: Option<Seq<char>>, closed: Seq<P>) -> bool {
    match db {
        None => exists|names: Seq<String>| holds_all(pools, names, closed),
        Some(name) => closed == seq![pools[name]],
    }
}

/// The open pools, by identifier.
pub struct DbInstances<P> {
    pools: Table<P>,
}

impl<P> View for DbInstances<P> {
    type V = Map<Seq<char>, P>;

    closed spec fn view(&self) -> Map<Seq<char>, P> {
        self.pools@
    }
}

impl<P> DbInstances<P> {
    /// No pool is open.
    pub fn new() -> (r: DbInstances<P>)
        ensures
            r@ == Map::<Seq<char>, P>::empty(),
    {
        DbInstances { pools: Table::new() }
    }

    /// Enters the pool of a database that was loaded. Where the identifier had a pool, the
    /// new one takes its place, and the old one is handed back.
    pub fn insert(&mut self, db: String, pool: P) -> (r: Option<P>)
        ensures
            final(self)@ == old(self)@.insert(db@, pool),
            r == if old(self)@.contains_key(db@) {
                Some(old(self)@[db@])
            } else {
                None::<P>
            },
    {
        self.pools.insert(db, pool)
    }

    /// Looks up the pool that a statement is to run on. The table stays as it is.
    pub fn get(&self, db: &str) -> (r: Result<&P, Error>)
        ensures
            match r {
                Ok(pool) => found(self@, db@) == Ok::<P, ErrorView>(*pool),
                Err(e) => found(self@, db@) == Err::<P, ErrorView>(e@),
            },
    {
        match self.pools.get(db) {
            Some(pool) => Ok(pool),
            None => Err(Error::DatabaseNotLoaded(String::from_str(db))),
        }
    }

    /// Takes out the pools that are to be closed: the one of the identifier, or all of them
    /// where none is given. Where the identifier has no pool, nothing changes.
    pub fn close(&mut self, db: Option<&str>) -> (r: Result<Vec<P>, Error>)
        ensures
            match r {
                Ok(closed) => {
                    &&& after_close(old(self)@, names(db)) == Ok::<Map<Seq<char>, P>, ErrorView>(
                        final(self)@,
                    )
                    &&& taken_out(old(self)@, names(db), closed@)
                },
                Err(e) => {
                    &&& after_close(old(self)@, names(db)) == Err::<Map<Seq<char>, P>, ErrorView>(
                        e@,
                    )
                    &&& final(self)@ == old(self)@
                },
            },
    {
        match db {
            None => {
                let (names, pools) = self.pools.drain();
                assert(holds_all(old(self)@, names@, pools@));
                Ok(pools)
            },
            Some(name) => {
                match self.pools.remove(name) {
                    Some(pool) => {
                        let mut closed: Vec<P> = Vec::new();
                        closed.push(pool);
                        assert(closed@ =~= seq![old(self)@[name@]]);
                        Ok(closed)
                    },
                    None => {
                        assert(old(self)@.remove(name@) =~= old(self)@);
                        Err(Error::DatabaseNotLoaded(String::from_str(name)))
                    },
                }
            },
        }
    }
}

impl<S, M, P, X> DbInstances<DbPool<S, M, P, X>> {
    /// Prepares a statement from the JSON values that arrived with it, in three steps: the
    /// pool of the database is looked up, then every value is taken in as a parameter, then
    /// the parameters are bound for the pool's backend. The first step that fails gives the
    /// error: a database without a pool is refused as `DatabaseNotLoaded` whatever the
    /// values are.
    pub fn prepare(&self, db: &str, inputs: &Vec<JsonInput>) -> (r: Result<
        (&DbPool<S, M, P, X>, Vec<Binding>),
        Error,
    >)
        ensures
            match r {
                Ok((pool, bindings)) => {
                    &&& found(self@, db@) == Ok::<DbPool<S, M, P, X>, ErrorView>(*pool)
                    &&& exists|values: Seq<DynValue>|
                        #[trigger] accepts_to(inputs@, values) && binds_to(
                            pool.kind(),
                            values,
                            bindings@,
                        )
                },
                Err(e) => if !self@.contains_key(db@) {
                    e@ == ErrorView::DatabaseNotLoaded(db@)
                } else if exists|refusal: ErrorView| accepting_fails(inputs@, refusal) {
                    accepting_fails(inputs@, e@)
                } else {
                    exists|values: Seq<DynValue>|
                        #[trigger] accepts_to(inputs@, values) && binding_fails(
                            self@[db@].kind(),
                            values,
                            e@,
                        )
                },
            },
    {
        let pool = match self.get(db) {
            Err(e) => {
                return Err(e);
            },
            Ok(pool) => pool,
        };
        let values = match DynValue::from_inputs(inputs) {
            Err(e) => {
                return Err(e);
            },
            Ok(values) => values,
        };
        proof {
            lemma_accepted_all(inputs@, values@);
        }
        match bind_values(pool.backend(), &values) {
            Ok(bindings) => Ok((pool, bindings)),
            Err(e) => Err(e),
        }
    }
}

/// Where every input has a dynamic value, taking the inputs in does not fail.
proof fn lemma_accepted_all(inputs: Seq<JsonInput>, values: Seq<DynValue>)
    requires
        accepts_to(inputs, values),
    ensures
        !exists|refusal: ErrorView| accepting_fails(inputs, refusal),
{
    assert forall|refusal: ErrorView| !accepting_fails(inputs, refusal) by {
        if accepting_fails(inputs, refusal) {
            let k = choose|k: int|
                {
                    &&& 0 <= k < inputs.len()
                    &&& forall|j: int| 0 <= j < k ==> (#[trigger] accepted(inputs[j])) is Ok
                    &&& #[trigger] accepted(inputs[k]) == Err::<DynValueView, ErrorView>(refusal)
                };
            assert(accepted(inputs[k]) == Ok::<DynValueView, ErrorView>(values[k]@));
        }
    }
}

/// The identifier that a close is given, as a character sequence.
pub open spec fn names(db: Option<&str>) -> Option<Seq<char>> {
    match db {
        Some(name) => Some(name@),
        None => None,
    }
}

/// The migrations that wait, by identifier. An entry is used up by the first load of its
/// database: that no entry is there means that nothing waits, not that there are no
/// migrations.
pub struct Migrations {
    pending: Table<MigrationList>,
}

impl View for Migrations {
    type V = Map<Seq<char>, MigrationList>;

    closed spec fn view(&self) -> Map<Seq<char>, MigrationList> {
        self.pending@
    }
}

/// What a load has to do, in this order: connect as planned, then hand the migrations, if
/// there are any, to the migration engine.
#[derive(Debug)]
pub struct LoadPlan {
    pub connect: ConnectPlan,
    /// The records to apply, in the order of their application; `None` where no entry
    /// waited for the database.
    pub migrations: Option<Vec<Migration>>,
}

/// `due` is what the first load of a database hands to the migration engine: the waiting
/// list's records in the order of their application, or nothing where no list waits.
pub open spec fn is_due(
    pending: Map<Seq<char>, MigrationList>,
    db: Seq<char>,
    due: Option<Vec<Migration>>,
) -> bool {
    match due {
        Some(ordered) => pending.contains_key(db) && is_apply_order(pending[db].0@, ordered@),
        None => !pending.contains_key(db),
    }
}

impl Migrations {
    /// No migrations wait.
    pub fn new() -> (r: Migrations)
        ensures
            r@ == Map::<Seq<char>, MigrationList>::empty(),
    {
        Migrations { pending: Table::new() }
    }

    /// Registers the migrations of a database, in place of any that waited for it.
    pub fn register(&mut self, db: &str, migrations: Vec<Migration>)
        ensures
            final(self)@ == old(self)@.insert(db@, MigrationList(migrations)),
    {
        let _ = self.pending.insert(String::from_str(db), MigrationList(migrations));
    }

    /// Uses up the entry of a database and gives its records in the order in which they are
    /// to be applied.
    pub fn take(&mut self, db: &str) -> (r: Option<Vec<Migration>>)
        ensures
            final(self)@ == old(self)@.remove(db@),
            is_due(old(self)@, db@, r),
    {
        match self.pending.remove(db) {
            Some(list) => Some(list.resolve()),
            None => None,
        }
    }

    /// Begins the load of a database: uses up the entry that waits for it, then plans the
    /// connection. An identifier that names no backend is refused as `InvalidDbUrl`; its
    /// entry is used up all the same.
    pub fn begin_load(&mut self, db: &str, app_path: &str) -> (r: Result<LoadPlan, Error>)
        ensures
            final(self)@ == old(self)@.remove(db@),
            match r {
                Ok(plan) => plan.connect.is_for(db@, app_path@) && is_due(
                    old(self)@,
                    db@,
                    plan.migrations,
                ),
                Err(e) => backend_of(db@) is None && e@ == ErrorView::InvalidDbUrl(db@),
            },
    {
        let migrations = self.take(db);
        match ConnectPlan::for_url(db, app_path) {
            Ok(connect) => Ok(LoadPlan { connect, migrations }),
            Err(e) => Err(e),
        }
    }
}

/// A database that was never loaded, or was closed, has no pool: a statement on it and a
/// close of it both fail with `DatabaseNotLoaded`.
pub proof fn lemma_not_loaded<P>(pools: Map<Seq<char>, P>, db: Seq<char>)
    requires
        !pools.contains_key(db),
    ensures
        found(pools, db) == Err::<P, ErrorView>(ErrorView::DatabaseNotLoaded(db)),
        after_close(pools, Some(db)) == Err::<Map<Seq<char>, P>, ErrorView>(
            ErrorView::DatabaseNotLoaded(db),
        ),
{
}

/// At the start no database is loaded: whatever the identifier, a statement and a close fail
/// with `DatabaseNotLoaded`.
pub proof fn lemma_nothing_loaded_at_start<P>(db: Seq<char>)
    ensures
        found(Map::<Seq<char>, P>::empty(), db) == Err::<P, ErrorView>(
            ErrorView::DatabaseNotLoaded(db),
        ),
        after_close(Map::<Seq<char>, P>::empty(), Some(db)) == Err::<Map<Seq<char>, P>, ErrorView>(
            ErrorView::DatabaseNotLoaded(db),
        ),
{
}

/// A close without an identifier succeeds and leaves no pool: every statement afterwards
/// fails with `DatabaseNotLoaded`, whatever its identifier.
pub proof fn lemma_close_all<P>(pools: Map<Seq<char>, P>, db: Seq<char>)
    ensures
        after_close(pools, None) is Ok,
        found(after_close(pools, None)->Ok_0, db) == Err::<P, ErrorView>(
            ErrorView::DatabaseNotLoaded(db),
        ),
{
}

/// A close of one database leaves the others as they were, and the one closed without a
/// pool.
pub proof fn lemma_close_one<P>(pools: Map<Seq<char>, P>, db: Seq<char>, other: Seq<char>)
    requires
        pools.contains_key(db),
    ensures
        after_close(pools, Some(db)) is Ok,
        found(after_close(pools, Some(db))->Ok_0, db) == Err::<P, ErrorView>(
            ErrorView::DatabaseNotLoaded(db),
        ),
        other != db ==> found(after_close(pools, Some(db))->Ok_0, other) == found(pools, other),
{
}

/// A pool is there from the load that entered it on: a statement on the database finds that
/// pool, and the other databases are as they were.
pub proof fn lemma_loaded<P>(pools: Map<Seq<char>, P>, db: Seq<char>, pool: P, other: Seq<char>)
    ensures
        found(pools.insert(db, pool), db) == Ok::<P, ErrorView>(pool),
        other != db ==> found(pools.insert(db, pool), other) == found(pools, other),
{
}

/// Migrations are handed out once: after the first load of a database has used up its
/// entry, a second load finds nothing to apply, whatever the first one found.
pub proof fn lemma_applied_once(
    pending: Map<Seq<char>, MigrationList>,
    db: Seq<char>,
    due: Option<Vec<Migration>>,
)
    requires
        is_due(pending.remove(db), db, due),
    ensures
        due is None,
{
}

} // verus!
