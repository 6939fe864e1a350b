//! Migration records, and the order in which they are handed to the migration engine.

use crate::backend::Backend;
use crate::error::{Error, ErrorView};
use std::borrow::Cow;
use vstd::prelude::*;
use vstd::std_specs::convert::FromSpecImpl;
use vstd::string::StringExecFns;

verus! {

/// The kinds of migration that the migration engine of `sqlx` knows, declared with the
/// variants that the crate gives them: `Simple`, `ReversibleUp` and `ReversibleDown`.
#[verifier::external_type_specification]
pub struct ExMigrationType(sqlx::migrate::MigrationType);

/// The migration engine of `sqlx`: the records it is to apply, in their order, and two
/// settings. Nothing of its inside is known here; the records are told by `engine_records`.
#[verifier::external_type_specification]
#[verifier::external_body]
pub struct ExMigrator(sqlx::migrate::Migrator);

/// A record as a migration engine holds it.
pub struct EngineRecord {
    pub version: i64,
    pub description: Seq<char>,
    pub kind: sqlx::migrate::MigrationType,
    pub sql: Seq<char>,
    /// What the engine compares to tell whether an applied script was changed since.
    pub checksum: Seq<u8>,
}

/// The records that a migration engine holds, in the order in which it goes through them.
pub uninterp spec fn engine_records(engine: sqlx::migrate::Migrator) -> Seq<EngineRecord>;

/// The SHA-384 digest of a script's UTF-8 encoding.
pub uninterp spec fn script_digest(sql: Seq<char>) -> Seq<u8>;

/// The two settings of a migration engine: whether it passes over applied versions that
/// are missing from its records, and whether it locks the database while it runs.
pub uninterp spec fn engine_settings(engine: sqlx::migrate::Migrator) -> (bool, bool);

/// The settings that `Migrator::new` of `sqlx` gives an engine: an applied version that is
/// missing from the records is an error, and the database is locked.
pub open spec fn default_settings() -> (bool, bool) {
    (false, true)
}

/// A `Migrator` of `sqlx` without records, with the two settings that `Migrator::new` gives
/// one: `ignore_missing` off and `locking` on.
#[verifier::external_body]
fn engine_new() -> (engine: sqlx::migrate::Migrator)
    ensures
        engine_records(engine).len() == 0,
        engine_settings(engine) == default_settings(),
{
    sqlx::migrate::Migrator {
        migrations: Cow::Owned(Vec::new()),
        ignore_missing: false,
        locking: true,
    }
}

/// Makes a record with `Migration::new` of `sqlx`, which keeps the four values it is given
/// and adds the SHA-384 digest of the script as the checksum, and puts the record behind
/// those that the engine holds. The engine's settings stay as they are.
#[verifier::external_body]
fn engine_push(
    engine: &mut sqlx::migrate::Migrator,
    version: i64,
    description: &'static str,
    kind: sqlx::migrate::MigrationType,
    sql: &'static str,
)
    ensures
        engine_records(*final(engine)) == engine_records(*old(engine)).push(
            (EngineRecord {
                version,
                description: description@,
                kind,
                sql: sql@,
                checksum: script_digest(sql@),
            }),
        ),
        engine_settings(*final(engine)) == engine_settings(*old(engine)),
{
    engine.migrations.to_mut().push(
        sqlx::migrate::Migration::new(
            version,
            Cow::Borrowed(description),
            kind,
            Cow::Borrowed(sql),
        ),
    );
}

/// The direction of a migration.
#[derive(Debug, Clone, Copy, PartialEq, Eq, Structural)]
pub enum MigrationKind {
    Up,
    Down,
}

/// The kind that the migration engine has for a direction.
pub open spec fn engine_kind(kind: MigrationKind) -> sqlx::migrate::MigrationType {
    match kind {
        MigrationKind::Up => sqlx::migrate::MigrationType::ReversibleUp,
        MigrationKind::Down => sqlx::migrate::MigrationType::ReversibleDown,
    }
}

impl From<MigrationKind> for sqlx::migrate::MigrationType {
    fn from(kind: MigrationKind) -> (r: sqlx::migrate::MigrationType) {
        match kind {
            MigrationKind::Up => sqlx::migrate::MigrationType::ReversibleUp,
            MigrationKind::Down => sqlx::migrate::MigrationType::ReversibleDown,
        }
    }
}

impl FromSpecImpl<MigrationKind> for sqlx::migrate::MigrationType {
    open spec fn obeys_from_spec() -> bool {
        true
    }

    open spec fn from_spec(kind: MigrationKind) -> sqlx::migrate::MigrationType {
        engine_kind(kind)
    }
}

/// One versioned schema change.
#[derive(Debug, Clone, Copy)]
pub struct Migration {
    pub version: i64,
    pub description: &'static str,
    pub sql: &'static str,
    pub kind: MigrationKind,
}

/// The migrations registered for one database.
#[derive(Debug)]
pub struct MigrationList(pub Vec<Migration>);

/// The records of direction `Up`, in the order of the list.
pub open spec fn ups(list: Seq<Migration>) -> Seq<Migration>
    decreases list.len(),
{
    if list.len() == 0 {
        Seq::empty()
    } else if list.last().kind == MigrationKind::Up {
        ups(list.drop_last()).push(list.last())
    } else {
        ups(list.drop_last())
    }
}

/// The records of one version, in the order of the list.
pub open spec fn of_version(list: Seq<Migration>, version: i64) -> Seq<Migration>
    decreases list.len(),
{
    if list.len() == 0 {
        Seq::empty()
    } else if list.last().version == version {
        of_version(list.drop_last(), version).push(list.last())
    } else {
        of_version(list.drop_last(), version)
    }
}

/// No record comes before one of a lower version.
pub open spec fn ascending(list: Seq<Migration>) -> bool {
    forall|i: int, j: int| 0 <= i < j < list.len() ==> list[i].version <= list[j].version
}

/// Every record has a higher version than the one before it.
pub open spec fn strictly_ascending(list: Seq<Migration>) -> bool {
    forall|i: int, j: int| 0 <= i < j < list.len() ==> list[i].version < list[j].version
}

/// No two records have the same version.
pub open spec fn distinct_versions(list: Seq<Migration>) -> bool {
    forall|i: int, j: int| 0 <= i < j < list.len() ==> list[i].version != list[j].version
}

/// `ordered` holds the `Up` records of `list` in ascending order of version, records of one
/// version in the order in which the list has them. There is one such sequence for a list.
pub open spec fn is_apply_order(list: Seq<Migration>, ordered: Seq<Migration>) -> bool {
    &&& ascending(ordered)
    &&& forall|v: i64| of_version(ordered, v) == of_version(ups(list), v)
}

/// The records of one version in two lists laid end to end are those of the first list, then
/// those of the second.
pub proof fn lemma_of_version_concat(a: Seq<Migration>, b: Seq<Migration>, v: i64)
    ensures
        of_version(a + b, v) == of_version(a, v) + of_version(b, v),
    decreases b.len(),
{
    if b.len() == 0 {
        assert(a + b =~= a);
        assert(of_version(a, v) + of_version(b, v) =~= of_version(a, v));
    } else {
        assert((a + b).drop_last() =~= a + b.drop_last());
        assert((a + b).last() == b.last());
        lemma_of_version_concat(a, b.drop_last(), v);
        if b.last().version == v {
            assert(of_version(a, v) + of_version(b.drop_last(), v).push(b.last()) =~= (of_version(
                a,
                v,
            ) + of_version(b.drop_last(), v)).push(b.last()));
        }
    }
}

/// A list without a record of a version has no records of that version.
pub proof fn lemma_of_version_none(list: Seq<Migration>, v: i64)
    requires
        forall|i: int| 0 <= i < list.len() ==> list[i].version != v,
    ensures
        of_version(list, v) == Seq::<Migration>::empty(),
    decreases list.len(),
{
    if list.len() > 0 {
        lemma_of_version_none(list.drop_last(), v);
    }
}

/// Putting a record into an ordered list behind the records that are not above it in version,
/// and before those that are, keeps the order, and adds the record as the last of its version.
proof fn lemma_insert_in_order(out: Seq<Migration>, p: int, m: Migration)
    requires
        ascending(out),
        0 <= p <= out.len(),
        forall|k: int| 0 <= k < p ==> out[k].version <= m.version,
        forall|k: int| p <= k < out.len() ==> out[k].version > m.version,
    ensures
        ascending(out.insert(p, m)),
        forall|v: i64|
            #[trigger] of_version(out.insert(p, m), v) == if v == m.version {
                of_version(out, v).push(m)
            } else {
                of_version(out, v)
            },
{
    let head = out.take(p);
    let tail = out.skip(p);
    let grown = out.insert(p, m);
    assert(grown =~= head.push(m) + tail);
    assert(out =~= head + tail);
    assert forall|v: i64|
        #[trigger] of_version(grown, v) == if v == m.version {
            of_version(out, v).push(m)
        } else {
            of_version(out, v)
        } by {
        lemma_of_version_concat(head.push(m), tail, v);
        lemma_of_version_concat(head, tail, v);
        assert(head.push(m).drop_last() =~= head);
        if v == m.version {
            lemma_of_version_none(tail, v);
            assert(of_version(head, v).push(m) + Seq::<Migration>::empty() =~= of_version(
                head,
                v,
            ).push(m));
            assert(of_version(head, v) + Seq::<Migration>::empty() =~= of_version(head, v));
        }
    }
}

/// A record of a list is among the list's records of its version.
pub proof fn lemma_of_version_has(list: Seq<Migration>, i: int)
    requires
        0 <= i < list.len(),
    ensures
        of_version(list, list[i].version).contains(list[i]),
        of_version(list, list[i].version).len() >= 1,
    decreases list.len(),
{
    let v = list[i].version;
    if i == list.len() - 1 {
        let rest = of_version(list.drop_last(), v);
        assert(rest.push(list.last())[rest.len() as int] == list[i]);
    } else {
        lemma_of_version_has(list.drop_last(), i);
        let rest = of_version(list.drop_last(), v);
        let k = choose|k: int| 0 <= k < rest.len() && rest[k] == list[i];
        if list.last().version == v {
            assert(rest.push(list.last())[k] == list[i]);
        }
    }
}

/// Two records of one version make two among the list's records of that version.
pub proof fn lemma_of_version_two(list: Seq<Migration>, i: int, j: int)
    requires
        0 <= i < j < list.len(),
        list[i].version == list[j].version,
    ensures
        of_version(list, list[i].version).len() >= 2,
    decreases list.len(),
{
    if j == list.len() - 1 {
        lemma_of_version_has(list.drop_last(), i);
    } else {
        lemma_of_version_two(list.drop_last(), i, j);
    }
}

/// Where no version occurs twice, a version has at most one record.
pub proof fn lemma_of_version_single(list: Seq<Migration>, v: i64)
    requires
        distinct_versions(list),
    ensures
        of_version(list, v).len() <= 1,
    decreases list.len(),
{
    if list.len() > 0 {
        if list.last().version == v {
            lemma_of_version_none(list.drop_last(), v);
        } else {
            lemma_of_version_single(list.drop_last(), v);
        }
    }
}

/// Whatever the order in which the records were registered, the engine is given them by
/// ascending version; where no version occurs twice among the `Up` records, each record it
/// is given has a higher version than the one before.
pub proof fn lemma_apply_order_ascends(list: Seq<Migration>, ordered: Seq<Migration>)
    requires
        is_apply_order(list, ordered),
    ensures
        ascending(ordered),
        distinct_versions(ups(list)) ==> strictly_ascending(ordered),
{
    if distinct_versions(ups(list)) {
        assert forall|i: int, j: int| 0 <= i < j < ordered.len() implies ordered[i].version
            < ordered[j].version by {
            if ordered[i].version == ordered[j].version {
                let v = ordered[i].version;
                lemma_of_version_two(ordered, i, j);
                lemma_of_version_single(ups(list), v);
                assert(of_version(ordered, v) == of_version(ups(list), v));
            }
        }
    }
}

/// Every record that the engine is given is an `Up` record of the list, and every `Up`
/// record of the list is given.
pub proof fn lemma_apply_order_holds_ups(list: Seq<Migration>, ordered: Seq<Migration>)
    requires
        is_apply_order(list, ordered),
    ensures
        forall|i: int| 0 <= i < ordered.len() ==> ups(list).contains(#[trigger] ordered[i]),
        forall|i: int| 0 <= i < ups(list).len() ==> ordered.contains(#[trigger] ups(list)[i]),
        forall|i: int| 0 <= i < ordered.len() ==> (#[trigger] ordered[i]).kind == MigrationKind::Up,
{
    assert forall|i: int| 0 <= i < ordered.len() implies ups(list).contains(
        #[trigger] ordered[i],
    ) by {
        let v = ordered[i].version;
        lemma_of_version_has(ordered, i);
        assert(of_version(ordered, v) == of_version(ups(list), v));
        lemma_of_version_within(ups(list), v);
    }
    assert forall|i: int| 0 <= i < ups(list).len() implies ordered.contains(
        #[trigger] ups(list)[i],
    ) by {
        let v = ups(list)[i].version;
        lemma_of_version_has(ups(list), i);
        assert(of_version(ordered, v) == of_version(ups(list), v));
        lemma_of_version_within(ordered, v);
    }
    lemma_ups_are_up(list);
    assert forall|i: int| 0 <= i < ordered.len() implies (#[trigger] ordered[i]).kind
        == MigrationKind::Up by {
        let k = choose|k: int| 0 <= k < ups(list).len() && ups(list)[k] == ordered[i];
    }
}

/// Two ascending lists with the same records under every version are the same list.
pub proof fn lemma_same_by_version(a: Seq<Migration>, b: Seq<Migration>)
    requires
        ascending(a),
        ascending(b),
        forall|v: i64| of_version(a, v) == of_version(b, v),
    ensures
        a == b,
    decreases a.len(),
{
    if a.len() == 0 {
        if b.len() > 0 {
            lemma_of_version_has(b, 0);
            assert(of_version(a, b[0].version) == of_version(b, b[0].version));
        }
        assert(a =~= b);
    } else {
        let v = a.last().version;
        lemma_of_version_has(a, a.len() - 1);
        assert(of_version(a, v) == of_version(b, v));
        if b.len() == 0 {
            assert(false);
        }
        let w = b.last().version;
        lemma_of_version_has(b, b.len() - 1);
        assert(of_version(a, w) == of_version(b, w));
        if w > v {
            lemma_of_version_none(a, w);
        }
        if w < v {
            lemma_of_version_none(b, v);
        }
        assert(w == v);
        let a0 = a.drop_last();
        let b0 = b.drop_last();
        assert(of_version(a0, v).push(a.last()) == of_version(b0, v).push(b.last()));
        assert(a.last() == b.last()) by {
            let s = of_version(a0, v).push(a.last());
            let r = of_version(b0, v).push(b.last());
            assert(s[s.len() - 1] == a.last());
            assert(r[r.len() - 1] == b.last());
        }
        assert forall|u: i64| of_version(a0, u) == of_version(b0, u) by {
            assert(of_version(a, u) == of_version(b, u));
            if u == v {
                let s = of_version(a0, v).push(a.last());
                let r = of_version(b0, v).push(b.last());
                assert(s.drop_last() =~= of_version(a0, v));
                assert(r.drop_last() =~= of_version(b0, v));
            }
        }
        lemma_same_by_version(a0, b0);
        assert(a =~= a0.push(a.last()));
        assert(b =~= b0.push(b.last()));
    }
}

/// A list has one order of application.
pub proof fn lemma_apply_order_unique(list: Seq<Migration>, a: Seq<Migration>, b: Seq<Migration>)
    requires
        is_apply_order(list, a),
        is_apply_order(list, b),
    ensures
        a == b,
{
    assert forall|v: i64| of_version(a, v) == of_version(b, v) by {
        assert(of_version(a, v) == of_version(ups(list), v));
        assert(of_version(b, v) == of_version(ups(list), v));
    }
    lemma_same_by_version(a, b);
}

/// The records of a version are records of the list.
pub proof fn lemma_of_version_within(list: Seq<Migration>, v: i64)
    ensures
        forall|m: Migration| of_version(list, v).contains(m) ==> list.contains(m),
    decreases list.len(),
{
    if list.len() > 0 {
        lemma_of_version_within(list.drop_last(), v);
        assert forall|m: Migration| of_version(list, v).contains(m) implies list.contains(m) by {
            let picked = of_version(list, v);
            let k = choose|k: int| 0 <= k < picked.len() && picked[k] == m;
            if list.last().version == v && k == picked.len() - 1 {
                assert(list[list.len() - 1] == m);
            } else {
                assert(of_version(list.drop_last(), v)[k] == m);
                assert(list.drop_last().contains(m));
                let q = choose|q: int| 0 <= q < list.drop_last().len() && list.drop_last()[q] == m;
                assert(list[q] == m);
            }
        }
    }
}

/// The `Up` records of a list are of direction `Up`.
pub proof fn lemma_ups_are_up(list: Seq<Migration>)
    ensures
        forall|i: int| 0 <= i < ups(list).len() ==> (#[trigger] ups(list)[i]).kind
            == MigrationKind::Up,
    decreases list.len(),
{
    if list.len() > 0 {
        lemma_ups_are_up(list.drop_last());
    }
}

/// A record as the migration engine holds it: what the record says, and the digest of its
/// script.
pub open spec fn record_of(m: Migration) -> EngineRecord {
    EngineRecord {
        version: m.version,
        description: m.description@,
        kind: engine_kind(m.kind),
        sql: m.sql@,
        checksum: script_digest(m.sql@),
    }
}

/// The records of a list as the migration engine holds them, one for one.
pub open spec fn records_of(list: Seq<Migration>) -> Seq<EngineRecord> {
    Seq::new(list.len(), |i: int| record_of(list[i]))
}

/// Loads a migration engine with records, in their order. The engine is set to take an
/// applied version that is missing from the records for an error, and to lock the database
/// while it runs.
pub fn migrator(records: &Vec<Migration>) -> (engine: sqlx::migrate::Migrator)
    ensures
        engine_records(engine) == records_of(records@),
        engine_settings(engine) == default_settings(),
{
    let mut engine = engine_new();
    let mut i: usize = 0;
    while i < records.len()
        invariant
            i <= records.len(),
            engine_records(engine) == records_of(records@.take(i as int)),
            engine_settings(engine) == default_settings(),
        decreases records.len() - i,
    {
        let m = records[i];
        let kind: sqlx::migrate::MigrationType = sqlx::migrate::MigrationType::from(m.kind);
        engine_push(&mut engine, m.version, m.description, kind, m.sql);
        assert(records_of(records@.take(i + 1)) =~= records_of(records@.take(i as int)).push(
            record_of(m),
        ));
        i = i + 1;
    }
    assert(records@.take(records.len() as int) =~= records@);
    engine
}

/// The text of the error of a backend for which the driver has no migration engine.
pub open spec fn no_engine_text() -> Seq<char> {
    "no migration engine for this backend"@
}

/// The migration engine for records that are to be applied on a backend. The driver has an
/// engine for every backend but one; on that one, migrations fail as a `Migration` error,
/// whatever the records.
pub fn engine_for(backend: Backend, records: &Vec<Migration>) -> (r: Result<
    sqlx::migrate::Migrator,
    Error,
>)
    ensures
        backend != Backend::Mssql ==> r is Ok && engine_records(r->Ok_0) == records_of(records@)
            && engine_settings(r->Ok_0) == default_settings(),
        backend == Backend::Mssql ==> r is Err && r->Err_0@ == ErrorView::Migration(
            no_engine_text(),
        ),
{
    if backend.migrates() {
        Ok(migrator(records))
    } else {
        Err(Error::Migration(String::from_str("no migration engine for this backend")))
    }
}

impl MigrationList {
    /// The migration engine for the list: loaded with the `Up` records by ascending
    /// version, each with the kind that the engine has for `Up`.
    pub fn engine(self) -> (engine: sqlx::migrate::Migrator)
        ensures
            exists|ordered: Seq<Migration>|
                is_apply_order(self.0@, ordered) && engine_records(engine) == #[trigger] records_of(
                    ordered,
                ),
            engine_settings(engine) == default_settings(),
    {
        let ordered = self.resolve();
        migrator(&ordered)
    }

    /// The records that the migration engine is given, in the order in which it applies
    /// them: those of direction `Up`, by ascending version, whatever the order of the list.
    /// Records of one version stay in the order of the list; that a version occurs twice
    /// shows when the engine applies it.
    pub fn resolve(self) -> (r: Vec<Migration>)
        ensures
            is_apply_order(self.0@, r@),
    {
        let list = self.0;
        let mut out: Vec<Migration> = Vec::new();
        let mut i: usize = 0;
        while i < list.len()
            invariant
                i <= list.len(),
                is_apply_order(list@.take(i as int), out@),
            decreases list.len() - i,
        {
            let m = list[i];
            proof {
                let next = list@.take(i + 1);
                assert(next.drop_last() =~= list@.take(i as int));
                assert(next.last() == m);
            }
            if m.kind == MigrationKind::Up {
                let mut p: usize = out.len();
                while p > 0 && out[p - 1].version > m.version
                    invariant
                        p <= out.len(),
                        forall|k: int| p <= k < out.len() ==> out[k].version > m.version,
                    decreases p,
                {
                    p = p - 1;
                }
                proof {
                    lemma_insert_in_order(out@, p as int, m);
                    let before = ups(list@.take(i as int));
                    assert(ups(list@.take(i + 1)) == before.push(m));
                    assert(before.push(m).drop_last() =~= before);
                    assert forall|v: i64|
                        of_version(out@.insert(p as int, m), v) == of_version(
                            before.push(m),
                            v,
                        ) by {
                        assert(of_version(out@, v) == of_version(before, v));
                    }
                }
                out.insert(p, m);
            } else {
                assert(ups(list@.take(i + 1)) == ups(list@.take(i as int)));
            }
            i = i + 1;
        }
        assert(list@.take(list.len() as int) =~= list@);
        out
    }
}

} // verus!
