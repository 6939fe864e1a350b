use sql_plugin::{
    engine_for, migrator, Backend, Builder, Error, Migration, MigrationKind, MigrationList,
    Migrations,
};
use sqlx::migrate::MigrationType;

fn up(version: i64, sql: &'static str) -> Migration {
    Migration { version, description: "step", sql, kind: MigrationKind::Up }
}

fn down(version: i64, sql: &'static str) -> Migration {
    Migration { version, description: "step back", sql, kind: MigrationKind::Down }
}

fn versions(list: &[Migration]) -> Vec<i64> {
    list.iter().map(|m| m.version).collect()
}

#[test]
fn out_of_order_versions_are_applied_ascending() {
    let list = MigrationList(vec![up(3, "C"), up(1, "A"), up(2, "B")]);
    let ordered = list.resolve();
    assert_eq!(versions(&ordered), vec![1, 2, 3]);
    assert_eq!(ordered.iter().map(|m| m.sql).collect::<Vec<_>>(), vec!["A", "B", "C"]);
}

#[test]
fn only_up_records_are_applied() {
    let list = MigrationList(vec![up(2, "B"), down(2, "b"), down(1, "a"), up(1, "A")]);
    let ordered = list.resolve();
    assert_eq!(versions(&ordered), vec![1, 2]);
    assert!(ordered.iter().all(|m| m.kind == MigrationKind::Up));
    assert_eq!(ordered[0].sql, "A");
    assert_eq!(ordered[1].sql, "B");
}

#[test]
fn empty_list_and_list_of_down_records() {
    assert!(MigrationList(Vec::new()).resolve().is_empty());
    assert!(MigrationList(vec![down(1, "a"), down(2, "b")]).resolve().is_empty());
}

#[test]
fn records_of_one_version_keep_their_order() {
    let list = MigrationList(vec![up(2, "first"), up(1, "A"), up(2, "second"), up(2, "third")]);
    let ordered = list.resolve();
    assert_eq!(versions(&ordered), vec![1, 2, 2, 2]);
    assert_eq!(
        ordered.iter().map(|m| m.sql).collect::<Vec<_>>(),
        vec!["A", "first", "second", "third"]
    );
}

#[test]
fn negative_and_extreme_versions() {
    let list = MigrationList(vec![up(i64::MAX, "Z"), up(0, "M"), up(i64::MIN, "A"), up(-1, "L")]);
    assert_eq!(versions(&list.resolve()), vec![i64::MIN, -1, 0, i64::MAX]);
}

#[test]
fn fields_are_carried_over() {
    let list = MigrationList(vec![Migration {
        version: 7,
        description: "create t",
        sql: "CREATE TABLE t(id INTEGER)",
        kind: MigrationKind::Up,
    }]);
    let ordered = list.resolve();
    assert_eq!(ordered.len(), 1);
    assert_eq!(ordered[0].version, 7);
    assert_eq!(ordered[0].description, "create t");
    assert_eq!(ordered[0].sql, "CREATE TABLE t(id INTEGER)");
}

#[test]
fn kinds_as_the_engine_names_them() {
    assert_eq!(MigrationType::from(MigrationKind::Up), MigrationType::ReversibleUp);
    assert_eq!(MigrationType::from(MigrationKind::Down), MigrationType::ReversibleDown);
}

#[test]
fn builder_registers_by_identifier() {
    let mut pending: Migrations = Builder::default()
        .add_migrations("sqlite:a.db", vec![up(2, "B"), up(1, "A")])
        .add_migrations("sqlite:b.db", vec![up(5, "E")])
        .into_migrations();
    assert_eq!(versions(&pending.take("sqlite:a.db").unwrap()), vec![1, 2]);
    assert_eq!(versions(&pending.take("sqlite:b.db").unwrap()), vec![5]);
    assert!(pending.take("sqlite:c.db").is_none());
}

#[test]
fn migrations_added_again_replace_the_earlier_ones() {
    let mut pending = Builder::new()
        .add_migrations("sqlite:a.db", vec![up(1, "A")])
        .add_migrations("sqlite:a.db", vec![up(9, "I"), up(8, "H")])
        .into_migrations();
    assert_eq!(versions(&pending.take("sqlite:a.db").unwrap()), vec![8, 9]);
}

#[test]
fn entry_is_used_up_by_the_first_take() {
    let mut pending = Migrations::new();
    pending.register("sqlite:a.db", vec![up(1, "A")]);
    assert!(pending.take("sqlite:a.db").is_some());
    assert!(pending.take("sqlite:a.db").is_none());
}

#[test]
fn empty_list_is_still_an_entry() {
    let mut pending = Migrations::new();
    pending.register("sqlite:a.db", Vec::new());
    assert_eq!(pending.take("sqlite:a.db").map(|l| l.len()), Some(0));
    assert!(pending.take("sqlite:a.db").is_none());
}

#[test]
fn engine_holds_the_records_in_their_order() {
    let records = vec![
        Migration {
            version: 1,
            description: "create t",
            sql: "CREATE TABLE t(id INTEGER)",
            kind: MigrationKind::Up,
        },
        Migration {
            version: 2,
            description: "fill t",
            sql: "INSERT INTO t VALUES (1)",
            kind: MigrationKind::Up,
        },
    ];
    let engine = migrator(&records);
    assert_eq!(engine.migrations.len(), 2);
    assert_eq!(engine.migrations[0].version, 1);
    assert_eq!(engine.migrations[0].description, "create t");
    assert_eq!(engine.migrations[0].sql, "CREATE TABLE t(id INTEGER)");
    assert_eq!(engine.migrations[0].migration_type, MigrationType::ReversibleUp);
    assert_eq!(engine.migrations[0].checksum.len(), 48);
    assert_eq!(engine.migrations[1].version, 2);
    assert_eq!(engine.migrations[1].description, "fill t");
    assert_eq!(engine.migrations[1].sql, "INSERT INTO t VALUES (1)");
    assert_ne!(engine.migrations[0].checksum, engine.migrations[1].checksum);
    assert!(!engine.ignore_missing);
    assert!(engine.locking);
}

#[test]
fn engine_without_records() {
    let engine = migrator(&Vec::new());
    assert!(engine.migrations.is_empty());
    assert!(!engine.ignore_missing);
    assert!(engine.locking);
}

#[test]
fn engine_for_a_list_holds_the_up_records_ascending() {
    let engine = MigrationList(vec![up(3, "C"), down(3, "c"), up(1, "A"), up(2, "B")]).engine();
    let held: Vec<(i64, &str)> =
        engine.migrations.iter().map(|m| (m.version, m.sql.as_ref())).collect();
    assert_eq!(held, vec![(1, "A"), (2, "B"), (3, "C")]);
    assert!(engine.migrations.iter().all(|m| m.migration_type == MigrationType::ReversibleUp));
}

#[test]
fn engine_keeps_the_kind_of_each_record() {
    let engine = migrator(&vec![down(1, "a"), up(1, "A")]);
    assert_eq!(engine.migrations[0].migration_type, MigrationType::ReversibleDown);
    assert_eq!(engine.migrations[1].migration_type, MigrationType::ReversibleUp);
}

fn hex(text: &str) -> Vec<u8> {
    (0..text.len()).step_by(2).map(|i| u8::from_str_radix(&text[i..i + 2], 16).unwrap()).collect()
}

#[test]
fn checksum_is_the_sha384_digest_of_the_script() {
    let engine = migrator(&vec![up(1, ""), up(2, "abc")]);
    assert_eq!(
        engine.migrations[0].checksum.to_vec(),
        hex(
            "38b060a751ac96384cd9327eb1b1e36a21fdb71114be07434c0cc7bf63f6e1da\
             274edebfe76f65fbd51ad2f14898b95b"
        )
    );
    assert_eq!(
        engine.migrations[1].checksum.to_vec(),
        hex(
            "cb00753f45a35e8bb5a03d699ac65007272c32ab0eded1631a8b605a43ff5bed\
             8086072ba1e7cc2358baeca134c825a7"
        )
    );
}

#[test]
fn engine_for_a_backend_that_has_one() {
    for backend in [Backend::Sqlite, Backend::MySql, Backend::Postgres] {
        let engine = engine_for(backend, &vec![up(1, "A"), up(2, "B")]).unwrap();
        let held: Vec<(i64, &str)> =
            engine.migrations.iter().map(|m| (m.version, m.sql.as_ref())).collect();
        assert_eq!(held, vec![(1, "A"), (2, "B")]);
        assert!(!engine.ignore_missing);
        assert!(engine.locking);
        assert!(engine_for(backend, &Vec::new()).unwrap().migrations.is_empty());
    }
}

#[test]
fn engine_for_the_backend_that_has_none() {
    for records in [vec![up(1, "A")], Vec::new()] {
        match engine_for(Backend::Mssql, &records) {
            Err(Error::Migration(text)) => {
                assert_eq!(text, "no migration engine for this backend")
            }
            _ => panic!("an engine was made"),
        }
    }
}
