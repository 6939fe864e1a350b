use sql_plugin::{
    Backend, Binding, DbInstances, DbPool, Error, JsonInput, LastInsertId, Migration,
    MigrationKind, Migrations, Numeric, PluginConfig, Structured,
};

type Pool = DbPool<u32, u32, u32, u32>;

fn not_loaded<T: std::fmt::Debug>(r: Result<T, Error>, db: &str) {
    match r {
        Err(Error::DatabaseNotLoaded(name)) => assert_eq!(name, db),
        other => panic!("unexpected: {:?}", other.map(|_| ())),
    }
}

#[test]
fn never_loaded_identifier_is_not_loaded() {
    let mut instances: DbInstances<u32> = DbInstances::new();
    not_loaded(instances.get("sqlite:test.db").map(|p| *p), "sqlite:test.db");
    not_loaded(instances.close(Some("sqlite:test.db")), "sqlite:test.db");
    let _ = instances.insert("sqlite:other.db".to_string(), 1);
    not_loaded(instances.get("sqlite:test.db").map(|p| *p), "sqlite:test.db");
    not_loaded(instances.close(Some("sqlite:test.db")), "sqlite:test.db");
    assert_eq!(instances.get("sqlite:other.db").map(|p| *p).unwrap(), 1);
}

#[test]
fn statement_on_a_database_that_is_not_loaded() {
    let instances: DbInstances<Pool> = DbInstances::new();
    match instances.prepare("sqlite:test.db", &vec![JsonInput::Bool(true)]) {
        Err(Error::DatabaseNotLoaded(name)) => assert_eq!(name, "sqlite:test.db"),
        _ => panic!("a pool was found"),
    }
}

#[test]
fn database_that_is_not_loaded_is_told_before_any_value_is_looked_at() {
    let mut instances: DbInstances<Pool> = DbInstances::new();
    let _ = instances.insert("mssql://h/b".to_string(), DbPool::Mssql(2));
    let unreadable = vec![JsonInput::Number { integer: None, double: None }];
    match instances.prepare("mssql://h/never", &unreadable) {
        Err(Error::DatabaseNotLoaded(name)) => assert_eq!(name, "mssql://h/never"),
        _ => panic!("a pool was found"),
    }
    match instances.prepare("mssql://h/never", &vec![JsonInput::Bool(true)]) {
        Err(Error::DatabaseNotLoaded(name)) => assert_eq!(name, "mssql://h/never"),
        _ => panic!("a pool was found"),
    }
}

#[test]
fn value_that_cannot_be_taken_in_is_told_before_one_that_cannot_be_bound() {
    let mut instances: DbInstances<Pool> = DbInstances::new();
    let _ = instances.insert("mssql://h/b".to_string(), DbPool::Mssql(2));
    let inputs = vec![JsonInput::Bool(true), JsonInput::Number { integer: None, double: None }];
    match instances.prepare("mssql://h/b", &inputs) {
        Err(Error::UnsupportedDatatype(name)) => assert_eq!(name, "number"),
        _ => panic!("the statement was prepared"),
    }
}

#[test]
fn statement_is_prepared_for_the_backend_of_the_pool() {
    let mut instances: DbInstances<Pool> = DbInstances::new();
    let _ = instances.insert("sqlite:a.db".to_string(), DbPool::Sqlite(1));
    let _ = instances.insert("mssql://h/b".to_string(), DbPool::Mssql(2));
    let array: serde_json::Value = serde_json::from_str("[1]").unwrap();
    let inputs = vec![
        JsonInput::Number { integer: Some(5), double: None },
        JsonInput::Bool(true),
        JsonInput::Array(array.clone()),
    ];
    match instances.prepare("sqlite:a.db", &inputs) {
        Ok((pool, bindings)) => {
            assert_eq!(pool.backend(), Backend::Sqlite);
            assert!(matches!(pool, DbPool::Sqlite(1)));
            assert_eq!(
                bindings,
                vec![
                    Binding::Double(Numeric::Integer(5)),
                    Binding::Structured(Structured::Bool(true)),
                    Binding::Structured(Structured::Array(array)),
                ]
            );
        }
        Err(e) => panic!("unexpected: {:?}", e),
    }
    match instances.prepare("mssql://h/b", &inputs) {
        Err(Error::UnsupportedDatatype(name)) => assert_eq!(name, "boolean"),
        _ => panic!("the statement was prepared"),
    }
}

#[test]
fn pool_tells_its_backend() {
    assert_eq!(Pool::Sqlite(0).backend(), Backend::Sqlite);
    assert_eq!(Pool::MySql(0).backend(), Backend::MySql);
    assert_eq!(Pool::Postgres(0).backend(), Backend::Postgres);
    assert_eq!(Pool::Mssql(0).backend(), Backend::Mssql);
}

#[test]
fn load_then_close_one() {
    let mut instances: DbInstances<u32> = DbInstances::new();
    assert_eq!(instances.insert("a".to_string(), 1), None);
    assert_eq!(instances.insert("b".to_string(), 2), None);
    assert_eq!(instances.close(Some("a")).unwrap(), vec![1]);
    not_loaded(instances.get("a").map(|p| *p), "a");
    assert_eq!(*instances.get("b").unwrap(), 2);
    not_loaded(instances.close(Some("a")), "a");
}

#[test]
fn close_all_closes_every_pool() {
    let mut instances: DbInstances<u32> = DbInstances::new();
    let _ = instances.insert("a".to_string(), 1);
    let _ = instances.insert("b".to_string(), 2);
    let _ = instances.insert("c".to_string(), 3);
    let mut closed = instances.close(None).unwrap();
    closed.sort();
    assert_eq!(closed, vec![1, 2, 3]);
    for db in ["a", "b", "c"] {
        not_loaded(instances.get(db).map(|p| *p), db);
        not_loaded(instances.close(Some(db)), db);
    }
    assert_eq!(instances.close(None).unwrap(), Vec::<u32>::new());
}

#[test]
fn second_load_replaces_the_pool() {
    let mut instances: DbInstances<u32> = DbInstances::new();
    assert_eq!(instances.insert("a".to_string(), 1), None);
    assert_eq!(instances.insert("a".to_string(), 2), Some(1));
    assert_eq!(*instances.get("a").unwrap(), 2);
    assert_eq!(instances.close(None).unwrap(), vec![2]);
}

#[test]
fn load_plan_with_migrations_once() {
    let mut pending = Migrations::new();
    pending.register(
        "sqlite:test.db",
        vec![
            Migration { version: 2, description: "b", sql: "B", kind: MigrationKind::Up },
            Migration { version: 1, description: "a", sql: "A", kind: MigrationKind::Up },
        ],
    );
    let plan = pending.begin_load("sqlite:test.db", "/cfg").unwrap();
    assert_eq!(plan.connect.backend, Backend::Sqlite);
    assert_eq!(plan.connect.url, "sqlite:/cfg/test.db");
    let due = plan.migrations.unwrap();
    assert_eq!(due.iter().map(|m| m.version).collect::<Vec<_>>(), vec![1, 2]);

    let again = pending.begin_load("sqlite:test.db", "/cfg").unwrap();
    assert!(again.migrations.is_none());
    assert_eq!(again.connect.url, "sqlite:/cfg/test.db");
}

#[test]
fn load_of_a_bad_identifier_uses_up_its_entry() {
    let mut pending = Migrations::new();
    pending.register(
        "test.db",
        vec![Migration { version: 1, description: "a", sql: "A", kind: MigrationKind::Up }],
    );
    match pending.begin_load("test.db", "/cfg") {
        Err(Error::InvalidDbUrl(url)) => assert_eq!(url, "test.db"),
        other => panic!("unexpected: {:?}", other),
    }
    assert!(pending.take("test.db").is_none());
}

#[test]
fn load_without_migrations() {
    let mut pending = Migrations::new();
    let plan = pending.begin_load("postgres://localhost/app", "/cfg").unwrap();
    assert_eq!(plan.connect.backend, Backend::Postgres);
    assert_eq!(plan.connect.url, "postgres://localhost/app");
    assert!(plan.migrations.is_none());
}

#[test]
fn preload_list() {
    assert!(PluginConfig::default().preload().is_empty());
    let config = PluginConfig::new(vec!["sqlite:a.db".to_string(), "sqlite:b.db".to_string()]);
    assert_eq!(config.preload(), &vec!["sqlite:a.db".to_string(), "sqlite:b.db".to_string()]);
    assert_eq!(config.clone().preload().len(), 2);
}

#[test]
fn last_insert_id_is_a_number_only_where_the_backend_tells() {
    assert!(LastInsertId::Sqlite(1).is_told());
    assert!(LastInsertId::MySql(1).is_told());
    assert!(!LastInsertId::Postgres.is_told());
    assert!(!LastInsertId::Mssql.is_told());
    assert_eq!(LastInsertId::last_insert_id(Backend::Sqlite, 7, 9), LastInsertId::Sqlite(7));
    assert_eq!(LastInsertId::last_insert_id(Backend::Sqlite, -1, 9), LastInsertId::Sqlite(-1));
    assert_eq!(LastInsertId::last_insert_id(Backend::MySql, 7, 9), LastInsertId::MySql(9));
    assert_eq!(
        LastInsertId::last_insert_id(Backend::MySql, 7, u64::MAX),
        LastInsertId::MySql(u64::MAX)
    );
    assert_eq!(LastInsertId::last_insert_id(Backend::Postgres, 7, 9), LastInsertId::Postgres);
    assert_eq!(LastInsertId::last_insert_id(Backend::Mssql, 7, 9), LastInsertId::Mssql);
}
