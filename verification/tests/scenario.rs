use indexmap::IndexMap;
use sql_plugin::{
    engine_for, fetch, migrator, Backend, Binding, Builder, DbInstances, DbPool, Double, DynValue,
    Error, Fetch, JsonInput, LastInsertId, Migration, MigrationKind, Migrations, Numeric,
    RawColumn, RawData, RawValue, ReadAs, Structured,
};
use sqlx::sqlite::{SqlitePool, SqlitePoolOptions, SqliteRow};
use sqlx::{Column, Row, TypeInfo, ValueRef};
use std::future::Future;

type Pool = DbPool<SqlitePool, (), (), ()>;

fn run<F: Future>(f: F) -> F::Output {
    tokio::runtime::Builder::new_current_thread().enable_all().build().unwrap().block_on(f)
}

fn driver(e: sqlx::Error) -> Error {
    Error::Sql(e.to_string())
}

/// Loads a database as the plan says, but in memory in place of the planned file.
async fn load(
    instances: &mut DbInstances<Pool>,
    pending: &mut Migrations,
    db: &str,
) -> Result<Option<Vec<i64>>, Error> {
    let plan = pending.begin_load(db, "/cfg")?;
    assert_eq!(plan.connect.backend, Backend::Sqlite);
    let pool = SqlitePoolOptions::new()
        .max_connections(1)
        .connect("sqlite::memory:")
        .await
        .map_err(driver)?;
    let mut applied = None;
    if let Some(list) = plan.migrations {
        applied = Some(list.iter().map(|m| m.version).collect());
        let engine = engine_for(plan.connect.backend, &list)?;
        engine.run(&pool).await.map_err(|e| Error::Migration(e.to_string()))?;
    }
    let _ = instances.insert(db.to_string(), DbPool::Sqlite(pool));
    Ok(applied)
}

fn bind_all<'q>(
    sql: &'q str,
    bindings: Vec<Binding>,
) -> sqlx::query::Query<'q, sqlx::Sqlite, sqlx::sqlite::SqliteArguments<'q>> {
    let mut query = sqlx::query(sql);
    for binding in bindings {
        query = match binding {
            Binding::Null => query.bind(None::<String>),
            Binding::Text(s) => query.bind(s),
            Binding::Double(Numeric::Integer(i)) => query.bind(i as f64),
            Binding::Double(Numeric::Float(d)) => query.bind(f64::from_bits(d.to_bits())),
            Binding::Structured(Structured::Bool(b)) => query.bind(serde_json::Value::Bool(b)),
            Binding::Structured(Structured::Array(v)) => query.bind(v),
            Binding::Structured(Structured::Object(v)) => query.bind(v),
        };
    }
    query
}

fn integer(i: i64) -> JsonInput {
    JsonInput::Number { integer: Some(i), double: Some(Double::from_bits((i as f64).to_bits())) }
}

fn text(s: &str) -> JsonInput {
    JsonInput::String(s.to_string())
}

async fn execute(
    instances: &DbInstances<Pool>,
    db: &str,
    sql: &str,
    values: Vec<JsonInput>,
) -> Result<(u64, LastInsertId), Error> {
    let (pool, bindings) = instances.prepare(db, &values)?;
    let backend = pool.backend();
    match pool {
        DbPool::Sqlite(pool) => {
            let done = bind_all(sql, bindings).execute(pool).await.map_err(driver)?;
            let id = LastInsertId::last_insert_id(backend, done.last_insert_rowid(), 0);
            Ok((done.rows_affected(), id))
        }
        _ => unreachable!(),
    }
}

fn raw_column(row: &SqliteRow, i: usize) -> Result<RawColumn, Error> {
    let raw = row.try_get_raw(i).map_err(driver)?;
    let column_type = raw.type_info().name().to_string();
    let data = match fetch(&column_type, raw.is_null()) {
        Fetch::Null => RawData::Null,
        Fetch::Unread => RawData::Unread,
        Fetch::As(ReadAs::Integer) => RawData::Integer(row.try_get(i).map_err(driver)?),
        Fetch::As(ReadAs::Float) => {
            let x: f64 = row.try_get(i).map_err(driver)?;
            RawData::Float(Double::from_bits(x.to_bits()))
        }
        Fetch::As(ReadAs::Bool) => RawData::Bool(row.try_get(i).map_err(driver)?),
        Fetch::As(ReadAs::Text) => RawData::Text(row.try_get(i).map_err(driver)?),
    };
    Ok(RawColumn { name: row.columns()[i].name().to_string(), value: RawValue { column_type, data } })
}

async fn select(
    instances: &DbInstances<Pool>,
    db: &str,
    sql: &str,
    values: Vec<JsonInput>,
) -> Result<Vec<IndexMap<String, DynValue>>, Error> {
    let (pool, bindings) = instances.prepare(db, &values)?;
    let rows = match pool {
        DbPool::Sqlite(pool) => bind_all(sql, bindings).fetch_all(pool).await.map_err(driver)?,
        _ => unreachable!(),
    };
    let mut raw = Vec::new();
    for row in &rows {
        let mut columns = Vec::new();
        for i in 0..row.columns().len() {
            columns.push(raw_column(row, i)?);
        }
        raw.push(columns);
    }
    sql_plugin::decode_rows(&raw)
}

fn create_t() -> Vec<Migration> {
    vec![Migration {
        version: 1,
        description: "create t",
        sql: "CREATE TABLE t(id INTEGER, name TEXT)",
        kind: MigrationKind::Up,
    }]
}

fn one(rows: Vec<IndexMap<String, DynValue>>) -> Vec<(String, DynValue)> {
    assert_eq!(rows.len(), 1);
    rows[0].iter().map(|(k, v)| (k.clone(), v.clone())).collect()
}

#[test]
fn load_execute_select() {
    run(async {
        let db = "sqlite:test.db";
        let mut pending = Builder::default().add_migrations(db, create_t()).into_migrations();
        let mut instances = DbInstances::new();
        assert_eq!(load(&mut instances, &mut pending, db).await.unwrap(), Some(vec![1]));

        let done =
            execute(&instances, db, "INSERT INTO t VALUES (1, 'a')", Vec::new()).await.unwrap();
        assert_eq!(done, (1, LastInsertId::Sqlite(1)));

        let rows = select(&instances, db, "SELECT * FROM t", Vec::new()).await.unwrap();
        assert_eq!(
            one(rows),
            vec![
                ("id".to_string(), DynValue::Integer(1)),
                ("name".to_string(), DynValue::String("a".to_string())),
            ]
        );
    });
}

#[test]
fn migrations_reach_the_engine_in_ascending_order() {
    run(async {
        let db = "sqlite:ordered.db";
        let list = vec![
            Migration {
                version: 3,
                description: "fill",
                sql: "INSERT INTO t(id, name) VALUES (1, 'a')",
                kind: MigrationKind::Up,
            },
            Migration {
                version: 1,
                description: "create",
                sql: "CREATE TABLE t(id INTEGER)",
                kind: MigrationKind::Up,
            },
            Migration {
                version: 2,
                description: "widen",
                sql: "ALTER TABLE t ADD COLUMN name TEXT",
                kind: MigrationKind::Up,
            },
            Migration {
                version: 4,
                description: "undo",
                sql: "DROP TABLE t",
                kind: MigrationKind::Down,
            },
        ];
        let mut pending = Builder::new().add_migrations(db, list).into_migrations();
        let mut instances = DbInstances::new();
        assert_eq!(load(&mut instances, &mut pending, db).await.unwrap(), Some(vec![1, 2, 3]));

        let rows = select(
            &instances,
            db,
            "SELECT version FROM _sqlx_migrations ORDER BY installed_on, version",
            Vec::new(),
        )
        .await
        .unwrap();
        let applied: Vec<DynValue> = rows.iter().map(|r| r["version"].clone()).collect();
        assert_eq!(applied, vec![DynValue::Integer(1), DynValue::Integer(2), DynValue::Integer(3)]);
        let rows = select(&instances, db, "SELECT id, name FROM t", Vec::new()).await.unwrap();
        assert_eq!(rows.len(), 1);
    });
}

#[test]
fn second_load_applies_nothing() {
    run(async {
        let db = "sqlite:twice.db";
        let mut pending = Builder::new().add_migrations(db, create_t()).into_migrations();
        let mut instances = DbInstances::new();
        assert_eq!(load(&mut instances, &mut pending, db).await.unwrap(), Some(vec![1]));
        assert_eq!(load(&mut instances, &mut pending, db).await.unwrap(), None);
    });
}

#[test]
fn null_text_and_number_come_back_as_they_went() {
    run(async {
        let db = "sqlite:round.db";
        let mut pending = Builder::new().add_migrations(db, create_t()).into_migrations();
        let mut instances = DbInstances::new();
        load(&mut instances, &mut pending, db).await.unwrap();

        let done = execute(
            &instances,
            db,
            "INSERT INTO t VALUES (?, ?)",
            vec![integer(42), text("hello")],
        )
        .await
        .unwrap();
        assert_eq!(done, (1, LastInsertId::Sqlite(1)));
        let done = execute(
            &instances,
            db,
            "INSERT INTO t VALUES (?, ?)",
            vec![integer(7), JsonInput::Null],
        )
        .await
        .unwrap();
        assert_eq!(done, (1, LastInsertId::Sqlite(2)));

        let rows = select(
            &instances,
            db,
            "SELECT id, name FROM t WHERE id = ?",
            vec![integer(42)],
        )
        .await
        .unwrap();
        assert_eq!(
            one(rows),
            vec![
                ("id".to_string(), DynValue::Integer(42)),
                ("name".to_string(), DynValue::String("hello".to_string())),
            ]
        );
        let rows = select(&instances, db, "SELECT name FROM t WHERE id = 7", Vec::new())
            .await
            .unwrap();
        assert_eq!(one(rows), vec![("name".to_string(), DynValue::Null)]);
    });
}

#[test]
fn integer_above_the_safe_range_does_not_come_back() {
    run(async {
        let db = "sqlite:large.db";
        let mut pending = Builder::new().add_migrations(db, create_t()).into_migrations();
        let mut instances = DbInstances::new();
        load(&mut instances, &mut pending, db).await.unwrap();

        let sent: i64 = (1 << 53) + 1;
        assert!(!Numeric::Integer(sent).is_exact());
        execute(&instances, db, "INSERT INTO t VALUES (?, 'big')", vec![integer(sent)])
            .await
            .unwrap();
        let rows = select(&instances, db, "SELECT id FROM t", Vec::new()).await.unwrap();
        assert_eq!(one(rows), vec![("id".to_string(), DynValue::Integer(1 << 53))]);
    });
}

#[test]
fn column_of_an_unknown_type_fails_the_select() {
    run(async {
        let db = "sqlite:blob.db";
        let mut pending = Migrations::new();
        let mut instances = DbInstances::new();
        load(&mut instances, &mut pending, db).await.unwrap();
        match select(&instances, db, "SELECT 1 AS id, x'00ff' AS payload", Vec::new()).await {
            Err(Error::UnsupportedDatatype(name)) => assert_eq!(name, "BLOB"),
            other => panic!("unexpected: {:?}", other),
        }
        let rows = select(&instances, db, "SELECT NULL AS payload", Vec::new()).await.unwrap();
        assert_eq!(one(rows), vec![("payload".to_string(), DynValue::Null)]);
    });
}

#[test]
fn operations_after_close_find_no_pool() {
    run(async {
        let mut pending = Migrations::new();
        let mut instances = DbInstances::new();
        load(&mut instances, &mut pending, "sqlite:a.db").await.unwrap();
        load(&mut instances, &mut pending, "sqlite:b.db").await.unwrap();
        for pool in instances.close(None).unwrap() {
            match pool {
                DbPool::Sqlite(pool) => pool.close().await,
                _ => unreachable!(),
            }
        }
        for db in ["sqlite:a.db", "sqlite:b.db"] {
            match execute(&instances, db, "SELECT 1", Vec::new()).await {
                Err(Error::DatabaseNotLoaded(name)) => assert_eq!(name, db),
                other => panic!("unexpected: {:?}", other),
            }
            match select(&instances, db, "SELECT 1", Vec::new()).await {
                Err(Error::DatabaseNotLoaded(name)) => assert_eq!(name, db),
                other => panic!("unexpected: {:?}", other),
            }
            assert!(matches!(instances.close(Some(db)), Err(Error::DatabaseNotLoaded(_))));
        }
    });
}

#[test]
fn driver_error_is_handed_on() {
    run(async {
        let db = "sqlite:err.db";
        let mut pending = Migrations::new();
        let mut instances = DbInstances::new();
        load(&mut instances, &mut pending, db).await.unwrap();
        match execute(&instances, db, "INSERT INTO missing VALUES (1)", Vec::new()).await {
            Err(Error::Sql(text)) => assert!(text.contains("missing"), "{}", text),
            other => panic!("unexpected: {:?}", other),
        }
    });
}

#[test]
fn migration_that_was_changed_is_refused_by_the_engine() {
    run(async {
        let pool =
            SqlitePoolOptions::new().max_connections(1).connect("sqlite::memory:").await.unwrap();
        migrator(&create_t()).run(&pool).await.unwrap();
        migrator(&create_t()).run(&pool).await.unwrap();
        let changed = vec![Migration {
            version: 1,
            description: "create t",
            sql: "CREATE TABLE t(id INTEGER)",
            kind: MigrationKind::Up,
        }];
        assert!(migrator(&changed).run(&pool).await.is_err());
    });
}

#[test]
fn arrays_objects_and_booleans_are_bound_as_json() {
    run(async {
        let db = "sqlite:json.db";
        let mut pending = Builder::new().add_migrations(db, create_t()).into_migrations();
        let mut instances = DbInstances::new();
        load(&mut instances, &mut pending, db).await.unwrap();

        let array: serde_json::Value = serde_json::from_str("[1,\"a\",null]").unwrap();
        let object: serde_json::Value = serde_json::from_str("{\"k\":[true]}").unwrap();
        let values = [
            (1, JsonInput::Array(array)),
            (2, JsonInput::Object(object)),
            (3, JsonInput::Bool(true)),
        ];
        for (id, value) in values {
            let done =
                execute(&instances, db, "INSERT INTO t VALUES (?, ?)", vec![integer(id), value])
                    .await
                    .unwrap();
            assert_eq!(done.0, 1);
        }
        let rows = select(&instances, db, "SELECT name FROM t ORDER BY id", Vec::new())
            .await
            .unwrap();
        let stored: Vec<DynValue> = rows.iter().map(|r| r["name"].clone()).collect();
        assert_eq!(
            stored,
            vec![
                DynValue::String("[1,\"a\",null]".to_string()),
                DynValue::String("{\"k\":[true]}".to_string()),
                DynValue::String("true".to_string()),
            ]
        );
    });
}
