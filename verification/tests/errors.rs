use sql_plugin::Error;

#[test]
fn not_loaded_message() {
    let e = Error::DatabaseNotLoaded("sqlite:test.db".to_string());
    assert_eq!(e.message(), "database sqlite:test.db not loaded");
}

#[test]
fn unsupported_datatype_message() {
    let e = Error::UnsupportedDatatype("GEOMETRY".to_string());
    assert_eq!(e.message(), "unsupported datatype: GEOMETRY");
}

#[test]
fn invalid_url_message() {
    let e = Error::InvalidDbUrl("test.db".to_string());
    assert_eq!(e.message(), "invalid connection url: test.db");
}

#[test]
fn driver_and_migration_messages_are_handed_on() {
    assert_eq!(Error::Sql("no such table: t".to_string()).message(), "no such table: t");
    assert_eq!(
        Error::Migration("migration 3 was previously applied but has been modified".to_string())
            .message(),
        "migration 3 was previously applied but has been modified"
    );
}

#[test]
fn message_of_an_empty_name() {
    assert_eq!(Error::DatabaseNotLoaded(String::new()).message(), "database  not loaded");
}
