use fastsync::schema::{
    migration, CREATE_INDEXES, CREATE_TABLES, DELETE_CHUNK, DEVICE_COLUMNS, FILE_COLUMNS,
    INSERT_HASH_CACHE, JOB_COLUMNS, PEER_COLUMNS, SELECT_CHUNKS, SELECT_HASH_CACHE, UPSERT_CHUNK,
    UPSERT_DEVICE, UPSERT_JOB, UPSERT_JOB_FILE, UPSERT_SETTING, UPSERT_TRUSTED_PEER,
};
use fastsync::storage::{pending_migrations, SUPPORTED_SCHEMA_VERSION};
use rusqlite::Connection;

fn migrated() -> Connection {
    let connection = Connection::open_in_memory().unwrap();
    for version in pending_migrations(0).unwrap() {
        connection.execute_batch(migration(version).unwrap()).unwrap();
    }
    connection
}

#[test]
fn every_pending_version_has_a_migration() {
    assert_eq!(pending_migrations(0).unwrap(), vec![1, 2]);
    assert_eq!(migration(1), Some(CREATE_TABLES));
    assert_eq!(migration(2), Some(CREATE_INDEXES));
    assert_eq!(migration(SUPPORTED_SCHEMA_VERSION + 1), None);
    assert_eq!(migration(0), None);
}

#[test]
fn migrations_create_the_tables() {
    let connection = migrated();
    for expected in [
        "settings",
        "devices",
        "trusted_peers",
        "jobs",
        "job_files",
        "chunks",
        "hash_cache",
    ] {
        let found: i64 = connection
            .query_row(
                "SELECT count(*) FROM sqlite_master WHERE type = 'table' AND name = ?1",
                [expected],
                |row| row.get(0),
            )
            .unwrap();
        assert_eq!(found, 1, "missing table {expected}");
    }
}

#[test]
fn statements_fit_the_tables() {
    let connection = migrated();
    for statement in [
        UPSERT_JOB,
        UPSERT_JOB_FILE,
        UPSERT_CHUNK,
        UPSERT_SETTING,
        UPSERT_DEVICE,
        UPSERT_TRUSTED_PEER,
        INSERT_HASH_CACHE,
        SELECT_HASH_CACHE,
        SELECT_CHUNKS,
        DELETE_CHUNK,
    ] {
        connection.prepare(statement).unwrap();
    }
    for (columns, table) in [
        (JOB_COLUMNS, "jobs"),
        (FILE_COLUMNS, "job_files"),
        (DEVICE_COLUMNS, "devices"),
        (PEER_COLUMNS, "trusted_peers"),
    ] {
        connection.prepare(&format!("SELECT {columns} FROM {table}")).unwrap();
    }
}

#[test]
fn a_setting_replaces_the_one_with_its_key() {
    let connection = migrated();
    connection.execute(UPSERT_SETTING, ("name", "string", "one")).unwrap();
    connection.execute(UPSERT_SETTING, ("name", "string", "two")).unwrap();
    let stored: (i64, String) = connection
        .query_row("SELECT count(*), max(value) FROM settings", [], |row| {
            Ok((row.get(0)?, row.get(1)?))
        })
        .unwrap();
    assert_eq!(stored, (1, "two".to_owned()));
}
