//! The tables of the database, and the statements that write them.

use vstd::prelude::*;

verus! {

/// The first version of the schema.
pub const CREATE_TABLES: &'static str = "
    CREATE TABLE schema_migrations (
        version INTEGER PRIMARY KEY,
        applied_at INTEGER NOT NULL
    );
    CREATE TABLE settings (
        key TEXT PRIMARY KEY NOT NULL,
        kind TEXT NOT NULL CHECK (kind IN ('string', 'bytes')),
        value BLOB NOT NULL
    );
    CREATE TABLE devices (
        device_id TEXT PRIMARY KEY NOT NULL,
        name TEXT NOT NULL,
        public_key BLOB,
        address TEXT NOT NULL,
        first_seen INTEGER NOT NULL,
        last_seen INTEGER NOT NULL
    );
    CREATE TABLE trusted_peers (
        device_id TEXT PRIMARY KEY NOT NULL,
        name TEXT NOT NULL,
        public_key BLOB NOT NULL,
        address TEXT NOT NULL,
        trusted_at INTEGER NOT NULL,
        last_seen INTEGER NOT NULL
    );
    CREATE TABLE jobs (
        id TEXT PRIMARY KEY NOT NULL,
        payload BLOB NOT NULL,
        status TEXT NOT NULL CHECK (status IN (
            'pending', 'scanning', 'transferring', 'verifying', 'paused', 'completed',
            'completed_with_errors', 'failed', 'cancelled', 'interrupted'
        )),
        progress_cbor BLOB NOT NULL,
        bytes_transferred INTEGER NOT NULL,
        total_bytes INTEGER NOT NULL,
        files_completed INTEGER NOT NULL,
        total_files INTEGER NOT NULL,
        error TEXT,
        created_at INTEGER NOT NULL,
        updated_at INTEGER NOT NULL
    );
    CREATE TABLE job_files (
        job_id TEXT NOT NULL,
        path TEXT NOT NULL,
        size INTEGER NOT NULL,
        status TEXT NOT NULL CHECK (status IN (
            'pending', 'running', 'completed', 'failed', 'skipped', 'interrupted'
        )),
        bytes_transferred INTEGER NOT NULL,
        error TEXT,
        updated_at INTEGER NOT NULL,
        PRIMARY KEY (job_id, path),
        FOREIGN KEY (job_id) REFERENCES jobs(id) ON DELETE CASCADE
    );
    CREATE TABLE chunks (
        job_id TEXT NOT NULL,
        path TEXT NOT NULL,
        chunk_index INTEGER NOT NULL,
        source_hash BLOB NOT NULL CHECK (length(source_hash) = 32),
        completed_at INTEGER NOT NULL,
        PRIMARY KEY (job_id, path, chunk_index),
        FOREIGN KEY (job_id, path) REFERENCES job_files(job_id, path) ON DELETE CASCADE
    );
    CREATE TABLE hash_cache (
        path TEXT NOT NULL,
        size INTEGER NOT NULL,
        mtime_ns INTEGER NOT NULL,
        chunk_size INTEGER NOT NULL,
        full_hash BLOB NOT NULL CHECK (length(full_hash) = 32),
        chunks_cbor BLOB NOT NULL,
        updated_at INTEGER NOT NULL,
        PRIMARY KEY (path, size, mtime_ns, chunk_size)
    );
";

/// The second version of the schema.
pub const CREATE_INDEXES: &'static str = "
    CREATE INDEX devices_last_seen_idx ON devices(last_seen DESC);
    CREATE INDEX trusted_peers_name_idx ON trusted_peers(name COLLATE NOCASE);
    CREATE INDEX jobs_created_at_idx ON jobs(created_at DESC);
    CREATE INDEX jobs_status_idx ON jobs(status);
    CREATE INDEX job_files_status_idx ON job_files(job_id, status);
    CREATE INDEX chunks_source_idx ON chunks(job_id, path, source_hash);
";

/// The statements that take a database to a version of the schema from the one
/// before it.
pub fn migration(version: i64) -> (statements: Option<&'static str>)
    ensures
        statements == if version == 1 {
            Some(CREATE_TABLES)
        } else if version == 2 {
            Some(CREATE_INDEXES)
        } else {
            None
        },
{
    match version {
        1 => Some(CREATE_TABLES),
        2 => Some(CREATE_INDEXES),
        _ => None,
    }
}

/// The columns of a job.
pub const JOB_COLUMNS: &'static str = "
    id, payload, status, progress_cbor, bytes_transferred, total_bytes, files_completed,
        total_files, error, created_at, updated_at";

/// The columns of a file of a job.
pub const FILE_COLUMNS: &'static str = "
    job_id, path, size, status, bytes_transferred, error, updated_at";

/// The columns of a device.
pub const DEVICE_COLUMNS: &'static str = "
    device_id, name, public_key, address, first_seen, last_seen";

/// The columns of a trusted peer.
pub const PEER_COLUMNS: &'static str = "
    device_id, name, public_key, address, trusted_at, last_seen";

/// Puts a job in the place of the one with its id.
pub const UPSERT_JOB: &'static str = "
    INSERT INTO jobs (id, payload, status, progress_cbor, bytes_transferred, total_bytes,
        files_completed, total_files, error, created_at, updated_at)
    VALUES (?1, ?2, ?3, ?4, ?5, ?6, ?7, ?8, ?9, ?10, ?11)
    ON CONFLICT(id) DO UPDATE SET
        payload = excluded.payload, status = excluded.status,
        progress_cbor = excluded.progress_cbor, bytes_transferred = excluded.bytes_transferred,
        total_bytes = excluded.total_bytes, files_completed = excluded.files_completed,
        total_files = excluded.total_files, error = excluded.error,
        created_at = excluded.created_at, updated_at = excluded.updated_at";

/// Puts a file of a job in the place of the one with its path.
pub const UPSERT_JOB_FILE: &'static str = "
    INSERT INTO job_files (job_id, path, size, status, bytes_transferred, error, updated_at)
    VALUES (?1, ?2, ?3, ?4, ?5, ?6, ?7)
    ON CONFLICT(job_id, path) DO UPDATE SET
        size = excluded.size, status = excluded.status,
        bytes_transferred = excluded.bytes_transferred, error = excluded.error,
        updated_at = excluded.updated_at";

/// Puts a chunk in the place of the one with its index.
pub const UPSERT_CHUNK: &'static str = "
    INSERT INTO chunks (job_id, path, chunk_index, source_hash, completed_at)
    VALUES (?1, ?2, ?3, ?4, ?5)
    ON CONFLICT(job_id, path, chunk_index) DO UPDATE SET
        source_hash = excluded.source_hash, completed_at = excluded.completed_at";

/// Puts a setting in the place of the one with its key.
pub const UPSERT_SETTING: &'static str = "
    INSERT INTO settings (key, kind, value)
    VALUES (?1, ?2, ?3)
    ON CONFLICT(key) DO UPDATE SET
        kind = excluded.kind, value = excluded.value";

/// Puts a device in the place of the one with its id.
pub const UPSERT_DEVICE: &'static str = "
    INSERT INTO devices (device_id, name, public_key, address, first_seen, last_seen)
    VALUES (?1, ?2, ?3, ?4, ?5, ?6)
    ON CONFLICT(device_id) DO UPDATE SET
        name = excluded.name, public_key = excluded.public_key, address = excluded.address,
        first_seen = excluded.first_seen, last_seen = excluded.last_seen";

/// Puts a trusted peer in the place of the one with its id.
pub const UPSERT_TRUSTED_PEER: &'static str = "
    INSERT INTO trusted_peers (device_id, name, public_key, address, trusted_at, last_seen)
    VALUES (?1, ?2, ?3, ?4, ?5, ?6)
    ON CONFLICT(device_id) DO UPDATE SET
        name = excluded.name, public_key = excluded.public_key, address = excluded.address,
        trusted_at = excluded.trusted_at, last_seen = excluded.last_seen";

/// Adds the hashes of a file.
pub const INSERT_HASH_CACHE: &'static str = "
    INSERT INTO hash_cache (path, size, mtime_ns, chunk_size, full_hash, chunks_cbor,
        updated_at)
    VALUES (?1, ?2, ?3, ?4, ?5, ?6, ?7)";

/// Finds the hashes of a path.
pub const SELECT_HASH_CACHE: &'static str = "
    SELECT path, size, mtime_ns, chunk_size, full_hash, chunks_cbor, updated_at
    FROM hash_cache
    WHERE path = ?1";

/// Finds the chunks of a file with a content, in order.
pub const SELECT_CHUNKS: &'static str = "
    SELECT job_id, path, chunk_index, source_hash, completed_at
    FROM chunks WHERE job_id = ?1 AND path = ?2 AND source_hash = ?3 ORDER BY chunk_index";

/// Drops a chunk of a file with a content.
pub const DELETE_CHUNK: &'static str = "
    DELETE FROM chunks WHERE job_id = ?1 AND path = ?2
    AND chunk_index = ?3 AND source_hash = ?4";

} // verus!
