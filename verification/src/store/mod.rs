//! The decisions behind the local store: schema migration, slot numbers,
//! contact lookup, admission of inbound connections, and tickets. The
//! database itself is the application's.
pub mod contacts;
pub mod knocks;
pub mod ticket;

use vstd::prelude::*;

verus! {

/// The schema version this build expects.
pub const SCHEMA_VERSION: i32 = 1;

/// What opening a database of schema version `current` must do.
#[derive(Debug, Clone, Copy, PartialEq, Eq, Structural)]
pub enum Migration {
    /// The database is newer than this build understands.
    TooNew(i32),
    /// Run the first schema, then record the current version.
    CreateSchema,
    /// Nothing to run; record the current version.
    UpToDate,
}

/// What opening a database stored at schema version `current` calls for.
pub open spec fn migration_spec(current: i32) -> Migration {
    if current > SCHEMA_VERSION {
        Migration::TooNew(current)
    } else if current < 1 {
        Migration::CreateSchema
    } else {
        Migration::UpToDate
    }
}

/// The schema version a database is left at once a migration is applied.
pub open spec fn version_after(m: Migration, current: i32) -> i32 {
    match m {
        Migration::CreateSchema => SCHEMA_VERSION,
        _ => current,
    }
}

/// What opening a database stored at schema version `current` calls for. A
/// database written by a newer build is refused rather than misread.
pub fn migration_for(current: i32) -> (r: Migration)
    ensures
        r == migration_spec(current),
{
    if current > SCHEMA_VERSION {
        Migration::TooNew(current)
    } else if current < 1 {
        Migration::CreateSchema
    } else {
        Migration::UpToDate
    }
}

/// Migrating is idempotent: once a database this build can read has been
/// migrated, migrating it again does nothing.
pub proof fn lemma_migrate_idempotent(current: i32)
    requires
        current <= SCHEMA_VERSION,
    ensures
        migration_spec(version_after(migration_spec(current), current)) == Migration::UpToDate,
{
}

} // verus!
