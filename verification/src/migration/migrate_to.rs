//! The outcome of migrating one source row, and the pieces that migration
//! steps are built from.

use vstd::prelude::*;

use crate::json::JsonValue;
use crate::migration::decoder::{merge_defaults, merged_members};
use crate::units::{ClError, Result};

verus! {

/// Per-record result of a migration step: write the transformed row, or
/// leave this source row out (not an error) with an optional reason.
#[derive(Debug)]
pub enum MigrateOutcome<T> {
    Migrate(T),
    Skip(Option<String>),
}

/// Leaves the current source row out, with a reason recorded in the report.
pub fn skip_record(reason: &str) -> (r: Result<MigrateOutcome<JsonValue>>)
    ensures
        r matches Ok(MigrateOutcome::Skip(Some(m))) && m@ == reason@,
{
    Ok(MigrateOutcome::Skip(Some(reason.to_owned())))
}

/// Leaves the current source row out without a reason.
pub fn skip_record_silent() -> (r: Result<MigrateOutcome<JsonValue>>)
    ensures
        r matches Ok(MigrateOutcome::Skip(None)),
{
    Ok(MigrateOutcome::Skip(None))
}

/// What a step that transforms JSON but has no JSON transform answers.
pub fn migrate_json_unimplemented() -> (r: Result<MigrateOutcome<JsonValue>>)
    ensures
        r matches Err(ClError::MigrationError(m))
            && m@ == "migrate_json not implemented; use migrate_blob for raw/binary sources"@,
{
    Err(ClError::MigrationError("migrate_json not implemented; use migrate_blob for raw/binary sources".to_owned()))
}

/// A JSON transform's outcome as a blob transform's: a migrated row has an
/// empty payload and the JSON as its metadata; a skip stays a skip.
pub fn blob_outcome_of(outcome: MigrateOutcome<JsonValue>) -> (r: MigrateOutcome<(Vec<u8>, Option<JsonValue>)>)
    ensures
        match outcome {
            MigrateOutcome::Migrate(meta) => r matches MigrateOutcome::Migrate((payload, m))
                && payload@.len() == 0 && m == Some(meta),
            MigrateOutcome::Skip(reason) => r matches MigrateOutcome::Skip(x) && x == reason,
        },
{
    match outcome {
        MigrateOutcome::Migrate(meta) => MigrateOutcome::Migrate((Vec::new(), Some(meta))),
        MigrateOutcome::Skip(reason) => MigrateOutcome::Skip(reason),
    }
}

/// An additive migration: the row with every member of the target's default
/// value that it lacks.
pub fn auto_migrate_json(value: JsonValue, template: JsonValue) -> (r: Result<MigrateOutcome<JsonValue>>)
    ensures
        match (value, template) {
            (JsonValue::Object(t), JsonValue::Object(tp)) =>
                r matches Ok(MigrateOutcome::Migrate(JsonValue::Object(n))) && n@ == merged_members(t@, tp@),
            _ => r == Ok::<MigrateOutcome<JsonValue>, ClError>(MigrateOutcome::Migrate(value)),
        },
{
    let mut out = value;
    merge_defaults(&mut out, template);
    Ok(MigrateOutcome::Migrate(out))
}

} // verus!
