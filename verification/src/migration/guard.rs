//! Checks made before a migration writes into its target table.

use vstd::prelude::*;

use crate::json::JsonValue;
use crate::migration::layout::{diff_kind, fviews, value_fields, value_hash, FieldLayout, LayoutDiffKind};
use crate::migration::plan::MigrationPlan;
use crate::migration::types::{MigrationKind, TargetConflictPolicy};
use crate::text::str_eq;
use crate::units::{ClError, Result};

verus! {

/// Whether a migration may write into its target table, which holds
/// `existing_keys` keys: an in-place evolution always may; otherwise an empty
/// table may be written, and an occupied one unless the policy is `Fail`.
pub fn assert_target_available(plan: &MigrationPlan, existing_keys: usize, policy: TargetConflictPolicy) -> (r: Result<()>)
    ensures
        r is Ok <==> (plan.kind == MigrationKind::InPlaceEvolve || existing_keys == 0
            || policy != TargetConflictPolicy::Fail),
        r matches Err(e) ==> e matches ClError::TargetTableOccupied { db, table, existing_keys: k }
            && db@ == plan.to.db@ && table@ == plan.to.table@ && k == existing_keys,
{
    if plan.kind == MigrationKind::InPlaceEvolve {
        return Ok(());
    }
    if existing_keys == 0 {
        return Ok(());
    }
    match policy {
        TargetConflictPolicy::Fail => Err(ClError::TargetTableOccupied {
            db: plan.to.db.clone(),
            table: plan.to.table.clone(),
            existing_keys,
        }),
        TargetConflictPolicy::Skip
        | TargetConflictPolicy::Overwrite
        | TargetConflictPolicy::OverwriteIfCompatible => Ok(()),
    }
}

/// Whether a stored record may be overwritten under `OverwriteIfCompatible`:
/// the record already there has the target layout's hash, and the incoming
/// record's layout is identical to the target's or only lacks fields of it.
pub fn check_compatible_overwrite(existing: &JsonValue, incoming: &JsonValue, target_layout: &FieldLayout) -> (r: bool)
    ensures
        r == (value_hash(*existing) == target_layout.layout_hash@ && ({
            let k = diff_kind(value_fields(*incoming), value_hash(*incoming),
                fviews(target_layout.fields@), target_layout.layout_hash@);
            k == LayoutDiffKind::Identical || k == LayoutDiffKind::AutoSafe
        })),
{
    let existing_layout = FieldLayout::from_json_value(existing);
    if !str_eq(existing_layout.layout_hash.as_str(), target_layout.layout_hash.as_str()) {
        return false;
    }
    let incoming_layout = FieldLayout::from_json_value(incoming);
    let d = incoming_layout.diff(target_layout);
    d.kind == LayoutDiffKind::Identical || d.kind == LayoutDiffKind::AutoSafe
}

} // verus!
