//! Which kind of migration a source and an optional target describe.
//!
//! | Kind | When | `delete_source` |
//! |------|------|-----------------|
//! | InPlaceEvolve | no target, or same `db` + `table` | ignored |
//! | DataTransfer | different `db` and/or `table` | honoured |
//! | ExternalImport | an external redb source | ignored |

use vstd::prelude::*;

use crate::migration::types::{ExternalFrom, MigrationFrom, MigrationKind, MigrationTo};
use crate::units::{ClError, Result};

verus! {

#[derive(Debug, Clone)]
pub enum MigrationSource {
    Clove(MigrationFrom),
    External(ExternalFrom),
}

#[derive(Debug, Clone)]
pub struct ResolvedEndpoint {
    pub db: String,
    pub table: String,
}

#[derive(Debug, Clone)]
pub struct MigrationPlan {
    pub kind: MigrationKind,
    pub from: ResolvedEndpoint,
    pub to: ResolvedEndpoint,
    pub effective_delete_source: bool,
    pub external: Option<ExternalFrom>,
}

/// The endpoints, as text, that a plan resolves to.
pub open spec fn endpoint_is(e: ResolvedEndpoint, db: Seq<char>, table: Seq<char>) -> bool {
    e.db@ == db && e.table@ == table
}

/// The target table a clove source writes to: the target's table, else the source's.
pub open spec fn spec_target_table(from: MigrationFrom, to: Option<MigrationTo>) -> Seq<char> {
    match to {
        Some(t) => match t.table {
            Some(tt) => tt@,
            None => from.table@,
        },
        None => from.table@,
    }
}

pub open spec fn spec_target_db(from: MigrationFrom, to: Option<MigrationTo>) -> Seq<char> {
    match to {
        Some(t) => t.db@,
        None => from.db@,
    }
}

/// Whether a clove source and target name the same database and table.
pub open spec fn spec_in_place(from: MigrationFrom, to: Option<MigrationTo>) -> bool {
    from.db@ == spec_target_db(from, to) && from.table@ == spec_target_table(from, to)
}

pub open spec fn spec_requested_delete(to: Option<MigrationTo>) -> bool {
    match to {
        Some(t) => t.delete_source,
        None => false,
    }
}

/// What `resolve_plan` returns for each source and target.
pub open spec fn plan_matches(
    source: MigrationSource,
    to: Option<MigrationTo>,
    r: Result<MigrationPlan>,
) -> bool {
    match source {
        MigrationSource::External(ext) => match to {
            None => r matches Err(ClError::MigrationError(m)) && m@ == "external migration requires .to(...)"@,
            Some(t) => match t.table {
                None => r matches Err(ClError::MigrationError(m)) && m@ == "external migration requires to.table"@,
                Some(tt) => r matches Ok(plan) && {
                    &&& plan.kind == MigrationKind::ExternalImport
                    &&& endpoint_is(plan.from, "external"@, ext.table@)
                    &&& endpoint_is(plan.to, t.db@, tt@)
                    &&& !plan.effective_delete_source
                    &&& plan.external == Some(ext)
                },
            },
        },
        MigrationSource::Clove(from) => r matches Ok(plan) && {
            &&& endpoint_is(plan.from, from.db@, from.table@)
            &&& endpoint_is(plan.to, spec_target_db(from, to), spec_target_table(from, to))
            &&& plan.external.is_none()
            &&& if spec_in_place(from, to) {
                &&& plan.kind == MigrationKind::InPlaceEvolve
                &&& !plan.effective_delete_source
            } else {
                &&& plan.kind == MigrationKind::DataTransfer
                &&& plan.effective_delete_source == spec_requested_delete(to)
            }
        },
    }
}

fn copy_str(s: &String) -> (r: String)
    ensures
        r@ == s@,
{
    s.clone()
}

/// Resolves which kind of migration `source` and `to` describe.
///
/// An external source requires a target with a table. A clove source without a
/// target evolves its own table in place; with a target, the target table
/// defaults to the source table, and the migration is in place exactly when the
/// database and the table are both unchanged, in which case `delete_source` is
/// ignored.
pub fn resolve_plan(source: &MigrationSource, to: Option<&MigrationTo>) -> (r: Result<MigrationPlan>)
    ensures
        plan_matches(*source, match to { Some(t) => Some(*t), None => None }, r),
{
    match source {
        MigrationSource::External(ext) => {
            let t = match to {
                Some(t) => t,
                None => {
                    return Err(ClError::MigrationError("external migration requires .to(...)".to_owned()));
                },
            };
            let target_table = match &t.table {
                Some(tt) => copy_str(tt),
                None => {
                    return Err(ClError::MigrationError("external migration requires to.table".to_owned()));
                },
            };
            Ok(MigrationPlan {
                kind: MigrationKind::ExternalImport,
                from: ResolvedEndpoint { db: "external".to_owned(), table: copy_str(&ext.table) },
                to: ResolvedEndpoint { db: copy_str(&t.db), table: target_table },
                effective_delete_source: false,
                external: Some(ext.duplicate()),
            })
        },
        MigrationSource::Clove(from) => {
            let (to_db, to_table, delete_source) = match to {
                Some(t) => {
                    let table = match &t.table {
                        Some(tt) => copy_str(tt),
                        None => copy_str(&from.table),
                    };
                    (copy_str(&t.db), table, t.delete_source)
                },
                None => (copy_str(&from.db), copy_str(&from.table), false),
            };
            let in_place = from.db == to_db && from.table == to_table;
            if in_place {
                return Ok(MigrationPlan {
                    kind: MigrationKind::InPlaceEvolve,
                    from: ResolvedEndpoint { db: copy_str(&from.db), table: copy_str(&from.table) },
                    to: ResolvedEndpoint { db: to_db, table: to_table },
                    effective_delete_source: false,
                    external: None,
                });
            }
            Ok(MigrationPlan {
                kind: MigrationKind::DataTransfer,
                from: ResolvedEndpoint { db: copy_str(&from.db), table: copy_str(&from.table) },
                to: ResolvedEndpoint { db: to_db, table: to_table },
                effective_delete_source: delete_source,
                external: None,
            })
        },
    }
}

/// A migration without a target always evolves its source in place and never
/// deletes it.
pub proof fn law_no_target_is_in_place(from: MigrationFrom, r: Result<MigrationPlan>)
    requires
        plan_matches(MigrationSource::Clove(from), None, r),
    ensures
        r matches Ok(plan) && plan.kind == MigrationKind::InPlaceEvolve && !plan.effective_delete_source,
{
}

/// Only a data transfer can delete its source: in-place evolves and external
/// imports ignore `delete_source`.
pub proof fn law_delete_source_only_on_transfer(
    source: MigrationSource,
    to: Option<MigrationTo>,
    r: Result<MigrationPlan>,
)
    requires
        plan_matches(source, to, r),
    ensures
        r matches Ok(plan) ==> (plan.effective_delete_source ==> plan.kind == MigrationKind::DataTransfer),
{
}

/// Deleting the source is what the target asked for, and only on a
/// transfer: a clove source moved to another database or table is deleted
/// exactly when the target's `delete_source` is set, and a target that does
/// not ask for it never causes a delete.
pub proof fn law_transfer_deletes_source_only_on_request(from: MigrationFrom, t: MigrationTo, r: Result<MigrationPlan>)
    requires
        plan_matches(MigrationSource::Clove(from), Some(t), r),
    ensures
        r matches Ok(plan) && {
            &&& plan.kind == MigrationKind::DataTransfer ==> plan.effective_delete_source == t.delete_source
            &&& !t.delete_source ==> !plan.effective_delete_source
            &&& plan.kind == MigrationKind::DataTransfer || plan.kind == MigrationKind::InPlaceEvolve
            &&& plan.kind == MigrationKind::DataTransfer <==> !(plan.from.db@ == plan.to.db@ && plan.from.table@ == plan.to.table@)
        },
{
}

/// A clove source's target is the given database and table, the table
/// defaulting to the source's; the migration is in place exactly when both
/// are the source's, and without a target it is always in place.
pub proof fn law_target_defaults_to_the_source(from: MigrationFrom, to: Option<MigrationTo>, r: Result<MigrationPlan>)
    requires
        plan_matches(MigrationSource::Clove(from), to, r),
    ensures
        r matches Ok(plan) && {
            &&& plan.from.db@ == from.db@ && plan.from.table@ == from.table@
            &&& plan.to.db@ == (match to { Some(t) => t.db@, None => from.db@ })
            &&& plan.to.table@ == (match to {
                Some(t) => match t.table { Some(tt) => tt@, None => from.table@ },
                None => from.table@,
            })
            &&& (plan.kind == MigrationKind::InPlaceEvolve <==> (plan.to.db@ == from.db@ && plan.to.table@ == from.table@))
            &&& plan.external is None
        },
{
}

} // verus!
