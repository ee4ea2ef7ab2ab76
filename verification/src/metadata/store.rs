//! Reading the `_clove_meta` record: the caller reads and decodes the row;
//! a record of another framework is refused.

use vstd::prelude::*;

use crate::metadata::types::{CloveMeta, FRAMEWORK_ID};
use crate::text::str_eq;
use crate::units::{ClError, Result};

verus! {

/// A decoded meta record is accepted only when it names this framework.
pub fn accept_meta(meta: CloveMeta) -> (r: Result<CloveMeta>)
    ensures
        meta.framework@ == FRAMEWORK_ID@ ==> r == Ok::<CloveMeta, ClError>(meta),
        meta.framework@ != FRAMEWORK_ID@ ==> (r matches Err(ClError::NotCloveDatabase { path }) && path@ == "primary"@),
{
    if !str_eq(meta.framework.as_str(), FRAMEWORK_ID) {
        return Err(ClError::NotCloveDatabase { path: "primary".to_owned() });
    }
    Ok(meta)
}

} // verus!
