//! A registry of css rule groups kept in one live stylesheet. Each group gets
//! a stable rule id; the rule's index in the sheet is its rank among the live
//! ids, computed on demand. Properties are written with a vendor-prefix
//! fallback search.
use vstd::prelude::*;

pub mod rule_ids;
pub mod style;
pub mod vendor;
pub mod sheet;
pub mod connection;

verus! {

} // verus!
