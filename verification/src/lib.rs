use vstd::prelude::*;

pub mod decimal;
pub mod expression_keys;
pub mod text;
pub mod schema;
pub mod keyset;
pub mod sort_keys;
pub mod query_plan;
pub mod start_key;
pub mod scan_plan;
pub mod page;

verus! {

} // verus!
