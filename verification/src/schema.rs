//! The key layout of a table or index, as the SQL planner sees it.
use vstd::prelude::*;

verus! {

/// The scalar type of a key attribute: string, number or binary.
#[derive(Clone, Copy, PartialEq, Eq, Structural, Debug)]
pub enum ScalarAttributeType {
    S,
    N,
    B,
}

/// A sort key: the attribute's name, its scalar type, and the storage column that holds it.
#[derive(Debug)]
pub struct SortKey {
    pub name: String,
    pub attr_type: ScalarAttributeType,
    pub column: String,
}

/// The shape of the key of the table or index that a request reads.
///
/// `base_sort_key` is the sort key of the base table, which an index row carries in its
/// `base_` columns; `is_lsi` tells a local secondary index from a global one.
#[derive(Debug)]
pub struct KeyLayout {
    pub sort_key: Option<SortKey>,
    pub base_sort_key: Option<SortKey>,
    pub is_index: bool,
    pub is_lsi: bool,
}

/// String sort keys compare in byte order, which the `"C"` collation gives.
pub open spec fn collation(t: ScalarAttributeType) -> Seq<char> {
    if t == ScalarAttributeType::S {
        " COLLATE \"C\""@
    } else {
        ""@
    }
}

/// The SQL expression that orders by the sort key `k`.
pub open spec fn sort_key_expr(k: SortKey) -> Seq<char> {
    k.column@ + collation(k.attr_type)
}

/// The SQL expression that orders by the base-table sort key `k` of an index row.
pub open spec fn base_sort_key_expr(k: SortKey) -> Seq<char> {
    "base_"@ + k.column@ + collation(k.attr_type)
}

/// The SQL expression that orders by the base-table partition key of an index row.
pub open spec fn base_pk_expr() -> Seq<char> {
    "base_pk COLLATE \"C\""@
}

/// The collation suffix for a column of type `t`.
pub fn collation_str(t: ScalarAttributeType) -> (s: &'static str)
    ensures
        s@ == collation(t),
{
    if t == ScalarAttributeType::S {
        " COLLATE \"C\""
    } else {
        ""
    }
}

/// The ordering expression of the sort key `k`.
pub fn sort_key_expr_string(k: &SortKey) -> (s: String)
    ensures
        s@ == sort_key_expr(*k),
{
    let mut s = String::from_str(k.column.as_str());
    s.append(collation_str(k.attr_type));
    s
}

/// The ordering expression of the base-table sort key `k` in an index row.
pub fn base_sort_key_expr_string(k: &SortKey) -> (s: String)
    ensures
        s@ == base_sort_key_expr(*k),
{
    let mut s = String::from_str("base_");
    s.append(k.column.as_str());
    s.append(collation_str(k.attr_type));
    s
}

/// The ordering expression of the base-table partition key in an index row.
pub fn base_pk_expr_string() -> (s: String)
    ensures
        s@ == base_pk_expr(),
{
    String::from_str("base_pk COLLATE \"C\"")
}

} // verus!
