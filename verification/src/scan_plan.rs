//! Planning a `Scan`: optional parallel-scan segment, keyset pagination over the whole key,
//! and a deterministic order.
use vstd::prelude::*;
use crate::decimal::{int_decimal, nat_decimal, push_i64_decimal, push_u64_decimal};
use crate::query_plan::{limit_clause, push_limit_clause};
use crate::schema::{
    ScalarAttributeType,
    base_pk_expr, base_pk_expr_string, base_sort_key_expr, base_sort_key_expr_string, sort_key_expr,
    sort_key_expr_string, KeyLayout,
};
use crate::start_key::contains_name;
use crate::text::{
    join_strings, lemma_prefix_prepend, lemma_seq_join_starts_with_first, seq_join, texts,
};

verus! {

/// An error that the storage layer reports to the caller.
#[derive(Debug)]
pub enum StorageError {
    /// The request does not fit the table; the text says why.
    Validation(String),
}

/// The message for a start key that lacks the partition key.
pub open spec fn invalid_start_key_message() -> Seq<char> {
    "The provided starting key is invalid: The provided key element does not match the schema"@
}

/// The columns that a `Scan` orders by and pages over, most significant first: the
/// partition key, the sort key, and on an index the base table's key.
pub open spec fn scan_key_columns(layout: KeyLayout) -> Seq<Seq<char>> {
    if layout.is_index {
        match layout.sort_key {
            Some(k) => match layout.base_sort_key {
                Some(b) => seq!["pk"@, sort_key_expr(k), base_pk_expr(), base_sort_key_expr(b)],
                None => seq!["pk"@, sort_key_expr(k), base_pk_expr()],
            },
            None => seq!["pk"@, base_pk_expr()],
        }
    } else {
        match layout.sort_key {
            Some(k) => seq!["pk"@, sort_key_expr(k)],
            None => seq!["pk"@],
        }
    }
}

/// The placeholder with number `p`.
pub open spec fn placeholder(p: nat) -> Seq<char> {
    "$"@ + nat_decimal(p)
}

/// The placeholders `$1` to `$n`.
pub open spec fn placeholders(n: nat) -> Seq<Seq<char>> {
    Seq::new(n, |i: int| placeholder((i + 1) as nat))
}

/// The keyset condition: the row's key comes after the start key, compared as a row value.
pub open spec fn scan_keyset_condition(cols: Seq<Seq<char>>) -> Seq<char> {
    if cols.len() == 1 {
        cols[0] + " > "@ + placeholder(1)
    } else {
        "("@ + seq_join(cols, ", "@) + ") > ("@ + seq_join(placeholders(cols.len()), ", "@) + ")"@
    }
}

/// The parallel-scan condition: the row's partition key hashes into segment `seg` of
/// `total`.
pub open spec fn segment_condition(seg: i64, total: i64) -> Seq<char> {
    "(hashtext(pk)::bigint & 2147483647) % "@ + int_decimal(total as int) + " = "@ + int_decimal(
        seg as int,
    )
}

/// The `WHERE` conditions of a `Scan`, in order.
pub open spec fn scan_conditions(
    layout: KeyLayout,
    segment: Option<i64>,
    total_segments: Option<i64>,
    has_start_key: bool,
) -> Seq<Seq<char>> {
    let seg: Seq<Seq<char>> = match (segment, total_segments) {
        (Some(s), Some(t)) => seq![segment_condition(s, t)],
        _ => Seq::empty(),
    };
    if has_start_key {
        seg.push(scan_keyset_condition(scan_key_columns(layout)))
    } else {
        seg
    }
}

/// The full SQL text of a `Scan`.
pub open spec fn scan_sql(
    table: Seq<char>,
    layout: KeyLayout,
    segment: Option<i64>,
    total_segments: Option<i64>,
    has_start_key: bool,
    limit: Option<i64>,
) -> Seq<char> {
    let conds = scan_conditions(layout, segment, total_segments, has_start_key);
    "SELECT item_data FROM "@ + table + (if conds.len() == 0 {
        Seq::empty()
    } else {
        " WHERE "@ + seq_join(conds, " AND "@)
    }) + " ORDER BY "@ + seq_join(scan_key_columns(layout), ", "@) + limit_clause(limit)
}

/// The key columns of a `Scan`.
pub fn scan_key_column_strings(layout: &KeyLayout) -> (res: Vec<String>)
    ensures
        texts(res@) == scan_key_columns(*layout),
{
    let mut cols: Vec<String> = Vec::new();
    cols.push(String::from_str("pk"));
    match &layout.sort_key {
        Some(k) => {
            cols.push(sort_key_expr_string(k));
            if layout.is_index {
                cols.push(base_pk_expr_string());
                match &layout.base_sort_key {
                    Some(b) => cols.push(base_sort_key_expr_string(b)),
                    None => {},
                }
            }
        },
        None => {
            if layout.is_index {
                cols.push(base_pk_expr_string());
            }
        },
    }
    assert(texts(cols@) =~= scan_key_columns(*layout));
    cols
}

/// Builds the keyset condition over `cols`.
pub fn keyset_condition_string(cols: &Vec<String>) -> (res: String)
    requires
        1 <= cols.len() < u32::MAX,
    ensures
        res@ == scan_keyset_condition(texts(cols@)),
{
    if cols.len() == 1 {
        let mut s = String::from_str(cols[0].as_str());
        s.append(" > ");
        let mut p = String::from_str("$");
        push_u64_decimal(&mut p, 1);
        s.append(p.as_str());
        assert(texts(cols@)[0] == cols@[0]@);
        return s;
    }
    let mut params: Vec<String> = Vec::new();
    let mut i: usize = 0;
    while i < cols.len()
        invariant
            i <= cols.len() < u32::MAX,
            params.len() == i,
            forall|j: int| 0 <= j < i ==> #[trigger] params@[j]@ == placeholder((j + 1) as nat),
        decreases cols.len() - i,
    {
        let mut p = String::from_str("$");
        push_u64_decimal(&mut p, (i + 1) as u64);
        params.push(p);
        i = i + 1;
    }
    assert(texts(params@) =~= placeholders(texts(cols@).len()));
    let mut s = String::from_str("(");
    s.append(join_strings(cols, ", ").as_str());
    s.append(") > (");
    s.append(join_strings(&params, ", ").as_str());
    s.append(")");
    s
}

/// Plans a `Scan` of `table`.
///
/// `segment` and `total_segments` select one segment of a parallel scan (both must be
/// given); `start_key` holds the attribute names of the `ExclusiveStartKey`, which must
/// include the partition-key attribute `pk_name`. Returns the SQL text, or a validation
/// error for a start key without the partition key.
pub fn plan_scan(
    table: &str,
    layout: &KeyLayout,
    segment: Option<i64>,
    total_segments: Option<i64>,
    start_key: &Option<Vec<String>>,
    pk_name: &Option<String>,
    limit: Option<i64>,
) -> (res: Result<String, StorageError>)
    requires
        start_key is Some ==> pk_name is Some,
        limit != Some(i64::MAX),
    ensures
        res is Err <==> (start_key matches Some(attrs) && !texts(attrs@).contains(pk_name.unwrap()@)),
        match res {
            Ok(sql) => sql@ == scan_sql(
                table@,
                *layout,
                segment,
                total_segments,
                start_key is Some,
                limit,
            ),
            Err(StorageError::Validation(msg)) => msg@ == invalid_start_key_message(),
        },
        match (res, segment, total_segments) {
            (Ok(sql), Some(s), Some(t)) => {
                let head = "SELECT item_data FROM "@ + table@ + " WHERE "@ + segment_text(s, t);
                head.len() <= sql@.len() && sql@.subrange(0, head.len() as int) == head
            },
            _ => true,
        },
{
    proof {
        lemma_segment_restricts_scan(table@, *layout, segment, total_segments, start_key is Some, limit);
    }
    let cols = scan_key_column_strings(layout);
    let mut conditions: Vec<String> = Vec::new();
    match (segment, total_segments) {
        (Some(seg), Some(total)) => {
            let mut c = String::from_str("(hashtext(pk)::bigint & 2147483647) % ");
            push_i64_decimal(&mut c, total);
            c.append(" = ");
            push_i64_decimal(&mut c, seg);
            conditions.push(c);
        },
        _ => {},
    }
    match start_key {
        Some(attrs) => {
            let pk = match pk_name {
                Some(p) => p,
                None => {
                    return Err(
                        StorageError::Validation(
                            String::from_str(
                                "The provided starting key is invalid: The provided key element does not match the schema",
                            ),
                        ),
                    );
                },
            };
            if !contains_name(attrs, pk) {
                return Err(
                    StorageError::Validation(
                        String::from_str(
                            "The provided starting key is invalid: The provided key element does not match the schema",
                        ),
                    ),
                );
            }
            conditions.push(keyset_condition_string(&cols));
        },
        None => {},
    }
    assert(texts(conditions@) =~= scan_conditions(*layout, segment, total_segments, start_key is Some));
    let mut sql = String::from_str("SELECT item_data FROM ");
    sql.append(table);
    if conditions.len() > 0 {
        sql.append(" WHERE ");
        sql.append(join_strings(&conditions, " AND ").as_str());
    }
    sql.append(" ORDER BY ");
    sql.append(join_strings(&cols, ", ").as_str());
    push_limit_clause(&mut sql, limit);
    Ok(sql)
}

/// A resumed `Scan` pages over exactly the columns that it orders by: its last condition
/// compares the row of those columns with one placeholder per column, `$1` to `$n` in
/// column order, and with one column it compares that column with `$1`.
pub proof fn lemma_scan_keyset_follows_order(
    layout: KeyLayout,
    segment: Option<i64>,
    total_segments: Option<i64>,
)
    ensures
        ({
            let conds = scan_conditions(layout, segment, total_segments, true);
            let cols = scan_key_columns(layout);
            &&& conds.len() >= 1
            &&& conds.last() == scan_keyset_condition(cols)
            &&& 1 <= cols.len() <= 4
            &&& cols[0] == "pk"@
            &&& placeholders(cols.len()).len() == cols.len()
            &&& forall|i: int| 0 <= i < cols.len() ==> #[trigger] placeholders(cols.len())[i]
                == placeholder((i + 1) as nat)
        }),
{
}

/// The parallel-scan condition, spelled out.
pub open spec fn segment_text(seg: i64, total: i64) -> Seq<char> {
    "(hashtext(pk)::bigint & 2147483647) % "@ + int_decimal(total as int) + " = "@ + int_decimal(seg as int)
}

/// A `Scan` given both a segment and a segment count restricts itself to that segment, for
/// every segment number, zero included: its first condition is the hash test, so its text
/// starts with `WHERE` and that test. Without both, there is no hash test: the conditions
/// are the keyset condition alone, or none.
pub proof fn lemma_segment_restricts_scan(
    table: Seq<char>,
    layout: KeyLayout,
    segment: Option<i64>,
    total_segments: Option<i64>,
    has_start_key: bool,
    limit: Option<i64>,
)
    ensures
        ({
            let conds = scan_conditions(layout, segment, total_segments, has_start_key);
            let sql = scan_sql(table, layout, segment, total_segments, has_start_key, limit);
            match (segment, total_segments) {
                (Some(s), Some(t)) => {
                    let head = "SELECT item_data FROM "@ + table + " WHERE "@ + segment_text(s, t);
                    &&& conds.len() >= 1
                    &&& conds[0] == segment_text(s, t)
                    &&& head.len() <= sql.len()
                    &&& sql.subrange(0, head.len() as int) == head
                },
                _ => conds.len() == (if has_start_key {
                    1int
                } else {
                    0int
                }),
            }
        }),
{
    let conds = scan_conditions(layout, segment, total_segments, has_start_key);
    let sql = scan_sql(table, layout, segment, total_segments, has_start_key, limit);
    if let (Some(s), Some(t)) = (segment, total_segments) {
        assert(conds[0] == segment_text(s, t));
        lemma_seq_join_starts_with_first(conds, " AND "@);
        let pre = "SELECT item_data FROM "@ + table + " WHERE "@;
        lemma_prefix_prepend(pre, seq_join(conds, " AND "@), conds[0]);
        let head = pre + conds[0];
        assert(sql.subrange(0, head.len() as int) =~= (pre + seq_join(conds, " AND "@)).subrange(
            0,
            head.len() as int,
        ));
    }
}

/// A key column with its collation, spelled out.
pub open spec fn collated(column: Seq<char>, t: ScalarAttributeType) -> Seq<char> {
    column + (if t == ScalarAttributeType::S {
        " COLLATE \"C\""@
    } else {
        ""@
    })
}

/// A `Scan` orders and pages by the partition key first, then the sort key where there is
/// one; an index adds the base partition key after them (even without a sort key), and
/// then the base sort key where the index has a sort key and the base table one too.
pub proof fn lemma_scan_columns(layout: KeyLayout)
    ensures
        ({
            let cols = scan_key_columns(layout);
            let sk_n: int = if layout.sort_key is Some {
                1
            } else {
                0
            };
            &&& cols[0] == "pk"@
            &&& layout.sort_key matches Some(k) ==> cols[1] == collated(k.column@, k.attr_type)
            &&& !layout.is_index ==> cols.len() == 1 + sk_n
            &&& layout.is_index ==> cols[1 + sk_n] == "base_pk COLLATE \"C\""@
            &&& layout.is_index ==> cols.len() == 2 + sk_n + (if layout.sort_key is Some
                && layout.base_sort_key is Some {
                1int
            } else {
                0int
            })
            &&& (layout.is_index && layout.sort_key is Some) ==> (layout.base_sort_key matches Some(b)
                ==> cols[3] == "base_"@ + collated(b.column@, b.attr_type))
        }),
{
    let cols = scan_key_columns(layout);
    match layout.base_sort_key {
        Some(b) => {
            assert("base_"@ + collated(b.column@, b.attr_type) =~= base_sort_key_expr(b));
        },
        None => {},
    }
}

} // verus!
