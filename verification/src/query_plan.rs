//! Planning a `Query`: the SQL text, the extra sort-key columns to bind, and which
//! attributes of the `ExclusiveStartKey` fill the pagination placeholders.
use vstd::prelude::*;
use crate::decimal::{decimal_value, int_decimal, lemma_int_decimal_denotes, push_i64_decimal};
use crate::keyset::{
    build_pagination_where, build_query_order_by, order_by_clause, pagination_terms,
    query_order_terms, render_pagination, uses_second_param,
};
use crate::page::page_limit;
use crate::schema::{KeyLayout, ScalarAttributeType, SortKey};
use crate::sort_keys::{
    condition_heads, extra_columns, extra_positions, extra_sql, name_pairs,
    resolve_extra_sort_keys,
};

verus! {

/// Rows are fetched without a limit up to this many (one more than is returned, to learn
/// whether more remain).
pub const DEFAULT_FETCH_LIMIT: i64 = 1_000_001;

/// How many rows to fetch: one more than the limit, so that a further page can be detected.
pub open spec fn fetch_limit(limit: Option<i64>) -> int {
    match limit {
        Some(l) => l + 1,
        None => DEFAULT_FETCH_LIMIT as int,
    }
}

/// The `LIMIT` clause.
pub open spec fn limit_clause(limit: Option<i64>) -> Seq<char> {
    " LIMIT "@ + int_decimal(fetch_limit(limit))
}

/// The text of an optional fragment; nothing when absent.
pub open spec fn opt_text(s: Option<String>) -> Seq<char> {
    match s {
        Some(t) => t@,
        None => Seq::empty(),
    }
}

/// The full SQL text of a `Query` that is executed.
pub open spec fn query_sql(
    table: Seq<char>,
    layout: KeyLayout,
    sk_condition: Option<String>,
    next_param: nat,
    positions: Seq<nat>,
    keys: Seq<SortKey>,
    forward: bool,
    has_start_key: bool,
    limit: Option<i64>,
) -> Seq<char> {
    "SELECT item_data FROM "@ + table + " WHERE pk = $1"@ + opt_text(sk_condition) + extra_sql(
        positions,
        keys,
        next_param,
    ) + (if has_start_key {
        render_pagination(
            pagination_terms(
                layout.sort_key,
                layout.base_sort_key,
                layout.is_index,
                layout.is_lsi,
                forward,
            ),
            next_param + positions.len(),
        )
    } else {
        Seq::empty()
    }) + order_by_clause(
        query_order_terms(
            layout.sort_key,
            layout.base_sort_key,
            layout.is_index,
            layout.is_lsi,
            forward,
        ),
    ) + limit_clause(limit)
}

/// A base table with no sort key has one item per partition key: after a start key there
/// is nothing more to read.
pub open spec fn nothing_after_start(layout: KeyLayout, has_start_key: bool) -> bool {
    has_start_key && layout.sort_key is None && !layout.is_index
}

/// What a `Query` does.
pub enum QueryPlan {
    /// Answer with no items and no further start key.
    NoMoreItems,
    /// Run `sql`, binding the extra sort-key conditions to `extra_sort_key_columns`.
    Execute { sql: String, extra_sort_key_columns: Vec<(usize, ScalarAttributeType)> },
}

/// Appends the `LIMIT` clause.
pub fn push_limit_clause(out: &mut String, limit: Option<i64>)
    requires
        limit != Some(i64::MAX),
    ensures
        final(out)@ == old(out)@ + limit_clause(limit),
{
    let fetch: i64 = match limit {
        Some(l) => l + 1,
        None => DEFAULT_FETCH_LIMIT,
    };
    let mut clause = String::from_str(" LIMIT ");
    push_i64_decimal(&mut clause, fetch);
    out.append(clause.as_str());
}

/// Plans a `Query`.
///
/// `table` is the table (or index table) to read; `sk_condition` the SQL of the sort-key
/// condition, whose placeholders end before `next_param` (the partition key is `$1`);
/// `heads`, `names` and `keys` describe the extra RANGE-key conditions (see
/// `resolve_extra_sort_keys`); `has_start_key` tells whether the request resumes after an
/// `ExclusiveStartKey`.
pub fn plan_query(
    table: &str,
    layout: &KeyLayout,
    sk_condition: &Option<String>,
    next_param: u32,
    heads: &Vec<Option<String>>,
    names: &Vec<(String, String)>,
    keys: &Vec<SortKey>,
    forward: bool,
    has_start_key: bool,
    limit: Option<i64>,
) -> (res: QueryPlan)
    requires
        next_param + extra_positions(condition_heads(heads@), name_pairs(names@), keys@).len()
            <= u32::MAX,
        has_start_key && uses_second_param(layout.sort_key, layout.base_sort_key, layout.is_index)
            ==> next_param + extra_positions(condition_heads(heads@), name_pairs(names@), keys@).len()
            < u32::MAX,
        limit != Some(i64::MAX),
    ensures
        res is NoMoreItems <==> nothing_after_start(*layout, has_start_key),
        res is NoMoreItems <==> (has_start_key && layout.sort_key is None && !layout.is_index),
        layout.is_index ==> res is Execute,
        !has_start_key ==> res is Execute,
        res matches QueryPlan::Execute { sql, .. } ==> ({
            let head = query_head(table@, *sk_condition);
            head.len() <= sql@.len() && sql@.subrange(0, head.len() as int) == head
        }),
        match res {
            QueryPlan::NoMoreItems => true,
            QueryPlan::Execute { sql, extra_sort_key_columns } => {
                let positions = extra_positions(condition_heads(heads@), name_pairs(names@), keys@);
                &&& sql@ == query_sql(
                    table@,
                    *layout,
                    *sk_condition,
                    next_param as nat,
                    positions,
                    keys@,
                    forward,
                    has_start_key,
                    limit,
                )
                &&& extra_sort_key_columns@ == extra_columns(positions, keys@)
            },
        },
{
    let mut sql = String::from_str("SELECT item_data FROM ");
    sql.append(table);
    sql.append(" WHERE pk = $1");
    match sk_condition {
        Some(fragment) => sql.append(fragment.as_str()),
        None => {},
    }
    let extra = resolve_extra_sort_keys(heads, names, keys, next_param);
    sql.append(extra.sql.as_str());
    if has_start_key && layout.sort_key.is_none() && !layout.is_index {
        return QueryPlan::NoMoreItems;
    }
    if has_start_key {
        let pagination = build_pagination_where(
            extra.next_param,
            &layout.sort_key,
            &layout.base_sort_key,
            layout.is_index,
            layout.is_lsi,
            forward,
        );
        sql.append(pagination.as_str());
    }
    let order = build_query_order_by(
        &layout.sort_key,
        &layout.base_sort_key,
        layout.is_index,
        layout.is_lsi,
        forward,
    );
    sql.append(order.as_str());
    push_limit_clause(&mut sql, limit);
    proof {
        lemma_query_applies_key_condition(
            table@,
            *layout,
            *sk_condition,
            next_param as nat,
            extra_positions(condition_heads(heads@), name_pairs(names@), keys@),
            keys@,
            forward,
            has_start_key,
            limit,
        );
    }
    QueryPlan::Execute { sql, extra_sort_key_columns: extra.columns }
}

/// A query fetches one row more than a page holds, so that a left-over row reveals a
/// further page. A negative limit is left out: it fetches `limit + 1` rows, fewer than one
/// more than the empty page it allows.
pub proof fn lemma_fetch_one_more(limit: Option<i64>)
    requires
        limit matches Some(l) ==> l >= 0,
    ensures
        fetch_limit(limit) == page_limit(limit) + 1,
{
}

/// The start of every executed `Query`: the table, the partition-key equality on `$1`, and
/// then at once the sort-key condition, where there is one.
pub open spec fn query_head(table: Seq<char>, sk_condition: Option<String>) -> Seq<char> {
    "SELECT item_data FROM "@ + table + " WHERE pk = $1"@ + match sk_condition {
        Some(t) => t@,
        None => Seq::<char>::empty(),
    }
}

/// Every `Query` text starts with the table, the partition key on `$1` and then the
/// sort-key condition, whether it reads the first page or resumes, in either direction and
/// with any limit.
pub proof fn lemma_query_applies_key_condition(
    table: Seq<char>,
    layout: KeyLayout,
    sk_condition: Option<String>,
    next_param: nat,
    positions: Seq<nat>,
    keys: Seq<SortKey>,
    forward: bool,
    has_start_key: bool,
    limit: Option<i64>,
)
    ensures
        ({
            let sql = query_sql(
                table,
                layout,
                sk_condition,
                next_param,
                positions,
                keys,
                forward,
                has_start_key,
                limit,
            );
            let head = query_head(table, sk_condition);
            head.len() <= sql.len() && sql.subrange(0, head.len() as int) == head
        }),
{
    let sql = query_sql(
        table,
        layout,
        sk_condition,
        next_param,
        positions,
        keys,
        forward,
        has_start_key,
        limit,
    );
    let head = query_head(table, sk_condition);
    assert(sql.subrange(0, head.len() as int) =~= head);
}

/// A `Query` answers "no more items" without reading only on a base table whose key has no
/// sort key, resuming after a start key: such a table holds one item per partition key. A
/// first page, a table with a sort key, and every index are read; an index resumes with a
/// pagination fragment.
pub proof fn lemma_only_pk_only_tables_stop(layout: KeyLayout, has_start_key: bool, forward: bool, p: nat)
    ensures
        nothing_after_start(layout, has_start_key) <==> (has_start_key && layout.sort_key is None
            && !layout.is_index),
        layout.is_index ==> !nothing_after_start(layout, has_start_key),
        !has_start_key ==> !nothing_after_start(layout, has_start_key),
        (layout.is_index || layout.sort_key is Some) ==> pagination_terms(
            layout.sort_key,
            layout.base_sort_key,
            layout.is_index,
            layout.is_lsi,
            forward,
        ).len() >= 1 && render_pagination(
            pagination_terms(
                layout.sort_key,
                layout.base_sort_key,
                layout.is_index,
                layout.is_lsi,
                forward,
            ),
            p,
        ).len() > 0,
{
}

/// The `LIMIT` of a `Query` or `Scan` asks for one row more than the requested limit, or
/// for 1000001 rows without one: the clause is ` LIMIT ` followed by the digits of that
/// number (after a `-` where a negative limit makes it negative).
pub proof fn lemma_limit_asks_one_more(limit: Option<i64>)
    requires
        limit != Some(i64::MAX),
    ensures
        ({
            let c = limit_clause(limit);
            let wanted: int = match limit {
                Some(l) => l + 1,
                None => 1_000_001,
            };
            &&& c.len() > 7
            &&& c.subrange(0, 7) == " LIMIT "@
            &&& wanted >= 0 ==> decimal_value(c.subrange(7, c.len() as int)) == wanted
            &&& wanted < 0 ==> c[7] == '-' && decimal_value(c.subrange(8, c.len() as int)) == -wanted
        }),
{
    let c = limit_clause(limit);
    let d = int_decimal(fetch_limit(limit));
    lemma_int_decimal_denotes(fetch_limit(limit));
    assert(" LIMIT "@.len() == 7) by {
        reveal_strlit(" LIMIT ");
    }
    assert(c.subrange(0, 7) =~= " LIMIT "@);
    assert(c.subrange(7, c.len() as int) =~= d);
    if fetch_limit(limit) < 0 {
        assert(c.subrange(8, c.len() as int) =~= d.drop_first());
    }
}

} // verus!
