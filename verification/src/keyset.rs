//! Keyset pagination and ordering for `Query`: the `WHERE` fragment that resumes after an
//! `ExclusiveStartKey`, and the `ORDER BY` clause that it must agree with.
use vstd::prelude::*;
use crate::decimal::{nat_decimal, push_u64_decimal};
use crate::schema::{
    ScalarAttributeType,
    base_pk_expr, base_pk_expr_string, base_sort_key_expr, base_sort_key_expr_string, sort_key_expr,
    sort_key_expr_string, SortKey,
};
use crate::text::{
    join_strings, lemma_prefix_prepend, lemma_seq_join_starts_with_first, seq_join, texts,
};

verus! {

/// One column of a keyset comparison: the expression compared with `>` (or `<`), the
/// expression compared with `=` when a later column breaks a tie, and the direction.
pub struct PageTerm {
    pub expr: Seq<char>,
    pub eq_expr: Seq<char>,
    pub greater: bool,
}

/// One column of an `ORDER BY` clause.
pub struct OrderTerm {
    pub expr: Seq<char>,
    pub ascending: bool,
}

/// The comparison operator that moves past a key in the given direction.
pub open spec fn comparison_op(greater: bool) -> Seq<char> {
    if greater {
        ">"@
    } else {
        "<"@
    }
}

/// The sort direction keyword.
pub open spec fn dir_word(ascending: bool) -> Seq<char> {
    if ascending {
        "ASC"@
    } else {
        "DESC"@
    }
}

/// The columns that a resumed `Query` compares, most significant first.
///
/// The sort key moves in the direction of `forward`. An index breaks ties by the base
/// table's key: a local index in the same direction, a global index always ascending; a
/// hash-only index pages by the base table's key, ascending.
pub open spec fn pagination_terms(
    sk: Option<SortKey>,
    base: Option<SortKey>,
    is_index: bool,
    is_lsi: bool,
    forward: bool,
) -> Seq<PageTerm> {
    match sk {
        Some(k) => {
            let first = PageTerm {
                expr: sort_key_expr(k),
                eq_expr: sort_key_expr(k),
                greater: forward,
            };
            match base {
                Some(b) => seq![
                    first,
                    PageTerm {
                        expr: base_sort_key_expr(b),
                        eq_expr: base_sort_key_expr(b),
                        greater: if is_lsi { forward } else { true },
                    },
                ],
                None => if is_index {
                    seq![
                        first,
                        PageTerm { expr: base_pk_expr(), eq_expr: base_pk_expr(), greater: true },
                    ]
                } else {
                    seq![first]
                },
            }
        },
        None => if is_index {
            match base {
                Some(b) => seq![
                    PageTerm { expr: base_pk_expr(), eq_expr: "base_pk"@, greater: true },
                    PageTerm {
                        expr: base_sort_key_expr(b),
                        eq_expr: base_sort_key_expr(b),
                        greater: true,
                    },
                ],
                None => seq![PageTerm { expr: base_pk_expr(), eq_expr: base_pk_expr(), greater: true }],
            }
        } else {
            Seq::empty()
        },
    }
}

/// The `WHERE` fragment for a keyset comparison over `terms`, with placeholders numbered
/// from `p`: one column compares directly; two columns compare the first, or tie on it and
/// compare the second.
pub open spec fn render_pagination(terms: Seq<PageTerm>, p: nat) -> Seq<char> {
    if terms.len() == 0 {
        Seq::empty()
    } else if terms.len() == 1 {
        " AND "@ + terms[0].expr + " "@ + comparison_op(terms[0].greater) + " $"@ + nat_decimal(p)
    } else {
        " AND ("@ + terms[0].expr + " "@ + comparison_op(terms[0].greater) + " $"@ + nat_decimal(p)
            + " OR ("@ + terms[0].eq_expr + " = $"@ + nat_decimal(p) + " AND "@ + terms[1].expr
            + " "@ + comparison_op(terms[1].greater) + " $"@ + nat_decimal(p + 1) + "))"@
    }
}

/// The number of placeholders that the pagination fragment uses.
pub open spec fn pagination_param_count(
    sk: Option<SortKey>,
    base: Option<SortKey>,
    is_index: bool,
) -> nat {
    pagination_terms(sk, base, is_index, false, true).len()
}

/// The `ORDER BY` columns of a `Query`, most significant first.
pub open spec fn query_order_terms(
    sk: Option<SortKey>,
    base: Option<SortKey>,
    is_index: bool,
    is_lsi: bool,
    forward: bool,
) -> Seq<OrderTerm> {
    match sk {
        Some(k) => {
            let first = OrderTerm { expr: sort_key_expr(k), ascending: forward };
            match base {
                Some(b) => seq![
                    first,
                    OrderTerm {
                        expr: base_sort_key_expr(b),
                        ascending: if is_lsi { forward } else { true },
                    },
                ],
                None => if is_index {
                    seq![first, OrderTerm { expr: base_pk_expr(), ascending: true }]
                } else {
                    seq![first]
                },
            }
        },
        None => if is_index {
            match base {
                Some(b) => seq![
                    OrderTerm { expr: base_pk_expr(), ascending: forward },
                    OrderTerm { expr: base_sort_key_expr(b), ascending: forward },
                ],
                None => seq![OrderTerm { expr: base_pk_expr(), ascending: forward }],
            }
        } else {
            Seq::empty()
        },
    }
}

/// One column of an `ORDER BY` clause as text.
pub open spec fn render_order_term(t: OrderTerm) -> Seq<char> {
    t.expr + " "@ + dir_word(t.ascending)
}

/// The `ORDER BY` clause for `terms`; nothing when there are none.
pub open spec fn order_by_clause(terms: Seq<OrderTerm>) -> Seq<char> {
    if terms.len() == 0 {
        Seq::empty()
    } else {
        " ORDER BY "@ + seq_join(terms.map_values(|t: OrderTerm| render_order_term(t)), ", "@)
    }
}

/// The pagination fragment names placeholders `$p` and, where it has a second column,
/// `$(p + 1)`: this is when the second one is used.
pub open spec fn uses_second_param(sk: Option<SortKey>, base: Option<SortKey>, is_index: bool) -> bool {
    pagination_param_count(sk, base, is_index) == 2
}

fn comparison_str(greater: bool) -> (s: &'static str)
    ensures
        s@ == comparison_op(greater),
{
    if greater {
        ">"
    } else {
        "<"
    }
}

fn render_one(expr: &String, greater: bool, p: u32) -> (s: String)
    ensures
        s@ == " AND "@ + expr@ + " "@ + comparison_op(greater) + " $"@ + nat_decimal(p as nat),
{
    let mut s = String::from_str(" AND ");
    s.append(expr.as_str());
    s.append(" ");
    s.append(comparison_str(greater));
    s.append(" $");
    push_u64_decimal(&mut s, p as u64);
    s
}

fn render_two(e0: &String, eq0: &String, g0: bool, e1: &String, g1: bool, p: u32) -> (s: String)
    requires
        p < u32::MAX,
    ensures
        s@ == " AND ("@ + e0@ + " "@ + comparison_op(g0) + " $"@ + nat_decimal(p as nat) + " OR ("@
            + eq0@ + " = $"@ + nat_decimal(p as nat) + " AND "@ + e1@ + " "@ + comparison_op(g1) + " $"@
            + nat_decimal((p + 1) as nat) + "))"@,
{
    let mut s = String::from_str(" AND (");
    s.append(e0.as_str());
    s.append(" ");
    s.append(comparison_str(g0));
    s.append(" $");
    push_u64_decimal(&mut s, p as u64);
    s.append(" OR (");
    s.append(eq0.as_str());
    s.append(" = $");
    push_u64_decimal(&mut s, p as u64);
    s.append(" AND ");
    s.append(e1.as_str());
    s.append(" ");
    s.append(comparison_str(g1));
    s.append(" $");
    push_u64_decimal(&mut s, (p + 1) as u64);
    s.append("))");
    s
}

/// Builds the `WHERE` fragment that resumes a `Query` after its `ExclusiveStartKey`.
///
/// `param_idx` is the next free placeholder number; the fragment uses it and, where the
/// key has a tie-breaking column, the one after it.
pub fn build_pagination_where(
    param_idx: u32,
    sk: &Option<SortKey>,
    base: &Option<SortKey>,
    is_index: bool,
    is_lsi: bool,
    forward: bool,
) -> (res: String)
    requires
        uses_second_param(*sk, *base, is_index) ==> param_idx < u32::MAX,
    ensures
        res@ == render_pagination(
            pagination_terms(*sk, *base, is_index, is_lsi, forward),
            param_idx as nat,
        ),
        sk matches Some(k) ==> ({
            let lead = pagination_lead(*k, base is None && !is_index, forward, param_idx as nat);
            lead.len() <= res@.len() && res@.subrange(0, lead.len() as int) == lead
        }),
{
    proof {
        if let Some(k) = sk {
            lemma_sort_key_leads_in_request_direction(*k, *base, is_index, is_lsi, forward, param_idx as nat);
        }
    }
    match sk {
        Some(k) => {
            let sk_expr = sort_key_expr_string(k);
            match base {
                Some(b) => {
                    let base_expr = base_sort_key_expr_string(b);
                    let base_greater = if is_lsi {
                        forward
                    } else {
                        true
                    };
                    render_two(&sk_expr, &sk_expr, forward, &base_expr, base_greater, param_idx)
                },
                None => {
                    if is_index {
                        let pk_expr = base_pk_expr_string();
                        render_two(&sk_expr, &sk_expr, forward, &pk_expr, true, param_idx)
                    } else {
                        render_one(&sk_expr, forward, param_idx)
                    }
                },
            }
        },
        None => {
            if is_index {
                let pk_expr = base_pk_expr_string();
                match base {
                    Some(b) => {
                        let base_expr = base_sort_key_expr_string(b);
                        let pk_eq = String::from_str("base_pk");
                        render_two(&pk_expr, &pk_eq, true, &base_expr, true, param_idx)
                    },
                    None => render_one(&pk_expr, true, param_idx),
                }
            } else {
                String::new()
            }
        },
    }
}

fn order_term_string(expr: String, ascending: bool) -> (s: String)
    ensures
        s@ == render_order_term(OrderTerm { expr: expr@, ascending }),
{
    let mut s = expr;
    s.append(" ");
    s.append(if ascending { "ASC" } else { "DESC" });
    s
}

/// Builds the `ORDER BY` clause of a `Query`: the sort key in the requested direction, then
/// the base table's key as a tie-breaker on an index; a hash-only index orders by the base
/// table's key; a base table without a sort key needs no order.
pub fn build_query_order_by(
    sk: &Option<SortKey>,
    base: &Option<SortKey>,
    is_index: bool,
    is_lsi: bool,
    forward: bool,
) -> (res: String)
    ensures
        res@ == order_by_clause(query_order_terms(*sk, *base, is_index, is_lsi, forward)),
        sk matches Some(k) ==> ({
            let lead = order_lead(*k, forward);
            lead.len() <= res@.len() && res@.subrange(0, lead.len() as int) == lead
        }),
{
    proof {
        if let Some(k) = sk {
            lemma_sort_key_leads_in_request_direction(*k, *base, is_index, is_lsi, forward, 0);
        }
    }
    let ghost terms = query_order_terms(*sk, *base, is_index, is_lsi, forward);
    let mut parts: Vec<String> = Vec::new();
    match sk {
        Some(k) => {
            parts.push(order_term_string(sort_key_expr_string(k), forward));
            match base {
                Some(b) => {
                    let asc = if is_lsi {
                        forward
                    } else {
                        true
                    };
                    parts.push(order_term_string(base_sort_key_expr_string(b), asc));
                },
                None => {
                    if is_index {
                        parts.push(order_term_string(base_pk_expr_string(), true));
                    }
                },
            }
        },
        None => {
            if is_index {
                parts.push(order_term_string(base_pk_expr_string(), forward));
                match base {
                    Some(b) => {
                        parts.push(order_term_string(base_sort_key_expr_string(b), forward));
                    },
                    None => {},
                }
            }
        },
    }
    let ghost rendered = terms.map_values(|t: OrderTerm| render_order_term(t));
    assert(texts(parts@) =~= rendered);
    if parts.len() == 0 {
        return String::new();
    }
    let mut res = String::from_str(" ORDER BY ");
    let joined = join_strings(&parts, ", ");
    res.append(joined.as_str());
    res
}

/// Keyset pagination agrees with the order of the rows: the pagination fragment compares
/// the same columns as the `ORDER BY` clause, in the same order, and moves past the start
/// key in the direction in which each column is sorted. A hash-only index read backwards
/// is left out: it is sorted descending while its pagination compares with `>`.
pub proof fn lemma_pagination_follows_order(
    sk: Option<SortKey>,
    base: Option<SortKey>,
    is_index: bool,
    is_lsi: bool,
    forward: bool,
)
    requires
        !(sk is None && is_index && !forward),
    ensures
        ({
            let page = pagination_terms(sk, base, is_index, is_lsi, forward);
            let order = query_order_terms(sk, base, is_index, is_lsi, forward);
            &&& page.len() == order.len()
            &&& forall|i: int|
                0 <= i < page.len() ==> #[trigger] page[i].expr == order[i].expr
                    && page[i].greater == order[i].ascending
        }),
{
}

/// The text of a sort key's column with its collation, spelled out.
pub open spec fn sort_key_text(k: SortKey) -> Seq<char> {
    k.column@ + (if k.attr_type == ScalarAttributeType::S {
        " COLLATE \"C\""@
    } else {
        ""@
    })
}

/// The start of a `Query`'s `ORDER BY` clause where the key has a sort key.
pub open spec fn order_lead(k: SortKey, forward: bool) -> Seq<char> {
    " ORDER BY "@ + sort_key_text(k) + " "@ + (if forward {
        "ASC"@
    } else {
        "DESC"@
    })
}

/// The start of a `Query`'s pagination fragment where the key has a sort key.
pub open spec fn pagination_lead(k: SortKey, single: bool, forward: bool, p: nat) -> Seq<char> {
    (if single {
        " AND "@
    } else {
        " AND ("@
    }) + sort_key_text(k) + " "@ + (if forward {
        ">"@
    } else {
        "<"@
    }) + " $"@ + nat_decimal(p)
}

/// Where the key has a sort key, a `Query` orders first by that sort key, ascending exactly
/// when it reads forward, whatever the tie-breakers; and it resumes after a start key by
/// comparing that sort key first, with `>` reading forward and `<` reading backward,
/// against the first free placeholder.
pub proof fn lemma_sort_key_leads_in_request_direction(
    k: SortKey,
    base: Option<SortKey>,
    is_index: bool,
    is_lsi: bool,
    forward: bool,
    p: nat,
)
    ensures
        ({
            let order = query_order_terms(Some(k), base, is_index, is_lsi, forward);
            let page = pagination_terms(Some(k), base, is_index, is_lsi, forward);
            let clause = order_by_clause(order);
            let fragment = render_pagination(page, p);
            let lead = order_lead(k, forward);
            let plead = pagination_lead(k, base is None && !is_index, forward, p);
            &&& order.len() >= 1
            &&& order[0].expr == sort_key_text(k)
            &&& order[0].ascending == forward
            &&& page.len() >= 1
            &&& page[0].expr == sort_key_text(k)
            &&& page[0].greater == forward
            &&& lead.len() <= clause.len()
            &&& clause.subrange(0, lead.len() as int) == lead
            &&& plead.len() <= fragment.len()
            &&& fragment.subrange(0, plead.len() as int) == plead
        }),
{
    let order = query_order_terms(Some(k), base, is_index, is_lsi, forward);
    let page = pagination_terms(Some(k), base, is_index, is_lsi, forward);
    let rendered = order.map_values(|t: OrderTerm| render_order_term(t));
    assert(sort_key_expr(k) == sort_key_text(k));
    assert(rendered[0] == sort_key_text(k) + " "@ + dir_word(forward));
    lemma_seq_join_starts_with_first(rendered, ", "@);
    lemma_prefix_prepend(" ORDER BY "@, seq_join(rendered, ", "@), rendered[0]);
    assert(" ORDER BY "@ + rendered[0] =~= order_lead(k, forward));
    let fragment = render_pagination(page, p);
    let plead = pagination_lead(k, base is None && !is_index, forward, p);
    assert(fragment.subrange(0, plead.len() as int) =~= plead);
}

/// The tie-breakers of an index `Query`: after the sort key comes the base table's sort
/// key (`base_` column) where it has one, else the base partition key; a local index
/// orders the tie-breaker in the request's direction, a global index always ascending, and
/// pagination compares it the same way. A hash-only index orders by the base partition key
/// in the request's direction.
pub proof fn lemma_index_tie_breakers(
    k: Option<SortKey>,
    base: Option<SortKey>,
    is_lsi: bool,
    forward: bool,
)
    ensures
        ({
            let order = query_order_terms(k, base, true, is_lsi, forward);
            let page = pagination_terms(k, base, true, is_lsi, forward);
            let base_text: Seq<char> = match base {
                Some(b) => "base_"@ + b.column@ + (if b.attr_type == ScalarAttributeType::S {
                    " COLLATE \"C\""@
                } else {
                    ""@
                }),
                None => "base_pk COLLATE \"C\""@,
            };
            &&& k is Some ==> {
                &&& order.len() == 2
                &&& page.len() == 2
                &&& order[1].expr == base_text
                &&& page[1].expr == base_text
                &&& order[1].ascending == (if base is Some && is_lsi {
                    forward
                } else {
                    true
                })
                &&& page[1].greater == order[1].ascending
            }
            &&& k is None ==> {
                &&& order.len() >= 1
                &&& order[0].expr == "base_pk COLLATE \"C\""@
                &&& order[0].ascending == forward
                &&& page[0].expr == "base_pk COLLATE \"C\""@
                &&& page[0].greater
            }
        }),
{
}

/// A two-column pagination fragment ties on the first column at the same placeholder and
/// compares the second against the next one: it ends with `$<p + 1>))`.
pub proof fn lemma_second_column_uses_next_placeholder(
    sk: Option<SortKey>,
    base: Option<SortKey>,
    is_index: bool,
    is_lsi: bool,
    forward: bool,
    p: nat,
)
    requires
        pagination_terms(sk, base, is_index, is_lsi, forward).len() == 2,
    ensures
        ({
            let fragment = render_pagination(pagination_terms(sk, base, is_index, is_lsi, forward), p);
            let tail = " $"@ + nat_decimal(p + 1) + "))"@;
            &&& tail.len() <= fragment.len()
            &&& fragment.subrange(fragment.len() - tail.len(), fragment.len() as int) == tail
        }),
{
    let fragment = render_pagination(pagination_terms(sk, base, is_index, is_lsi, forward), p);
    let tail = " $"@ + nat_decimal(p + 1) + "))"@;
    assert(fragment.subrange(fragment.len() - tail.len(), fragment.len() as int) =~= tail);
}

} // verus!
