use extenddb_query::keyset::{build_pagination_where, build_query_order_by};
use extenddb_query::query_plan::{plan_query, QueryPlan};
use extenddb_query::schema::{KeyLayout, ScalarAttributeType, SortKey};
use extenddb_query::sort_keys::resolve_extra_sort_keys;
use extenddb_query::start_key::{plan_pagination_binds, PaginationBindPlan};

fn key(name: &str, t: ScalarAttributeType, column: &str) -> SortKey {
    SortKey { name: name.to_string(), attr_type: t, column: column.to_string() }
}

fn layout(sk: Option<SortKey>, base: Option<SortKey>, is_index: bool, is_lsi: bool) -> KeyLayout {
    KeyLayout { sort_key: sk, base_sort_key: base, is_index, is_lsi }
}

#[test]
fn pagination_base_table_string_key() {
    let sk = Some(key("s", ScalarAttributeType::S, "sk_s"));
    assert_eq!(build_pagination_where(2, &sk, &None, false, false, true), " AND sk_s COLLATE \"C\" > $2");
}

#[test]
fn pagination_base_table_backward() {
    let sk = Some(key("n", ScalarAttributeType::N, "sk_n"));
    assert_eq!(build_pagination_where(3, &sk, &None, false, false, false), " AND sk_n < $3");
}

#[test]
fn pagination_gsi_with_base_sort_key() {
    let sk = Some(key("n", ScalarAttributeType::N, "sk_n"));
    let base = Some(key("b", ScalarAttributeType::S, "sk_s"));
    assert_eq!(
        build_pagination_where(2, &sk, &base, true, false, false),
        " AND (sk_n < $2 OR (sk_n = $2 AND base_sk_s COLLATE \"C\" > $3))"
    );
}

#[test]
fn pagination_lsi_follows_direction() {
    let sk = Some(key("n", ScalarAttributeType::N, "sk_n"));
    let base = Some(key("b", ScalarAttributeType::S, "sk_s"));
    assert_eq!(
        build_pagination_where(2, &sk, &base, true, true, false),
        " AND (sk_n < $2 OR (sk_n = $2 AND base_sk_s COLLATE \"C\" < $3))"
    );
}

#[test]
fn pagination_index_without_base_sort_key() {
    let sk = Some(key("s", ScalarAttributeType::S, "sk_s"));
    assert_eq!(
        build_pagination_where(2, &sk, &None, true, false, true),
        " AND (sk_s COLLATE \"C\" > $2 OR (sk_s COLLATE \"C\" = $2 AND base_pk COLLATE \"C\" > $3))"
    );
}

#[test]
fn pagination_hash_only_index() {
    let base = Some(key("b", ScalarAttributeType::N, "sk_n"));
    assert_eq!(
        build_pagination_where(2, &None, &base, true, false, true),
        " AND (base_pk COLLATE \"C\" > $2 OR (base_pk = $2 AND base_sk_n > $3))"
    );
    assert_eq!(build_pagination_where(7, &None, &None, true, false, false), " AND base_pk COLLATE \"C\" > $7");
}

#[test]
fn pagination_base_table_without_sort_key_is_empty() {
    assert_eq!(build_pagination_where(2, &None, &None, false, false, true), "");
}

#[test]
fn order_by_variants() {
    let s = Some(key("s", ScalarAttributeType::S, "sk_s"));
    let n = Some(key("n", ScalarAttributeType::N, "sk_n"));
    assert_eq!(build_query_order_by(&s, &n, true, false, false), " ORDER BY sk_s COLLATE \"C\" DESC, base_sk_n ASC");
    assert_eq!(build_query_order_by(&s, &n, true, true, false), " ORDER BY sk_s COLLATE \"C\" DESC, base_sk_n DESC");
    assert_eq!(build_query_order_by(&n, &None, true, false, true), " ORDER BY sk_n ASC, base_pk COLLATE \"C\" ASC");
    assert_eq!(build_query_order_by(&n, &None, false, false, true), " ORDER BY sk_n ASC");
    assert_eq!(
        build_query_order_by(&None, &s, true, false, false),
        " ORDER BY base_pk COLLATE \"C\" DESC, base_sk_s COLLATE \"C\" DESC"
    );
    assert_eq!(build_query_order_by(&None, &None, true, false, true), " ORDER BY base_pk COLLATE \"C\" ASC");
    assert_eq!(build_query_order_by(&None, &None, false, false, true), "");
}

#[test]
fn pagination_and_order_agree_on_concrete_layout() {
    // The keyset comparison goes the way each ORDER BY column is sorted.
    let s = Some(key("s", ScalarAttributeType::S, "sk_s"));
    let n = Some(key("n", ScalarAttributeType::N, "sk_n"));
    let page = build_pagination_where(2, &s, &n, true, true, false);
    let order = build_query_order_by(&s, &n, true, true, false);
    assert!(page.contains("sk_s COLLATE \"C\" < $2") && order.contains("sk_s COLLATE \"C\" DESC"));
    assert!(page.contains("base_sk_n < $3") && order.contains("base_sk_n DESC"));
}

fn keys() -> Vec<SortKey> {
    vec![
        key("r1", ScalarAttributeType::S, "sk_s"),
        key("range2", ScalarAttributeType::N, "sk_n_1"),
        key("r3", ScalarAttributeType::S, "sk_s_2"),
    ]
}

#[test]
fn extra_sort_keys_resolve_names_and_skip_others() {
    let heads = vec![
        Some("#r2".to_string()),
        Some("r3".to_string()),
        None,
        Some("r1".to_string()),
        Some("missing".to_string()),
        Some("#unknown".to_string()),
    ];
    let names = vec![("r2".to_string(), "range2".to_string())];
    let extra = resolve_extra_sort_keys(&heads, &names, &keys(), 3);
    assert_eq!(extra.sql, " AND sk_n_1 = $3 AND sk_s_2 = $4");
    assert_eq!(extra.columns, vec![(1, ScalarAttributeType::N), (2, ScalarAttributeType::S)]);
    assert_eq!(extra.next_param, 5);
}

#[test]
fn full_query_sql() {
    let l = layout(Some(key("r1", ScalarAttributeType::S, "sk_s")), None, false, false);
    let heads = vec![Some("#r2".to_string()), Some("r3".to_string())];
    let names = vec![("r2".to_string(), "range2".to_string())];
    let plan = plan_query(
        "data_t1",
        &l,
        &Some(" AND sk_s COLLATE \"C\" >= $2".to_string()),
        3,
        &heads,
        &names,
        &keys(),
        true,
        true,
        Some(10),
    );
    match plan {
        QueryPlan::Execute { sql, extra_sort_key_columns } => {
            assert_eq!(
                sql,
                "SELECT item_data FROM data_t1 WHERE pk = $1 AND sk_s COLLATE \"C\" >= $2 AND sk_n_1 = $3 \
                 AND sk_s_2 = $4 AND sk_s COLLATE \"C\" > $5 ORDER BY sk_s COLLATE \"C\" ASC LIMIT 11"
            );
            assert_eq!(extra_sort_key_columns, vec![(1, ScalarAttributeType::N), (2, ScalarAttributeType::S)]);
        }
        QueryPlan::NoMoreItems => panic!("expected SQL"),
    }
}

#[test]
fn query_without_start_key_or_limit() {
    let l = layout(None, None, false, false);
    match plan_query("t", &l, &None, 2, &Vec::new(), &Vec::new(), &Vec::new(), true, false, None) {
        QueryPlan::Execute { sql, extra_sort_key_columns } => {
            assert_eq!(sql, "SELECT item_data FROM t WHERE pk = $1 LIMIT 1000001");
            assert!(extra_sort_key_columns.is_empty());
        }
        QueryPlan::NoMoreItems => panic!("expected SQL"),
    }
}

#[test]
fn query_negative_limit_is_rendered() {
    let l = layout(None, None, true, false);
    match plan_query("idx", &l, &None, 2, &Vec::new(), &Vec::new(), &Vec::new(), false, false, Some(-5)) {
        QueryPlan::Execute { sql, .. } => {
            assert_eq!(sql, "SELECT item_data FROM idx WHERE pk = $1 ORDER BY base_pk COLLATE \"C\" DESC LIMIT -4");
        }
        QueryPlan::NoMoreItems => panic!("expected SQL"),
    }
}

#[test]
fn pk_only_table_after_start_key_has_no_more_items() {
    let l = layout(None, None, false, false);
    let plan = plan_query("t", &l, &None, 2, &Vec::new(), &Vec::new(), &Vec::new(), true, true, Some(3));
    assert!(matches!(plan, QueryPlan::NoMoreItems));
}

#[test]
fn hash_only_index_query_with_start_key() {
    let l = layout(None, Some(key("b", ScalarAttributeType::S, "sk_s")), true, false);
    match plan_query("idx", &l, &None, 2, &Vec::new(), &Vec::new(), &Vec::new(), true, true, Some(1)) {
        QueryPlan::Execute { sql, .. } => assert_eq!(
            sql,
            "SELECT item_data FROM idx WHERE pk = $1 AND (base_pk COLLATE \"C\" > $2 OR (base_pk = $2 AND \
             base_sk_s COLLATE \"C\" > $3)) ORDER BY base_pk COLLATE \"C\" ASC, base_sk_s COLLATE \"C\" ASC LIMIT 2"
        ),
        QueryPlan::NoMoreItems => panic!("expected SQL"),
    }
}

#[test]
fn bind_plan_prefers_base_sort_key() {
    let l = layout(Some(key("s", ScalarAttributeType::N, "sk_n")), Some(key("bs", ScalarAttributeType::S, "sk_s")), true, false);
    let start = Some(vec!["pk".to_string(), "s".to_string(), "bs".to_string()]);
    match plan_pagination_binds(&start, &l, &Some("bpk".to_string())) {
        PaginationBindPlan::BaseSortKey { attr, attr_type } => {
            assert_eq!(attr, "bs");
            assert_eq!(attr_type, ScalarAttributeType::S);
        }
        _ => panic!("expected the base sort key"),
    }
    let missing = Some(vec!["pk".to_string()]);
    assert!(matches!(plan_pagination_binds(&missing, &l, &None), PaginationBindPlan::Nothing));
}

#[test]
fn bind_plan_uses_base_partition_key_on_index() {
    let l = layout(Some(key("s", ScalarAttributeType::N, "sk_n")), None, true, false);
    let start = Some(vec!["bpk".to_string(), "s".to_string()]);
    match plan_pagination_binds(&start, &l, &Some("bpk".to_string())) {
        PaginationBindPlan::BasePartitionKey { attr } => assert_eq!(attr, "bpk"),
        _ => panic!("expected the base partition key"),
    }
    let hash_only = layout(None, None, true, false);
    assert!(matches!(
        plan_pagination_binds(&start, &hash_only, &Some("bpk".to_string())),
        PaginationBindPlan::BasePartitionKey { .. }
    ));
    let without = Some(vec!["s".to_string()]);
    assert!(matches!(plan_pagination_binds(&without, &l, &Some("bpk".to_string())), PaginationBindPlan::Nothing));
}

#[test]
fn bind_plan_nothing_for_base_table_or_no_start_key() {
    let l = layout(Some(key("s", ScalarAttributeType::N, "sk_n")), None, false, false);
    let start = Some(vec!["pk".to_string(), "s".to_string()]);
    assert!(matches!(plan_pagination_binds(&start, &l, &None), PaginationBindPlan::Nothing));
    let idx = layout(Some(key("s", ScalarAttributeType::N, "sk_n")), None, true, false);
    assert!(matches!(plan_pagination_binds(&None, &idx, &None), PaginationBindPlan::Nothing));
}

#[test]
fn binds_fill_the_tie_breaking_placeholders() {
    // Index with a sort key and no base sort key: the fragment has $2 for the sort key
    // and $3 for the base partition key, which the plan binds.
    let l = layout(Some(key("s", ScalarAttributeType::N, "sk_n")), None, true, false);
    let page = build_pagination_where(2, &l.sort_key, &l.base_sort_key, l.is_index, l.is_lsi, true);
    assert!(page.contains("base_pk COLLATE \"C\" > $3"));
    let start = Some(vec!["s".to_string(), "bpk".to_string()]);
    assert!(matches!(
        plan_pagination_binds(&start, &l, &Some("bpk".to_string())),
        PaginationBindPlan::BasePartitionKey { .. }
    ));
}
