use extenddb_query::scan_plan::{plan_scan, StorageError};
use extenddb_query::schema::{KeyLayout, ScalarAttributeType, SortKey};

fn key(name: &str, t: ScalarAttributeType, column: &str) -> SortKey {
    SortKey { name: name.to_string(), attr_type: t, column: column.to_string() }
}

fn layout(sk: Option<SortKey>, base: Option<SortKey>, is_index: bool) -> KeyLayout {
    KeyLayout { sort_key: sk, base_sort_key: base, is_index, is_lsi: false }
}

#[test]
fn plain_scan() {
    let sql = plan_scan("t", &layout(None, None, false), None, None, &None, &None, None).unwrap();
    assert_eq!(sql, "SELECT item_data FROM t ORDER BY pk LIMIT 1000001");
}

#[test]
fn segment_and_start_key_on_base_table() {
    let l = layout(Some(key("s", ScalarAttributeType::N, "sk_n")), None, false);
    let start = Some(vec!["id".to_string(), "s".to_string()]);
    let sql = plan_scan("t", &l, Some(1), Some(4), &start, &Some("id".to_string()), Some(25)).unwrap();
    assert_eq!(
        sql,
        "SELECT item_data FROM t WHERE (hashtext(pk)::bigint & 2147483647) % 4 = 1 AND (pk, sk_n) > ($1, $2) \
         ORDER BY pk, sk_n LIMIT 26"
    );
}

#[test]
fn index_scan_with_full_key() {
    let l = layout(
        Some(key("s", ScalarAttributeType::S, "sk_s")),
        Some(key("b", ScalarAttributeType::N, "sk_n")),
        true,
    );
    let start = Some(vec!["id".to_string()]);
    let sql = plan_scan("idx", &l, None, None, &start, &Some("id".to_string()), None).unwrap();
    assert_eq!(
        sql,
        "SELECT item_data FROM idx WHERE (pk, sk_s COLLATE \"C\", base_pk COLLATE \"C\", base_sk_n) > ($1, $2, $3, $4) \
         ORDER BY pk, sk_s COLLATE \"C\", base_pk COLLATE \"C\", base_sk_n LIMIT 1000001"
    );
}

#[test]
fn index_scan_without_base_sort_key() {
    let l = layout(Some(key("s", ScalarAttributeType::B, "sk_b")), None, true);
    let start = Some(vec!["id".to_string()]);
    let sql = plan_scan("idx", &l, None, None, &start, &Some("id".to_string()), Some(0)).unwrap();
    assert_eq!(
        sql,
        "SELECT item_data FROM idx WHERE (pk, sk_b, base_pk COLLATE \"C\") > ($1, $2, $3) \
         ORDER BY pk, sk_b, base_pk COLLATE \"C\" LIMIT 1"
    );
}

#[test]
fn hash_only_index_scan_ignores_base_sort_key() {
    let l = layout(None, Some(key("b", ScalarAttributeType::N, "sk_n")), true);
    let start = Some(vec!["id".to_string()]);
    let sql = plan_scan("idx", &l, None, None, &start, &Some("id".to_string()), None).unwrap();
    assert_eq!(
        sql,
        "SELECT item_data FROM idx WHERE (pk, base_pk COLLATE \"C\") > ($1, $2) ORDER BY pk, base_pk COLLATE \"C\" LIMIT 1000001"
    );
}

#[test]
fn pk_only_start_key() {
    let start = Some(vec!["id".to_string()]);
    let sql = plan_scan("t", &layout(None, None, false), None, None, &start, &Some("id".to_string()), None).unwrap();
    assert_eq!(sql, "SELECT item_data FROM t WHERE pk > $1 ORDER BY pk LIMIT 1000001");
}

#[test]
fn start_key_without_partition_key_is_rejected() {
    let start = Some(vec!["other".to_string()]);
    match plan_scan("t", &layout(None, None, false), None, None, &start, &Some("id".to_string()), None) {
        Err(StorageError::Validation(msg)) => assert_eq!(
            msg,
            "The provided starting key is invalid: The provided key element does not match the schema"
        ),
        Ok(_) => panic!("expected a validation error"),
    }
}

#[test]
fn half_given_segment_is_ignored() {
    let sql = plan_scan("t", &layout(None, None, false), Some(2), None, &None, &None, None).unwrap();
    assert_eq!(sql, "SELECT item_data FROM t ORDER BY pk LIMIT 1000001");
    let sql = plan_scan("t", &layout(None, None, false), Some(-1), Some(-3), &None, &None, None).unwrap();
    assert_eq!(sql, "SELECT item_data FROM t WHERE (hashtext(pk)::bigint & 2147483647) % -3 = -1 ORDER BY pk LIMIT 1000001");
}
