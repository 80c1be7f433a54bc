use extenddb_query::page::take_page;

#[test]
fn page_with_more_rows() {
    let page = take_page(vec![1, 2, 3, 4], Some(3));
    assert_eq!(page.items, vec![1, 2, 3]);
    assert!(page.has_more);
    assert_eq!(page.last_evaluated_index(), Some(2));
}

#[test]
fn page_without_more_rows() {
    let page = take_page(vec![1, 2, 3], Some(3));
    assert_eq!(page.items, vec![1, 2, 3]);
    assert!(!page.has_more);
    assert_eq!(page.last_evaluated_index(), None);
}

#[test]
fn zero_and_negative_limits_keep_nothing() {
    let page = take_page(vec!['a', 'b'], Some(0));
    assert!(page.items.is_empty());
    assert!(page.has_more);
    assert_eq!(page.last_evaluated_index(), None);
    let page = take_page(vec!['a'], Some(-7));
    assert!(page.items.is_empty());
    assert!(page.has_more);
    let page: extenddb_query::page::Page<u8> = take_page(Vec::new(), Some(-7));
    assert!(!page.has_more);
}

#[test]
fn default_limit() {
    let rows: Vec<u32> = (0..1_000_001).collect();
    let page = take_page(rows, None);
    assert_eq!(page.items.len(), 1_000_000);
    assert!(page.has_more);
    assert_eq!(page.last_evaluated_index(), Some(999_999));
    let page = take_page(vec![5u8; 10], None);
    assert_eq!(page.items.len(), 10);
    assert!(!page.has_more);
}

#[test]
fn huge_limit_keeps_everything() {
    let page = take_page(vec![1, 2], Some(i64::MAX));
    assert_eq!(page.items, vec![1, 2]);
    assert!(!page.has_more);
}
