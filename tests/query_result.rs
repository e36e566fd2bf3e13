use pobsd_parser::query_result::QueryResult;

#[test]
fn sorts_and_counts() {
    let q = QueryResult::new(vec![5u64, 1, 4, 1, 3]);
    assert_eq!(q.items, vec![1, 1, 3, 4, 5]);
    assert_eq!(q.count, 5);
}

#[test]
fn empty_query() {
    let q: QueryResult<u64> = QueryResult::new(Vec::new());
    assert!(q.items.is_empty());
    assert_eq!(q.count, 0);
}

#[test]
fn sorts_strings() {
    let q = QueryResult::new(vec!["b".to_string(), "a".to_string(), "c".to_string()]);
    assert_eq!(q.items, vec!["a", "b", "c"]);
    assert_eq!(q.count, 3);
}

#[test]
fn already_sorted_stays() {
    let q = QueryResult::new(vec![1i32, 2, 3]);
    assert_eq!(q.items, vec![1, 2, 3]);
    assert_eq!(q.count, 3);
}
