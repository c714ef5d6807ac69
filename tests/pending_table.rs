use cdpkit::pending::PendingTable;

#[test]
fn register_take_and_drain() {
    let mut t: PendingTable<&str> = PendingTable::new();
    assert_eq!(t.peek_next_id(), 1);
    assert_eq!(t.register("a"), 1);
    assert_eq!(t.register("b"), 2);
    assert_eq!(t.register("c"), 3);
    assert_eq!(t.len(), 3);
    assert_eq!(t.take(2), Some("b"));
    assert_eq!(t.take(2), None);
    assert_eq!(t.take(9), None);
    assert_eq!(t.register("d"), 4);
    let all = t.drain();
    assert_eq!(all, vec![(1, "a"), (3, "c"), (4, "d")]);
    assert_eq!(t.len(), 0);
    assert_eq!(t.register("e"), 5);
    assert!(!t.exhausted());
}
