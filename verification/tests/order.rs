use paper_trading_core::order::sort_by_key;

#[test]
fn digests_sort_by_bytes_whatever_order_they_come_in() {
    let a = vec![[3u8; 32], [1u8; 32], [2u8; 32], [1u8; 32]];
    let b = vec![[1u8; 32], [2u8; 32], [1u8; 32], [3u8; 32]];
    let sorted_a = sort_by_key(a);
    let sorted_b = sort_by_key(b);
    assert_eq!(sorted_a, vec![[1u8; 32], [1u8; 32], [2u8; 32], [3u8; 32]]);
    assert_eq!(sorted_a, sorted_b);
}

#[test]
fn digests_are_ordered_by_their_first_differing_byte() {
    let mut low = [9u8; 32];
    low[0] = 1;
    let mut high = [0u8; 32];
    high[0] = 2;
    assert_eq!(sort_by_key(vec![high, low]), vec![low, high]);
}
