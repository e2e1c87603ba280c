use nexus_context::ranking::{score_key, top_k};

fn key(x: f32) -> u32 {
    score_key(x.to_bits())
}

#[test]
fn keys_follow_float_order() {
    assert!(key(1.0) > key(0.5));
    assert!(key(0.5) > key(1.0e-30));
    assert!(key(1.0e-30) > key(0.0));
    assert!(key(0.0) > key(-1.0e-30));
    assert!(key(-0.5) > key(-1.0));
    assert!(key(-1.0) > key(f32::NEG_INFINITY));
    assert!(key(f32::INFINITY) > key(f32::MAX));
}

#[test]
fn both_zeros_share_a_key() {
    assert_eq!(key(0.0), key(-0.0));
    assert_eq!(key(0.0), 0x8000_0000);
}

#[test]
fn nan_ranks_below_everything() {
    assert_eq!(key(f32::NAN), 0);
    assert_eq!(score_key(0xffc0_0000), 0);
    assert!(key(f32::NEG_INFINITY) > key(f32::NAN));
}

#[test]
fn key_values_exact() {
    assert_eq!(key(1.0), 0x3f80_0000 | 0x8000_0000);
    assert_eq!(key(-1.0), !0xbf80_0000u32);
}

#[test]
fn top_k_orders_best_first() {
    assert_eq!(top_k(&vec![5, 9, 1, 7], 3), vec![1, 3, 0]);
}

#[test]
fn top_k_keeps_insertion_order_on_ties() {
    assert_eq!(top_k(&vec![1, 3, 3], 2), vec![1, 2]);
    assert_eq!(top_k(&vec![4, 4, 4, 4], 4), vec![0, 1, 2, 3]);
}

#[test]
fn top_k_limit_beyond_size_returns_all() {
    assert_eq!(top_k(&vec![2, 8, 5], 10), vec![1, 2, 0]);
}

#[test]
fn top_k_of_nothing_is_empty() {
    assert_eq!(top_k(&vec![], 5), Vec::<usize>::new());
    assert_eq!(top_k(&vec![3, 1], 0), Vec::<usize>::new());
}
