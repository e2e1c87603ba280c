use vstd::prelude::*;
use vstd::set_lib::{lemma_int_range, lemma_len_subset, set_int_range};

verus! {

/// Whether the float32 bit pattern `bits` encodes a NaN.
pub open spec fn is_nan_bits(bits: u32) -> bool {
    bits & 0x7f80_0000u32 == 0x7f80_0000u32 && bits & 0x007f_ffffu32 != 0
}

/// Whether the float32 bit pattern `bits` has its sign bit set.
pub open spec fn sign_bit(bits: u32) -> bool {
    bits & 0x8000_0000u32 != 0
}

/// The magnitude part (exponent and mantissa) of a float32 bit pattern.
pub open spec fn magnitude(bits: u32) -> u32 {
    bits & 0x7fff_ffffu32
}

/// IEEE-754 equality of two non-NaN float32 values given by their bits:
/// identical patterns, or both zeros of either sign.
pub open spec fn float_eq(a: u32, b: u32) -> bool {
    a == b || (magnitude(a) == 0 && magnitude(b) == 0)
}

/// IEEE-754 `<` of two non-NaN float32 values given by their bits.
pub open spec fn float_lt(a: u32, b: u32) -> bool {
    if magnitude(a) == 0 && magnitude(b) == 0 {
        false
    } else if sign_bit(a) != sign_bit(b) {
        sign_bit(a)
    } else if sign_bit(a) {
        magnitude(a) > magnitude(b)
    } else {
        magnitude(a) < magnitude(b)
    }
}

/// The ranking key of a similarity score: an unsigned integer whose order is
/// the order of the float values. Both zeros share one key, and every NaN
/// gets key 0, below every other score, so that ranking is a total order.
pub open spec fn score_key_spec(bits: u32) -> u32 {
    if is_nan_bits(bits) {
        0
    } else if bits == 0x8000_0000u32 {
        0x8000_0000u32
    } else if sign_bit(bits) {
        !bits
    } else {
        bits | 0x8000_0000u32
    }
}

/// Computes the ranking key of the float32 score whose bits are `bits`.
pub fn score_key(bits: u32) -> (k: u32)
    ensures
        k == score_key_spec(bits),
{
    if bits & 0x7f80_0000u32 == 0x7f80_0000u32 && bits & 0x007f_ffffu32 != 0 {
        0
    } else if bits == 0x8000_0000u32 {
        0x8000_0000u32
    } else if bits & 0x8000_0000u32 != 0 {
        !bits
    } else {
        bits | 0x8000_0000u32
    }
}

/// Keys order non-NaN scores exactly as float comparison does: a smaller key
/// means a smaller score, and equal keys mean equal scores.
pub proof fn lemma_score_key_orders_as_float(a: u32, b: u32)
    requires
        !is_nan_bits(a),
        !is_nan_bits(b),
    ensures
        score_key_spec(a) < score_key_spec(b) <==> float_lt(a, b),
        score_key_spec(a) == score_key_spec(b) <==> float_eq(a, b),
{
    assert(
        ((if a == 0x8000_0000u32 { 0x8000_0000u32 } else if a & 0x8000_0000u32 != 0 { !a } else { a | 0x8000_0000u32 })
        < (if b == 0x8000_0000u32 { 0x8000_0000u32 } else if b & 0x8000_0000u32 != 0 { !b } else { b | 0x8000_0000u32 }))
        <==> (if a & 0x7fff_ffffu32 == 0 && b & 0x7fff_ffffu32 == 0 { false }
            else if (a & 0x8000_0000u32 != 0) != (b & 0x8000_0000u32 != 0) { a & 0x8000_0000u32 != 0 }
            else if a & 0x8000_0000u32 != 0 { a & 0x7fff_ffffu32 > b & 0x7fff_ffffu32 }
            else { a & 0x7fff_ffffu32 < b & 0x7fff_ffffu32 })
    ) by (bit_vector);
    assert(
        ((if a == 0x8000_0000u32 { 0x8000_0000u32 } else if a & 0x8000_0000u32 != 0 { !a } else { a | 0x8000_0000u32 })
        == (if b == 0x8000_0000u32 { 0x8000_0000u32 } else if b & 0x8000_0000u32 != 0 { !b } else { b | 0x8000_0000u32 }))
        <==> (a == b || (a & 0x7fff_ffffu32 == 0 && b & 0x7fff_ffffu32 == 0))
    ) by (bit_vector);
}

/// A NaN score ranks below every other score.
pub proof fn lemma_nan_ranks_lowest(a: u32, b: u32)
    requires
        is_nan_bits(a),
        !is_nan_bits(b),
    ensures
        score_key_spec(a) < score_key_spec(b),
{
    assert(
        !(b & 0x7f80_0000u32 == 0x7f80_0000u32 && b & 0x007f_ffffu32 != 0) ==>
        0u32 < (if b == 0x8000_0000u32 { 0x8000_0000u32 } else if b & 0x8000_0000u32 != 0 { !b } else { b | 0x8000_0000u32 })
    ) by (bit_vector);
}

/// Ranking order on positions of `keys`: a higher key comes first, and of
/// two equal keys the earlier position comes first (a stable descending order).
pub open spec fn precedes(keys: Seq<u32>, a: int, b: int) -> bool {
    keys[a] > keys[b] || (keys[a] == keys[b] && a < b)
}

/// `r` lists the `limit` best positions of `keys` (all of them when
/// `limit >= keys.len()`), best first: each is a valid position, they follow
/// the ranking order, and every position left out ranks after all listed ones.
pub open spec fn is_top_k(keys: Seq<u32>, limit: nat, r: Seq<usize>) -> bool {
    &&& r.len() == if limit < keys.len() { limit } else { keys.len() }
    &&& forall|j: int| 0 <= j < r.len() ==> r[j] < keys.len()
    &&& forall|a: int, b: int| 0 <= a < b < r.len() ==> precedes(keys, r[a] as int, r[b] as int)
    &&& forall|x: usize, j: int|
        x < keys.len() && !r.contains(x) && 0 <= j < r.len()
            ==> precedes(keys, r[j] as int, x as int)
}

/// Returns the positions of the `limit` highest keys, highest first; equal
/// keys keep the order of their positions.
pub fn top_k(keys: &Vec<u32>, limit: usize) -> (r: Vec<usize>)
    ensures
        is_top_k(keys@, limit as nat, r@),
{
    let n = keys.len();
    let mut order: Vec<usize> = Vec::new();
    let mut i: usize = 0;
    while i < n
        invariant
            n == keys.len(),
            i <= n,
            order.len() == i,
            forall|j: int| 0 <= j < order.len() ==> order[j] < i,
            forall|a: int, b: int|
                0 <= a < b < order.len() ==> precedes(keys@, order[a] as int, order[b] as int),
            forall|x: usize| x < i ==> order@.contains(x),
        decreases n - i,
    {
        let ki = keys[i];
        let mut p: usize = 0;
        while p < order.len() && keys[order[p]] >= ki
            invariant
                n == keys.len(),
                i < n,
                ki == keys[i as int],
                p <= order.len(),
                forall|j: int| 0 <= j < order.len() ==> order[j] < i,
                forall|q: int| 0 <= q < p ==> keys[order[q] as int] >= ki,
            decreases order.len() - p,
        {
            p = p + 1;
        }
        let ghost old_order = order@;
        assert forall|q: int| p <= q < old_order.len() implies keys[old_order[q] as int] < ki by {
            if q > p {
                assert(precedes(keys@, old_order[p as int] as int, old_order[q] as int));
            }
        }
        order.insert(p, i);
        assert(order@ == old_order.insert(p as int, i));
        assert forall|a: int, b: int|
            0 <= a < b < order.len() implies precedes(keys@, order[a] as int, order[b] as int) by {
            if a < p && b < p {
            } else if a < p && b == p {
            } else if a < p {
                assert(order[b] == old_order[b - 1]);
            } else if a == p {
                assert(order[b] == old_order[b - 1]);
            } else {
                assert(order[a] == old_order[a - 1]);
                assert(order[b] == old_order[b - 1]);
            }
        }
        assert forall|x: usize| x < i + 1 implies order@.contains(x) by {
            if x == i {
                assert(order[p as int] == i);
            } else {
                assert(old_order.contains(x));
                let j = choose|j: int| 0 <= j < old_order.len() && old_order[j] == x;
                if j < p {
                    assert(order[j] == x);
                } else {
                    assert(order[j + 1] == x);
                }
            }
        }
        i = i + 1;
    }
    let ghost full = order@;
    if limit < n {
        order.truncate(limit);
    }
    assert forall|x: usize, j: int|
        x < keys.len() && !order@.contains(x) && 0 <= j < order.len()
            implies precedes(keys@, order[j] as int, x as int) by {
        assert(full.contains(x));
        let m = choose|m: int| 0 <= m < full.len() && full[m] == x;
        if m < order.len() {
            assert(order@[m] == x);
        }
    }
    order
}

/// When the limit reaches the number of positions, every position is
/// listed: all of them come back, in ranking order.
pub proof fn lemma_top_k_lists_all(keys: Seq<u32>, limit: nat, r: Seq<usize>)
    requires
        is_top_k(keys, limit, r),
        limit >= keys.len(),
    ensures
        r.len() == keys.len(),
        forall|x: usize| x < keys.len() ==> r.contains(x),
{
    assert forall|x: usize| x < keys.len() implies r.contains(x) by {
        if !r.contains(x) {
            let ints = r.map_values(|y: usize| y as int);
            assert forall|a: int, b: int| 0 <= a < ints.len() && 0 <= b < ints.len() && a != b
                implies ints[a] != ints[b] by {
                if a < b {
                    assert(precedes(keys, r[a] as int, r[b] as int));
                } else {
                    assert(precedes(keys, r[b] as int, r[a] as int));
                }
            }
            ints.unique_seq_to_set();
            let rest = set_int_range(0, keys.len() as int).remove(x as int);
            lemma_int_range(0, keys.len() as int);
            assert forall|y: int| ints.to_set().contains(y) implies rest.contains(y) by {
                let j = choose|j: int| 0 <= j < ints.len() && ints[j] == y;
                assert(r[j] < keys.len());
                if y == x as int {
                    assert(r[j] == x);
                }
            }
            lemma_len_subset(ints.to_set(), rest);
        }
    }
}

/// Two answers that both list the `limit` best positions of `keys` are the
/// same sequence: ranking is deterministic.
pub proof fn lemma_top_k_unique(keys: Seq<u32>, limit: nat, r1: Seq<usize>, r2: Seq<usize>)
    requires
        is_top_k(keys, limit, r1),
        is_top_k(keys, limit, r2),
    ensures
        r1 == r2,
{
    lemma_top_k_agree_below(keys, limit, r1, r2, r1.len() as int);
    assert(r1 =~= r2);
}

proof fn lemma_top_k_agree_below(keys: Seq<u32>, limit: nat, r1: Seq<usize>, r2: Seq<usize>, n: int)
    requires
        is_top_k(keys, limit, r1),
        is_top_k(keys, limit, r2),
        0 <= n <= r1.len(),
    ensures
        forall|m: int| 0 <= m < n ==> r1[m] == r2[m],
    decreases n,
{
    if n > 0 {
        let j = n - 1;
        lemma_top_k_agree_below(keys, limit, r1, r2, j);
        if r1[j] != r2[j] {
            lemma_first_difference(keys, limit, r1, r2, j);
            lemma_first_difference(keys, limit, r2, r1, j);
        }
    }
}

/// Where `r1` and `r2` agree below position `j`, the entry of `r1` at `j`
/// cannot rank after the entry of `r2` at `j` unless they are equal.
proof fn lemma_first_difference(keys: Seq<u32>, limit: nat, r1: Seq<usize>, r2: Seq<usize>, j: int)
    requires
        is_top_k(keys, limit, r1),
        is_top_k(keys, limit, r2),
        0 <= j < r1.len(),
        forall|m: int| 0 <= m < j ==> r1[m] == r2[m],
        r1[j] != r2[j],
    ensures
        !precedes(keys, r1[j] as int, r2[j] as int),
{
    if precedes(keys, r1[j] as int, r2[j] as int) {
        if r2.contains(r1[j]) {
            let m = choose|m: int| 0 <= m < r2.len() && r2[m] == r1[j];
            if m < j {
                assert(precedes(keys, r1[m] as int, r1[j] as int));
            } else {
                assert(precedes(keys, r2[j] as int, r2[m] as int));
            }
        } else {
            assert(precedes(keys, r2[j] as int, r1[j] as int));
        }
    }
}

} // verus!
