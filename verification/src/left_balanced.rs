//! Index arithmetic shared by left-balanced binary search tree consumers (an
//! append-only log tree and an implicit binary search tree).
//!
//! A complete left-balanced binary tree is stored as a flat array whose nodes
//! are numbered from left to right in in-order: leaf nodes sit at even
//! indices, intermediate nodes at odd indices. A node's level is the number
//! of consecutive one bits at the bottom of its index; leaves are level 0.
//! All navigation (child and parent steps) is pure arithmetic on the index,
//! so growing the tree on the right never moves an existing node.

use vstd::arithmetic::power2::pow2;
use vstd::prelude::*;
use vstd::std_specs::bits::{axiom_u64_trailing_ones, u64_trailing_ones};

verus! {

/// A node index denotes a leaf exactly when its lowest bit is clear.
pub open spec fn is_leaf_index(x: u64) -> bool {
    x & 1 == 0
}

/// The level of a node: the number of consecutive one bits at the bottom of
/// its index. Leaves are level 0; the value 64 occurs only for `u64::MAX`.
pub open spec fn node_level(x: u64) -> u64 {
    u64_trailing_ones(x) as u64
}

/// Index of the left child of a non-leaf node: bit `level - 1` cleared.
pub open spec fn left_child(x: u64) -> u64
    recommends
        !is_leaf_index(x),
{
    x ^ (1u64 << ((node_level(x) - 1) as u64))
}

/// Index of the right child of a non-leaf node: bits `level - 1` and `level`
/// both flipped, which clears the former and sets the latter.
pub open spec fn right_child(x: u64) -> u64
    recommends
        !is_leaf_index(x),
{
    x ^ (3u64 << ((node_level(x) - 1) as u64))
}

/// Index of the parent of a node: set bit `level`, and if the node was a
/// right child (bit `level + 1` set), clear that bit as well.
pub open spec fn parent_index(x: u64) -> u64
    recommends
        node_level(x) < 63,
{
    (x | (1u64 << node_level(x))) ^ (((x >> ((node_level(x) + 1) as u64)) & 1) << ((node_level(x)
        + 1) as u64))
}

/// The mask of the `k` lowest bits.
spec fn low_mask(k: u64) -> u64
    recommends
        k < 64,
{
    ((1u64 << k) - 1) as u64
}

/// `x` has exactly `k` consecutive one bits at the bottom: the low `k` bits
/// are all ones and bit `k` is zero (for `k == 64`, `x` is all ones).
spec fn has_level(x: u64, k: u64) -> bool {
    if k < 64 {
        x & low_mask(k) == low_mask(k) && (x >> k) & 1 == 0
    } else {
        k == 64 && x == 0xffff_ffff_ffff_ffffu64
    }
}

/// The trailing-ones count satisfies the `has_level` characterization.
proof fn lemma_has_level(x: u64)
    ensures
        node_level(x) <= 64,
        has_level(x, node_level(x)),
{
    axiom_u64_trailing_ones(x);
    let t = u64_trailing_ones(x) as u64;
    assert(t < 64 ==> ((!x) << ((64 - t) as u64) == 0 ==> x & low_mask(t) == low_mask(t)))
        by (bit_vector);
}

/// At most one `k` satisfies the characterization, so it pins the level down.
proof fn lemma_has_level_unique(x: u64, k: u64)
    requires
        has_level(x, k),
    ensures
        node_level(x) == k,
{
    lemma_has_level(x);
    let t = node_level(x);
    assert(has_level(x, k) && has_level(x, t) ==> k == t) by (bit_vector);
}

/// Floor of the base-2 logarithm, with `floor_log2(0) == 0` by convention.
pub open spec fn floor_log2(n: u64) -> int
    decreases n,
{
    if n <= 1 {
        0
    } else {
        1 + floor_log2(n / 2)
    }
}

/// Floor of the base-2 logarithm of `n`; returns 0 for `n == 0` (callers use
/// that convention to size empty trees).
pub fn log2(n: u64) -> (r: u32)
    ensures
        r == floor_log2(n),
{
    let mut m: u64 = n;
    let mut r: u32 = 0;
    proof {
        assert(n >> 0u64 == n) by (bit_vector);
    }
    while m > 1
        invariant
            m == n >> (r as u64),
            r <= 64,
            floor_log2(n) == r + floor_log2(m),
        decreases m,
    {
        proof {
            let rr = r as u64;
            assert((n >> rr) > 1 ==> rr < 64 && (n >> rr) / 2 == (n >> ((rr + 1) as u64)))
                by (bit_vector);
        }
        m = m / 2;
        r = r + 1;
    }
    r
}

/// Returns true if `x` is the position of a leaf node.
pub fn is_leaf(x: u64) -> (r: bool)
    ensures
        r == is_leaf_index(x),
{
    (x & 1) == 0
}

/// Returns the level of a node in the tree. Leaves are level 0, their
/// parents are level 1, and so on. Total: defined for every index.
pub fn level(x: u64) -> (r: usize)
    ensures
        r == node_level(x),
{
    x.trailing_ones() as usize
}

/// For a positive argument, `floor_log2` is the position of the highest set
/// bit: `n` lies between `2^floor_log2(n)` inclusive and `2^(floor_log2(n)+1)`
/// exclusive.
pub proof fn lemma_floor_log2_bracket(n: u64)
    requires
        n >= 1,
    ensures
        0 <= floor_log2(n) <= 63,
        pow2(floor_log2(n) as nat) <= n,
        n < pow2((floor_log2(n) + 1) as nat),
    decreases n,
{
    if n == 1 {
        vstd::arithmetic::power2::lemma2_to64();
    } else {
        lemma_floor_log2_bracket(n / 2);
        let f = floor_log2(n / 2);
        assert(n == 2 * (n / 2) + n % 2);
        vstd::arithmetic::power2::lemma_pow2_unfold((f + 1) as nat);
        vstd::arithmetic::power2::lemma_pow2_unfold((f + 2) as nat);
        if f + 1 > 63 {
            vstd::arithmetic::power2::lemma2_to64_rest();
            assert(false);
        }
    }
}

/// A non-leaf node has level at least 1 (and at most 64).
proof fn lemma_nonleaf_level(x: u64)
    requires
        !is_leaf_index(x),
    ensures
        1 <= node_level(x) <= 64,
{
    lemma_has_level(x);
    let t = node_level(x);
    assert(!(x & 1 == 0) && has_level(x, t) ==> t >= 1) by (bit_vector);
}

/// Returns the index of the left child of a non-leaf node `x`: the bit at
/// position `level(x) - 1` is cleared. Calling this on a leaf is a
/// precondition violation (a leaf has no children) and aborts.
pub fn left_step(x: u64) -> (r: u64)
    requires
        !is_leaf_index(x),
    ensures
        r == left_child(x),
{
    let k: u32 = x.trailing_ones();
    if k == 0 {
        proof {
            lemma_leaf_level(x);
        }
        return unreached();
    }
    proof {
        lemma_nonleaf_level(x);
    }
    x ^ (1u64 << ((k - 1) as u64))
}

/// Returns the index of the right child of a non-leaf node `x`: the bits at
/// positions `level(x) - 1` and `level(x)` are both flipped. Calling this on
/// a leaf is a precondition violation (a leaf has no children) and aborts.
pub fn right_step(x: u64) -> (r: u64)
    requires
        !is_leaf_index(x),
    ensures
        r == right_child(x),
{
    let k: u32 = x.trailing_ones();
    if k == 0 {
        proof {
            lemma_leaf_level(x);
        }
        return unreached();
    }
    proof {
        lemma_nonleaf_level(x);
    }
    x ^ (3u64 << ((k - 1) as u64))
}

/// Returns the index of the parent of `x`: bit `level(x)` is set, and if `x`
/// was a right child (bit `level(x) + 1` set), that bit is cleared. The
/// caller must know that `x` is not the root of the full representable tree:
/// a level at or above the maximum representable one is a precondition
/// violation and aborts.
pub fn parent_step(x: u64) -> (r: u64)
    requires
        node_level(x) < 63,
    ensures
        r == parent_index(x),
{
    let k: u32 = x.trailing_ones();
    if k >= 63 {
        return unreached();
    }
    let b: u64 = (x >> ((k + 1) as u64)) & 1;
    (x | (1u64 << (k as u64))) ^ (b << ((k + 1) as u64))
}

/// Totality of the level computation: every representable index has a level,
/// bounded by the word width, and only the all-ones index reaches it.
pub proof fn lemma_level_total(x: u64)
    ensures
        node_level(x) <= 64,
        node_level(x) == 64 <==> x == u64::MAX,
{
    lemma_has_level(x);
    let t = node_level(x);
    if x == u64::MAX {
        assert(has_level(x, t) && x == 0xffff_ffff_ffff_ffffu64 ==> t == 64) by (bit_vector);
    }
}

/// Leaf/level consistency: even indices are exactly the level-0 nodes, so
/// every odd index has level at least 1.
pub proof fn lemma_leaf_level(x: u64)
    ensures
        is_leaf_index(x) <==> node_level(x) == 0,
{
    lemma_has_level(x);
    let t = node_level(x);
    assert(has_level(x, t) ==> ((x & 1 == 0) <==> t == 0)) by (bit_vector);
}

/// Child-level property: both children of a non-leaf node sit exactly one
/// level below it.
pub proof fn lemma_child_level(x: u64)
    requires
        !is_leaf_index(x),
    ensures
        node_level(left_child(x)) == node_level(x) - 1,
        node_level(right_child(x)) == node_level(x) - 1,
{
    lemma_nonleaf_level(x);
    lemma_has_level(x);
    let k = node_level(x);
    let m = (k - 1) as u64;
    assert(has_level(x, k) && 1 <= k <= 64 && m == k - 1 ==> has_level(x ^ (1u64 << m), m))
        by (bit_vector);
    assert(has_level(x, k) && 1 <= k <= 64 && m == k - 1 ==> has_level(x ^ (3u64 << m), m))
        by (bit_vector);
    lemma_has_level_unique(left_child(x), m);
    lemma_has_level_unique(right_child(x), m);
}

/// Ordering property: the left child precedes its parent in array order and
/// the right child follows it. The all-ones index is the one non-leaf whose
/// right step wraps below it instead, so the right-child claims exclude it.
pub proof fn lemma_child_order(x: u64)
    requires
        !is_leaf_index(x),
    ensures
        left_child(x) < x,
        x != u64::MAX ==> x < right_child(x),
        x != u64::MAX ==> left_child(x) < right_child(x),
{
    lemma_nonleaf_level(x);
    lemma_has_level(x);
    lemma_level_total(x);
    let k = node_level(x);
    let m = (k - 1) as u64;
    assert(has_level(x, k) && 1 <= k <= 64 && m == k - 1 ==> (x ^ (1u64 << m)) < x)
        by (bit_vector);
    assert(has_level(x, k) && 1 <= k <= 63 && m == k - 1 ==> (x ^ (1u64 << m)) < (x ^ (3u64 << m))
        && x < (x ^ (3u64 << m))) by (bit_vector);
}

/// Round-trip property: stepping down to either child and back up through the
/// parent step returns to the starting node.
pub proof fn lemma_parent_of_children(x: u64)
    requires
        !is_leaf_index(x),
        node_level(x) <= 63,
    ensures
        parent_index(left_child(x)) == x,
        parent_index(right_child(x)) == x,
{
    lemma_nonleaf_level(x);
    lemma_has_level(x);
    lemma_child_level(x);
    let k = node_level(x);
    let m = (k - 1) as u64;
    let l = left_child(x);
    let r = right_child(x);
    assert(parent_index(l) == (l | (1u64 << m)) ^ (((l >> k) & 1) << k));
    assert(parent_index(r) == (r | (1u64 << m)) ^ (((r >> k) & 1) << k));
    assert(has_level(x, k) && 1 <= k <= 63 && m == k - 1 && l == x ^ (1u64 << m) ==> ((l | (1u64
        << m)) ^ (((l >> k) & 1) << k)) == x) by (bit_vector);
    assert(has_level(x, k) && 1 <= k <= 63 && m == k - 1 && r == x ^ (3u64 << m) ==> ((r | (1u64
        << m)) ^ (((r >> k) & 1) << k)) == x) by (bit_vector);
}

/// Parent-level property: the parent of a node sits exactly one level above
/// it, for every node below the maximum representable level.
pub proof fn lemma_parent_level(x: u64)
    requires
        node_level(x) < 63,
    ensures
        node_level(parent_index(x)) == node_level(x) + 1,
{
    lemma_has_level(x);
    let k = node_level(x);
    let p = parent_index(x);
    assert(has_level(x, k) && k < 63 && p == (x | (1u64 << k)) ^ (((x >> ((k + 1) as u64)) & 1)
        << ((k + 1) as u64)) ==> has_level(p, (k + 1) as u64)) by (bit_vector);
    lemma_has_level_unique(p, (k + 1) as u64);
}

/// Child-identity property: a node below the maximum level is exactly one of
/// the two computed children of its computed parent, never both and never
/// neither.
pub proof fn lemma_parent_child_identity(x: u64)
    requires
        node_level(x) < 63,
    ensures
        !is_leaf_index(parent_index(x)),
        (x == left_child(parent_index(x))) != (x == right_child(parent_index(x))),
{
    lemma_has_level(x);
    lemma_parent_level(x);
    lemma_leaf_level(parent_index(x));
    let k = node_level(x);
    let p = parent_index(x);
    let kp = (k + 1) as u64;
    assert(left_child(p) == p ^ (1u64 << k));
    assert(right_child(p) == p ^ (3u64 << k));
    assert(has_level(x, k) && k < 63 && kp == k + 1 && p == (x | (1u64 << k)) ^ (((x >> kp) & 1)
        << kp) ==> ((x == p ^ (1u64 << k)) != (x == p ^ (3u64 << k)))) by (bit_vector);
}

/// Resolution property: when the parent step of `x` lands on `p`, then `x`
/// is exactly one of `p`'s two computed children — there is no third
/// possibility, and no node is both children at once.
pub proof fn lemma_child_of_parent(p: u64, x: u64)
    requires
        node_level(x) < 63,
        parent_index(x) == p,
    ensures
        (x == left_child(p)) != (x == right_child(p)),
{
    lemma_parent_child_identity(x);
}

} // verus!
