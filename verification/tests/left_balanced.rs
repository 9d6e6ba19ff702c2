use protocol_core::left_balanced::{is_leaf, left_step, level, log2, parent_step, right_step};

#[test]
fn levels_of_small_indices() {
    assert_eq!(level(0b000), 0);
    assert_eq!(level(0b001), 1);
    assert_eq!(level(0b011), 2);
    assert_eq!(level(0b111), 3);
    assert!(is_leaf(0b000));
    assert!(!is_leaf(0b001));
    assert_eq!(level(u64::MAX), 64);
    assert_eq!(level(u64::MAX - 1), 0);
}

#[test]
fn children_and_parent_of_level_one_node() {
    let x = 0b001;
    assert_eq!(left_step(x), 0b000);
    assert_eq!(right_step(x), 0b010);
    assert_eq!(parent_step(0b000), x);
    assert_eq!(parent_step(0b010), x);
}

#[test]
fn children_of_level_two_node() {
    assert_eq!(left_step(0b011), 0b001);
    assert_eq!(right_step(0b011), 0b101);
}

#[test]
fn log2_values() {
    assert_eq!(log2(0), 0);
    assert_eq!(log2(1), 0);
    assert_eq!(log2(8), 3);
    assert_eq!(log2(9), 3);
    assert_eq!(log2(7), 2);
    assert_eq!(log2(u64::MAX), 63);
}

#[test]
fn exhaustive_small_indices() {
    for x in 0u64..(1 << 16) {
        let lvl = level(x);
        assert_eq!(is_leaf(x), lvl == 0);
        if !is_leaf(x) {
            let left = left_step(x);
            let right = right_step(x);
            assert_eq!(level(left), lvl - 1);
            assert_eq!(level(right), lvl - 1);
            assert_eq!(parent_step(left), x);
            assert_eq!(parent_step(right), x);
            assert!(left < x);
            assert!(x < right);
            assert!(left < right);
        }
        let parent = parent_step(x);
        assert_eq!(level(parent), lvl + 1);
        let l = left_step(parent);
        let r = right_step(parent);
        assert!((x == l) != (x == r));
    }
}

#[test]
fn deep_indices() {
    // The root of the full 2^62-leaf tree sits at level 63.
    let root = (1u64 << 63) - 1;
    assert_eq!(level(root), 63);
    let left = left_step(root);
    let right = right_step(root);
    assert_eq!(level(left), 62);
    assert_eq!(level(right), 62);
    assert_eq!(parent_step(left), root);
    assert_eq!(parent_step(right), root);
    assert!(left < root && root < right);

    // The all-ones index is the one non-leaf whose right step wraps below
    // it: both steps land on the same level-63 node.
    assert_eq!(left_step(u64::MAX), u64::MAX >> 1);
    assert_eq!(right_step(u64::MAX), u64::MAX >> 1);
}

#[test]
fn appending_leaves_keeps_existing_nodes() {
    // A tree with 4 leaves occupies indices 0..=6: 2 * 4 - 1 = 7 positions.
    let four_leaf_levels: Vec<usize> = (0u64..7).map(level).collect();
    assert_eq!(four_leaf_levels, vec![0, 1, 0, 2, 0, 1, 0]);
    // Growing to 5 leaves appends positions 7 and 8 (2 * 5 - 1 = 9); the
    // levels and parents of positions 0..=6 are unchanged, since navigation
    // reads nothing but the index itself.
    let five_leaf_levels: Vec<usize> = (0u64..9).map(level).collect();
    assert_eq!(&five_leaf_levels[..7], &four_leaf_levels[..]);
    assert_eq!(five_leaf_levels[7], 3);
    assert_eq!(five_leaf_levels[8], 0);
    for x in [1u64, 5u64] {
        assert_eq!(parent_step(x), 3);
    }
    assert_eq!(parent_step(3), 7);
}
