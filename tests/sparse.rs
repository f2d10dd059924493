use bitfields::atomic_sparse_bitfield::AtomicSparseBitfield;
use bitfields::sparse_bitfield::SparseBitfield;

#[test]
pub fn test_atomic() {
    let bitfield = AtomicSparseBitfield::with_capacity(8);
    // This should be empty
    assert!(!bitfield.get(0));

    // Set the bit
    bitfield.set(0, true);
    bitfield.set(1, true);
    bitfield.set(2, true);
    bitfield.set(1, false);
    bitfield.set(65, false);

    bitfield.set(100_000_000, true);

    // This should be filled
    assert!(bitfield.get(0));
    assert!(!bitfield.get(1));
    assert!(!bitfield.get(65));
    assert!(bitfield.get(100_000_000));
}

#[test]
pub fn test_sparse() {
    let mut bitfield = SparseBitfield::with_capacity(8);
    // This should be empty
    assert!(!bitfield.get(0));

    // Set the bit
    bitfield.set(0, true);
    bitfield.set(1, true);
    bitfield.set(2, true);
    bitfield.set(1, false);
    bitfield.set(65, false);

    bitfield.set(100_000_000, true);

    // This should be filled
    assert!(bitfield.get(0));
    assert!(!bitfield.get(1));
    assert!(!bitfield.get(65));
    assert!(bitfield.get(100_000_000));
}

#[test]
fn unwritten_bits_read_unset() {
    let atomic = AtomicSparseBitfield::with_capacity(8);
    let sparse = SparseBitfield::with_capacity(8);
    for i in [0usize, 1, 63, 64, 511, 512, 1_000_000, usize::MAX] {
        assert!(!atomic.get(i));
        assert!(!sparse.get(i));
    }
    let empty = AtomicSparseBitfield::with_capacity(0);
    assert!(!empty.get(0));
    atomic.set(5, true);
    assert!(!atomic.get(4));
    assert!(!atomic.get(6));
}

#[test]
fn set_then_get_reads_back() {
    let atomic = AtomicSparseBitfield::with_capacity(0);
    let mut sparse = SparseBitfield::with_capacity(0);
    for i in [0usize, 63, 64, 127, 128, 4095, 70_000] {
        atomic.set(i, true);
        sparse.set(i, true);
        assert!(atomic.get(i));
        assert!(sparse.get(i));
        atomic.set(i, false);
        sparse.set(i, false);
        assert!(!atomic.get(i));
        assert!(!sparse.get(i));
    }
}

#[test]
fn set_keeps_neighbours() {
    let atomic = AtomicSparseBitfield::with_capacity(1);
    let mut sparse = SparseBitfield::with_capacity(1);
    atomic.set(10, true);
    sparse.set(10, true);
    atomic.set(11, true);
    sparse.set(11, true);
    atomic.set(10, false);
    sparse.set(10, false);
    assert!(atomic.get(11));
    assert!(sparse.get(11));
    assert!(!atomic.get(10));
    assert!(!sparse.get(10));
}

#[test]
fn large_index_grows_and_keeps_earlier_bits() {
    let atomic = AtomicSparseBitfield::with_capacity(8);
    let mut sparse = SparseBitfield::with_capacity(8);
    atomic.set(0, true);
    sparse.set(0, true);
    atomic.set(100_000_000, true);
    sparse.set(100_000_000, true);
    assert!(atomic.get(100_000_000));
    assert!(sparse.get(100_000_000));
    assert!(atomic.get(0));
    assert!(sparse.get(0));
    assert!(!atomic.get(99_999_999));
    assert!(!sparse.get(100_000_001));
}

#[test]
fn setting_false_past_the_end_reads_unset() {
    let atomic = AtomicSparseBitfield::with_capacity(0);
    let mut sparse = SparseBitfield::with_capacity(0);
    atomic.set(300, false);
    sparse.set(300, false);
    assert!(!atomic.get(300));
    assert!(!sparse.get(300));
    assert!(!atomic.get(299));
}

#[test]
fn from_bools_reads_each_flag() {
    let bools = [true, false, true, true, false, false, true];
    let atomic = AtomicSparseBitfield::from_bools(&bools);
    let sparse = SparseBitfield::from_bools(&bools);
    for (i, b) in bools.iter().enumerate() {
        assert_eq!(atomic.get(i), *b);
        assert_eq!(sparse.get(i), *b);
    }
    assert!(!atomic.get(bools.len()));
    assert!(!sparse.get(bools.len()));
}

#[test]
fn from_bools_across_words() {
    let bools: Vec<bool> = (0..300).map(|i| i % 3 == 0).collect();
    let atomic = AtomicSparseBitfield::from_bools(&bools);
    let sparse = SparseBitfield::from_bools(&bools);
    for i in 0..300 {
        assert_eq!(atomic.get(i), i % 3 == 0);
        assert_eq!(sparse.get(i), i % 3 == 0);
    }
    let empty = SparseBitfield::from_bools(&[]);
    assert!(!empty.get(0));
}

#[test]
fn clear_unsets_everything_and_allows_new_writes() {
    let atomic = AtomicSparseBitfield::with_capacity(2);
    let mut sparse = SparseBitfield::with_capacity(2);
    for i in [0usize, 3, 64, 200, 5000] {
        atomic.set(i, true);
        sparse.set(i, true);
    }
    atomic.clear();
    sparse.clear();
    for i in [0usize, 3, 64, 200, 5000] {
        assert!(!atomic.get(i));
        assert!(!sparse.get(i));
    }
    atomic.set(3, true);
    sparse.set(3, true);
    assert!(atomic.get(3));
    assert!(sparse.get(3));
}

#[test]
fn default_sets_are_empty() {
    let atomic = AtomicSparseBitfield::default();
    let mut sparse = SparseBitfield::default();
    assert!(!atomic.get(0));
    assert!(!sparse.get(0));
    atomic.set(129, true);
    sparse.set(129, true);
    assert!(atomic.get(129));
    assert!(sparse.get(129));
    assert!(!sparse.get(128));
}
