use trangorge::scheduler::bitmap::{words_for_bits, AtomicBitmap, Bitmap, BitmapSlice};

#[test]
fn words_for_bits_rounds_up() {
    assert_eq!(words_for_bits(1), 1);
    assert_eq!(words_for_bits(64), 1);
    assert_eq!(words_for_bits(65), 2);
    assert_eq!(words_for_bits(128), 2);
}

#[test]
fn set_clear_test_roundtrip() {
    let mut b: Bitmap<2> = Bitmap::new();
    assert!(!b.test(70));
    b.set(70);
    assert!(b.test(70));
    assert!(!b.test(69));
    b.clear(70);
    assert!(!b.test(70));
}

#[test]
fn out_of_range_access_is_a_safe_noop() {
    let mut b: Bitmap<1> = Bitmap::new();
    b.set(1000);
    assert!(!b.test(1000));
    assert!(b.is_empty());
}

#[test]
fn weight_counts_set_bits_across_words() {
    let mut b: Bitmap<2> = Bitmap::new();
    b.set(0);
    b.set(63);
    b.set(64);
    b.set(127);
    assert_eq!(b.weight(), 4);
}

#[test]
fn find_first_set_crosses_word_boundary() {
    let mut b: Bitmap<3> = Bitmap::new();
    b.set(130);
    assert_eq!(b.find_first_set(), Some(130));
}

#[test]
fn find_first_zero_skips_full_words() {
    let mut b: Bitmap<2> = Bitmap::filled();
    b.clear(70);
    assert_eq!(b.find_first_zero(), Some(70));
}

#[test]
fn find_first_zero_none_when_full() {
    let b: Bitmap<2> = Bitmap::filled();
    assert_eq!(b.find_first_zero(), None);
    assert!(b.is_full());
}

#[test]
fn find_next_set_after_given_bit() {
    let mut b: Bitmap<2> = Bitmap::new();
    b.set(5);
    b.set(80);
    assert_eq!(b.find_next_set(5), Some(80));
    assert_eq!(b.find_next_set(80), None);
}

#[test]
fn set_range_sets_contiguous_span() {
    let mut b: Bitmap<2> = Bitmap::new();
    b.set_range(60, 70);
    for i in 60..70 {
        assert!(b.test(i), "bit {i} should be set");
    }
    assert!(!b.test(59));
    assert!(!b.test(70));
    assert_eq!(b.weight(), 10);
}

#[test]
fn boolean_ops_behave_as_expected() {
    let mut a: Bitmap<1> = Bitmap::new();
    let mut b: Bitmap<1> = Bitmap::new();
    a.set(1);
    a.set(2);
    b.set(2);
    b.set(3);
    assert_eq!(a.and(&b).weight(), 1);
    assert!(a.and(&b).test(2));
    assert_eq!(a.or(&b).weight(), 3);
    assert_eq!(a.xor(&b).weight(), 2);
    assert_eq!(a.andnot(&b).weight(), 1);
    assert!(a.andnot(&b).test(1));
    assert!(a.intersects(&b));
}

#[test]
fn iter_yields_set_bits_in_order() {
    let mut b: Bitmap<2> = Bitmap::new();
    b.set(3);
    b.set(64);
    b.set(100);
    let collected: [usize; 3] = {
        let mut it = b.iter();
        [it.next().unwrap(), it.next().unwrap(), it.next().unwrap()]
    };
    assert_eq!(collected, [3, 64, 100]);
    let mut it = b.iter();
    it.next();
    it.next();
    it.next();
    assert!(it.next().is_none());
}

#[test]
fn slice_bitmap_respects_logical_bit_count_not_word_count() {
    let storage = vec![0u64; 2];
    let mut view = BitmapSlice::new(storage, 70);
    assert_eq!(view.capacity(), 70);
    view.set(69);
    assert!(view.test(69));
    view.set(100);
    assert!(!view.test(100));
    assert_eq!(view.find_first_zero(), Some(0));
}

#[test]
fn slice_bitmap_clear_all_resets_backing_storage() {
    let storage = vec![u64::MAX; 1];
    let mut view = BitmapSlice::new(storage, 64);
    assert_eq!(view.weight(), 64);
    view.clear_all();
    assert_eq!(view.weight(), 0);
}

#[test]
fn atomic_bitmap_test_and_set_reports_previous_state() {
    let mut bm: AtomicBitmap<1> = AtomicBitmap::new();
    assert!(!bm.test_and_set(5));
    assert!(bm.test(5));
    assert!(bm.test_and_set(5));
}

#[test]
fn atomic_bitmap_test_and_clear_reports_previous_state() {
    let mut bm: AtomicBitmap<1> = AtomicBitmap::new();
    bm.test_and_set(9);
    assert!(bm.test_and_clear(9));
    assert!(!bm.test(9));
    assert!(!bm.test_and_clear(9));
}

#[test]
fn atomic_bitmap_find_first_zero_and_set_claims_sequentially() {
    let mut bm: AtomicBitmap<1> = AtomicBitmap::new();
    assert_eq!(bm.find_first_zero_and_set(), Some(0));
    assert_eq!(bm.find_first_zero_and_set(), Some(1));
    bm.test_and_clear(0);
    assert_eq!(bm.find_first_zero_and_set(), Some(0));
}

#[test]
fn atomic_bitmap_find_first_zero_and_set_returns_none_when_full() {
    let mut bm: AtomicBitmap<1> = AtomicBitmap::new();
    for _ in 0..64 {
        assert!(bm.find_first_zero_and_set().is_some());
    }
    assert!(bm.is_full());
    assert_eq!(bm.find_first_zero_and_set(), None);
}

#[test]
fn atomic_bitmap_weight_matches_manual_count() {
    let mut bm: AtomicBitmap<2> = AtomicBitmap::new();
    bm.test_and_set(0);
    bm.test_and_set(64);
    bm.test_and_set(127);
    assert_eq!(bm.weight(), 3);
}

#[test]
fn atomic_bitmap_out_of_range_set_is_harmless() {
    let mut bm: AtomicBitmap<1> = AtomicBitmap::new();
    assert!(bm.test_and_set(1000));
    assert!(!bm.test_and_clear(1000));
}

#[test]
fn toggle_flips_one_bit() {
    let mut b: Bitmap<1> = Bitmap::new();
    b.toggle(7);
    assert!(b.test(7));
    b.toggle(7);
    assert!(!b.test(7));
    b.toggle(64);
    assert!(b.is_empty());
}
