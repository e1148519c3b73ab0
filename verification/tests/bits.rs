use color_bits::U8Iterator;

fn collect_bits(iter: &mut U8Iterator) -> Vec<bool> {
    let mut bits = Vec::new();
    while let Some(bit) = iter.next() {
        bits.push(bit);
    }
    bits
}

#[test]
fn byte_bits_match_binary_representation_for_all_bytes() {
    for value in 0..=255u8 {
        let mut iter = U8Iterator::from(value);
        for i in 0..8u32 {
            let expected = (value >> (7 - i)) & 1 == 1;
            assert_eq!(iter.next(), Some(expected));
        }
        assert_eq!(iter.next(), None);
    }
}

#[test]
fn byte_bits_example_msb_first() {
    let mut iter = U8Iterator::from(0b1010_1010);
    assert_eq!(
        collect_bits(&mut iter),
        vec![true, false, true, false, true, false, true, false]
    );

    let mut iter = U8Iterator::from(255);
    assert_eq!(collect_bits(&mut iter), vec![true; 8]);

    let mut iter = U8Iterator::from(0);
    assert_eq!(collect_bits(&mut iter), vec![false; 8]);
}

#[test]
fn empty_returns_none_forever() {
    let mut iter = U8Iterator::empty();
    for _ in 0..=100 {
        assert_eq!(iter.next(), None);
        assert_eq!(iter.size_hint(), (0, Some(0)));
    }
}

#[test]
fn reset_mid_sequence_discards_unread_bits() {
    let mut iter = U8Iterator::from(0b0101_0101);
    assert_eq!(iter.next(), Some(false));
    assert_eq!(iter.next(), Some(true));
    assert_eq!(iter.next(), Some(false));
    assert_eq!(iter.next(), Some(true));
    iter.reset_to(0b1100_0000);
    assert_eq!(iter.next(), Some(true));
    assert_eq!(iter.next(), Some(true));
    assert_eq!(iter.next(), Some(false));
}

#[test]
fn reset_after_exhaustion_starts_over() {
    let mut iter = U8Iterator::from(0b0000_0001);
    while iter.next().is_some() {}
    assert_eq!(iter.next(), None);
    iter.reset_to(255);
    for _ in 0..=7 {
        assert_eq!(iter.next(), Some(true));
    }
    assert_eq!(iter.next(), None);
}

#[test]
fn size_hint_counts_down_exactly() {
    for value in [0u8, 1, 0b1010_1010, 255] {
        let mut iter = U8Iterator::empty();
        iter.reset_to(value);
        for i in (1..=8usize).rev() {
            assert_eq!(iter.size_hint(), (i, Some(i)));
            assert!(iter.next().is_some());
        }
        assert_eq!(iter.size_hint(), (0, Some(0)));
        assert_eq!(iter.next(), None);
    }
}

#[test]
fn from_equals_empty_then_reset() {
    for value in [0u8, 7, 0b1010_1010, 255] {
        let mut a = U8Iterator::from(value);
        let mut b = U8Iterator::empty();
        b.reset_to(value);
        assert_eq!(collect_bits(&mut a), collect_bits(&mut b));
    }
}
