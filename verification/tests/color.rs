use color_bits::color::{ColorOrder, OrderGBR};
use color_bits::{Color, ColorIterator, U8Iterator};

fn byte_bits(value: u8) -> Vec<bool> {
    let mut iter = U8Iterator::from(value);
    let mut bits = Vec::new();
    while let Some(bit) = iter.next() {
        bits.push(bit);
    }
    bits
}

fn collect_color_bits<Order: ColorOrder>(iter: &mut ColorIterator<Order>) -> Vec<bool> {
    let mut bits = Vec::new();
    while let Some(bit) = iter.next() {
        bits.push(bit);
    }
    bits
}

#[test]
fn gbr_order_concatenates_green_red_blue() {
    let samples = [
        (0u8, 0u8, 0u8),
        (255, 255, 255),
        (1, 2, 3),
        (0b1010_1010, 0b0101_0101, 0b1110_0001),
        (200, 100, 50),
    ];
    for (red, green, blue) in samples {
        let mut iter = Color::new(red, green, blue).into_iter_gbr();
        let bits = collect_color_bits(&mut iter);
        assert_eq!(bits.len(), 24);
        let mut expected = byte_bits(green);
        expected.extend(byte_bits(red));
        expected.extend(byte_bits(blue));
        assert_eq!(bits, expected);
    }
}

#[test]
fn black_is_all_false_and_white_is_all_true() {
    let mut black = Color::new(0, 0, 0).into_iter_gbr();
    assert_eq!(collect_color_bits(&mut black), vec![false; 24]);

    let mut white = Color::new(255, 255, 255).into_iter_gbr();
    assert_eq!(collect_color_bits(&mut white), vec![true; 24]);
}

#[test]
fn exhausted_color_iterator_stays_done() {
    let mut iter = Color::new(17, 34, 51).into_iter_gbr();
    for _ in 0..24 {
        assert!(iter.next().is_some());
    }
    for _ in 0..50 {
        assert_eq!(iter.next(), None);
    }
}

#[test]
fn mixed_example_in_gbr_order() {
    let pink = Color::new(255, 0b1010_1010, 0b1110_0001);
    let mut iter = pink.into_iter_gbr();
    for _ in 0..=3 {
        // green
        assert_eq!(iter.next(), Some(true));
        assert_eq!(iter.next(), Some(false));
    }
    for _ in 0..=7 {
        // red
        assert_eq!(iter.next(), Some(true));
    }
    for _ in 0..=2 {
        // blue
        assert_eq!(iter.next(), Some(true));
    }
    for _ in 0..=3 {
        assert_eq!(iter.next(), Some(false));
    }
    assert_eq!(iter.next(), Some(true));
    assert_eq!(iter.next(), None);
}

#[test]
fn generic_into_iter_matches_gbr_shorthand() {
    let color = Color::new(9, 90, 200);
    let mut by_shorthand = color.into_iter_gbr();
    let color = Color::new(9, 90, 200);
    let mut by_generic = color.into_iter::<OrderGBR>();
    assert_eq!(
        collect_color_bits(&mut by_shorthand),
        collect_color_bits(&mut by_generic)
    );
}

#[test]
fn color_new_keeps_channel_order_of_arguments() {
    let mut iter = Color::new(255, 0, 0).into_iter_gbr();
    let bits = collect_color_bits(&mut iter);
    let mut expected = vec![false; 8];
    expected.extend(vec![true; 8]);
    expected.extend(vec![false; 8]);
    assert_eq!(bits, expected);
}
