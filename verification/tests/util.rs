use platemaker::util::get_slice_by_char;

#[test]
fn slices_correct_amount() {
    assert_eq!(get_slice_by_char("ABCDEFG", 0..3), "ABC");
    assert_eq!(get_slice_by_char("1234567890", 0..4), "1234");

    assert_eq!(get_slice_by_char("こんにちは世界", 0..6), "こんにちは世");
}

#[test]
fn handles_overflow() {
    assert_eq!(get_slice_by_char("1234567890", 10..15), "");
    assert_eq!(get_slice_by_char("1234567890", 5..15), "67890");
}

#[test]
fn the_end_of_the_range_counts_from_its_start() {
    assert_eq!(get_slice_by_char("abcdef", 2..3), "cde");
    assert_eq!(get_slice_by_char("abcdef", 2..1), "c");
    assert_eq!(get_slice_by_char("", 0..0), "");
    assert_eq!(get_slice_by_char("日本語", 1..1), "本");
}
