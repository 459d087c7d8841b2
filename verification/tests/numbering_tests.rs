use archivist::numbering::{counter_position, digit, letter, next_in_series};
use archivist::text::chars_of;

fn strings(items: &[&str]) -> Vec<String> {
    items.iter().map(|s| s.to_string()).collect()
}

#[test]
fn next_of_series_keeps_prefix_and_width() {
    assert_eq!(next_in_series(&strings(&["img001", "img002", "img010"])), "img011");
}

#[test]
fn next_of_padded_counter_keeps_zeros() {
    assert_eq!(next_in_series(&strings(&["007"])), "008");
    assert_eq!(next_in_series(&strings(&["0001", "0002", "0003"])), "0004");
}

#[test]
fn next_of_nines_grows_by_a_digit() {
    assert_eq!(next_in_series(&strings(&["999"])), "1000");
    assert_eq!(next_in_series(&strings(&["scan9"])), "scan10");
    assert_eq!(next_in_series(&strings(&["0099"])), "0100");
}

#[test]
fn next_of_empty_directory_is_new() {
    assert_eq!(next_in_series(&strings(&[])), "new");
}

#[test]
fn next_without_numbered_entry_is_new() {
    assert_eq!(next_in_series(&strings(&["readme", "a-1", "1a", "", "x 1", "img01.png"])), "new");
}

#[test]
fn entries_without_counter_are_passed_over() {
    assert_eq!(next_in_series(&strings(&["notes", "doc4", ".git", "zzz"])), "doc5");
}

#[test]
fn counters_compare_as_numbers_not_as_texts() {
    assert_eq!(next_in_series(&strings(&["a9", "b10"])), "b11");
    assert_eq!(next_in_series(&strings(&["b10", "a9"])), "b11");
    assert_eq!(next_in_series(&strings(&["0100", "99"])), "0101");
    assert_eq!(next_in_series(&strings(&["99", "0100"])), "0101");
}

#[test]
fn of_equal_counters_the_last_entry_counts() {
    assert_eq!(next_in_series(&strings(&["a5", "b5"])), "b6");
    assert_eq!(next_in_series(&strings(&["b5", "a5"])), "a6");
    assert_eq!(next_in_series(&strings(&["05", "5"])), "6");
    assert_eq!(next_in_series(&strings(&["5", "05"])), "06");
}

#[test]
fn counters_beyond_machine_integers() {
    assert_eq!(
        next_in_series(&strings(&["n4294967295", "n18446744073709551615"])),
        "n18446744073709551616"
    );
    assert_eq!(
        next_in_series(&strings(&["99999999999999999999999999999999999999999"])),
        "100000000000000000000000000000000000000000"
    );
}

#[test]
fn counter_of_zero() {
    assert_eq!(next_in_series(&strings(&["0"])), "1");
    assert_eq!(next_in_series(&strings(&["x000"])), "x001");
}

#[test]
fn counter_position_follows_the_letters() {
    assert_eq!(counter_position(&chars_of("img001")), Some(3));
    assert_eq!(counter_position(&chars_of("42")), Some(0));
    assert_eq!(counter_position(&chars_of("img")), None);
    assert_eq!(counter_position(&chars_of("")), None);
    assert_eq!(counter_position(&chars_of("a1b2")), None);
    assert_eq!(counter_position(&chars_of("é1")), None);
    assert_eq!(counter_position(&chars_of("a١")), None);
}

#[test]
fn letters_and_digits_are_ascii() {
    for code in 0u32..0x3000 {
        if let Some(c) = char::from_u32(code) {
            assert_eq!(letter(c), c.is_ascii_alphabetic());
            assert_eq!(digit(c), c.is_ascii_digit());
        }
    }
}
