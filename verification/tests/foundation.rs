use jellyswarrm::clock::{Timestamp, NANOS_PER_SECOND};
use jellyswarrm::ids::{id_text, new_id, parse_id};
use jellyswarrm::table::Table;
use jellyswarrm::text::{
    contains_text, eq_ignore_ascii_case, same_text, text_before, to_ascii_lowercase, trim,
};

#[test]
fn a_table_keeps_its_rows_in_order() {
    let mut table: Table<String, u128> = Table::new();
    assert!(table.is_empty());
    table.insert("b".to_string(), 1);
    table.insert("a".to_string(), 2);
    table.insert("b".to_string(), 3);
    assert_eq!(table.len(), 2);
    assert_eq!(table.key_at(0), "b");
    assert_eq!(*table.value_at(0), 3);
    assert_eq!(table.get(&"a".to_string()), Some(&2));
    assert!(table.contains_key(&"b".to_string()));
    assert_eq!(table.remove(&"b".to_string()), Some(3));
    assert_eq!(table.remove(&"b".to_string()), None);
    assert_eq!(table.get(&"b".to_string()), None);
    let copy = table.clone();
    assert_eq!(copy.into_rows(), vec![("a".to_string(), 2)]);
}

#[test]
fn identifiers_are_read_in_every_form() {
    let id = 0x550e8400_e29b_41d4_a716_446655440000_u128;
    let grouped = "550e8400-e29b-41d4-a716-446655440000";
    assert_eq!(id_text(id), grouped);
    assert_eq!(parse_id(grouped), Some(id));
    assert_eq!(parse_id("550E8400E29B41D4A716446655440000"), Some(id));
    assert_eq!(
        parse_id("{550e8400-e29b-41d4-a716-446655440000}"),
        Some(id)
    );
    assert_eq!(
        parse_id("urn:uuid:550e8400-e29b-41d4-a716-446655440000"),
        Some(id)
    );
    assert_eq!(
        parse_id("URN:UUID:550E8400-e29b-41d4-a716-446655440000"),
        Some(id)
    );
    assert_eq!(parse_id("550e8400e29b-41d4-a716-446655440000"), None);
    assert_eq!(parse_id("{550e8400e29b41d4a716446655440000}"), None);
    assert_eq!(parse_id("550e8400-e29b-41d4-a716-44665544000g"), None);
    assert_eq!(parse_id(""), None);
    assert_eq!(id_text(0), "00000000-0000-0000-0000-000000000000");
}

#[test]
fn new_identifiers_are_random_ones() {
    let a = new_id();
    let b = new_id();
    assert_ne!(a, b);
    assert_ne!(a, 0);
    let text = id_text(a);
    assert_eq!(&text[14..15], "4");
    assert!("89ab".contains(&text[19..20]));
    assert_eq!(parse_id(&text), Some(a));
}

#[test]
fn the_clock_goes_on() {
    let a = Timestamp::now();
    let b = Timestamp::now();
    assert!(a.nanos <= b.nanos);
    // 2020-01-01
    assert!(a.whole_seconds() > 1_577_836_800);
    assert!(a.subsec_nanos() < 1_000_000_000);
    let at = Timestamp::from_parts(3, 7).plus(NANOS_PER_SECOND);
    assert_eq!(at, Timestamp::from_parts(4, 7));
    assert_eq!(at.whole_seconds(), 4);
    assert_eq!(at.subsec_nanos(), 7);
    assert_eq!(
        Timestamp { nanos: 5 }.plus(u128::MAX),
        Timestamp { nanos: u128::MAX }
    );
}

#[test]
fn texts_are_trimmed_and_lowered() {
    let samples = vec![
        "", " ", "a", " a ", "\t\u{a0}x y\u{2003}\n", "\u{200b}z", "\u{1680}\u{3000}",
        "\u{85}q\u{2028}\u{2029}\u{202f}\u{205f}",
    ];
    for sample in samples {
        assert_eq!(trim(sample), sample.trim());
    }
    assert_eq!(to_ascii_lowercase("ÄBC xYz"), "Äbc xyz");
    assert!(eq_ignore_ascii_case("LiveTV", "livetv"));
    assert!(!eq_ignore_ascii_case("Ä", "ä"));
    assert!(same_text("a", "a"));
    assert!(!same_text("a", "A"));
}

#[test]
fn texts_are_found_and_ordered() {
    assert!(contains_text("abcabd", "abd"));
    assert!(contains_text("abc", ""));
    assert!(contains_text("", ""));
    assert!(!contains_text("ab", "abc"));
    assert!(!contains_text("abcab", "bd"));
    let samples = vec!["", "a", "ab", "b", "B", "é", "\u{ffff}", "\u{10000}"];
    for a in &samples {
        for b in &samples {
            assert_eq!(text_before(a, b), a < b);
        }
    }
}
