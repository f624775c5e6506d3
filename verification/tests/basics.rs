use altai_control::outside::{digest_text, hex};
use altai_control::stable_sort::{stable_order, SortKey};
use altai_control::table::Table;
use altai_control::text;

fn key(rank: u64, name: &str) -> SortKey {
    SortKey { rank, name: name.to_string() }
}

fn texts(values: &[&str]) -> Vec<String> {
    values.iter().map(|value| value.to_string()).collect()
}

#[test]
fn digests_are_small_hexadecimal_digits() {
    assert_eq!(hex(&[0x00, 0x0f, 0xa7, 0xff]), "000fa7ff");
    assert_eq!(hex(&[]), "");
    assert_eq!(
        digest_text("abc"),
        "ba7816bf8f01cfea414140de5dae2223b00361a396177a9cb410ff61f20015ad"
    );
    assert_eq!(
        digest_text(""),
        "e3b0c44298fc1c149afbf4c8996fb92427ae41e4649b934ca495991b7852b855"
    );
}

#[test]
fn white_space_is_that_of_the_standard_library() {
    let samples = [
        ' ', '\t', '\n', '\u{b}', '\u{c}', '\r', '\u{85}', '\u{a0}', '\u{1680}', '\u{2000}',
        '\u{200a}', '\u{2028}', '\u{2029}', '\u{202f}', '\u{205f}', '\u{3000}', '\u{200b}', 'a',
        '\u{feff}', '\u{180e}', '\0',
    ];
    for c in samples {
        assert_eq!(text::white_space(c), c.is_whitespace(), "{c:?}");
    }
    assert_eq!(text::trim(" \u{3000} a b \n"), "a b");
    assert_eq!(text::trim(" \t "), "");
    assert_eq!(text::trimmed_end(" a \r\n"), " a");
    assert!(text::blank("\u{2003}\n"));
    assert!(!text::blank("\u{200b}"));
}

#[test]
fn cut_texts_end_at_a_character() {
    assert_eq!(text::truncate("abc", 2), "ab");
    assert_eq!(text::truncate("abc", 3), "abc");
    assert_eq!(text::truncate("a\u{e9}b", 2), "a");
    assert_eq!(text::truncate("a\u{e9}b", 3), "a\u{e9}");
    assert_eq!(text::truncate("\u{1f600}", 3), "");
    for c in ['a', '\u{7f}', '\u{80}', '\u{7ff}', '\u{800}', '\u{ffff}', '\u{10000}'] {
        assert_eq!(text::width(c), c.len_utf8());
    }
    assert_eq!(text::byte_count("a\u{e9}\u{1f600}"), 7);
}

#[test]
fn numerals_are_decimal() {
    assert_eq!(text::numeral(0), "0");
    assert_eq!(text::numeral(10), "10");
    assert_eq!(text::numeral(u64::MAX), u64::MAX.to_string());
    assert_eq!(text::signed_numeral(-7), "-7");
    assert_eq!(text::signed_numeral(i64::MIN), i64::MIN.to_string());
    assert_eq!(text::signed_numeral(i64::MAX), i64::MAX.to_string());
    assert_eq!(text::padded("7", 3), "  7");
    assert_eq!(text::padded("4567", 3), "4567");
}

#[test]
fn texts_are_searched_and_joined() {
    assert!(text::has("authorization: x", "zation:"));
    assert!(text::has("x", ""));
    assert!(!text::has("ab", "abc"));
    assert!(text::starts("sub_1", "sub_"));
    assert!(!text::starts("su", "sub_"));
    assert_eq!(text::to_lower("AbC\u{c9}"), "abc\u{c9}");
    assert_eq!(text::join_all(&texts(&["a", "", "c"]), ", "), "a, , c");
    assert_eq!(text::join_all(&texts(&[]), ", "), "");
    assert_eq!(text::trim_end("a//", '/'), "a");
    assert_eq!(text::line_before("one\ntwo"), "one");
    assert_eq!(text::line_before("one"), "one");
    assert!(text::listed(&texts(&["a", "b"]), "b"));
    assert!(!text::listed(&texts(&["a", "b"]), "c"));
}

#[test]
fn texts_are_ordered_as_strings_are() {
    let samples = ["", "a", "aa", "ab", "b", "Z", "\u{e9}", "\u{ffff}", "\u{1f600}"];
    for a in samples {
        for b in samples {
            assert_eq!(text::before(a, b), a < b, "{a:?} {b:?}");
            assert_eq!(text::same(a, b), a == b);
        }
    }
}

#[test]
fn a_table_keeps_its_keys_in_order() {
    let mut table: Table<u64> = Table::new();
    table.put("b".to_string(), 1);
    table.put("a".to_string(), 2);
    table.put("c".to_string(), 3);
    table.put("b".to_string(), 4);
    assert_eq!(table.len(), 3);
    assert_eq!((table.key(0).as_str(), *table.row(0)), ("a", 2));
    assert_eq!((table.key(1).as_str(), *table.row(1)), ("b", 4));
    assert_eq!((table.key(2).as_str(), *table.row(2)), ("c", 3));
    assert_eq!(table.get("b"), Some(&4));
    assert_eq!(table.get("d"), None);
    assert!(table.has("c"));
    assert!(!table.has(""));
}

#[test]
fn rows_with_equal_keys_keep_their_order() {
    let keys = vec![key(2, "a"), key(1, "b"), key(2, "a"), key(1, "a"), key(1, "b")];
    assert_eq!(stable_order(&keys), vec![3, 1, 4, 0, 2]);
    assert_eq!(stable_order(&Vec::new()), Vec::<usize>::new());
}
