use imdb_indexer::ranking::{sort_by_key, take_ranked};
use imdb_indexer::text::{
    before_first, byte_len, chars_of, contains_text, copy_texts, decode_or_empty,
    eq_ignore_ascii_case, format_decimal, format_radix, is_blank, is_text, join, low_32, own_opt,
    parse_u32, parse_u64, same, split_on, split_on_text, split_words, starts_with, text_between,
    trim,
};

fn owned(items: &[&str]) -> Vec<String> {
    items.iter().map(|s| s.to_string()).collect()
}

#[test]
fn trimming_takes_unicode_whitespace() {
    assert_eq!(trim("  Дюна \u{00a0}\n"), "Дюна");
    assert_eq!(trim(" \t "), "");
    assert_eq!(trim("a b"), "a b");
    assert!(is_blank(" \u{2003} "));
    assert!(!is_blank(" x "));
}

#[test]
fn words_are_runs_of_letters_and_digits() {
    assert_eq!(split_words("клик: с пультом по-жизни!"), owned(&["клик", "с", "пультом", "по", "жизни"]));
    assert_eq!(split_words("2001"), owned(&["2001"]));
    assert_eq!(split_words(" ... "), Vec::<String>::new());
}

#[test]
fn ascii_and_russian_letters_are_told_apart() {
    let russian: Vec<char> = ('А'..='я').chain(['Ё', 'ё']).collect();
    for c in ('\u{0}'..='\u{7f}').chain(russian) {
        let is_space = ('\u{9}'..='\u{d}').contains(&c) || c == ' ';
        let is_letter = c.is_ascii_alphabetic() || !c.is_ascii();
        let text = c.to_string();
        assert_eq!(trim(&text).is_empty(), is_space, "{:?}", c);
        assert_eq!(split_words(&text).len() == 1, is_letter || c.is_ascii_digit(), "{:?}", c);
    }
}

#[test]
fn splitting_keeps_empty_pieces() {
    assert_eq!(split_on("a,,b", ','), owned(&["a", "", "b"]));
    assert_eq!(split_on("", ','), owned(&[""]));
    assert_eq!(split_on_text("Action, Sci-Fi,x,, y", ", "), owned(&["Action", "Sci-Fi,x,", "y"]));
    assert_eq!(split_on_text("", ", "), owned(&[""]));
    assert_eq!(before_first("1999-03-31", '-'), "1999");
    assert_eq!(before_first("1999", '-'), "1999");
}

#[test]
fn joining_puts_the_mark_between() {
    assert_eq!(join(&owned(&["a", "b", "c"]), ", "), "a, b, c");
    assert_eq!(join(&owned(&["a"]), ", "), "a");
    assert_eq!(join(&Vec::new(), ", "), "");
}

#[test]
fn numbers_are_read_like_the_standard_library_reads_them() {
    for text in ["0", "007", "+5", "", "+", "-1", "4294967295", "4294967296", "12a", "٣", "++1", " 1"] {
        assert_eq!(parse_u32(text), text.parse::<u32>().ok(), "{}", text);
    }
    for text in ["18446744073709551615", "18446744073709551616", "99999999999999999999999", "1880"] {
        assert_eq!(parse_u64(text), text.parse::<u64>().ok(), "{}", text);
    }
}

#[test]
fn numbers_are_written_like_the_standard_library_writes_them() {
    for n in [0u64, 7, 10, 99, 100, 12345, u64::MAX] {
        assert_eq!(format_decimal(n), n.to_string());
        assert_eq!(format_radix(n as u128, 16), format!("{:x}", n));
        assert_eq!(parse_u64(&format_decimal(n)), Some(n));
    }
    assert_eq!(format_radix(u128::MAX, 16), format!("{:x}", u128::MAX));
    assert_eq!(low_32(0x1_0000_0007), 7);
}

#[test]
fn comparisons_look_at_characters() {
    assert!(same("ё", "ё"));
    assert!(!same("ё", "е"));
    assert!(eq_ignore_ascii_case("YouTube", "YOUTUBE"));
    assert!(!eq_ignore_ascii_case("Ё", "ё"));
    assert!(starts_with("матрица", "мат"));
    assert!(!starts_with("мат", "матрица"));
    assert!(starts_with("мат", ""));
    assert!(is_text(Some("ru"), "ru"));
    assert!(!is_text(None, "ru"));
    assert!(contains_text(&owned(&["movie", "tvSeries"]), "movie"));
    assert!(!contains_text(&owned(&["movie"]), "Movie"));
}

#[test]
fn bytes_become_text_or_nothing() {
    assert_eq!(decode_or_empty("Матрица".as_bytes()), "Матрица");
    assert_eq!(decode_or_empty(&[0xff, 0x41]), "");
    assert_eq!(byte_len("ё1"), 3);
    assert_eq!(chars_of("ё1"), vec!['ё', '1']);
    assert_eq!(text_between(&vec!['a', 'b', 'c'], 1, 3), "bc");
    assert_eq!(own_opt(Some("x")), Some("x".to_string()));
    assert_eq!(copy_texts(&owned(&["a", "b"])), owned(&["a", "b"]));
}

#[test]
fn sorting_keeps_the_order_of_equal_keys() {
    let items = vec![(3u64, "c"), (1, "a"), (3, "d"), (2, "b"), (1, "e")];
    assert_eq!(sort_by_key(items.clone()), vec![(1, "a"), (1, "e"), (2, "b"), (3, "c"), (3, "d")]);
    assert_eq!(take_ranked(items.clone(), 3), vec!["a", "e", "b"]);
    assert_eq!(take_ranked(items, 9).len(), 5);
}
