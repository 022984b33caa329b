use order_by::chars::{chars_of, is_whitespace, same_text, trim_range};
use order_by::pieces::next_piece;

#[test]
fn white_space_is_what_the_standard_library_takes_for_it() {
    for code in 0..=0x10ffff_u32 {
        if let Some(c) = char::from_u32(code) {
            assert_eq!(is_whitespace(c), c.is_whitespace(), "{:?}", c);
        }
    }
}

#[test]
fn white_space_holds_the_usual_characters() {
    for c in [' ', '\t', '\n', '\u{b}', '\u{c}', '\r', '\u{85}', '\u{a0}', '\u{2003}', '\u{3000}'] {
        assert!(is_whitespace(c), "{:?}", c);
    }
    for c in ['a', '_', '.', ',', '0', '\u{8}', '\u{e}', '\u{200b}', '\u{feff}'] {
        assert!(!is_whitespace(c), "{:?}", c);
    }
}

#[test]
fn chars_of_gives_every_character() {
    assert_eq!(chars_of(""), Vec::<char>::new());
    assert_eq!(chars_of("a,b"), vec!['a', ',', 'b']);
    assert_eq!(chars_of("h\u{e9}\u{4e16}"), vec!['h', '\u{e9}', '\u{4e16}']);
}

#[test]
fn same_text_compares_characters() {
    assert!(same_text("", ""));
    assert!(same_text("desc", "desc"));
    assert!(!same_text("desc", "DESC"));
    assert!(!same_text("desc", "des"));
    assert!(!same_text("des", "desc"));
    assert!(!same_text("desc", "dest"));
}

fn trimmed(s: &str) -> String {
    let chars: Vec<char> = s.chars().collect();
    let (from, to) = trim_range(&chars, 0, chars.len());
    chars[from..to].iter().collect()
}

#[test]
fn trim_range_trims_both_ends() {
    for s in ["", " ", "   ", "a", " a", "a ", "  a b  ", "\t\na\u{a0}b\r\n", "\u{2003}x y\u{3000}", " \u{200b} "] {
        assert_eq!(trimmed(s), s.trim(), "{:?}", s);
    }
    let chars: Vec<char> = "ab  cd  ef".chars().collect();
    assert_eq!(trim_range(&chars, 2, 8), (4, 6));
    assert_eq!(trim_range(&chars, 2, 4), (4, 4));
    assert_eq!(trim_range(&chars, 3, 3), (3, 3));
    assert_eq!(trim_range(&chars, 0, 10), (0, 10));
}

fn pieces_of(s: &str, sep: char) -> Vec<String> {
    let chars: Vec<char> = s.chars().collect();
    let mut found = Vec::new();
    let mut from = 0;
    while let Some((start, end)) = next_piece(&chars, from, chars.len(), sep) {
        found.push(chars[start..end].iter().collect());
        from = end;
    }
    found
}

#[test]
fn next_piece_walks_the_non_empty_pieces() {
    for s in ["", ",", ",,", "a", "a,b", ",a", "a,", "a,,b", ",,ab,,,c,d,,", "a b, c"] {
        let expected: Vec<String> = s
            .split(',')
            .filter(|piece| !piece.is_empty())
            .map(|piece| piece.to_string())
            .collect();
        assert_eq!(pieces_of(s, ','), expected, "{:?}", s);
    }
    assert_eq!(pieces_of("  name   desc ", ' '), vec!["name", "desc"]);
}

#[test]
fn next_piece_gives_the_bounds() {
    let chars: Vec<char> = ",,ab,c".chars().collect();
    assert_eq!(next_piece(&chars, 0, 6, ','), Some((2, 4)));
    assert_eq!(next_piece(&chars, 4, 6, ','), Some((5, 6)));
    assert_eq!(next_piece(&chars, 6, 6, ','), None);
    assert_eq!(next_piece(&chars, 0, 2, ','), None);
    assert_eq!(next_piece(&chars, 0, 3, ','), Some((2, 3)));
    assert_eq!(next_piece(&chars, 3, 6, ','), Some((3, 4)));
}
