use rustpl::text::{begins_with, chars_of, cut_once, find_first, find_last, slice_of, trimmed, whitespace};

#[test]
fn whitespace_is_what_the_standard_library_calls_whitespace() {
    let mut c = '\0';
    loop {
        assert_eq!(whitespace(c), c.is_whitespace(), "{:?}", c);
        if c == char::MAX {
            break;
        }
        c = char::from_u32(c as u32 + 1).unwrap_or('\u{e000}');
    }
}

#[test]
fn trimming_agrees_with_the_standard_library() {
    let samples = [
        "",
        " ",
        "a",
        " a",
        "a ",
        "  a b  ",
        "\t\n\r x \u{b}\u{c}",
        "\u{a0}\u{1680}\u{2000}key\u{200a}\u{2028}\u{2029}\u{202f}\u{205f}\u{3000}",
        "\u{85}x\u{85}",
        "\u{200b}x\u{200b}",
        " \t\n ",
        "é ü",
        "  日本語  ",
    ];
    for s in samples {
        assert_eq!(trimmed(s), s.trim(), "{:?}", s);
    }
}

#[test]
fn trimming_exact_values() {
    assert_eq!(trimmed("  key \t"), "key");
    assert_eq!(trimmed("a  b"), "a  b");
    assert_eq!(trimmed(" \u{3000} "), "");
}

#[test]
fn cutting_at_the_first_separator() {
    assert_eq!(cut_once("a=b=c", '='), Some(("a".to_string(), "b=c".to_string())));
    assert_eq!(cut_once("=b", '='), Some((String::new(), "b".to_string())));
    assert_eq!(cut_once("a=", '='), Some(("a".to_string(), String::new())));
    assert_eq!(cut_once("=", '='), Some((String::new(), String::new())));
    assert_eq!(cut_once("abc", '='), None);
    assert_eq!(cut_once("", '='), None);
    assert_eq!(cut_once("ké=ü", '='), Some(("ké".to_string(), "ü".to_string())));
}

#[test]
fn cutting_agrees_with_the_standard_library() {
    for s in ["", "=", "a", "a=b", "==", "x=y=z", "日本=語=", "=é"] {
        let expected = s.split_once('=').map(|(a, b)| (a.to_string(), b.to_string()));
        assert_eq!(cut_once(s, '='), expected, "{:?}", s);
    }
}

#[test]
fn positions_count_characters() {
    let chars = chars_of("é=ü=");
    assert_eq!(chars, vec!['é', '=', 'ü', '=']);
    assert_eq!(find_first(&chars, '='), Some(1));
    assert_eq!(find_first(&chars, 'x'), None);
    assert_eq!(find_last(&chars, '=', 0, 4), Some(3));
    assert_eq!(find_last(&chars, '=', 2, 4), Some(1));
    assert_eq!(find_last(&chars, '=', 0, 1), None);
    assert_eq!(find_last(&chars, 'x', 0, 4), None);
    assert_eq!(slice_of("é=ü=", 2, 4), "ü=");
    assert_eq!(slice_of("é=ü=", 0, 0), "");
}

#[test]
fn prefixes() {
    assert!(begins_with("APP_MODE", "APP_"));
    assert!(begins_with("APP_", "APP_"));
    assert!(begins_with("anything", ""));
    assert!(begins_with("", ""));
    assert!(!begins_with("APP", "APP_"));
    assert!(!begins_with("app_mode", "APP_"));
    assert!(!begins_with("MY_APP_", "APP_"));
    assert!(!begins_with("", "A"));
    assert!(begins_with("éa", "é"));
}

#[test]
fn every_short_text_is_trimmed_and_cut_as_the_standard_library_does() {
    let alphabet = ['k', ' ', '\t', '\u{3000}', '='];
    let mut texts = vec![String::new()];
    let mut from = 0;
    for _ in 0..6 {
        let to = texts.len();
        for i in from..to {
            for c in alphabet {
                let mut longer = texts[i].clone();
                longer.push(c);
                texts.push(longer);
            }
        }
        from = to;
    }
    assert_eq!(texts.len(), 19531);
    for text in &texts {
        assert_eq!(trimmed(text), text.trim(), "{:?}", text);
        let expected = text.split_once('=').map(|(a, b)| (a.to_string(), b.to_string()));
        assert_eq!(cut_once(text, '='), expected, "{:?}", text);
        assert_eq!(begins_with(text, "k "), text.starts_with("k "), "{:?}", text);
    }
}
