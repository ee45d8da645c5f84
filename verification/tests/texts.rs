use graph_engine::text::{collapse, contains_text, normalize, push_decimal, white_space};

#[test]
fn white_space_is_that_of_unicode() {
    for code in 0..=0x10ffffu32 {
        if let Some(c) = char::from_u32(code) {
            assert_eq!(white_space(c), c.is_whitespace(), "{:x}", code);
        }
    }
}

fn samples() -> Vec<String> {
    let pieces = ["", " ", "a", "Bc", "\t", "\n ", "\u{a0}", "Ñandú", "ΣΑΣ", "İ", "|", "農 曆"];
    let mut all: Vec<String> = Vec::new();
    for a in pieces {
        for b in pieces {
            for c in pieces {
                all.push(format!("{}{}{}", a, b, c));
            }
        }
    }
    all
}

#[test]
fn normal_form_splits_joins_and_lowers() {
    for text in samples() {
        let expected = text.split_whitespace().collect::<Vec<_>>().join(" ").to_lowercase();
        assert_eq!(normalize(&text), expected, "{:?}", text);
    }
}

#[test]
fn normalize_trims_collapses_and_lowers() {
    assert_eq!(normalize("  El  Sol\tes una\n\nEstrella "), "el sol es una estrella");
    assert_eq!(normalize("MAÑANA"), "mañana");
    assert_eq!(normalize(" \t\n "), "");
    assert_eq!(normalize(""), "");
}

#[test]
fn normalizing_twice_is_normalizing_once() {
    for text in ["  A  b ", "x", "", "Uno | DOS   tres"] {
        assert_eq!(normalize(&normalize(text)), normalize(text));
    }
}

#[test]
fn case_and_spacing_do_not_matter() {
    assert_eq!(normalize("Hola Mundo"), normalize("\thola   MUNDO \n"));
    assert_ne!(normalize("Hola Mundo"), normalize("HolaMundo"));
}

#[test]
fn collapse_keeps_case() {
    assert_eq!(collapse("  A   B  "), "A B");
    assert_eq!(collapse(&collapse(" a \t b")), "a b");
}

#[test]
fn containment_is_that_of_substrings() {
    let all = ["", "a", "ab", "aba", "abab", "b", "ñ", "xñy", "aab", "ba"];
    for text in all {
        for needle in all {
            assert_eq!(contains_text(text, needle), text.contains(needle), "{} {}", text, needle);
        }
    }
    assert!(contains_text("aaab", "aab"));
    assert!(!contains_text("aaa", "aaaa"));
}

#[test]
fn decimal_digits() {
    for number in [0u32, 1, 9, 10, 11, 99, 100, 12345, 2147483647, u32::MAX] {
        let mut out = String::from("n=");
        push_decimal(&mut out, number);
        assert_eq!(out, format!("n={}", number));
    }
}
