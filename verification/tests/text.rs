use todo_cli::text::{
    chars_of, concat2, concat3, contains, join, lines, replace, same, split_whitespace, string_of, take_bytes, trim,
};

const SAMPLES: [&str; 30] = [
    "",
    " ",
    "a",
    " a",
    "a ",
    "  a  b  ",
    "\t\ttab\t",
    "line\n",
    "line\r\n",
    "one\ntwo",
    "one\r\ntwo\r\n",
    "one\n\ntwo",
    "\n",
    "\r",
    "\r\n",
    "a\rb",
    "a\r",
    "a\r\r\n",
    "\n\n",
    "x\u{a0}y",
    "\u{2003}wide\u{2003}",
    "\u{3000}",
    "été déjà",
    "日本語 テキスト",
    "aaa",
    "abab",
    "ababa",
    "buy milk and milk",
    "mil",
    "🙂 smile 🙂",
];

#[test]
fn characters_go_in_and_out() {
    for s in SAMPLES {
        let chars = chars_of(s);
        assert_eq!(chars, s.chars().collect::<Vec<char>>());
        assert_eq!(string_of(&chars), s);
    }
}

#[test]
fn trim_agrees_with_the_standard_library() {
    for s in SAMPLES {
        assert_eq!(trim(s), s.trim(), "{:?}", s);
    }
    assert_eq!(trim("  yes \n"), "yes");
    assert_eq!(trim("\u{2003}yes\u{a0}"), "yes");
}

#[test]
fn words_agree_with_the_standard_library() {
    for s in SAMPLES {
        let want: Vec<String> = s.split_whitespace().map(|w| w.to_string()).collect();
        assert_eq!(split_whitespace(s), want, "{:?}", s);
    }
    assert_eq!(split_whitespace("tc  a\tnew\u{3000}todo "), vec!["tc", "a", "new", "todo"]);
}

#[test]
fn lines_agree_with_the_standard_library() {
    for s in SAMPLES {
        let want: Vec<String> = s.lines().map(|w| w.to_string()).collect();
        assert_eq!(lines(s), want, "{:?}", s);
    }
    assert_eq!(lines("a\r\nb\n\nc"), vec!["a", "b", "", "c"]);
    assert_eq!(lines("a\r"), vec!["a\r"]);
}

#[test]
fn contains_agrees_with_the_standard_library() {
    for hay in SAMPLES {
        for needle in SAMPLES {
            assert_eq!(contains(hay, needle), hay.contains(needle), "{:?} {:?}", hay, needle);
        }
    }
    assert!(contains("buy milk", "milk"));
    assert!(contains("buy milk", ""));
    assert!(!contains("buy milk", "Milk"));
}

#[test]
fn replace_agrees_with_the_standard_library() {
    for s in SAMPLES {
        for from in SAMPLES {
            for to in ["", "-", "<b>", "aa"] {
                assert_eq!(replace(s, from, to), s.replace(from, to), "{:?} {:?} {:?}", s, from, to);
            }
        }
    }
    assert_eq!(replace("ababa", "aba", "x"), "xba");
    assert_eq!(replace("abc", "", "-"), "-a-b-c-");
    assert_eq!(replace("", "", "-"), "-");
}

#[test]
fn join_puts_the_separator_between() {
    let none: Vec<String> = vec![];
    assert_eq!(join(&none, " "), "");
    assert_eq!(join(&vec!["one".to_string()], " "), "one");
    assert_eq!(join(&vec!["new".to_string(), "todo".to_string()], " "), "new todo");
    assert_eq!(join(&vec!["".to_string(), "".to_string(), "x".to_string()], ", "), ", , x");
    assert_eq!(concat2("ab", "cd"), "abcd");
    assert_eq!(concat3("a", "", "c"), "ac");
}

#[test]
fn equal_texts_are_the_same() {
    for a in SAMPLES {
        for b in SAMPLES {
            assert_eq!(same(a, b), a == b);
        }
    }
}

#[test]
fn bytes_are_taken_where_characters_end() {
    assert_eq!(take_bytes("2024-05-01T10:00:00", 10), Some("2024-05-01"));
    assert_eq!(take_bytes("2024-05-01", 10), Some("2024-05-01"));
    assert_eq!(take_bytes("2024-05-0", 10), None);
    assert_eq!(take_bytes("", 0), Some(""));
    assert_eq!(take_bytes("été", 1), None);
    assert_eq!(take_bytes("été", 2), Some("é"));
    assert_eq!(take_bytes("2024-05-0é", 10), None);
    for s in SAMPLES {
        for n in 0..12 {
            assert_eq!(take_bytes(s, n), s.get(..n), "{:?} {}", s, n);
        }
    }
}

#[test]
fn words_and_lines_hold_no_separator() {
    for s in SAMPLES {
        for word in split_whitespace(s) {
            assert!(!word.is_empty());
            assert!(!word.chars().any(|c| c.is_whitespace()), "{:?}", s);
        }
        for line in lines(s) {
            assert!(!line.contains('\n'), "{:?}", s);
        }
        let trimmed = trim(s);
        assert!(trimmed.chars().next().map_or(true, |c| !c.is_whitespace()));
        assert!(trimmed.chars().last().map_or(true, |c| !c.is_whitespace()));
    }
}

#[test]
fn a_text_without_the_keyword_stays_as_it_is() {
    for s in SAMPLES {
        for from in SAMPLES {
            if !from.is_empty() {
                assert_eq!(replace(s, from, from), s);
                if !contains(s, from) {
                    assert_eq!(replace(s, from, "<>"), s);
                }
            }
        }
    }
}
