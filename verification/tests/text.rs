use dmerg::text::{chars_of, commas_to_dots, is_whitespace, join_tokens, split_tokens};

fn words(texts: &[&str]) -> Vec<String> {
    texts.iter().map(|t| t.to_string()).collect()
}

#[test]
fn whitespace_is_what_std_calls_whitespace() {
    for n in 0..=0x10ffffu32 {
        if let Some(c) = char::from_u32(n) {
            assert_eq!(is_whitespace(c), c.is_whitespace(), "U+{:04X}", n);
        }
    }
}

#[test]
fn split_tokens_gives_the_words() {
    assert_eq!(split_tokens("a bc  def"), words(&["a", "bc", "def"]));
    assert_eq!(split_tokens("  lead and trail \n"), words(&["lead", "and", "trail"]));
    assert_eq!(split_tokens("tab\tand\u{3000}wide\u{a0}space"), words(&["tab", "and", "wide", "space"]));
    assert_eq!(split_tokens("single"), words(&["single"]));
    assert_eq!(split_tokens(""), Vec::<String>::new());
    assert_eq!(split_tokens(" \t\r\n"), Vec::<String>::new());
    assert_eq!(split_tokens("é ü"), words(&["é", "ü"]));
}

#[test]
fn split_tokens_agrees_with_std() {
    for text in ["", " ", "a", " a", "a ", "a  b", "\u{2003}x\u{2028}y\u{205f}", "x\u{200b}y z", "1,2 3.4"] {
        let expected: Vec<String> = text.split_whitespace().map(|w| w.to_string()).collect();
        assert_eq!(split_tokens(text), expected, "{:?}", text);
    }
}

#[test]
fn join_tokens_puts_one_space_between_words() {
    let w = words(&["stamp", "a", "b", "c"]);
    assert_eq!(join_tokens(&w, 0), "stamp a b c");
    assert_eq!(join_tokens(&w, 1), "a b c");
    assert_eq!(join_tokens(&w, 3), "c");
    assert_eq!(join_tokens(&w, 4), "");
    assert_eq!(join_tokens(&w, 9), "");
    assert_eq!(join_tokens(&Vec::new(), 0), "");
}

#[test]
fn commas_become_full_stops() {
    assert_eq!(commas_to_dots("07:24:23,364133"), "07:24:23.364133");
    assert_eq!(commas_to_dots(",,a,.b"), "..a..b");
    assert_eq!(commas_to_dots("none"), "none");
    assert_eq!(commas_to_dots(""), "");
}

#[test]
fn chars_of_lists_the_characters() {
    assert_eq!(chars_of("aé\u{3000}z"), vec!['a', 'é', '\u{3000}', 'z']);
    assert_eq!(chars_of(""), Vec::<char>::new());
}
