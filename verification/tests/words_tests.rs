use text_editor::words::{is_whitespace, join_first_three, split_whitespace};

fn split(s: &str) -> Vec<String> {
    let chars: Vec<char> = s.chars().collect();
    split_whitespace(&chars).into_iter().map(|w| w.into_iter().collect()).collect()
}

#[test]
fn whitespace_agrees_with_std_on_every_char() {
    for n in 0u32..=0x10FFFF {
        if let Some(c) = char::from_u32(n) {
            assert_eq!(is_whitespace(c), c.is_whitespace(), "char {:#x}", n);
        }
    }
}

#[test]
fn split_whitespace_agrees_with_std() {
    for s in ["", "   ", "a", " a  b\tc\n", "x\u{2028}y\u{85}z", "mixed\u{3000}wide space", "no-space"] {
        let expected: Vec<String> = s.split_whitespace().map(|w| w.to_string()).collect();
        assert_eq!(split(s), expected);
    }
}

#[test]
fn join_first_three_words() {
    let ws: Vec<Vec<char>> = ["a", "bc", "d", "e"].iter().map(|w| w.chars().collect()).collect();
    assert_eq!(join_first_three(&ws).into_iter().collect::<String>(), "a_bc_d");
    let ws: Vec<Vec<char>> = ["a", "bc"].iter().map(|w| w.chars().collect()).collect();
    assert_eq!(join_first_three(&ws).into_iter().collect::<String>(), "a_bc");
    let ws: Vec<Vec<char>> = Vec::new();
    assert_eq!(join_first_three(&ws).into_iter().collect::<String>(), "");
}
