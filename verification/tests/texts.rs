use zj_agent_state::screen::truncate;
use zj_agent_state::sidebar_screen;
use zj_agent_state::text::{
    align_right, blank, chars_of, number, parse_u32, same_text, spaces, text_of, trim, white,
};

#[test]
fn white_space_is_that_of_unicode() {
    for c in '\0'..=char::MAX {
        assert_eq!(white(c), c.is_whitespace(), "{:?}", c);
    }
}

#[test]
fn trimming_takes_white_space_off_both_ends() {
    for s in ["", " ", " a ", "a b", "\n\ta\u{2003}", "\u{3000}é\u{85}", "a", "  \n"] {
        assert_eq!(trim(s), s.trim());
        assert_eq!(blank(s), s.trim().is_empty());
    }
}

#[test]
fn numbers_are_written_in_decimal() {
    for n in [0u128, 7, 10, 99, 100, 4294967295, 18446744073709551616, u128::MAX] {
        assert_eq!(number(n), n.to_string());
    }
}

#[test]
fn numbers_are_read_from_decimal() {
    for s in [
        "0", "7", "007", "+7", "4294967295", "4294967296", "99999999999999999999999", "", "+", "-1", "-0",
        " 1", "1 ", "1_0", "0x1", "٣", "++1", "1+",
    ] {
        assert_eq!(parse_u32(s), s.parse::<u32>().ok(), "{:?}", s);
    }
}

#[test]
fn texts_are_compared_by_character() {
    assert!(same_text("", ""));
    assert!(same_text("jump", "jump"));
    assert!(!same_text("jump", "jumps"));
    assert!(!same_text("jump", "Jump"));
}

#[test]
fn characters_come_apart_and_together() {
    let chars = chars_of("aé…");
    assert_eq!(chars, vec!['a', 'é', '…']);
    assert_eq!(text_of(&chars, 1, 3), "é…");
    assert_eq!(text_of(&chars, 2, 2), "");
    assert_eq!(spaces(3), "   ");
}

#[test]
fn short_text_moves_to_the_right() {
    assert_eq!(align_right("·1", 5), "   ·1");
    assert_eq!(align_right("·1", 2), "·1");
    assert_eq!(align_right("·1", 0), "·1");
}

#[test]
fn long_text_loses_its_end() {
    assert_eq!(truncate("abcdef", 6), "abcdef");
    assert_eq!(truncate("abcdef", 5), "abcd…");
    assert_eq!(truncate("ééé", 2), "é…");
    assert_eq!(truncate("ab", 1), "…");
    assert_eq!(truncate("", 0), "");
    assert_eq!(truncate("ab", 0), "…");
    assert_eq!(sidebar_screen::truncate("abcdef", 5), "abcd…");
    assert_eq!(sidebar_screen::truncate("abc", 3), "abc");
    assert_eq!(sidebar_screen::truncate("ab", 0), "");
}

#[test]
fn cutting_twice_is_cutting_once() {
    for max in 1..8 {
        let once = truncate("needs approval", max);
        assert!(once.chars().count() <= max);
        assert_eq!(truncate(&once, max), once);
    }
}
