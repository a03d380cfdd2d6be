use issue_tracker::session::{decimal_string, session_cookie, session_user_id};
use issue_tracker::text::{char_width, shorten_string};

#[test]
fn long_ascii_is_cut_to_eighty_and_marked() {
    let mut s: String = "abcdefghij".repeat(20);
    assert_eq!(s.len(), 200);
    shorten_string(&mut s);
    assert_eq!(s, format!("{}...", "abcdefghij".repeat(8)));
    assert_eq!(s.len(), 83);
}

#[test]
fn eighty_ascii_characters_stay() {
    let mut s: String = "x".repeat(80);
    shorten_string(&mut s);
    assert_eq!(s, "x".repeat(80));
}

#[test]
fn eighty_one_ascii_characters_are_cut() {
    let mut s: String = "x".repeat(81);
    shorten_string(&mut s);
    assert_eq!(s, format!("{}...", "x".repeat(80)));
}

#[test]
fn short_and_empty_texts_stay() {
    let mut s = String::from("short");
    shorten_string(&mut s);
    assert_eq!(s, "short");
    let mut e = String::new();
    shorten_string(&mut e);
    assert_eq!(e, "");
}

#[test]
fn two_byte_characters_are_cut_at_forty() {
    let mut s: String = "я".repeat(50);
    shorten_string(&mut s);
    assert_eq!(s, format!("{}...", "я".repeat(40)));
}

#[test]
fn cut_never_splits_a_character() {
    let mut s: String = format!("a{}", "я".repeat(50));
    shorten_string(&mut s);
    assert_eq!(s, format!("a{}...", "я".repeat(39)));
    let mut w: String = format!("ab{}", "😀".repeat(30));
    shorten_string(&mut w);
    assert_eq!(w, format!("ab{}...", "😀".repeat(19)));
    let mut e: String = format!("{}é{}", "a".repeat(79), "b".repeat(10));
    assert_eq!(e.len(), 91);
    shorten_string(&mut e);
    assert_eq!(e, format!("{}...", "a".repeat(79)));
}

#[test]
fn last_character_across_the_limit_is_cut() {
    let mut s: String = format!("{}я", "x".repeat(79));
    assert_eq!(s.len(), 81);
    shorten_string(&mut s);
    assert_eq!(s, format!("{}...", "x".repeat(79)));
}

#[test]
fn eighty_bytes_of_wide_characters_stay() {
    let mut s: String = "😀".repeat(20);
    assert_eq!(s.len(), 80);
    shorten_string(&mut s);
    assert_eq!(s, "😀".repeat(20));
    let mut t: String = "€".repeat(27);
    assert_eq!(t.len(), 81);
    shorten_string(&mut t);
    assert_eq!(t, format!("{}...", "€".repeat(26)));
}

#[test]
fn what_is_shown_has_at_most_eighty_three_bytes() {
    for lead in 0..8 {
        for c in ['x', 'я', '€', '😀'] {
            let mut s: String = format!("{}{}", "a".repeat(lead), c.to_string().repeat(60));
            let whole = s.clone();
            shorten_string(&mut s);
            if whole.len() <= 80 {
                assert_eq!(s, whole);
            } else {
                assert!(s.ends_with("..."));
                let kept = &s[..s.len() - 3];
                assert!(kept.len() <= 80);
                assert!(kept.len() >= 77);
                assert!(whole.starts_with(kept));
                assert!(whole.is_char_boundary(kept.len()));
            }
        }
    }
}

#[test]
fn shortening_twice_adds_no_second_marker_on_short_text() {
    let mut s: String = "x".repeat(70);
    shorten_string(&mut s);
    shorten_string(&mut s);
    assert_eq!(s, "x".repeat(70));
}

#[test]
fn char_widths() {
    assert_eq!(char_width('a'), 1);
    assert_eq!(char_width('\u{7f}'), 1);
    assert_eq!(char_width('\u{80}'), 2);
    assert_eq!(char_width('я'), 2);
    assert_eq!(char_width('\u{7ff}'), 2);
    assert_eq!(char_width('\u{800}'), 3);
    assert_eq!(char_width('€'), 3);
    assert_eq!(char_width('\u{ffff}'), 3);
    assert_eq!(char_width('\u{10000}'), 4);
    assert_eq!(char_width('😀'), 4);
    for c in ['a', 'я', '€', '😀'] {
        assert_eq!(char_width(c), c.len_utf8());
    }
}

#[test]
fn cookie_is_the_decimal_id() {
    assert_eq!(session_cookie(42), "42");
    assert_eq!(session_cookie(0), "0");
    assert_eq!(session_cookie(-7), "-7");
    assert_eq!(session_cookie(i32::MAX), "2147483647");
    assert_eq!(session_cookie(i32::MIN), "-2147483648");
    assert_eq!(decimal_string(1050), "1050");
}

#[test]
fn cookie_reads_back() {
    for id in [0, 1, 9, 10, 42, 1000, -1, -10, i32::MAX, i32::MIN] {
        let c = session_cookie(id);
        assert_eq!(session_user_id(Some(c.as_str())), Some(id));
    }
}

#[test]
fn cookie_reading_accepts_sign_and_leading_zeros() {
    assert_eq!(session_user_id(Some("+5")), Some(5));
    assert_eq!(session_user_id(Some("007")), Some(7));
    assert_eq!(session_user_id(Some("-0")), Some(0));
}

#[test]
fn cookie_reading_fails_closed() {
    assert_eq!(session_user_id(None), None);
    assert_eq!(session_user_id(Some("")), None);
    assert_eq!(session_user_id(Some("-")), None);
    assert_eq!(session_user_id(Some("+")), None);
    assert_eq!(session_user_id(Some("abc")), None);
    assert_eq!(session_user_id(Some("12a")), None);
    assert_eq!(session_user_id(Some(" 12")), None);
    assert_eq!(session_user_id(Some("1.5")), None);
    assert_eq!(session_user_id(Some("2147483648")), None);
    assert_eq!(session_user_id(Some("-2147483649")), None);
}
