use vectorcom::clock::{clock_stamps, fmt_clock, fmt_minute, fmt_uptime, minute_stamps, shown_ts};
use vectorcom::format::{format_decimal, format_decimal2, join, pad_right, parse_usize};
use vectorcom::input::{next_char_boundary, prev_char_boundary, Input};
use vectorcom::order::text_before;
use vectorcom::text::{
    find, first_word, split, strip_prefix, trim, trim_end_matches, trim_start_matches,
};
use vectorcom::text_map::TextMap;

#[test]
fn texts_are_trimmed_and_cut() {
    assert_eq!(trim(" \t a b\u{3000}\n"), "a b");
    assert_eq!(trim("\u{85}\u{2028}"), "");
    assert_eq!(trim_end_matches("a\r\r", '\r'), "a");
    assert_eq!(trim_start_matches("//say", '/'), "say");
    assert_eq!(strip_prefix("/join x", "/join "), Some("x"));
    assert_eq!(strip_prefix("/jo", "/join "), None);
    assert_eq!(find("héllo: x", ": "), Some(5));
    assert_eq!(find("abc", "z"), None);
    assert_eq!(split("a\n\nb", '\n'), vec!["a", "", "b"]);
    assert_eq!(split("", '\n'), vec![""]);
    assert_eq!(first_word("  2 users)"), Some("2"));
    assert_eq!(first_word("   "), None);
}

#[test]
fn numbers_are_written_and_read() {
    assert_eq!(format_decimal(0), "0");
    assert_eq!(format_decimal(u64::MAX), "18446744073709551615");
    assert_eq!(format_decimal2(7), "07");
    assert_eq!(format_decimal2(123), "123");
    assert_eq!(parse_usize("12"), Some(12));
    assert_eq!(parse_usize("+12"), Some(12));
    assert_eq!(parse_usize("12x"), None);
    assert_eq!(parse_usize(""), None);
    assert_eq!(parse_usize("+"), None);
    assert_eq!(parse_usize("99999999999999999999999"), None);
    assert_eq!(pad_right("né", 4), "né  ");
    assert_eq!(pad_right("long", 2), "long");
    assert_eq!(join(&vec!["a".to_string(), "b".to_string()], ", "), "a, b");
    assert_eq!(join(&vec![], ", "), "");
}

#[test]
fn times_have_their_form() {
    assert_eq!(fmt_uptime(3_725), "01:02:05");
    assert_eq!(fmt_uptime(360_000), "100:00:00");
    for ts in [0, 1_700_000_000, i64::MAX, i64::MIN] {
        let clock = fmt_clock(ts);
        assert_eq!(clock.len(), 8);
        assert_eq!(&clock[2..3], ":");
        assert_eq!(&clock[5..6], ":");
        let minute = fmt_minute(ts);
        assert_eq!(minute.len(), 5);
        assert_eq!(minute, clock[..5]);
    }
    assert_eq!(fmt_clock(i64::MAX), fmt_clock(0));
    assert_eq!(&fmt_clock(59)[6..], "59");
    assert_eq!(shown_ts(-5), -5);
    assert_eq!(shown_ts(8210266876799), 8210266876799);
    assert_eq!(shown_ts(8210266876800), 0);
    assert_eq!(shown_ts(-8334601228800), -8334601228800);
    assert_eq!(shown_ts(-8334601228801), 0);
    fmt_clock(8210266876799);
    fmt_clock(-8334601228800);
    assert_eq!(fmt_clock(8210266876800), fmt_clock(0));
    assert_eq!(clock_stamps(&vec![0, 61]), vec![fmt_clock(0), fmt_clock(61)]);
    assert_eq!(minute_stamps(&vec![0, 61]), vec![fmt_minute(0), fmt_minute(61)]);
    assert_ne!(fmt_minute(0), fmt_minute(61));
}

#[test]
fn texts_are_ordered_by_code_point() {
    assert!(text_before("abc", "abd"));
    assert!(text_before("ab", "abc"));
    assert!(!text_before("abc", "abc"));
    assert!(text_before("Z", "a"));
    assert!(text_before("z", "é"));
}

#[test]
fn text_maps_keep_their_keys_in_order() {
    let mut m: TextMap<u32> = TextMap::new();
    m.insert("b".into(), 1);
    m.insert("a".into(), 2);
    m.insert("c".into(), 3);
    m.insert("b".into(), 4);
    assert_eq!(m.keys(), vec!["a", "b", "c"]);
    assert_eq!(m.len(), 3);
    assert_eq!(m.get("b"), Some(&4));
    assert_eq!(m.remove("a"), Some(2));
    assert_eq!(m.remove("a"), None);
    assert!(!m.contains_key("a"));
    assert_eq!(m.key_at(0), "b");
    assert_eq!(*m.value_at(1), 3);
}

fn line(text: &str) -> Input {
    let mut i = Input::default();
    for c in text.chars() {
        i.insert(c);
    }
    i
}

#[test]
fn the_cursor_moves_by_characters() {
    let mut i = line("aé→");
    assert_eq!((i.buf.as_str(), i.cursor), ("aé→", 6));
    i.left();
    assert_eq!(i.cursor, 3);
    i.left();
    assert_eq!(i.cursor, 1);
    assert_eq!(i.text_before_cursor(), "a");
    i.right();
    assert_eq!(i.cursor, 3);
    i.home();
    assert_eq!(i.cursor, 0);
    i.left();
    assert_eq!(i.cursor, 0);
    i.end();
    assert_eq!(i.cursor, 6);
    i.right();
    assert_eq!(i.cursor, 6);
}

#[test]
fn typing_and_erasing_undo_each_other() {
    let mut i = line("aé→");
    i.left();
    i.insert('x');
    assert_eq!((i.buf.as_str(), i.cursor), ("aéx→", 4));
    i.backspace();
    assert_eq!((i.buf.as_str(), i.cursor), ("aé→", 3));
    i.delete();
    assert_eq!((i.buf.as_str(), i.cursor), ("aé", 3));
    i.delete();
    i.left();
    i.delete();
    assert_eq!((i.buf.as_str(), i.cursor), ("a", 1));
    assert_eq!(i.take(), "a");
    assert_eq!((i.buf.as_str(), i.cursor), ("", 0));
    i.backspace();
    assert_eq!((i.buf.as_str(), i.cursor), ("", 0));
}

#[test]
fn boundaries_lie_between_characters() {
    assert_eq!(prev_char_boundary("aé→", 6), 3);
    assert_eq!(prev_char_boundary("aé→", 0), 0);
    assert_eq!(next_char_boundary("aé→", 1), 3);
    assert_eq!(next_char_boundary("aé→", 6), 6);
    assert_eq!(next_char_boundary("aé→", 9), 6);
}
