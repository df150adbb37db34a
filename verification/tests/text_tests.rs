use eas_listener::text::{
    char_ascii_lower, char_ascii_upper, char_is_ascii_alnum, char_is_space, chars_are, chars_of,
    count_char, decimal_chars, ends_with, find_first, find_from, has_run, list_contains,
    same_chars, same_lists, split_on, starts_with, string_of, sub_vec, to_lower, to_upper,
    trim_char, trim_ws, trim_ws_back, trim_ws_front,
};

fn cv(s: &str) -> Vec<char> {
    s.chars().collect()
}

#[test]
fn chars_and_strings_round_trip() {
    assert_eq!(chars_of("héllo"), vec!['h', 'é', 'l', 'l', 'o']);
    assert_eq!(string_of(&cv("héllo")), "héllo");
    assert_eq!(string_of(&Vec::new()), "");
    assert_eq!(chars_of(""), Vec::<char>::new());
}

#[test]
fn white_space_is_the_unicode_class() {
    for c in [' ', '\t', '\n', '\r', '\u{0B}', '\u{0C}', '\u{85}', '\u{A0}', '\u{2003}', '\u{3000}'] {
        assert!(char_is_space(c), "{:?}", c);
        assert!(c.is_whitespace());
    }
    for c in ['a', '_', '0', '\u{200B}', '\u{1F}'] {
        assert!(!char_is_space(c), "{:?}", c);
        assert!(!c.is_whitespace());
    }
}

#[test]
fn white_space_agrees_with_std_on_the_basic_plane() {
    for n in 0u32..0x1_0000 {
        if let Some(c) = char::from_u32(n) {
            assert_eq!(char_is_space(c), c.is_whitespace(), "U+{:04X}", n);
        }
    }
}

#[test]
fn case_maps_touch_ascii_letters_only() {
    assert_eq!(char_ascii_upper('a'), 'A');
    assert_eq!(char_ascii_upper('z'), 'Z');
    assert_eq!(char_ascii_upper('A'), 'A');
    assert_eq!(char_ascii_upper('é'), 'é');
    assert_eq!(char_ascii_upper('1'), '1');
    assert_eq!(char_ascii_lower('Q'), 'q');
    assert_eq!(char_ascii_lower('q'), 'q');
    assert_eq!(char_ascii_lower('É'), 'É');
    assert_eq!(to_upper(&cv("tor-1é")), cv("TOR-1é"));
    assert_eq!(to_lower(&cv("LocalHost")), cv("localhost"));
    assert!(char_is_ascii_alnum('x') && char_is_ascii_alnum('X') && char_is_ascii_alnum('7'));
    assert!(!char_is_ascii_alnum('-') && !char_is_ascii_alnum('é'));
}

#[test]
fn trimming() {
    assert_eq!(trim_ws(&cv("  \t tor \n")), cv("tor"));
    assert_eq!(trim_ws(&cv("   ")), cv(""));
    assert_eq!(trim_ws(&cv("")), cv(""));
    assert_eq!(trim_ws(&cv("a b")), cv("a b"));
    assert_eq!(trim_ws_back(&cv("  a  ")), cv("  a"));
    assert_eq!(trim_ws_front(&cv("  a  ")), cv("a  "));
    assert_eq!(trim_char(&cv("__W_"), '_'), cv("W"));
    assert_eq!(trim_char(&cv("___"), '_'), cv(""));
    assert_eq!(trim_char(&cv(".example.org."), '.'), cv("example.org"));
}

#[test]
fn searching() {
    let v = cv("a,b,,c");
    assert_eq!(find_first(&v, ','), 1);
    assert_eq!(find_first(&v, 'x'), 6);
    assert_eq!(find_from(&v, ',', 2), 3);
    assert_eq!(find_from(&v, ',', 6), 6);
    assert_eq!(count_char(&v, ','), 3);
    assert_eq!(count_char(&v, 'z'), 0);
    assert!(starts_with(&v, &cv("a,")));
    assert!(starts_with(&v, &cv("")));
    assert!(!starts_with(&v, &cv("b")));
    assert!(!starts_with(&cv("a"), &cv("ab")));
    assert!(ends_with(&v, &cv(",c")));
    assert!(!ends_with(&v, &cv(",b")));
    assert!(has_run(&cv("audio/mpeg; x"), &cv("audio/mpeg")));
    assert!(has_run(&cv("xaudio/mpeg"), &cv("audio/mpeg")));
    assert!(!has_run(&cv("audio/mpe"), &cv("audio/mpeg")));
    assert!(has_run(&cv("abc"), &cv("")));
    assert!(has_run(&cv(""), &cv("")));
    assert_eq!(sub_vec(&v, 2, 4), cv("b,"));
    assert!(same_chars(&cv("ab"), &cv("ab")));
    assert!(!same_chars(&cv("ab"), &cv("abc")));
    assert!(!same_chars(&cv("ab"), &cv("ac")));
    assert!(chars_are(&cv("ZCZC"), "ZCZC"));
    assert!(!chars_are(&cv("ZCZC"), "zczc"));
}

#[test]
fn splitting_keeps_empty_pieces() {
    assert_eq!(split_on(&cv("a,b,,c"), ','), vec![cv("a"), cv("b"), cv(""), cv("c")]);
    assert_eq!(split_on(&cv(""), ','), vec![cv("")]);
    assert_eq!(split_on(&cv(","), ','), vec![cv(""), cv("")]);
    assert_eq!(split_on(&cv("abc"), ','), vec![cv("abc")]);
    assert_eq!(split_on(&cv("a,"), ','), vec![cv("a"), cv("")]);
    let std: Vec<Vec<char>> = "x--y-".split('-').map(|p| p.chars().collect()).collect();
    assert_eq!(split_on(&cv("x--y-"), '-'), std);
}

#[test]
fn decimal_notation() {
    assert_eq!(decimal_chars(0), cv("0"));
    assert_eq!(decimal_chars(7), cv("7"));
    assert_eq!(decimal_chars(10), cv("10"));
    assert_eq!(decimal_chars(240000), cv("240000"));
    assert_eq!(decimal_chars(u64::MAX), cv("18446744073709551615"));
}

#[test]
fn lists_of_strings() {
    let list = vec!["039173".to_string(), "".to_string()];
    assert!(list_contains(&list, &cv("039173")));
    assert!(list_contains(&list, &cv("")));
    assert!(!list_contains(&list, &cv("039174")));
    assert!(same_lists(&list, &list.clone()));
    assert!(!same_lists(&list, &vec!["039173".to_string()]));
    assert!(!same_lists(&list, &vec!["039173".to_string(), "x".to_string()]));
}
