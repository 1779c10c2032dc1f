use shtt::format_utils::{commit_message, format_ordinal};
use shtt::text::{chars_of, parse_u32, split_chars, string_from_chars};

#[test]
fn ordinals() {
    let cases = [
        (0, "0th"),
        (1, "1st"),
        (2, "2nd"),
        (3, "3rd"),
        (4, "4th"),
        (11, "11th"),
        (12, "12th"),
        (13, "13th"),
        (21, "21st"),
        (22, "22nd"),
        (23, "23rd"),
        (101, "101st"),
        (111, "111th"),
        (112, "112th"),
        (1013, "1013th"),
    ];
    for (n, expected) in cases {
        assert_eq!(format_ordinal(n), expected);
    }
    assert_eq!(format_ordinal(usize::MAX), format!("{}th", usize::MAX));
}

#[test]
fn commit_messages() {
    assert_eq!(commit_message(None, 0), "1st Commit");
    assert_eq!(commit_message(None, 1), "2nd Commit");
    assert_eq!(commit_message(None, 10), "11th Commit");
    assert_eq!(
        commit_message(Some("Add new feature".to_string()), 5),
        "Add new feature"
    );
}

#[test]
fn u32_parsing_matches_std() {
    for s in ["0", "42", "+7", "007", "4294967295", "4294967296", "", "+", "-1", "1a", " 1", "99999999999"] {
        let cs = chars_of(s);
        assert_eq!(parse_u32(&cs), s.parse::<u32>().ok(), "input {:?}", s);
    }
}

#[test]
fn splitting_matches_std() {
    for s in ["", ".", "a.b.c", "..a", "a..", "1.2.3.4", "no-dots"] {
        let cs = chars_of(s);
        let pieces: Vec<String> = split_chars(&cs, '.')
            .iter()
            .map(|p| string_from_chars(p))
            .collect();
        let expected: Vec<String> = s.split('.').map(|p| p.to_string()).collect();
        assert_eq!(pieces, expected, "input {:?}", s);
    }
}
