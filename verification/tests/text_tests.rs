use chron::text::{
    chars_of, contains, ends_with, first_piece, i32_to_string, last_piece, starts_with, str_eq, substring,
    trim_start_matches, TextSet,
};

#[test]
fn decimal_text_matches_std() {
    for v in [0, 1, 9, 10, 11, 99, 100, 12345, -1, -9, -10, -120, i32::MAX, i32::MIN, i32::MIN + 1] {
        assert_eq!(i32_to_string(v), v.to_string());
    }
}

#[test]
fn matching_on_text() {
    assert!(contains("https://api2.blaseball.com/feed?page=1", "/feed"));
    assert!(!contains("abc", "abcd"));
    assert!(contains("abc", ""));
    assert!(starts_with("pusher_internal:x", "pusher_internal:"));
    assert!(!starts_with("pusher", "pusher_internal:"));
    assert!(ends_with("/games/x/boxScore", "/boxScore"));
    assert!(!ends_with("/boxScore/", "/boxScore"));
    assert!(str_eq("sim-data", "sim-data"));
    assert!(!str_eq("sim-data", "sim-dat"));
}

#[test]
fn pieces_of_a_split() {
    assert_eq!(first_piece("a/b/c", "/"), "a");
    assert_eq!(first_piece("abc", "/"), "abc");
    assert_eq!(last_piece("a/b/c", "/"), "c");
    assert_eq!(last_piece("x/games/G/boxScore", "/games/"), "G/boxScore");
    assert_eq!(last_piece("abc", "/"), "abc");
    assert_eq!(last_piece("abc/", "/"), "");
}

#[test]
fn trimming_repeated_prefixes() {
    assert_eq!(trim_start_matches("game-feed-game-feed-x", "game-feed-"), "x");
    assert_eq!(trim_start_matches("x", "game-feed-"), "x");
    assert_eq!(trim_start_matches("", "ab"), "");
    assert_eq!(trim_start_matches("ababa", "ab"), "a");
}

#[test]
fn characters_and_substrings() {
    assert_eq!(chars_of("héllo"), vec!['h', 'é', 'l', 'l', 'o']);
    assert_eq!(substring("héllo", 1, 3), "él");
    assert_eq!(substring("abc", 3, 3), "");
}

#[test]
fn text_sets_hold_each_text_once() {
    let mut set = TextSet::new();
    assert!(set.to_vec().is_empty());
    assert!(set.insert("a"));
    assert!(set.insert("b"));
    assert!(!set.insert("a"));
    assert!(set.insert(""));
    let mut all = set.to_vec();
    all.sort();
    assert_eq!(all, vec!["".to_string(), "a".to_string(), "b".to_string()]);
}
