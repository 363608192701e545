use agent_pool::decimal::{format_unsigned, parse_unsigned};
use agent_pool::path::{components, file_name, join, name_below, parent, same_path};
use agent_pool::path_map::{PathMap, PathSet};
use agent_pool::text::{
    holds, holds_char, join_with, pad, replace, same, split_whitespace, starts_with, strip_suffix,
    trim,
};
use agent_pool::time::{is_overdue, Duration};
use agent_pool::transport::Transport;

#[test]
fn texts_are_cut_and_searched() {
    assert_eq!(trim(" \t a b\u{3000}\n"), "a b");
    assert_eq!(trim("   "), "");
    assert_eq!(split_whitespace("  a \n bc  d"), vec!["a", "bc", "d"]);
    assert!(split_whitespace(" \t ").is_empty());
    assert!(starts_with("pnpm@9", "pnpm"));
    assert!(!starts_with("pn", "pnpm"));
    assert_eq!(strip_suffix("a.json", ".json"), Some("a".to_string()));
    assert_eq!(strip_suffix(".json", ".json"), Some("".to_string()));
    assert_eq!(strip_suffix("a.jso", ".json"), None);
    assert!(holds("x[workspace]", "[workspace]"));
    assert!(holds("x", ""));
    assert!(!holds("work", "workspace"));
    assert!(holds_char("a/b", '/'));
    assert!(!holds_char("ab", '/'));
    assert!(same("a", "a"));
    assert!(!same("a", "b"));
}

#[test]
fn texts_are_put_together() {
    let parts = vec!["a".to_string(), "".to_string(), "b".to_string()];
    assert_eq!(join_with(&parts, ", "), "a, , b");
    assert_eq!(join_with(&Vec::new(), ", "), "");
    assert_eq!(replace("aaa", "aa", "b"), "ba");
    assert_eq!(replace("xyz", "q", "b"), "xyz");
    assert_eq!(replace("qq", "q", "qq"), "qqqq");
    assert_eq!(pad("ab", 4), "ab  ");
    assert_eq!(pad("abcde", 4), "abcde");
}

#[test]
fn numbers_are_written_and_read_back() {
    for number in [0u64, 7, 10, 4_294_967_295, u64::MAX] {
        let text = format_unsigned(number);
        assert_eq!(text, number.to_string());
        assert_eq!(parse_unsigned(&text, u64::MAX), Some(number));
    }
    assert_eq!(parse_unsigned("4294967296", u32::MAX as u64), None);
    assert_eq!(parse_unsigned("+5", 10), Some(5));
    assert_eq!(parse_unsigned("007", 10), Some(7));
    for bad in ["", "-1", "1a", "+", " 1"] {
        assert_eq!(parse_unsigned(bad, 10), None);
    }
}

#[test]
fn paths_are_joined_and_taken_apart() {
    assert_eq!(join("/a", "b"), "/a/b");
    assert_eq!(join("/a/", "b"), "/a/b");
    assert_eq!(join("", "b"), "b");
    assert_eq!(join("/a", "/b"), "/b");
    let parts = components("/a//b/./c/");
    assert!(parts.absolute);
    assert_eq!(parts.names, vec!["a", "b", "c"]);
    let parts = components("./a");
    assert!(!parts.absolute);
    assert_eq!(parts.names, vec![".", "a"]);
    assert!(same_path("/a//b", "/a/b/"));
    assert!(!same_path("a/b", "/a/b"));
    assert_eq!(name_below("/a/b/c", "/a/b"), Some("c".to_string()));
    assert_eq!(name_below("/a/b/c", "/a"), None);
    assert_eq!(name_below("/a", "/a"), None);
    assert_eq!(file_name("/a/b.txt"), Some("b.txt".to_string()));
    assert_eq!(file_name("/a/.."), None);
    assert_eq!(file_name("/"), None);
    assert_eq!(parent("/a/b"), Some("/a".to_string()));
    assert_eq!(parent("a"), Some("".to_string()));
    assert_eq!(parent("/"), None);
}

#[test]
fn paths_are_kept_by_their_components() {
    let mut set = PathSet::new();
    set.insert("/a/b");
    assert!(set.contains("/a//b/"));
    assert!(!set.contains("a/b"));
    let mut map = PathMap::new();
    map.insert("/a/b", 1);
    map.insert("/a/./b", 2);
    assert_eq!(map.get("/a/b"), Some(2));
    assert!(map.contains_key("/a//b"));
    map.remove("/a/b/");
    assert_eq!(map.get("/a/b"), None);
}

#[test]
fn times_are_kept_in_milliseconds() {
    assert_eq!(Duration::from_secs(3), Duration::from_millis(3000));
    assert_eq!(Duration::from_secs(u64::MAX).millis, u64::MAX as u128 * 1000);
    assert_eq!(Duration::from_secs(u64::MAX).as_secs(), u64::MAX);
    assert_eq!(Duration { millis: u128::MAX }.as_secs(), u64::MAX);
    assert!(is_overdue(
        Duration::from_secs(u64::MAX),
        Some(Duration::from_secs(u64::MAX - 1))
    ));
    let limit = Some(Duration::from_millis(5));
    assert!(!is_overdue(Duration::from_millis(5), limit));
    assert!(is_overdue(Duration::from_millis(6), limit));
    assert!(!is_overdue(Duration::from_millis(6), None));
    assert_eq!(Duration::from_millis(2999).as_secs(), 2);
}

#[test]
fn what_is_written_is_found_where_it_is_read() {
    let ways = vec![
        Transport::Directory("/d".to_string()),
        Transport::FlatFile {
            dir: "/d".to_string(),
            uuid: "u".to_string(),
        },
    ];
    for way in ways {
        let write = way.write("task.json", "{}").unwrap();
        assert_eq!(way.read("task.json").unwrap(), write.target);
        assert_eq!(parent(&write.temp), parent(&write.target));
        assert_ne!(write.temp, write.target);
        assert_eq!(way.path(), Some("/d"));
    }
    let flat = Transport::FlatFile {
        dir: "/d".to_string(),
        uuid: "u".to_string(),
    };
    let write = flat.write_with("task.json", "{}", "x").unwrap();
    assert_eq!(write.target, "/d/u.task.json");
    assert_eq!(
        write.write_error,
        "[E063] failed to write temp file /d/.u.task.json.x.tmp: "
    );
    assert_eq!(
        write.rename_error,
        "[E064] failed to rename /d/.u.task.json.x.tmp to /d/u.task.json: "
    );
    assert!(Transport::Socket(1).write("t", "{}").is_err());
    assert_eq!(Transport::Socket(1).path(), None);
}
