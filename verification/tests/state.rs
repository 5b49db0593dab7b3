use herdr_espresso::state::{
    logfile, parse_pid, pidfile, pidfile_sanitized, pidfile_stem, sanitize_pane_id, state_dir_from,
};

#[test]
fn sanitize_is_readable_and_collision_free() {
    assert_eq!(sanitize_pane_id("w1:p1"), "w1%3Ap1");
    assert_eq!(sanitize_pane_id("w1.p1_2-3"), "w1.p1_2-3");
    assert_ne!(sanitize_pane_id("a:b"), sanitize_pane_id("a-b"));
    assert_ne!(sanitize_pane_id("a/b"), sanitize_pane_id("a%2Fb"));
}

#[test]
fn sanitize_escapes_every_reserved_byte_in_upper_hex() {
    assert_eq!(sanitize_pane_id(""), "");
    assert_eq!(sanitize_pane_id("%"), "%25");
    assert_eq!(sanitize_pane_id("a b"), "a%20b");
    assert_eq!(sanitize_pane_id("\u{e9}"), "%C3%A9");
    assert_eq!(sanitize_pane_id("AZaz09"), "AZaz09");
}

#[test]
fn pidfile_lives_in_the_state_dir() {
    assert_eq!(pidfile("/tmp/herdr-espresso", "w1:p1"), "/tmp/herdr-espresso/w1%3Ap1.pid");
    assert_eq!(pidfile("/state/", "w1"), "/state/w1.pid");
    assert_eq!(pidfile("", "w1"), "w1.pid");
    assert_eq!(logfile("/state", "w1:p1"), "/state/w1%3Ap1.log");
    assert_eq!(pidfile_sanitized("/state", "w1%3Ap1"), "/state/w1%3Ap1.pid");
}

#[test]
fn pidfile_stem_strips_only_the_pid_suffix() {
    assert_eq!(pidfile_stem("w1%3Ap1.pid"), Some("w1%3Ap1".to_string()));
    assert_eq!(pidfile_stem(".pid"), Some(String::new()));
    assert_eq!(pidfile_stem("w1%3Ap1.log"), None);
    assert_eq!(pidfile_stem("pid"), None);
}

#[test]
fn pid_text_is_trimmed_and_read_as_i32() {
    assert_eq!(parse_pid("4242"), Some(4242));
    assert_eq!(parse_pid("  4242\n"), Some(4242));
    assert_eq!(parse_pid("+17"), Some(17));
    assert_eq!(parse_pid("-5"), Some(-5));
    assert_eq!(parse_pid("007"), Some(7));
    assert_eq!(parse_pid("2147483647"), Some(i32::MAX));
    assert_eq!(parse_pid("-2147483648"), Some(i32::MIN));
    assert_eq!(parse_pid("2147483648"), None);
    assert_eq!(parse_pid("99999999999999999999"), None);
    assert_eq!(parse_pid(""), None);
    assert_eq!(parse_pid("   "), None);
    assert_eq!(parse_pid("-"), None);
    assert_eq!(parse_pid("+"), None);
    assert_eq!(parse_pid("42x"), None);
    assert_eq!(parse_pid("4 2"), None);
    assert_eq!(parse_pid("\u{3000}12\u{a0}"), Some(12));
}

#[test]
fn pid_text_parses_like_std() {
    for s in ["1", " 1 ", "-0", "+-1", "--1", "1-", "0x10", "\t\r\n8\u{2028}", "12345678901"] {
        assert_eq!(parse_pid(s), s.trim().parse::<i32>().ok(), "{s:?}");
    }
}

#[test]
fn distinct_panes_get_distinct_pidfiles() {
    let ids = ["a:b", "a-b", "a/b", "a%2Fb", "a%3Ab", "w1:p1", "w1%3Ap1", ""];
    for x in ids {
        for y in ids {
            if x != y {
                assert_ne!(pidfile("/s", x), pidfile("/s", y), "{x:?} {y:?}");
            }
        }
    }
}

#[test]
fn state_dir_prefers_the_plugin_state_dir() {
    assert_eq!(state_dir_from(Some("/plug/state".into()), "/tmp"), "/plug/state");
    assert_eq!(state_dir_from(None, "/tmp"), "/tmp/herdr-espresso");
    assert_eq!(state_dir_from(None, "/var/folders/x/T/"), "/var/folders/x/T/herdr-espresso");
}
