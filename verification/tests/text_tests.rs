use argvus_storage::text::{basename, replace_all, shell_quote, trim};
use argvus_storage::util::{notify_command, statvfs_usage};

#[test]
fn trim_whitespace() {
    assert_eq!(trim("  foo \n"), "foo");
    assert_eq!(trim("\t\r\n"), "");
}

#[test]
fn shell_quotes() {
    assert_eq!(shell_quote("abc"), "'abc'");
    assert_eq!(shell_quote("a'b"), "'a'\\''b'");
}

#[test]
fn trim_keeps_inner_blanks_and_other_whitespace() {
    assert_eq!(trim(" a b "), "a b");
    assert_eq!(trim("\u{a0}x\u{a0}"), "\u{a0}x\u{a0}");
    assert_eq!(trim(""), "");
}

#[test]
fn trim_twice_is_trim_once() {
    for s in ["  a  ", "\n\tb c\r\n", "", "   "] {
        assert_eq!(trim(trim(s)), trim(s));
    }
}

#[test]
fn shell_quote_empty_and_many_quotes() {
    assert_eq!(shell_quote(""), "''");
    assert_eq!(shell_quote("''"), "''\\'''\\'''");
    assert_eq!(shell_quote("/run/media/x y"), "'/run/media/x y'");
}

#[test]
fn replace_all_leftmost_non_overlapping() {
    let mut s = String::from("aaa");
    replace_all(&mut s, "aa", "b");
    assert_eq!(s, "ba");
    let mut s = String::from("{x}{x}");
    replace_all(&mut s, "{x}", "{x}{x}");
    assert_eq!(s, "{x}{x}{x}{x}");
    let mut s = String::from("none here");
    replace_all(&mut s, "{name}", "v");
    assert_eq!(s, "none here");
}

#[test]
fn basename_after_last_slash() {
    assert_eq!(basename("/dev/sdb1"), "sdb1");
    assert_eq!(basename("sdb1"), "sdb1");
    assert_eq!(basename("/dev/"), "");
}

#[test]
fn notify_command_critical_with_body() {
    assert_eq!(
        notify_command("argvus-storage", "it's broken", true),
        "notify-send --app-name=argvus-storage -u critical 'argvus-storage' 'it'\\''s broken'"
    );
    assert_eq!(
        notify_command("argvus-storage", "", false),
        "notify-send --app-name=argvus-storage -u normal 'argvus-storage'"
    );
}

#[test]
fn statvfs_usage_values() {
    assert_eq!(statvfs_usage(4096, 100, 40, 1, 1), (409600, 245760, 163840, true));
    assert_eq!(statvfs_usage(0, 10, 20, 0, 1), (5120, 0, 10240, false));
    assert_eq!(statvfs_usage(2, u64::MAX, 0, 0, 1), (u64::MAX.wrapping_mul(2), u64::MAX - 1, 0, false));
}
