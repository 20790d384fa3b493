use pipeshell::text::{split_stages, split_words};
use pipeshell::prompt::{display_dir, format_prompt, starts_with};

#[test]
fn stages_are_trimmed_and_nonblank() {
    assert_eq!(split_stages(" ls -l |  wc  -l \n"), vec!["ls -l".to_string(), "wc  -l".to_string()]);
    assert!(split_stages("").is_empty());
    assert!(split_stages(" | |\t|").is_empty());
    assert_eq!(split_stages("a||b"), vec!["a".to_string(), "b".to_string()]);
}

#[test]
fn pipe_always_splits() {
    assert_eq!(split_stages("echo 'a|b'"), vec!["echo 'a".to_string(), "b'".to_string()]);
}

#[test]
fn words_split_on_any_whitespace() {
    assert_eq!(
        split_words("  cat\tfile\u{a0}two\u{3000}x "),
        vec!["cat".to_string(), "file".to_string(), "two".to_string(), "x".to_string()]
    );
    assert!(split_words(" \t ").is_empty());
}

#[test]
fn prefix_matching() {
    assert!(starts_with("/home/ann/src", "/home/ann"));
    assert!(starts_with("abc", ""));
    assert!(!starts_with("/ho", "/home"));
    assert!(!starts_with("/usr/home", "/home"));
}

#[test]
fn home_is_shortened() {
    assert_eq!(display_dir("/home/ann/src", Some("/home/ann")), "~/src");
    assert_eq!(display_dir("/home/ann", Some("/home/ann")), "~");
    assert_eq!(display_dir("/usr/bin", Some("/home/ann")), "/usr/bin");
    assert_eq!(display_dir("/usr/bin", None), "/usr/bin");
}

#[test]
fn prompt_layout() {
    assert_eq!(
        format_prompt("ann", "box", "/home/ann/src", Some("/home/ann")),
        "ann@box:~/src$ "
    );
    assert_eq!(format_prompt("root", "h", "/", None), "root@h:/$ ");
}
