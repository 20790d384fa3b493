use pipeshell::expand::{choose_cd_target, expand_args, expand_token, has_wildcard, resolve_cd, select_expansion};

fn strings(v: &[&str]) -> Vec<String> {
    v.iter().map(|s| s.to_string()).collect()
}

#[test]
fn matches_replace_token_in_order() {
    let found = Some(vec![Some("b.rs".to_string()), Some("a.rs".to_string()), Some("c.rs".to_string())]);
    assert_eq!(select_expansion("*.rs".to_string(), found), strings(&["b.rs", "a.rs", "c.rs"]));
}

#[test]
fn no_match_passes_literal() {
    assert_eq!(select_expansion("*.zz".to_string(), Some(vec![])), strings(&["*.zz"]));
}

#[test]
fn invalid_pattern_passes_literal() {
    assert_eq!(select_expansion("[".to_string(), None), strings(&["["]));
}

#[test]
fn unreadable_entries_are_skipped() {
    let found = Some(vec![None, Some("x".to_string()), None]);
    assert_eq!(select_expansion("*".to_string(), found), strings(&["x"]));
    assert_eq!(select_expansion("?".to_string(), Some(vec![None])), strings(&["?"]));
}

#[test]
fn wildcard_detection() {
    assert!(has_wildcard("*.rs"));
    assert!(has_wildcard("a?c"));
    assert!(has_wildcard("[ab]"));
    assert!(!has_wildcard("plain.txt"));
    assert!(!has_wildcard(""));
}

#[test]
fn plain_token_unchanged() {
    assert_eq!(expand_token("hi"), strings(&["hi"]));
    assert_eq!(expand_token("-la"), strings(&["-la"]));
}

#[test]
fn missing_wildcard_passes_literal() {
    assert_eq!(
        expand_token("/no/such/dir/anywhere/*.q"),
        strings(&["/no/such/dir/anywhere/*.q"])
    );
}

#[test]
fn tilde_expands_to_home() {
    let r = expand_token("~");
    assert_eq!(r.len(), 1);
    assert_ne!(r[0], "~");
    assert!(r[0].starts_with('/'));
}

#[test]
fn root_wildcard_lists_entries() {
    let r = expand_token("/*");
    assert!(!r.is_empty());
    assert!(r.iter().all(|p| p != "/*" && p.starts_with('/')));
}

#[test]
fn args_expand_in_order() {
    let args = strings(&["a", "/no/such/dir/anywhere/?", "b"]);
    assert_eq!(expand_args(&args), strings(&["a", "/no/such/dir/anywhere/?", "b"]));
}

#[test]
fn cd_target_picks_first_directory() {
    let cands = vec![("f1".to_string(), false), ("d1".to_string(), true), ("d2".to_string(), true)];
    assert_eq!(choose_cd_target("d*".to_string(), cands), "d1");
    assert_eq!(choose_cd_target("z*".to_string(), vec![("f".to_string(), false)]), "z*");
    assert_eq!(choose_cd_target("q".to_string(), vec![]), "q");
}

#[test]
fn cd_resolves_plain_and_wildcard() {
    assert_eq!(resolve_cd(Some("/usr")), "/usr");
    assert_eq!(resolve_cd(Some("/tm?")), "/tmp");
    assert_eq!(resolve_cd(Some("/no/such/*")), "/no/such/*");
}
