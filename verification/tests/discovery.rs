use claudedeck::discovery::{
    contains_string, discover_claude_paths, select_roots, split_config_paths, trim_entry,
};

fn strings(v: &[&str]) -> Vec<String> {
    v.iter().map(|s| s.to_string()).collect()
}

#[test]
fn trim_removes_surrounding_whitespace() {
    assert_eq!(trim_entry("  /a/b \t"), "/a/b");
    assert_eq!(trim_entry("/a/b"), "/a/b");
    assert_eq!(trim_entry("   "), "");
    assert_eq!(trim_entry(""), "");
    assert_eq!(trim_entry("\n x y \r\n"), "x y");
}

#[test]
fn split_trims_each_comma_separated_entry() {
    assert_eq!(split_config_paths("  /a , /b  ,/c"), strings(&["/a", "/b", "/c"]));
    assert_eq!(split_config_paths("/only"), strings(&["/only"]));
    assert_eq!(split_config_paths(""), strings(&[""]));
    assert_eq!(split_config_paths("a,,b"), strings(&["a", "", "b"]));
    assert_eq!(split_config_paths(","), strings(&["", ""]));
}

#[test]
fn existing_env_paths_come_first_in_order() {
    let env = strings(&["/x", "/y", "/z"]);
    let env_ok = vec![true, true, true];
    let defaults = strings(&["/home/u/.config/logs", "/home/u/.logs"]);
    let defaults_ok = vec![true, false];
    let roots = select_roots(&env, &env_ok, &defaults, &defaults_ok);
    assert_eq!(roots, strings(&["/x", "/y", "/z", "/home/u/.config/logs"]));
}

#[test]
fn missing_env_paths_are_dropped() {
    let env = strings(&["/x", "/y"]);
    let env_ok = vec![false, true];
    let defaults = strings(&["/d"]);
    let defaults_ok = vec![true];
    let roots = select_roots(&env, &env_ok, &defaults, &defaults_ok);
    assert_eq!(roots, strings(&["/y", "/d"]));
}

#[test]
fn default_identical_to_env_path_not_duplicated() {
    let env = strings(&["/home/u/.logs", "/other"]);
    let env_ok = vec![true, true];
    let defaults = strings(&["/home/u/.config/logs", "/home/u/.logs"]);
    let defaults_ok = vec![false, true];
    let roots = select_roots(&env, &env_ok, &defaults, &defaults_ok);
    assert_eq!(roots, strings(&["/home/u/.logs", "/other"]));
    assert_eq!(roots.iter().filter(|p| p.as_str() == "/home/u/.logs").count(), 1);
}

#[test]
fn duplicate_defaults_appear_once() {
    let env: Vec<String> = Vec::new();
    let env_ok: Vec<bool> = Vec::new();
    let defaults = strings(&["/d", "/d"]);
    let defaults_ok = vec![true, true];
    let roots = select_roots(&env, &env_ok, &defaults, &defaults_ok);
    assert_eq!(roots, strings(&["/d"]));
}

#[test]
fn contains_string_compares_contents() {
    let v = strings(&["/a", "/b"]);
    assert!(contains_string(&v, &"/a".to_string()));
    assert!(!contains_string(&v, &"/c".to_string()));
}

#[test]
fn discovery_never_returns_nonexistent_env_paths() {
    let roots = discover_claude_paths(Some("/nonexistent-claudedeck-x , /nonexistent-claudedeck-y"));
    assert!(!roots.iter().any(|p| p.contains("nonexistent-claudedeck")));
}

#[test]
fn discovery_with_no_env_value_does_not_fail() {
    let _roots = discover_claude_paths(None);
}
