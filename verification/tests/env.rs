use vmpl_run::env::{with_env, EnvVars};

#[test]
fn empty_vars() {
    let v = EnvVars::new();
    assert!(v.get("A").is_none());
    assert_eq!(v.value_of("A"), "");
    assert!(v.entries().is_empty());
}

#[test]
fn read_after_write() {
    let mut v = EnvVars::new();
    with_env(&mut v, "A", "1");
    with_env(&mut v, "B", "2");
    assert_eq!(v.get("A").as_deref(), Some("1"));
    assert_eq!(v.get("B").as_deref(), Some("2"));
    assert!(v.get("C").is_none());
    assert_eq!(v.value_of("C"), "");
}

#[test]
fn set_again_replaces_in_place() {
    let mut v = EnvVars::new();
    with_env(&mut v, "A", "1");
    with_env(&mut v, "B", "2");
    with_env(&mut v, "A", "3");
    assert_eq!(
        v.entries().clone(),
        vec![
            ("A".to_string(), "3".to_string()),
            ("B".to_string(), "2".to_string())
        ]
    );
    assert_eq!(v.get("A").as_deref(), Some("3"));
}

#[test]
fn empty_value_is_set() {
    let mut v = EnvVars::new();
    with_env(&mut v, "A", "");
    assert_eq!(v.get("A").as_deref(), Some(""));
}
