use std::collections::HashSet;
use vmpl_run::launch::{option_assignments, Opt};
use vmpl_run::complete::{
    dir_candidates, search_target_of, Candidate, VmplHelper,
};
use vmpl_run::env::{with_env, EnvVars};
use vmpl_run::fs::{FileEntry, FsView};

fn entry(name: &str, is_file: bool, is_dir: bool, mode: Option<u32>) -> FileEntry {
    FileEntry { name: name.to_string(), is_file, is_dir, mode }
}

fn file(name: &str, mode: u32) -> FileEntry {
    entry(name, true, false, Some(mode))
}

fn dir(name: &str) -> FileEntry {
    entry(name, false, true, Some(0o755))
}

fn pairs(c: &[Candidate]) -> Vec<(String, String)> {
    c.iter().map(|c| (c.display.clone(), c.replacement.clone())).collect()
}

fn p(a: &str, b: &str) -> (String, String) {
    (a.to_string(), b.to_string())
}

fn sample_fs() -> FsView {
    let mut fs = FsView::new();
    fs.add(
        "/bin".to_string(),
        vec![file("cat", 0o755), file("cal", 0o644), dir("cargo"), file("zsh", 0o755)],
    );
    fs.add(
        "/usr/bin".to_string(),
        vec![file("cc", 0o700), file("cat", 0o755), file("c++", 0o001), file("bash", 0o755)],
    );
    fs.add(".".to_string(), vec![dir("cache"), file("cat.txt", 0o644), file("readme", 0o644)]);
    fs.add(
        "/usr".to_string(),
        vec![dir("local"), dir("lib"), file("lost", 0o644), dir("share")],
    );
    fs.add("./".to_string(), vec![file("a.txt", 0o644), dir("d")]);
    fs
}

#[test]
fn helper_lists() {
    let h = VmplHelper::new();
    assert_eq!(h.commands, vec!["env", "exit", "quit", "help", "history"]);
    assert_eq!(h.env_vars.len(), 13);
    assert_eq!(h.env_vars[0], "VMPL_INSTALL_PATH");
    assert_eq!(h.env_vars[12], "VMPL_DEBUG_ENABLED");
}

#[test]
fn env_value_lookup() {
    let h = VmplHelper::new();
    let mut env = EnvVars::new();
    with_env(&mut env, "HOME", "/root");
    assert_eq!(h.get_env_value(&env, "HOME"), "/root");
    assert_eq!(h.get_env_value(&env, "NOPE"), "");
}

#[test]
fn executables_sorted_once() {
    let h = VmplHelper::new();
    let fs = sample_fs();
    let r = h.get_executables_from_path("c", "/bin:/usr/bin:/missing::", &fs);
    assert_eq!(pairs(&r), vec![p("c++", "c++"), p("cat", "cat"), p("cc", "cc")]);
    let all = h.get_executables_from_path("", "/usr/bin:/bin", &fs);
    assert_eq!(
        pairs(&all),
        vec![p("bash", "bash"), p("c++", "c++"), p("cat", "cat"), p("cc", "cc"), p("zsh", "zsh")]
    );
    assert!(h.get_executables_from_path("c", "", &fs).is_empty());
}

#[test]
fn bare_name_completion() {
    let h = VmplHelper::new();
    let fs = sample_fs();
    let r = h.get_path_completions("ca", "/bin:/usr/bin", &fs);
    assert_eq!(
        pairs(&r),
        vec![p("cat", "cat"), p("cache/", "cache"), p("cat.txt", "cat.txt")]
    );
}

#[test]
fn directory_completion() {
    let h = VmplHelper::new();
    let fs = sample_fs();
    let r = h.get_path_completions("/usr/lo", "", &fs);
    assert_eq!(pairs(&r), vec![p("local/", "/usr/local/"), p("lost", "/usr/lost")]);
}

#[test]
fn trailing_slash_lists_directory() {
    let h = VmplHelper::new();
    let fs = sample_fs();
    let r = h.get_path_completions("./", "", &fs);
    assert_eq!(pairs(&r), vec![p("a.txt", ".//a.txt"), p("d/", ".//d/")]);
}

#[test]
fn dot_parent_completion() {
    let h = VmplHelper::new();
    let fs = sample_fs();
    let r = h.get_path_completions("./ca", "", &fs);
    assert_eq!(pairs(&r), vec![p("cache/", "cache/"), p("cat.txt", "cat.txt")]);
    let r = h.get_path_completions("re/.", "", &fs);
    assert_eq!(pairs(&r), vec![p("readme", "readme")]);
}

#[test]
fn unreadable_directory_gives_nothing() {
    let h = VmplHelper::new();
    let fs = sample_fs();
    assert!(h.get_path_completions("/nowhere/x", "", &fs).is_empty());
}

#[test]
fn search_targets() {
    let t = search_target_of("/usr/lo", Some("/usr".to_string()), Some("lo".to_string()));
    assert_eq!(t, ("/usr".to_string(), "lo".to_string()));
    let t = search_target_of("a/", Some("x".to_string()), Some("y".to_string()));
    assert_eq!(t, ("a/".to_string(), String::new()));
    let t = search_target_of("a/.", Some(String::new()), Some("a".to_string()));
    assert_eq!(t, (".".to_string(), "a".to_string()));
    let t = search_target_of("/.", None, None);
    assert_eq!(t, ("./".to_string(), "/.".to_string()));
    let t = search_target_of("a/..", Some("a".to_string()), None);
    assert_eq!(t, ("a".to_string(), String::new()));
}

#[test]
fn directory_entries_end_in_slash() {
    let r = dir_candidates("x/", "", &vec![dir("d"), file("f", 0o644)]);
    assert_eq!(pairs(&r), vec![p("d/", "x//d/"), p("f", "x//f")]);
    let r = dir_candidates(".", "", &vec![dir("d")]);
    assert_eq!(pairs(&r), vec![p("d/", "d/")]);
}

#[test]
fn complete_empty_line_offers_commands() {
    let h = VmplHelper::new();
    let fs = FsView::new();
    let (start, r) = h.complete("", 0, &EnvVars::new(), "", &fs);
    assert_eq!(start, 0);
    assert_eq!(
        pairs(&r),
        vec![
            p("env", "env"),
            p("exit", "exit"),
            p("quit", "quit"),
            p("help", "help"),
            p("history", "history")
        ]
    );
    let (start, r) = h.complete("   ", 3, &EnvVars::new(), "", &fs);
    assert_eq!(start, 3);
    assert_eq!(r.len(), 5);
}

#[test]
fn complete_env_variable_names() {
    let h = VmplHelper::new();
    let fs = FsView::new();
    let mut env = EnvVars::new();
    with_env(&mut env, "VMPL_LOG_LEVEL", "debug");
    let (start, r) = h.complete("env VMPL_LOG", 12, &env, "", &fs);
    assert_eq!(start, 4);
    assert_eq!(
        pairs(&r),
        vec![
            p("VMPL_LOG_LEVEL (current: debug)", "VMPL_LOG_LEVEL"),
            p("VMPL_LOG_SHOW_TIME (current: )", "VMPL_LOG_SHOW_TIME"),
            p("VMPL_LOG_FILE (current: )", "VMPL_LOG_FILE")
        ]
    );
    let (start, r) = h.complete("env ", 4, &env, "", &fs);
    assert_eq!(start, 4);
    assert_eq!(r.len(), 13);
    let (start, r) = h.complete("e RUN_IN_U", 10, &env, "", &fs);
    assert_eq!(start, 2);
    assert_eq!(pairs(&r), vec![p("RUN_IN_USER_MODE (current: )", "RUN_IN_USER_MODE")]);
    let (_, r) = h.complete("e", 1, &env, "", &fs);
    assert!(r.is_empty());
}

#[test]
fn complete_env_value() {
    let h = VmplHelper::new();
    let fs = FsView::new();
    let mut env = EnvVars::new();
    with_env(&mut env, "FOO", "xyz");
    let (start, r) = h.complete("env FOO bar", 11, &env, "", &fs);
    assert_eq!(start, 8);
    assert_eq!(pairs(&r), vec![p("current: xyz", "xyz")]);
    let (start, r) = h.complete("env BAR bar", 11, &env, "", &fs);
    assert_eq!(start, 8);
    assert!(r.is_empty());
}

#[test]
fn complete_path_after_command() {
    let h = VmplHelper::new();
    let fs = sample_fs();
    let (start, r) = h.complete("ls /usr/loc", 11, &EnvVars::new(), "", &fs);
    assert_eq!(start, 3);
    assert_eq!(pairs(&r), vec![p("local/", "/usr/local/")]);
    let (start, r) = h.complete("ls ", 3, &EnvVars::new(), "", &fs);
    assert_eq!(start, 3);
    assert!(r.is_empty());
    let (start, r) = h.complete("ca", 2, &EnvVars::new(), "/bin:/usr/bin", &fs);
    assert_eq!(start, 0);
    assert_eq!(r.len(), 3);
}

#[test]
fn complete_counts_bytes() {
    let h = VmplHelper::new();
    let fs = FsView::new();
    let (start, r) = h.complete("ls é", 5, &EnvVars::new(), "", &fs);
    assert_eq!(start, 3);
    assert!(r.is_empty());
    let (start, _) = h.complete("ls éa xyz", 6, &EnvVars::new(), "", &fs);
    assert_eq!(start, 3);
}

#[test]
fn complete_word_after_tab() {
    let h = VmplHelper::new();
    let fs = sample_fs();
    // A tab ends a word but only a space marks the start of a new one.
    let (start, r) = h.complete("ls ca\t", 6, &EnvVars::new(), "/bin", &fs);
    assert_eq!(start, 4);
    assert_eq!(r.len(), 3);
}

#[test]
fn completion_dirs_by_word() {
    let h = VmplHelper::new();
    assert_eq!(
        h.completion_dirs("ls ca", 5, "/bin:/usr/bin"),
        vec!["/bin".to_string(), "/usr/bin".to_string(), ".".to_string()]
    );
    assert_eq!(h.completion_dirs("ls /usr/lo", 10, "/bin"), vec!["/usr".to_string()]);
    assert!(h.completion_dirs("env X", 5, "/bin").is_empty());
    assert!(h.completion_dirs("", 0, "/bin").is_empty());
    assert!(h.completion_dirs("ls ", 3, "/bin").is_empty());
}

#[test]
fn hints() {
    let h = VmplHelper::new();
    let mut env = EnvVars::new();
    assert_eq!(h.hint("env", &env).as_deref(), Some(" <variable> <value>"));
    assert_eq!(h.hint("e", &env).as_deref(), Some(" <variable> <value>"));
    assert_eq!(h.hint("env VMPL_LOG", &env).as_deref(), Some(" <value>"));
    with_env(&mut env, "VMPL_LOG_LEVEL", "info");
    assert_eq!(h.hint("env VMPL_LOG", &env).as_deref(), Some(" current value: info"));
    assert_eq!(h.hint("env ZZZ", &env).as_deref(), Some(" <value>"));
    assert_eq!(h.hint("env A B", &env), None);
    assert_eq!(h.hint("help", &env).as_deref(), Some(" - Show available commands"));
    assert_eq!(h.hint("h", &env).as_deref(), Some(" - Show available commands"));
    assert_eq!(h.hint("exit", &env).as_deref(), Some(" - Exit the shell"));
    assert_eq!(h.hint("quit", &env).as_deref(), Some(" - Exit the shell"));
    assert_eq!(h.hint("q now", &env).as_deref(), Some(" - Exit the shell"));
    assert_eq!(h.hint("history", &env).as_deref(), Some(" - Show command history"));
    assert_eq!(h.hint("ls", &env), None);
    assert_eq!(h.hint("", &env), None);
    assert_eq!(h.hint("   ", &env), None);
}

fn keep_replacing(c: &[Candidate], b: &str) -> Vec<(String, String)> {
    pairs(c).into_iter().filter(|(_, r)| r.starts_with(b)).collect()
}

#[test]
fn longer_prefix_narrows_executables() {
    let h = VmplHelper::new();
    let fs = sample_fs();
    let a = h.get_executables_from_path("c", "/bin:/usr/bin", &fs);
    let b = h.get_executables_from_path("ca", "/bin:/usr/bin", &fs);
    assert_eq!(pairs(&b), keep_replacing(&a, "ca"));
    let b = h.get_executables_from_path("c+", "/bin:/usr/bin", &fs);
    assert_eq!(pairs(&b), keep_replacing(&a, "c+"));
}

#[test]
fn longer_prefix_narrows_path_completions() {
    let h = VmplHelper::new();
    let fs = sample_fs();
    let a = h.get_path_completions("c", "/bin:/usr/bin", &fs);
    let b = h.get_path_completions("cat", "/bin:/usr/bin", &fs);
    assert_eq!(pairs(&b), keep_replacing(&a, "cat"));
    assert_eq!(pairs(&b), vec![p("cat", "cat"), p("cat.txt", "cat.txt")]);
}

#[test]
fn helper_lists_have_no_repeats_and_cover_options() {
    let h = VmplHelper::new();
    let cmds: HashSet<&String> = h.commands.iter().collect();
    assert_eq!(cmds.len(), h.commands.len());
    let vars: HashSet<String> = h.env_vars.iter().cloned().collect();
    assert_eq!(vars.len(), h.env_vars.len());
    let all = Opt {
        run: true,
        shell: false,
        preload: true,
        libzhook: true,
        hotcalls: Some("h".to_string()),
        enable_vmpl: true,
        vmpl: true,
        vmpl_process: true,
        vmpl_thread: true,
        user_mode: true,
        debug: true,
        log_level: Some("l".to_string()),
        log_show_time: Some(true),
        log_file: Some("f".to_string()),
        silent: true,
        program: None,
        program_args: Vec::new(),
    };
    let mut set: HashSet<String> = option_assignments(&all).into_iter().map(|(k, _)| k).collect();
    set.insert("VMPL_INSTALL_PATH".to_string());
    assert_eq!(set, vars);
}
