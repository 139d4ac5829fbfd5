use vmpl_run::env::EnvVars;
use vmpl_run::launch::Opt;
use vmpl_run::shell::{help_lines, history_lines, shell_step, ShellAction, ShellEvent, ShellState};

fn state() -> ShellState {
    ShellState {
        opt: Opt {
            run: false,
            shell: true,
            preload: false,
            libzhook: false,
            hotcalls: None,
            enable_vmpl: false,
            vmpl: true,
            vmpl_process: false,
            vmpl_thread: false,
            user_mode: false,
            debug: false,
            log_level: None,
            log_show_time: None,
            log_file: None,
            silent: false,
            program: None,
            program_args: Vec::new(),
        },
        vars: EnvVars::new(),
    }
}

fn line(s: &str) -> ShellEvent {
    ShellEvent::Line(s.to_string())
}

fn printed(a: &ShellAction) -> Vec<String> {
    match a {
        ShellAction::Print(v) => v.clone(),
        _ => panic!("expected printed lines"),
    }
}

#[test]
fn blank_line_does_nothing() {
    let mut s = state();
    for l in ["", "   ", "\t \u{3000}"] {
        let r = shell_step(&mut s, &line(l));
        assert!(matches!(r.action, ShellAction::Nothing));
        assert!(!r.record);
        assert!(!r.stop);
    }
}

#[test]
fn env_sets_variable() {
    let mut s = state();
    let r = shell_step(&mut s, &line("env FOO bar"));
    assert!(matches!(r.action, ShellAction::Nothing));
    assert!(r.record && !r.stop);
    assert_eq!(s.vars.get("FOO").as_deref(), Some("bar"));
    let r = shell_step(&mut s, &line("  e FOO baz extra"));
    assert!(r.record);
    assert_eq!(s.vars.get("FOO").as_deref(), Some("baz"));
}

#[test]
fn env_without_value_prints_usage() {
    let mut s = state();
    let r = shell_step(&mut s, &line("env FOO"));
    assert_eq!(printed(&r.action), vec!["Usage: env <var> <value>".to_string()]);
    assert!(!r.record && !r.stop);
    assert!(s.vars.get("FOO").is_none());
}

#[test]
fn exit_words_stop() {
    for l in ["q", "exit", "quit", " quit now"] {
        let mut s = state();
        let r = shell_step(&mut s, &line(l));
        assert!(r.stop);
        assert!(!r.record);
    }
}

#[test]
fn help_prints_help() {
    let mut s = state();
    for l in ["h", "help"] {
        let r = shell_step(&mut s, &line(l));
        assert_eq!(printed(&r.action), help_lines());
        assert!(r.record && !r.stop);
    }
}

#[test]
fn help_text() {
    assert_eq!(
        help_lines(),
        vec![
            "VMPL Shell - Type 'exit' to quit",
            "Available commands:",
            "  help                     - Show this help message",
            "  history                  - Show command history",
            "  exit                     - Exit the shell",
            "  env <var> <value>        - Set environment variable",
        ]
    );
}

#[test]
fn history_command() {
    let mut s = state();
    let r = shell_step(&mut s, &line("history"));
    assert!(matches!(r.action, ShellAction::ShowHistory));
    assert!(r.record && !r.stop);
}

#[test]
fn history_listing() {
    let entries: Vec<String> = (0..12).map(|i| format!("cmd{}", i)).collect();
    let lines = history_lines(&entries);
    assert_eq!(lines.len(), 12);
    assert_eq!(lines[0], "0: cmd0");
    assert_eq!(lines[11], "11: cmd11");
    assert!(history_lines(&Vec::new()).is_empty());
}

#[test]
fn other_line_runs_program() {
    let mut s = state();
    shell_step(&mut s, &line("env X 1"));
    let r = shell_step(&mut s, &line("  ls -l   /tmp "));
    assert!(r.record && !r.stop);
    match r.action {
        ShellAction::Launch(plan) => {
            assert_eq!(plan.program, "ls");
            assert_eq!(plan.args, vec!["-l".to_string(), "/tmp".to_string()]);
            assert_eq!(
                plan.env,
                vec![
                    ("RUN_IN_VMPL".to_string(), "1".to_string()),
                    ("X".to_string(), "1".to_string())
                ]
            );
        }
        _ => panic!("expected a launch"),
    }
    assert_eq!(s.opt.program.as_deref(), Some("ls"));
    assert_eq!(s.opt.program_args, vec!["-l".to_string(), "/tmp".to_string()]);
}

#[test]
fn read_outcomes() {
    let mut s = state();
    let r = shell_step(&mut s, &ShellEvent::Interrupted);
    assert_eq!(printed(&r.action), vec!["CTRL-C".to_string()]);
    assert!(!r.stop && !r.record);
    let r = shell_step(&mut s, &ShellEvent::Eof);
    assert_eq!(printed(&r.action), vec!["CTRL-D".to_string()]);
    assert!(r.stop && !r.record);
    let r = shell_step(&mut s, &ShellEvent::Failed("boom".to_string()));
    assert_eq!(printed(&r.action), vec!["Error: boom".to_string()]);
    assert!(r.stop && !r.record);
}
