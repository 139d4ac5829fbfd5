use std::collections::HashMap;

use vmpl_run::env::{with_env, EnvVars};
use vmpl_run::launch::{
    install_path, launch_plan, mmap_reset_command, mmap_reset_needed, option_assignments,
    run_command, select_mode, LaunchPlan, Mode, Opt,
};

fn opt() -> Opt {
    Opt {
        run: false,
        shell: false,
        preload: false,
        libzhook: false,
        hotcalls: None,
        enable_vmpl: false,
        vmpl: false,
        vmpl_process: false,
        vmpl_thread: false,
        user_mode: false,
        debug: false,
        log_level: None,
        log_show_time: None,
        log_file: None,
        silent: false,
        program: None,
        program_args: Vec::new(),
    }
}

fn effective(plan: &LaunchPlan) -> HashMap<String, String> {
    let mut m = HashMap::new();
    for (k, v) in &plan.env {
        m.insert(k.clone(), v.clone());
    }
    m
}

fn env_pairs(plan: &LaunchPlan) -> Vec<(&str, &str)> {
    plan.env.iter().map(|(k, v)| (k.as_str(), v.as_str())).collect()
}

#[test]
fn no_program_no_plan() {
    let o = opt();
    assert!(launch_plan(&o, &EnvVars::new()).is_none());
}

#[test]
fn plain_run_sets_nothing() {
    let mut o = opt();
    o.run = true;
    o.program = Some("./my_program".to_string());
    o.program_args = vec!["a".to_string(), "b".to_string()];
    let p = launch_plan(&o, &EnvVars::new()).unwrap();
    assert_eq!(p.program, "./my_program");
    assert_eq!(p.args, vec!["a".to_string(), "b".to_string()]);
    assert!(p.env.is_empty());
}

#[test]
fn vmpl_flag_runs_in_vmpl() {
    // vmpl-run -r -v ./my_program
    let mut o = opt();
    o.run = true;
    o.vmpl = true;
    o.program = Some("./my_program".to_string());
    let p = launch_plan(&o, &EnvVars::new()).unwrap();
    assert_eq!(env_pairs(&p), vec![("RUN_IN_VMPL", "1")]);
}

#[test]
fn vmpl_process_and_thread_flags() {
    // vmpl-run -r -v -p ./my_program and vmpl-run -r -v -t ./my_program
    let mut o = opt();
    o.vmpl = true;
    o.vmpl_process = true;
    o.program = Some("./my_program".to_string());
    let p = launch_plan(&o, &EnvVars::new()).unwrap();
    assert_eq!(env_pairs(&p), vec![("RUN_IN_VMPL", "1"), ("RUN_IN_VMPL_PROCESS", "1")]);
    o.vmpl_process = false;
    o.vmpl_thread = true;
    let p = launch_plan(&o, &EnvVars::new()).unwrap();
    assert_eq!(env_pairs(&p), vec![("RUN_IN_VMPL", "1"), ("RUN_IN_VMPL_THREAD", "1")]);
}

#[test]
fn user_mode_flag() {
    // vmpl-run -r -v -u ./my_program
    let mut o = opt();
    o.vmpl = true;
    o.user_mode = true;
    o.program = Some("./my_program".to_string());
    let p = launch_plan(&o, &EnvVars::new()).unwrap();
    assert_eq!(env_pairs(&p), vec![("RUN_IN_VMPL", "1"), ("RUN_IN_USER_MODE", "1")]);
}

#[test]
fn every_option_in_order() {
    let mut o = opt();
    o.preload = true;
    o.libzhook = true;
    o.hotcalls = Some("hot.conf".to_string());
    o.enable_vmpl = true;
    o.vmpl = true;
    o.vmpl_process = true;
    o.vmpl_thread = true;
    o.user_mode = true;
    o.debug = true;
    o.log_level = Some("info".to_string());
    o.log_show_time = Some(true);
    o.log_file = Some("/tmp/log".to_string());
    o.silent = true;
    let env = option_assignments(&o);
    let got: Vec<(&str, &str)> = env.iter().map(|(k, v)| (k.as_str(), v.as_str())).collect();
    assert_eq!(
        got,
        vec![
            ("VMPL_LOG_LEVEL", "info"),
            ("VMPL_LOG_SHOW_TIME", "true"),
            ("VMPL_LOG_FILE", "/tmp/log"),
            ("VMPL_LOG_LEVEL", "error"),
            ("LIBZPHOOK", "libzphook_basic.so"),
            ("HOTCALLS_CONFIG_FILE", "hot.conf"),
            ("VMPL_ENABLED", "1"),
            ("RUN_IN_VMPL", "1"),
            ("RUN_IN_VMPL_PROCESS", "1"),
            ("RUN_IN_VMPL_THREAD", "1"),
            ("RUN_IN_USER_MODE", "1"),
            ("LD_PRELOAD", "libdunify.so:libzpoline.so"),
            ("VMPL_DEBUG_ENABLED", "1"),
        ]
    );
}

#[test]
fn show_time_false() {
    let mut o = opt();
    o.log_show_time = Some(false);
    let env = option_assignments(&o);
    assert_eq!(env, vec![("VMPL_LOG_SHOW_TIME".to_string(), "false".to_string())]);
}

#[test]
fn silent_overrides_log_level() {
    let mut o = opt();
    o.log_level = Some("debug".to_string());
    o.silent = true;
    o.program = Some("prog".to_string());
    let p = launch_plan(&o, &EnvVars::new()).unwrap();
    assert_eq!(effective(&p)["VMPL_LOG_LEVEL"], "error");
}

#[test]
fn preload_without_libzhook() {
    let mut o = opt();
    o.preload = true;
    o.program = Some("prog".to_string());
    let p = launch_plan(&o, &EnvVars::new()).unwrap();
    assert_eq!(effective(&p)["LD_PRELOAD"], "libdunify.so");
    assert!(!effective(&p).contains_key("LIBZPHOOK"));
}

#[test]
fn preload_with_libzhook() {
    let mut o = opt();
    o.preload = true;
    o.libzhook = true;
    o.program = Some("prog".to_string());
    let p = launch_plan(&o, &EnvVars::new()).unwrap();
    assert_eq!(effective(&p)["LD_PRELOAD"], "libdunify.so:libzpoline.so");
    assert_eq!(effective(&p)["LIBZPHOOK"], "libzphook_basic.so");
}

#[test]
fn shell_variables_override_options() {
    let mut o = opt();
    o.vmpl = true;
    o.silent = true;
    o.program = Some("prog".to_string());
    let mut vars = EnvVars::new();
    with_env(&mut vars, "RUN_IN_VMPL", "0");
    with_env(&mut vars, "VMPL_LOG_LEVEL", "trace");
    with_env(&mut vars, "OTHER", "x");
    let p = launch_plan(&o, &vars).unwrap();
    let e = effective(&p);
    assert_eq!(e["RUN_IN_VMPL"], "0");
    assert_eq!(e["VMPL_LOG_LEVEL"], "trace");
    assert_eq!(e["OTHER"], "x");
    assert_eq!(p.env.len(), 5);
}

#[test]
fn run_command_takes_program_and_arguments() {
    let mut o = opt();
    o.debug = true;
    o.program = Some("old".to_string());
    o.program_args = vec!["z".to_string()];
    let args = vec!["ls".to_string(), "-l".to_string(), "/tmp".to_string()];
    let p = run_command(&mut o, &args, &EnvVars::new());
    assert_eq!(o.program.as_deref(), Some("ls"));
    assert_eq!(o.program_args, vec!["-l".to_string(), "/tmp".to_string()]);
    assert!(o.debug);
    assert_eq!(p.program, "ls");
    assert_eq!(p.args, vec!["-l".to_string(), "/tmp".to_string()]);
    assert_eq!(env_pairs(&p), vec![("VMPL_DEBUG_ENABLED", "1")]);
}

#[test]
fn run_command_without_arguments() {
    let mut o = opt();
    let args = vec!["top".to_string()];
    let p = run_command(&mut o, &args, &EnvVars::new());
    assert_eq!(p.program, "top");
    assert!(p.args.is_empty());
    assert!(o.program_args.is_empty());
}

#[test]
fn mmap_reset_only_when_not_zero() {
    assert!(!mmap_reset_needed(0));
    assert!(mmap_reset_needed(65536));
    assert!(mmap_reset_needed(1));
}

#[test]
fn mmap_reset_command_text() {
    let p = mmap_reset_command();
    assert_eq!(p.program, "sudo");
    assert_eq!(
        p.args,
        vec![
            "sh".to_string(),
            "-c".to_string(),
            "echo 0 > /proc/sys/vm/mmap_min_addr".to_string()
        ]
    );
    assert!(p.env.is_empty());
}

#[test]
fn install_path_default_and_configured() {
    assert_eq!(install_path(None), "/usr/local");
    assert_eq!(install_path(Some("/opt/vmpl".to_string())), "/opt/vmpl");
}

#[test]
fn mode_selection() {
    let mut o = opt();
    assert_eq!(select_mode(&o), Mode::Neither);
    o.run = true;
    assert_eq!(select_mode(&o), Mode::Run);
    o.shell = true;
    assert_eq!(select_mode(&o), Mode::Shell);
}
