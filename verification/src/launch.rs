//! The command-line options, and what running a program under them amounts to: the
//! program, its arguments and the environment it gets.

use vstd::prelude::*;
use crate::env::{EnvVars, assigned, pairs_view, lemma_assigned_append};
use crate::text::strs;

verus! {

broadcast use vstd::string::group_string_axioms;

/// The options of the command line.
pub struct Opt {
    /// Run the specified program.
    pub run: bool,
    /// Run a shell.
    pub shell: bool,
    /// Use the preload library.
    pub preload: bool,
    /// Use libzhook.
    pub libzhook: bool,
    /// The hotcalls configuration file.
    pub hotcalls: Option<String>,
    /// Enable VMPL.
    pub enable_vmpl: bool,
    /// Run in VMPL mode.
    pub vmpl: bool,
    /// Run in VMPL for new processes.
    pub vmpl_process: bool,
    /// Run in VMPL for new threads.
    pub vmpl_thread: bool,
    /// Run in user mode.
    pub user_mode: bool,
    /// Enable debug mode.
    pub debug: bool,
    /// The log level.
    pub log_level: Option<String>,
    /// Whether the log shows the time.
    pub log_show_time: Option<bool>,
    /// The log file.
    pub log_file: Option<String>,
    /// Silent mode.
    pub silent: bool,
    /// The program to run.
    pub program: Option<String>,
    /// The arguments of the program.
    pub program_args: Vec<String>,
}

/// A program to start: its path, its arguments, and the environment variables to set
/// for it, in the order in which they are set (a later one replaces an earlier one of
/// the same name).
pub struct LaunchPlan {
    pub program: String,
    pub args: Vec<String>,
    pub env: Vec<(String, String)>,
}

/// What the tool does, by its options.
#[derive(PartialEq, Eq, Structural, Debug, Clone, Copy)]
pub enum Mode {
    Shell,
    Run,
    Neither,
}

/// The two option sets agree in all but the program and its arguments.
pub open spec fn same_settings(a: Opt, b: Opt) -> bool {
    &&& a.run == b.run
    &&& a.shell == b.shell
    &&& a.preload == b.preload
    &&& a.libzhook == b.libzhook
    &&& a.hotcalls == b.hotcalls
    &&& a.enable_vmpl == b.enable_vmpl
    &&& a.vmpl == b.vmpl
    &&& a.vmpl_process == b.vmpl_process
    &&& a.vmpl_thread == b.vmpl_thread
    &&& a.user_mode == b.user_mode
    &&& a.debug == b.debug
    &&& a.log_level == b.log_level
    &&& a.log_show_time == b.log_show_time
    &&& a.log_file == b.log_file
    &&& a.silent == b.silent
}

/// Appends an assignment where `cond` holds.
pub open spec fn set_if(
    s: Seq<(Seq<char>, Seq<char>)>,
    cond: bool,
    k: Seq<char>,
    v: Seq<char>,
) -> Seq<(Seq<char>, Seq<char>)> {
    if cond {
        s.push((k, v))
    } else {
        s
    }
}

/// Appends an assignment of the given value, where there is one.
pub open spec fn set_opt(s: Seq<(Seq<char>, Seq<char>)>, o: Option<String>, k: Seq<char>) -> Seq<
    (Seq<char>, Seq<char>),
> {
    match o {
        Some(v) => s.push((k, v@)),
        None => s,
    }
}

/// The text of a boolean, as `bool`'s `to_string` gives it.
pub open spec fn bool_text(b: bool) -> Seq<char> {
    if b {
        "true"@
    } else {
        "false"@
    }
}

/// The value of `LD_PRELOAD` that the preload option sets.
pub open spec fn preload_value(libzhook: bool) -> Seq<char> {
    if libzhook {
        "libdunify.so:libzpoline.so"@
    } else {
        "libdunify.so"@
    }
}

/// The environment variables that the options set, in order.
pub open spec fn options_env(opt: Opt) -> Seq<(Seq<char>, Seq<char>)> {
    let s = set_opt(Seq::empty(), opt.log_level, "VMPL_LOG_LEVEL"@);
    let s = match opt.log_show_time {
        Some(b) => s.push(("VMPL_LOG_SHOW_TIME"@, bool_text(b))),
        None => s,
    };
    let s = set_opt(s, opt.log_file, "VMPL_LOG_FILE"@);
    let s = set_if(s, opt.silent, "VMPL_LOG_LEVEL"@, "error"@);
    let s = set_if(s, opt.libzhook, "LIBZPHOOK"@, "libzphook_basic.so"@);
    let s = set_opt(s, opt.hotcalls, "HOTCALLS_CONFIG_FILE"@);
    let s = set_if(s, opt.enable_vmpl, "VMPL_ENABLED"@, "1"@);
    let s = set_if(s, opt.vmpl, "RUN_IN_VMPL"@, "1"@);
    let s = set_if(s, opt.vmpl_process, "RUN_IN_VMPL_PROCESS"@, "1"@);
    let s = set_if(s, opt.vmpl_thread, "RUN_IN_VMPL_THREAD"@, "1"@);
    let s = set_if(s, opt.user_mode, "RUN_IN_USER_MODE"@, "1"@);
    let s = set_if(s, opt.preload, "LD_PRELOAD"@, preload_value(opt.libzhook));
    set_if(s, opt.debug, "VMPL_DEBUG_ENABLED"@, "1"@)
}

/// The assignments of a launch: those of the options, then the variables set in the
/// shell, which may override them.
pub open spec fn launch_env(opt: Opt, vars: EnvVars) -> Seq<(Seq<char>, Seq<char>)> {
    options_env(opt) + vars.pairs()
}

/// The environment a launched program gets beyond the one it inherits.
pub open spec fn effective_env(opt: Opt, vars: EnvVars) -> Map<Seq<char>, Seq<char>> {
    assigned(launch_env(opt, vars))
}

/// `p` runs `program` with `args` under the options `opt` and the variables `vars`.
pub open spec fn is_launch_of(p: LaunchPlan, program: String, args: Seq<String>, opt: Opt, vars: EnvVars) -> bool {
    &&& p.program@ == program@
    &&& strs(p.args@) == strs(args)
    &&& pairs_view(p.env@) == launch_env(opt, vars)
}

/// Appends an assignment of a name to a value.
fn push_pair(env: &mut Vec<(String, String)>, k: &str, v: &str)
    ensures
        pairs_view(final(env)@) == pairs_view(old(env)@).push((k@, v@)),
{
    env.push((String::from_str(k), String::from_str(v)));
    assert(pairs_view(env@) =~= pairs_view(old(env)@).push((k@, v@)));
}

/// Appends an assignment where `cond` holds.
fn push_pair_if(env: &mut Vec<(String, String)>, cond: bool, k: &str, v: &str)
    ensures
        pairs_view(final(env)@) == set_if(pairs_view(old(env)@), cond, k@, v@),
{
    if cond {
        push_pair(env, k, v);
    }
}

/// Appends an assignment of the given value, where there is one.
fn push_pair_opt(env: &mut Vec<(String, String)>, o: &Option<String>, k: &str)
    ensures
        pairs_view(final(env)@) == set_opt(pairs_view(old(env)@), *o, k@),
{
    match o {
        Some(v) => push_pair(env, k, v.as_str()),
        None => {},
    }
}

/// Copies a list of strings.
pub fn copy_strings(v: &Vec<String>, from: usize) -> (r: Vec<String>)
    requires
        from <= v.len(),
    ensures
        r@ == v@.subrange(from as int, v@.len() as int),
{
    let mut r: Vec<String> = Vec::new();
    let mut i = from;
    while i < v.len()
        invariant
            from <= i <= v.len(),
            r@ == v@.subrange(from as int, i as int),
        decreases v.len() - i,
    {
        r.push(v[i].clone());
        assert(v@.subrange(from as int, i + 1) =~= v@.subrange(from as int, i as int).push(
            v@[i as int],
        ));
        i = i + 1;
    }
    r
}

/// The environment variables that the options set, in order.
pub fn option_assignments(opt: &Opt) -> (env: Vec<(String, String)>)
    ensures
        pairs_view(env@) == options_env(*opt),
{
    let mut env: Vec<(String, String)> = Vec::new();
    assert(pairs_view(env@) =~= Seq::<(Seq<char>, Seq<char>)>::empty());
    push_pair_opt(&mut env, &opt.log_level, "VMPL_LOG_LEVEL");
    match opt.log_show_time {
        Some(b) => {
            if b {
                push_pair(&mut env, "VMPL_LOG_SHOW_TIME", "true");
            } else {
                push_pair(&mut env, "VMPL_LOG_SHOW_TIME", "false");
            }
        },
        None => {},
    }
    push_pair_opt(&mut env, &opt.log_file, "VMPL_LOG_FILE");
    push_pair_if(&mut env, opt.silent, "VMPL_LOG_LEVEL", "error");
    push_pair_if(&mut env, opt.libzhook, "LIBZPHOOK", "libzphook_basic.so");
    push_pair_opt(&mut env, &opt.hotcalls, "HOTCALLS_CONFIG_FILE");
    push_pair_if(&mut env, opt.enable_vmpl, "VMPL_ENABLED", "1");
    push_pair_if(&mut env, opt.vmpl, "RUN_IN_VMPL", "1");
    push_pair_if(&mut env, opt.vmpl_process, "RUN_IN_VMPL_PROCESS", "1");
    push_pair_if(&mut env, opt.vmpl_thread, "RUN_IN_VMPL_THREAD", "1");
    push_pair_if(&mut env, opt.user_mode, "RUN_IN_USER_MODE", "1");
    if opt.libzhook {
        push_pair_if(&mut env, opt.preload, "LD_PRELOAD", "libdunify.so:libzpoline.so");
    } else {
        push_pair_if(&mut env, opt.preload, "LD_PRELOAD", "libdunify.so");
    }
    push_pair_if(&mut env, opt.debug, "VMPL_DEBUG_ENABLED", "1");
    env
}

/// The launch of `program` with `args` under the options and the variables set in
/// the shell.
fn plan_for(program: &String, args: &Vec<String>, opt: &Opt, vars: &EnvVars) -> (p: LaunchPlan)
    ensures
        is_launch_of(p, *program, args@, *opt, *vars),
{
    let mut env = option_assignments(opt);
    let ghost opts = pairs_view(env@);
    let extra = vars.entries();
    for i in 0..extra.len()
        invariant
            pairs_view(env@) == opts + pairs_view(extra@.take(i as int)),
    {
        let ghost before = env@;
        env.push((extra[i].0.clone(), extra[i].1.clone()));
        assert(extra@.take(i + 1) =~= extra@.take(i as int).push(extra@[i as int]));
        assert(pairs_view(env@) =~= pairs_view(before).push((extra@[i as int].0@, extra@[i as int].1@)));
        assert(pairs_view(extra@.take(i + 1)) =~= pairs_view(extra@.take(i as int)).push((extra@[i as int].0@, extra@[i as int].1@)));
    }
    assert(extra@.take(extra@.len() as int) =~= extra@);
    let a = copy_strings(args, 0);
    assert(args@.subrange(0, args@.len() as int) =~= args@);
    LaunchPlan { program: program.clone(), args: a, env }
}

/// What running the program of the options amounts to: nothing where the options
/// name no program.
pub fn launch_plan(opt: &Opt, vars: &EnvVars) -> (r: Option<LaunchPlan>)
    ensures
        match r {
            Some(p) => opt.program matches Some(prog) && is_launch_of(
                p,
                prog,
                opt.program_args@,
                *opt,
                *vars,
            ),
            None => opt.program is None,
        },
{
    match &opt.program {
        Some(prog) => Some(plan_for(prog, &opt.program_args, opt, vars)),
        None => None,
    }
}

/// Makes the first word of `args` the program to run and the others its arguments,
/// and gives the launch that follows.
pub fn run_command(opt: &mut Opt, args: &Vec<String>, vars: &EnvVars) -> (p: LaunchPlan)
    requires
        args.len() >= 1,
    ensures
        final(opt).program == Some(args@[0]),
        final(opt).program_args@ == args@.subrange(1, args@.len() as int),
        same_settings(*final(opt), *old(opt)),
        is_launch_of(p, args@[0], args@.subrange(1, args@.len() as int), *final(opt), *vars),
{
    opt.program = Some(args[0].clone());
    opt.program_args = copy_strings(args, 1);
    let prog = args[0].clone();
    plan_for(&prog, &opt.program_args, opt, vars)
}

/// Whether the kernel's lowest address for mappings has to be set to 0 first: it
/// has, unless it is 0 already.
pub fn mmap_reset_needed(min_addr: u64) -> (b: bool)
    ensures
        b == (min_addr != 0),
{
    min_addr != 0
}

/// The command that sets the kernel's lowest address for mappings to 0.
pub fn mmap_reset_command() -> (p: LaunchPlan)
    ensures
        p.program@ == "sudo"@,
        strs(p.args@) == seq!["sh"@, "-c"@, "echo 0 > /proc/sys/vm/mmap_min_addr"@],
        p.env@.len() == 0,
{
    let args = vec![
        String::from_str("sh"),
        String::from_str("-c"),
        String::from_str("echo 0 > /proc/sys/vm/mmap_min_addr"),
    ];
    let p = LaunchPlan { program: String::from_str("sudo"), args, env: Vec::new() };
    assert(strs(p.args@) =~= seq!["sh"@, "-c"@, "echo 0 > /proc/sys/vm/mmap_min_addr"@]);
    p
}

/// The installation prefix: the value of `VMPL_INSTALL_PATH` where it is set,
/// `/usr/local` where not.
pub fn install_path(configured: Option<String>) -> (r: String)
    ensures
        match configured {
            Some(p) => r@ == p@,
            None => r@ == "/usr/local"@,
        },
{
    match configured {
        Some(p) => p,
        None => String::from_str("/usr/local"),
    }
}

/// What the tool does: the shell where asked for, else the program where asked for.
pub fn select_mode(opt: &Opt) -> (m: Mode)
    ensures
        m == (if opt.shell {
            Mode::Shell
        } else if opt.run {
            Mode::Run
        } else {
            Mode::Neither
        }),
{
    if opt.shell {
        Mode::Shell
    } else if opt.run {
        Mode::Run
    } else {
        Mode::Neither
    }
}

/// The variables set in the shell override those the options set: each has its own
/// value in the environment of a launch.
pub proof fn law_shell_vars_override(opt: Opt, vars: EnvVars, k: Seq<char>)
    requires
        vars.vars().contains_key(k),
    ensures
        effective_env(opt, vars).contains_key(k),
        effective_env(opt, vars)[k] == vars.vars()[k],
{
    lemma_assigned_append(options_env(opt), vars.pairs());
}

/// A variable that the shell does not set has in a launch the value the options
/// give it, if any.
pub proof fn law_options_apply(opt: Opt, vars: EnvVars, k: Seq<char>)
    requires
        !vars.vars().contains_key(k),
    ensures
        effective_env(opt, vars).contains_key(k) == assigned(options_env(opt)).contains_key(k),
        assigned(options_env(opt)).contains_key(k) ==> effective_env(opt, vars)[k] == assigned(
            options_env(opt),
        )[k],
{
    lemma_assigned_append(options_env(opt), vars.pairs());
}

/// An assignment that is not of the name `n` leaves `n` as it was.
proof fn lemma_other_name(s: Seq<(Seq<char>, Seq<char>)>, cond: bool, k: Seq<char>, v: Seq<char>, n: Seq<char>)
    requires
        k != n,
    ensures
        assigned(set_if(s, cond, k, v)).contains_key(n) == assigned(s).contains_key(n),
        assigned(set_if(s, cond, k, v))[n] == assigned(s)[n],
{
    if cond {
        assert(s.push((k, v)).drop_last() =~= s);
    }
}

/// An assignment made where `cond` holds sets its name.
proof fn lemma_set_name(s: Seq<(Seq<char>, Seq<char>)>, k: Seq<char>, v: Seq<char>)
    ensures
        assigned(set_if(s, true, k, v)).contains_key(k),
        assigned(set_if(s, true, k, v))[k] == v,
{
    assert(s.push((k, v)).drop_last() =~= s);
}

/// Silent mode sets the log level to `error`, whatever level the options name,
/// unless the shell sets the log level itself.
pub proof fn law_silent_log_level(opt: Opt, vars: EnvVars)
    requires
        opt.silent,
        !vars.vars().contains_key("VMPL_LOG_LEVEL"@),
    ensures
        effective_env(opt, vars).contains_key("VMPL_LOG_LEVEL"@),
        effective_env(opt, vars)["VMPL_LOG_LEVEL"@] == "error"@,
{
    reveal_strlit("VMPL_LOG_LEVEL");
    reveal_strlit("LIBZPHOOK");
    reveal_strlit("HOTCALLS_CONFIG_FILE");
    reveal_strlit("VMPL_ENABLED");
    reveal_strlit("RUN_IN_VMPL");
    reveal_strlit("RUN_IN_VMPL_PROCESS");
    reveal_strlit("RUN_IN_VMPL_THREAD");
    reveal_strlit("RUN_IN_USER_MODE");
    reveal_strlit("LD_PRELOAD");
    reveal_strlit("VMPL_DEBUG_ENABLED");
    let n = "VMPL_LOG_LEVEL"@;
    assert(n.len() == 14);
    assert("LIBZPHOOK"@.len() == 9);
    assert("HOTCALLS_CONFIG_FILE"@.len() == 20);
    assert("VMPL_ENABLED"@.len() == 12);
    assert("RUN_IN_VMPL"@.len() == 11);
    assert("RUN_IN_VMPL_PROCESS"@.len() == 19);
    assert("RUN_IN_VMPL_THREAD"@.len() == 18);
    assert("RUN_IN_USER_MODE"@.len() == 16);
    assert("LD_PRELOAD"@.len() == 10);
    assert("VMPL_DEBUG_ENABLED"@.len() == 18);
    let s0 = set_opt(Seq::empty(), opt.log_level, "VMPL_LOG_LEVEL"@);
    let s1 = match opt.log_show_time {
        Some(b) => s0.push(("VMPL_LOG_SHOW_TIME"@, bool_text(b))),
        None => s0,
    };
    let s2 = set_opt(s1, opt.log_file, "VMPL_LOG_FILE"@);
    let s3 = set_if(s2, opt.silent, "VMPL_LOG_LEVEL"@, "error"@);
    lemma_set_name(s2, n, "error"@);
    let s4 = set_if(s3, opt.libzhook, "LIBZPHOOK"@, "libzphook_basic.so"@);
    lemma_other_name(s3, opt.libzhook, "LIBZPHOOK"@, "libzphook_basic.so"@, n);
    let s5 = set_opt(s4, opt.hotcalls, "HOTCALLS_CONFIG_FILE"@);
    match opt.hotcalls {
        Some(h) => lemma_other_name(s4, true, "HOTCALLS_CONFIG_FILE"@, h@, n),
        None => {},
    }
    let s6 = set_if(s5, opt.enable_vmpl, "VMPL_ENABLED"@, "1"@);
    lemma_other_name(s5, opt.enable_vmpl, "VMPL_ENABLED"@, "1"@, n);
    let s7 = set_if(s6, opt.vmpl, "RUN_IN_VMPL"@, "1"@);
    lemma_other_name(s6, opt.vmpl, "RUN_IN_VMPL"@, "1"@, n);
    let s8 = set_if(s7, opt.vmpl_process, "RUN_IN_VMPL_PROCESS"@, "1"@);
    lemma_other_name(s7, opt.vmpl_process, "RUN_IN_VMPL_PROCESS"@, "1"@, n);
    let s9 = set_if(s8, opt.vmpl_thread, "RUN_IN_VMPL_THREAD"@, "1"@);
    lemma_other_name(s8, opt.vmpl_thread, "RUN_IN_VMPL_THREAD"@, "1"@, n);
    let s10 = set_if(s9, opt.user_mode, "RUN_IN_USER_MODE"@, "1"@);
    lemma_other_name(s9, opt.user_mode, "RUN_IN_USER_MODE"@, "1"@, n);
    let s11 = set_if(s10, opt.preload, "LD_PRELOAD"@, preload_value(opt.libzhook));
    lemma_other_name(s10, opt.preload, "LD_PRELOAD"@, preload_value(opt.libzhook), n);
    lemma_other_name(s11, opt.debug, "VMPL_DEBUG_ENABLED"@, "1"@, n);
    lemma_assigned_append(options_env(opt), vars.pairs());
}

/// The preload option loads `libdunify.so`, together with `libzpoline.so` where
/// libzhook is in use, unless the shell sets `LD_PRELOAD` itself.
pub proof fn law_preload_libraries(opt: Opt, vars: EnvVars)
    requires
        opt.preload,
        !vars.vars().contains_key("LD_PRELOAD"@),
    ensures
        effective_env(opt, vars).contains_key("LD_PRELOAD"@),
        effective_env(opt, vars)["LD_PRELOAD"@] == (if opt.libzhook {
            "libdunify.so:libzpoline.so"@
        } else {
            "libdunify.so"@
        }),
{
    reveal_strlit("LD_PRELOAD");
    reveal_strlit("VMPL_DEBUG_ENABLED");
    let n = "LD_PRELOAD"@;
    assert(n.len() == 10);
    assert("VMPL_DEBUG_ENABLED"@.len() == 18);
    let s0 = set_opt(Seq::empty(), opt.log_level, "VMPL_LOG_LEVEL"@);
    let s1 = match opt.log_show_time {
        Some(b) => s0.push(("VMPL_LOG_SHOW_TIME"@, bool_text(b))),
        None => s0,
    };
    let s2 = set_opt(s1, opt.log_file, "VMPL_LOG_FILE"@);
    let s3 = set_if(s2, opt.silent, "VMPL_LOG_LEVEL"@, "error"@);
    let s4 = set_if(s3, opt.libzhook, "LIBZPHOOK"@, "libzphook_basic.so"@);
    let s5 = set_opt(s4, opt.hotcalls, "HOTCALLS_CONFIG_FILE"@);
    let s6 = set_if(s5, opt.enable_vmpl, "VMPL_ENABLED"@, "1"@);
    let s7 = set_if(s6, opt.vmpl, "RUN_IN_VMPL"@, "1"@);
    let s8 = set_if(s7, opt.vmpl_process, "RUN_IN_VMPL_PROCESS"@, "1"@);
    let s9 = set_if(s8, opt.vmpl_thread, "RUN_IN_VMPL_THREAD"@, "1"@);
    let s10 = set_if(s9, opt.user_mode, "RUN_IN_USER_MODE"@, "1"@);
    let s11 = set_if(s10, opt.preload, "LD_PRELOAD"@, preload_value(opt.libzhook));
    lemma_set_name(s10, n, preload_value(opt.libzhook));
    lemma_other_name(s11, opt.debug, "VMPL_DEBUG_ENABLED"@, "1"@, n);
    lemma_assigned_append(options_env(opt), vars.pairs());
}

/// What the options assign to `HOTCALLS_CONFIG_FILE`.
#[verifier::spinoff_prover]
proof fn lemma_options_set_hotcalls_config_file(opt: Opt)
    ensures
        ({
            let n = "HOTCALLS_CONFIG_FILE"@;
            &&& assigned(options_env(opt)).contains_key(n) == (opt.hotcalls is Some)
            &&& opt.hotcalls is Some ==> assigned(options_env(opt))[n] == opt.hotcalls->0@
        }),
{
    let n = "HOTCALLS_CONFIG_FILE"@;
    reveal_strlit("HOTCALLS_CONFIG_FILE");
    reveal_strlit("LD_PRELOAD");
    reveal_strlit("LIBZPHOOK");
    reveal_strlit("RUN_IN_USER_MODE");
    reveal_strlit("RUN_IN_VMPL");
    reveal_strlit("RUN_IN_VMPL_PROCESS");
    reveal_strlit("RUN_IN_VMPL_THREAD");
    reveal_strlit("VMPL_DEBUG_ENABLED");
    reveal_strlit("VMPL_ENABLED");
    reveal_strlit("VMPL_LOG_FILE");
    reveal_strlit("VMPL_LOG_LEVEL");
    reveal_strlit("VMPL_LOG_SHOW_TIME");
    assert("HOTCALLS_CONFIG_FILE"@.len() == 20);
    assert("LD_PRELOAD"@.len() == 10);
    assert("LIBZPHOOK"@.len() == 9);
    assert("RUN_IN_USER_MODE"@.len() == 16);
    assert("RUN_IN_VMPL"@.len() == 11);
    assert("RUN_IN_VMPL_PROCESS"@.len() == 19);
    assert("RUN_IN_VMPL_THREAD"@.len() == 18);
    assert("VMPL_DEBUG_ENABLED"@.len() == 18);
    assert("VMPL_ENABLED"@.len() == 12);
    assert("VMPL_LOG_FILE"@.len() == 13);
    assert("VMPL_LOG_LEVEL"@.len() == 14);
    assert("VMPL_LOG_SHOW_TIME"@.len() == 18);
    assert("VMPL_LOG_SHOW_TIME"@[0] == 'V' && "RUN_IN_VMPL_THREAD"@[0] == 'R' && "VMPL_DEBUG_ENABLED"@[0] == 'V');
    assert("VMPL_LOG_SHOW_TIME"@[5] == 'L' && "VMPL_DEBUG_ENABLED"@[5] == 'D');
    reveal_strlit("true");
    reveal_strlit("false");
    let s0 = set_opt(Seq::<(Seq<char>, Seq<char>)>::empty(), opt.log_level, "VMPL_LOG_LEVEL"@);
    if let Some(x) = opt.log_level { lemma_other_name(Seq::<(Seq<char>, Seq<char>)>::empty(), true, "VMPL_LOG_LEVEL"@, x@, n); }
    let s1 = match opt.log_show_time { Some(b) => s0.push(("VMPL_LOG_SHOW_TIME"@, bool_text(b))), None => s0 };
    if let Some(b) = opt.log_show_time { lemma_other_name(s0, true, "VMPL_LOG_SHOW_TIME"@, bool_text(b), n); }
    let s2 = set_opt(s1, opt.log_file, "VMPL_LOG_FILE"@);
    if let Some(x) = opt.log_file { lemma_other_name(s1, true, "VMPL_LOG_FILE"@, x@, n); }
    let s3 = set_if(s2, opt.silent, "VMPL_LOG_LEVEL"@, "error"@);
    lemma_other_name(s2, opt.silent, "VMPL_LOG_LEVEL"@, "error"@, n);
    let s4 = set_if(s3, opt.libzhook, "LIBZPHOOK"@, "libzphook_basic.so"@);
    lemma_other_name(s3, opt.libzhook, "LIBZPHOOK"@, "libzphook_basic.so"@, n);
    let s5 = set_opt(s4, opt.hotcalls, "HOTCALLS_CONFIG_FILE"@);
    if let Some(x) = opt.hotcalls { lemma_set_name(s4, "HOTCALLS_CONFIG_FILE"@, x@); }
    let s6 = set_if(s5, opt.enable_vmpl, "VMPL_ENABLED"@, "1"@);
    lemma_other_name(s5, opt.enable_vmpl, "VMPL_ENABLED"@, "1"@, n);
    let s7 = set_if(s6, opt.vmpl, "RUN_IN_VMPL"@, "1"@);
    lemma_other_name(s6, opt.vmpl, "RUN_IN_VMPL"@, "1"@, n);
    let s8 = set_if(s7, opt.vmpl_process, "RUN_IN_VMPL_PROCESS"@, "1"@);
    lemma_other_name(s7, opt.vmpl_process, "RUN_IN_VMPL_PROCESS"@, "1"@, n);
    let s9 = set_if(s8, opt.vmpl_thread, "RUN_IN_VMPL_THREAD"@, "1"@);
    lemma_other_name(s8, opt.vmpl_thread, "RUN_IN_VMPL_THREAD"@, "1"@, n);
    let s10 = set_if(s9, opt.user_mode, "RUN_IN_USER_MODE"@, "1"@);
    lemma_other_name(s9, opt.user_mode, "RUN_IN_USER_MODE"@, "1"@, n);
    let s11 = set_if(s10, opt.preload, "LD_PRELOAD"@, preload_value(opt.libzhook));
    lemma_other_name(s10, opt.preload, "LD_PRELOAD"@, preload_value(opt.libzhook), n);
    let s12 = set_if(s11, opt.debug, "VMPL_DEBUG_ENABLED"@, "1"@);
    lemma_other_name(s11, opt.debug, "VMPL_DEBUG_ENABLED"@, "1"@, n);
    assert(options_env(opt) == s12);
}

/// What the options assign to `LD_PRELOAD`.
#[verifier::spinoff_prover]
proof fn lemma_options_set_ld_preload(opt: Opt)
    ensures
        ({
            let n = "LD_PRELOAD"@;
            &&& assigned(options_env(opt)).contains_key(n) == opt.preload
            &&& opt.preload ==> assigned(options_env(opt))[n] == (if opt.libzhook { "libdunify.so:libzpoline.so"@ } else { "libdunify.so"@ })
        }),
{
    let n = "LD_PRELOAD"@;
    reveal_strlit("HOTCALLS_CONFIG_FILE");
    reveal_strlit("LD_PRELOAD");
    reveal_strlit("LIBZPHOOK");
    reveal_strlit("RUN_IN_USER_MODE");
    reveal_strlit("RUN_IN_VMPL");
    reveal_strlit("RUN_IN_VMPL_PROCESS");
    reveal_strlit("RUN_IN_VMPL_THREAD");
    reveal_strlit("VMPL_DEBUG_ENABLED");
    reveal_strlit("VMPL_ENABLED");
    reveal_strlit("VMPL_LOG_FILE");
    reveal_strlit("VMPL_LOG_LEVEL");
    reveal_strlit("VMPL_LOG_SHOW_TIME");
    assert("HOTCALLS_CONFIG_FILE"@.len() == 20);
    assert("LD_PRELOAD"@.len() == 10);
    assert("LIBZPHOOK"@.len() == 9);
    assert("RUN_IN_USER_MODE"@.len() == 16);
    assert("RUN_IN_VMPL"@.len() == 11);
    assert("RUN_IN_VMPL_PROCESS"@.len() == 19);
    assert("RUN_IN_VMPL_THREAD"@.len() == 18);
    assert("VMPL_DEBUG_ENABLED"@.len() == 18);
    assert("VMPL_ENABLED"@.len() == 12);
    assert("VMPL_LOG_FILE"@.len() == 13);
    assert("VMPL_LOG_LEVEL"@.len() == 14);
    assert("VMPL_LOG_SHOW_TIME"@.len() == 18);
    assert("VMPL_LOG_SHOW_TIME"@[0] == 'V' && "RUN_IN_VMPL_THREAD"@[0] == 'R' && "VMPL_DEBUG_ENABLED"@[0] == 'V');
    assert("VMPL_LOG_SHOW_TIME"@[5] == 'L' && "VMPL_DEBUG_ENABLED"@[5] == 'D');
    reveal_strlit("true");
    reveal_strlit("false");
    let s0 = set_opt(Seq::<(Seq<char>, Seq<char>)>::empty(), opt.log_level, "VMPL_LOG_LEVEL"@);
    if let Some(x) = opt.log_level { lemma_other_name(Seq::<(Seq<char>, Seq<char>)>::empty(), true, "VMPL_LOG_LEVEL"@, x@, n); }
    let s1 = match opt.log_show_time { Some(b) => s0.push(("VMPL_LOG_SHOW_TIME"@, bool_text(b))), None => s0 };
    if let Some(b) = opt.log_show_time { lemma_other_name(s0, true, "VMPL_LOG_SHOW_TIME"@, bool_text(b), n); }
    let s2 = set_opt(s1, opt.log_file, "VMPL_LOG_FILE"@);
    if let Some(x) = opt.log_file { lemma_other_name(s1, true, "VMPL_LOG_FILE"@, x@, n); }
    let s3 = set_if(s2, opt.silent, "VMPL_LOG_LEVEL"@, "error"@);
    lemma_other_name(s2, opt.silent, "VMPL_LOG_LEVEL"@, "error"@, n);
    let s4 = set_if(s3, opt.libzhook, "LIBZPHOOK"@, "libzphook_basic.so"@);
    lemma_other_name(s3, opt.libzhook, "LIBZPHOOK"@, "libzphook_basic.so"@, n);
    let s5 = set_opt(s4, opt.hotcalls, "HOTCALLS_CONFIG_FILE"@);
    if let Some(x) = opt.hotcalls { lemma_other_name(s4, true, "HOTCALLS_CONFIG_FILE"@, x@, n); }
    let s6 = set_if(s5, opt.enable_vmpl, "VMPL_ENABLED"@, "1"@);
    lemma_other_name(s5, opt.enable_vmpl, "VMPL_ENABLED"@, "1"@, n);
    let s7 = set_if(s6, opt.vmpl, "RUN_IN_VMPL"@, "1"@);
    lemma_other_name(s6, opt.vmpl, "RUN_IN_VMPL"@, "1"@, n);
    let s8 = set_if(s7, opt.vmpl_process, "RUN_IN_VMPL_PROCESS"@, "1"@);
    lemma_other_name(s7, opt.vmpl_process, "RUN_IN_VMPL_PROCESS"@, "1"@, n);
    let s9 = set_if(s8, opt.vmpl_thread, "RUN_IN_VMPL_THREAD"@, "1"@);
    lemma_other_name(s8, opt.vmpl_thread, "RUN_IN_VMPL_THREAD"@, "1"@, n);
    let s10 = set_if(s9, opt.user_mode, "RUN_IN_USER_MODE"@, "1"@);
    lemma_other_name(s9, opt.user_mode, "RUN_IN_USER_MODE"@, "1"@, n);
    let s11 = set_if(s10, opt.preload, "LD_PRELOAD"@, preload_value(opt.libzhook));
    if opt.preload { lemma_set_name(s10, "LD_PRELOAD"@, preload_value(opt.libzhook)); }
    let s12 = set_if(s11, opt.debug, "VMPL_DEBUG_ENABLED"@, "1"@);
    lemma_other_name(s11, opt.debug, "VMPL_DEBUG_ENABLED"@, "1"@, n);
    assert(options_env(opt) == s12);
}

/// What the options assign to `LIBZPHOOK`.
#[verifier::spinoff_prover]
proof fn lemma_options_set_libzphook(opt: Opt)
    ensures
        ({
            let n = "LIBZPHOOK"@;
            &&& assigned(options_env(opt)).contains_key(n) == opt.libzhook
            &&& opt.libzhook ==> assigned(options_env(opt))[n] == "libzphook_basic.so"@
        }),
{
    let n = "LIBZPHOOK"@;
    reveal_strlit("HOTCALLS_CONFIG_FILE");
    reveal_strlit("LD_PRELOAD");
    reveal_strlit("LIBZPHOOK");
    reveal_strlit("RUN_IN_USER_MODE");
    reveal_strlit("RUN_IN_VMPL");
    reveal_strlit("RUN_IN_VMPL_PROCESS");
    reveal_strlit("RUN_IN_VMPL_THREAD");
    reveal_strlit("VMPL_DEBUG_ENABLED");
    reveal_strlit("VMPL_ENABLED");
    reveal_strlit("VMPL_LOG_FILE");
    reveal_strlit("VMPL_LOG_LEVEL");
    reveal_strlit("VMPL_LOG_SHOW_TIME");
    assert("HOTCALLS_CONFIG_FILE"@.len() == 20);
    assert("LD_PRELOAD"@.len() == 10);
    assert("LIBZPHOOK"@.len() == 9);
    assert("RUN_IN_USER_MODE"@.len() == 16);
    assert("RUN_IN_VMPL"@.len() == 11);
    assert("RUN_IN_VMPL_PROCESS"@.len() == 19);
    assert("RUN_IN_VMPL_THREAD"@.len() == 18);
    assert("VMPL_DEBUG_ENABLED"@.len() == 18);
    assert("VMPL_ENABLED"@.len() == 12);
    assert("VMPL_LOG_FILE"@.len() == 13);
    assert("VMPL_LOG_LEVEL"@.len() == 14);
    assert("VMPL_LOG_SHOW_TIME"@.len() == 18);
    assert("VMPL_LOG_SHOW_TIME"@[0] == 'V' && "RUN_IN_VMPL_THREAD"@[0] == 'R' && "VMPL_DEBUG_ENABLED"@[0] == 'V');
    assert("VMPL_LOG_SHOW_TIME"@[5] == 'L' && "VMPL_DEBUG_ENABLED"@[5] == 'D');
    reveal_strlit("true");
    reveal_strlit("false");
    let s0 = set_opt(Seq::<(Seq<char>, Seq<char>)>::empty(), opt.log_level, "VMPL_LOG_LEVEL"@);
    if let Some(x) = opt.log_level { lemma_other_name(Seq::<(Seq<char>, Seq<char>)>::empty(), true, "VMPL_LOG_LEVEL"@, x@, n); }
    let s1 = match opt.log_show_time { Some(b) => s0.push(("VMPL_LOG_SHOW_TIME"@, bool_text(b))), None => s0 };
    if let Some(b) = opt.log_show_time { lemma_other_name(s0, true, "VMPL_LOG_SHOW_TIME"@, bool_text(b), n); }
    let s2 = set_opt(s1, opt.log_file, "VMPL_LOG_FILE"@);
    if let Some(x) = opt.log_file { lemma_other_name(s1, true, "VMPL_LOG_FILE"@, x@, n); }
    let s3 = set_if(s2, opt.silent, "VMPL_LOG_LEVEL"@, "error"@);
    lemma_other_name(s2, opt.silent, "VMPL_LOG_LEVEL"@, "error"@, n);
    let s4 = set_if(s3, opt.libzhook, "LIBZPHOOK"@, "libzphook_basic.so"@);
    if opt.libzhook { lemma_set_name(s3, "LIBZPHOOK"@, "libzphook_basic.so"@); }
    let s5 = set_opt(s4, opt.hotcalls, "HOTCALLS_CONFIG_FILE"@);
    if let Some(x) = opt.hotcalls { lemma_other_name(s4, true, "HOTCALLS_CONFIG_FILE"@, x@, n); }
    let s6 = set_if(s5, opt.enable_vmpl, "VMPL_ENABLED"@, "1"@);
    lemma_other_name(s5, opt.enable_vmpl, "VMPL_ENABLED"@, "1"@, n);
    let s7 = set_if(s6, opt.vmpl, "RUN_IN_VMPL"@, "1"@);
    lemma_other_name(s6, opt.vmpl, "RUN_IN_VMPL"@, "1"@, n);
    let s8 = set_if(s7, opt.vmpl_process, "RUN_IN_VMPL_PROCESS"@, "1"@);
    lemma_other_name(s7, opt.vmpl_process, "RUN_IN_VMPL_PROCESS"@, "1"@, n);
    let s9 = set_if(s8, opt.vmpl_thread, "RUN_IN_VMPL_THREAD"@, "1"@);
    lemma_other_name(s8, opt.vmpl_thread, "RUN_IN_VMPL_THREAD"@, "1"@, n);
    let s10 = set_if(s9, opt.user_mode, "RUN_IN_USER_MODE"@, "1"@);
    lemma_other_name(s9, opt.user_mode, "RUN_IN_USER_MODE"@, "1"@, n);
    let s11 = set_if(s10, opt.preload, "LD_PRELOAD"@, preload_value(opt.libzhook));
    lemma_other_name(s10, opt.preload, "LD_PRELOAD"@, preload_value(opt.libzhook), n);
    let s12 = set_if(s11, opt.debug, "VMPL_DEBUG_ENABLED"@, "1"@);
    lemma_other_name(s11, opt.debug, "VMPL_DEBUG_ENABLED"@, "1"@, n);
    assert(options_env(opt) == s12);
}

/// What the options assign to `RUN_IN_USER_MODE`.
#[verifier::spinoff_prover]
proof fn lemma_options_set_run_in_user_mode(opt: Opt)
    ensures
        ({
            let n = "RUN_IN_USER_MODE"@;
            &&& assigned(options_env(opt)).contains_key(n) == opt.user_mode
            &&& opt.user_mode ==> assigned(options_env(opt))[n] == "1"@
        }),
{
    let n = "RUN_IN_USER_MODE"@;
    reveal_strlit("HOTCALLS_CONFIG_FILE");
    reveal_strlit("LD_PRELOAD");
    reveal_strlit("LIBZPHOOK");
    reveal_strlit("RUN_IN_USER_MODE");
    reveal_strlit("RUN_IN_VMPL");
    reveal_strlit("RUN_IN_VMPL_PROCESS");
    reveal_strlit("RUN_IN_VMPL_THREAD");
    reveal_strlit("VMPL_DEBUG_ENABLED");
    reveal_strlit("VMPL_ENABLED");
    reveal_strlit("VMPL_LOG_FILE");
    reveal_strlit("VMPL_LOG_LEVEL");
    reveal_strlit("VMPL_LOG_SHOW_TIME");
    assert("HOTCALLS_CONFIG_FILE"@.len() == 20);
    assert("LD_PRELOAD"@.len() == 10);
    assert("LIBZPHOOK"@.len() == 9);
    assert("RUN_IN_USER_MODE"@.len() == 16);
    assert("RUN_IN_VMPL"@.len() == 11);
    assert("RUN_IN_VMPL_PROCESS"@.len() == 19);
    assert("RUN_IN_VMPL_THREAD"@.len() == 18);
    assert("VMPL_DEBUG_ENABLED"@.len() == 18);
    assert("VMPL_ENABLED"@.len() == 12);
    assert("VMPL_LOG_FILE"@.len() == 13);
    assert("VMPL_LOG_LEVEL"@.len() == 14);
    assert("VMPL_LOG_SHOW_TIME"@.len() == 18);
    assert("VMPL_LOG_SHOW_TIME"@[0] == 'V' && "RUN_IN_VMPL_THREAD"@[0] == 'R' && "VMPL_DEBUG_ENABLED"@[0] == 'V');
    assert("VMPL_LOG_SHOW_TIME"@[5] == 'L' && "VMPL_DEBUG_ENABLED"@[5] == 'D');
    reveal_strlit("true");
    reveal_strlit("false");
    let s0 = set_opt(Seq::<(Seq<char>, Seq<char>)>::empty(), opt.log_level, "VMPL_LOG_LEVEL"@);
    if let Some(x) = opt.log_level { lemma_other_name(Seq::<(Seq<char>, Seq<char>)>::empty(), true, "VMPL_LOG_LEVEL"@, x@, n); }
    let s1 = match opt.log_show_time { Some(b) => s0.push(("VMPL_LOG_SHOW_TIME"@, bool_text(b))), None => s0 };
    if let Some(b) = opt.log_show_time { lemma_other_name(s0, true, "VMPL_LOG_SHOW_TIME"@, bool_text(b), n); }
    let s2 = set_opt(s1, opt.log_file, "VMPL_LOG_FILE"@);
    if let Some(x) = opt.log_file { lemma_other_name(s1, true, "VMPL_LOG_FILE"@, x@, n); }
    let s3 = set_if(s2, opt.silent, "VMPL_LOG_LEVEL"@, "error"@);
    lemma_other_name(s2, opt.silent, "VMPL_LOG_LEVEL"@, "error"@, n);
    let s4 = set_if(s3, opt.libzhook, "LIBZPHOOK"@, "libzphook_basic.so"@);
    lemma_other_name(s3, opt.libzhook, "LIBZPHOOK"@, "libzphook_basic.so"@, n);
    let s5 = set_opt(s4, opt.hotcalls, "HOTCALLS_CONFIG_FILE"@);
    if let Some(x) = opt.hotcalls { lemma_other_name(s4, true, "HOTCALLS_CONFIG_FILE"@, x@, n); }
    let s6 = set_if(s5, opt.enable_vmpl, "VMPL_ENABLED"@, "1"@);
    lemma_other_name(s5, opt.enable_vmpl, "VMPL_ENABLED"@, "1"@, n);
    let s7 = set_if(s6, opt.vmpl, "RUN_IN_VMPL"@, "1"@);
    lemma_other_name(s6, opt.vmpl, "RUN_IN_VMPL"@, "1"@, n);
    let s8 = set_if(s7, opt.vmpl_process, "RUN_IN_VMPL_PROCESS"@, "1"@);
    lemma_other_name(s7, opt.vmpl_process, "RUN_IN_VMPL_PROCESS"@, "1"@, n);
    let s9 = set_if(s8, opt.vmpl_thread, "RUN_IN_VMPL_THREAD"@, "1"@);
    lemma_other_name(s8, opt.vmpl_thread, "RUN_IN_VMPL_THREAD"@, "1"@, n);
    let s10 = set_if(s9, opt.user_mode, "RUN_IN_USER_MODE"@, "1"@);
    if opt.user_mode { lemma_set_name(s9, "RUN_IN_USER_MODE"@, "1"@); }
    let s11 = set_if(s10, opt.preload, "LD_PRELOAD"@, preload_value(opt.libzhook));
    lemma_other_name(s10, opt.preload, "LD_PRELOAD"@, preload_value(opt.libzhook), n);
    let s12 = set_if(s11, opt.debug, "VMPL_DEBUG_ENABLED"@, "1"@);
    lemma_other_name(s11, opt.debug, "VMPL_DEBUG_ENABLED"@, "1"@, n);
    assert(options_env(opt) == s12);
}

/// What the options assign to `RUN_IN_VMPL`.
#[verifier::spinoff_prover]
proof fn lemma_options_set_run_in_vmpl(opt: Opt)
    ensures
        ({
            let n = "RUN_IN_VMPL"@;
            &&& assigned(options_env(opt)).contains_key(n) == opt.vmpl
            &&& opt.vmpl ==> assigned(options_env(opt))[n] == "1"@
        }),
{
    let n = "RUN_IN_VMPL"@;
    reveal_strlit("HOTCALLS_CONFIG_FILE");
    reveal_strlit("LD_PRELOAD");
    reveal_strlit("LIBZPHOOK");
    reveal_strlit("RUN_IN_USER_MODE");
    reveal_strlit("RUN_IN_VMPL");
    reveal_strlit("RUN_IN_VMPL_PROCESS");
    reveal_strlit("RUN_IN_VMPL_THREAD");
    reveal_strlit("VMPL_DEBUG_ENABLED");
    reveal_strlit("VMPL_ENABLED");
    reveal_strlit("VMPL_LOG_FILE");
    reveal_strlit("VMPL_LOG_LEVEL");
    reveal_strlit("VMPL_LOG_SHOW_TIME");
    assert("HOTCALLS_CONFIG_FILE"@.len() == 20);
    assert("LD_PRELOAD"@.len() == 10);
    assert("LIBZPHOOK"@.len() == 9);
    assert("RUN_IN_USER_MODE"@.len() == 16);
    assert("RUN_IN_VMPL"@.len() == 11);
    assert("RUN_IN_VMPL_PROCESS"@.len() == 19);
    assert("RUN_IN_VMPL_THREAD"@.len() == 18);
    assert("VMPL_DEBUG_ENABLED"@.len() == 18);
    assert("VMPL_ENABLED"@.len() == 12);
    assert("VMPL_LOG_FILE"@.len() == 13);
    assert("VMPL_LOG_LEVEL"@.len() == 14);
    assert("VMPL_LOG_SHOW_TIME"@.len() == 18);
    assert("VMPL_LOG_SHOW_TIME"@[0] == 'V' && "RUN_IN_VMPL_THREAD"@[0] == 'R' && "VMPL_DEBUG_ENABLED"@[0] == 'V');
    assert("VMPL_LOG_SHOW_TIME"@[5] == 'L' && "VMPL_DEBUG_ENABLED"@[5] == 'D');
    reveal_strlit("true");
    reveal_strlit("false");
    let s0 = set_opt(Seq::<(Seq<char>, Seq<char>)>::empty(), opt.log_level, "VMPL_LOG_LEVEL"@);
    if let Some(x) = opt.log_level { lemma_other_name(Seq::<(Seq<char>, Seq<char>)>::empty(), true, "VMPL_LOG_LEVEL"@, x@, n); }
    let s1 = match opt.log_show_time { Some(b) => s0.push(("VMPL_LOG_SHOW_TIME"@, bool_text(b))), None => s0 };
    if let Some(b) = opt.log_show_time { lemma_other_name(s0, true, "VMPL_LOG_SHOW_TIME"@, bool_text(b), n); }
    let s2 = set_opt(s1, opt.log_file, "VMPL_LOG_FILE"@);
    if let Some(x) = opt.log_file { lemma_other_name(s1, true, "VMPL_LOG_FILE"@, x@, n); }
    let s3 = set_if(s2, opt.silent, "VMPL_LOG_LEVEL"@, "error"@);
    lemma_other_name(s2, opt.silent, "VMPL_LOG_LEVEL"@, "error"@, n);
    let s4 = set_if(s3, opt.libzhook, "LIBZPHOOK"@, "libzphook_basic.so"@);
    lemma_other_name(s3, opt.libzhook, "LIBZPHOOK"@, "libzphook_basic.so"@, n);
    let s5 = set_opt(s4, opt.hotcalls, "HOTCALLS_CONFIG_FILE"@);
    if let Some(x) = opt.hotcalls { lemma_other_name(s4, true, "HOTCALLS_CONFIG_FILE"@, x@, n); }
    let s6 = set_if(s5, opt.enable_vmpl, "VMPL_ENABLED"@, "1"@);
    lemma_other_name(s5, opt.enable_vmpl, "VMPL_ENABLED"@, "1"@, n);
    let s7 = set_if(s6, opt.vmpl, "RUN_IN_VMPL"@, "1"@);
    if opt.vmpl { lemma_set_name(s6, "RUN_IN_VMPL"@, "1"@); }
    let s8 = set_if(s7, opt.vmpl_process, "RUN_IN_VMPL_PROCESS"@, "1"@);
    lemma_other_name(s7, opt.vmpl_process, "RUN_IN_VMPL_PROCESS"@, "1"@, n);
    let s9 = set_if(s8, opt.vmpl_thread, "RUN_IN_VMPL_THREAD"@, "1"@);
    lemma_other_name(s8, opt.vmpl_thread, "RUN_IN_VMPL_THREAD"@, "1"@, n);
    let s10 = set_if(s9, opt.user_mode, "RUN_IN_USER_MODE"@, "1"@);
    lemma_other_name(s9, opt.user_mode, "RUN_IN_USER_MODE"@, "1"@, n);
    let s11 = set_if(s10, opt.preload, "LD_PRELOAD"@, preload_value(opt.libzhook));
    lemma_other_name(s10, opt.preload, "LD_PRELOAD"@, preload_value(opt.libzhook), n);
    let s12 = set_if(s11, opt.debug, "VMPL_DEBUG_ENABLED"@, "1"@);
    lemma_other_name(s11, opt.debug, "VMPL_DEBUG_ENABLED"@, "1"@, n);
    assert(options_env(opt) == s12);
}

/// What the options assign to `RUN_IN_VMPL_PROCESS`.
#[verifier::spinoff_prover]
proof fn lemma_options_set_run_in_vmpl_process(opt: Opt)
    ensures
        ({
            let n = "RUN_IN_VMPL_PROCESS"@;
            &&& assigned(options_env(opt)).contains_key(n) == opt.vmpl_process
            &&& opt.vmpl_process ==> assigned(options_env(opt))[n] == "1"@
        }),
{
    let n = "RUN_IN_VMPL_PROCESS"@;
    reveal_strlit("HOTCALLS_CONFIG_FILE");
    reveal_strlit("LD_PRELOAD");
    reveal_strlit("LIBZPHOOK");
    reveal_strlit("RUN_IN_USER_MODE");
    reveal_strlit("RUN_IN_VMPL");
    reveal_strlit("RUN_IN_VMPL_PROCESS");
    reveal_strlit("RUN_IN_VMPL_THREAD");
    reveal_strlit("VMPL_DEBUG_ENABLED");
    reveal_strlit("VMPL_ENABLED");
    reveal_strlit("VMPL_LOG_FILE");
    reveal_strlit("VMPL_LOG_LEVEL");
    reveal_strlit("VMPL_LOG_SHOW_TIME");
    assert("HOTCALLS_CONFIG_FILE"@.len() == 20);
    assert("LD_PRELOAD"@.len() == 10);
    assert("LIBZPHOOK"@.len() == 9);
    assert("RUN_IN_USER_MODE"@.len() == 16);
    assert("RUN_IN_VMPL"@.len() == 11);
    assert("RUN_IN_VMPL_PROCESS"@.len() == 19);
    assert("RUN_IN_VMPL_THREAD"@.len() == 18);
    assert("VMPL_DEBUG_ENABLED"@.len() == 18);
    assert("VMPL_ENABLED"@.len() == 12);
    assert("VMPL_LOG_FILE"@.len() == 13);
    assert("VMPL_LOG_LEVEL"@.len() == 14);
    assert("VMPL_LOG_SHOW_TIME"@.len() == 18);
    assert("VMPL_LOG_SHOW_TIME"@[0] == 'V' && "RUN_IN_VMPL_THREAD"@[0] == 'R' && "VMPL_DEBUG_ENABLED"@[0] == 'V');
    assert("VMPL_LOG_SHOW_TIME"@[5] == 'L' && "VMPL_DEBUG_ENABLED"@[5] == 'D');
    reveal_strlit("true");
    reveal_strlit("false");
    let s0 = set_opt(Seq::<(Seq<char>, Seq<char>)>::empty(), opt.log_level, "VMPL_LOG_LEVEL"@);
    if let Some(x) = opt.log_level { lemma_other_name(Seq::<(Seq<char>, Seq<char>)>::empty(), true, "VMPL_LOG_LEVEL"@, x@, n); }
    let s1 = match opt.log_show_time { Some(b) => s0.push(("VMPL_LOG_SHOW_TIME"@, bool_text(b))), None => s0 };
    if let Some(b) = opt.log_show_time { lemma_other_name(s0, true, "VMPL_LOG_SHOW_TIME"@, bool_text(b), n); }
    let s2 = set_opt(s1, opt.log_file, "VMPL_LOG_FILE"@);
    if let Some(x) = opt.log_file { lemma_other_name(s1, true, "VMPL_LOG_FILE"@, x@, n); }
    let s3 = set_if(s2, opt.silent, "VMPL_LOG_LEVEL"@, "error"@);
    lemma_other_name(s2, opt.silent, "VMPL_LOG_LEVEL"@, "error"@, n);
    let s4 = set_if(s3, opt.libzhook, "LIBZPHOOK"@, "libzphook_basic.so"@);
    lemma_other_name(s3, opt.libzhook, "LIBZPHOOK"@, "libzphook_basic.so"@, n);
    let s5 = set_opt(s4, opt.hotcalls, "HOTCALLS_CONFIG_FILE"@);
    if let Some(x) = opt.hotcalls { lemma_other_name(s4, true, "HOTCALLS_CONFIG_FILE"@, x@, n); }
    let s6 = set_if(s5, opt.enable_vmpl, "VMPL_ENABLED"@, "1"@);
    lemma_other_name(s5, opt.enable_vmpl, "VMPL_ENABLED"@, "1"@, n);
    let s7 = set_if(s6, opt.vmpl, "RUN_IN_VMPL"@, "1"@);
    lemma_other_name(s6, opt.vmpl, "RUN_IN_VMPL"@, "1"@, n);
    let s8 = set_if(s7, opt.vmpl_process, "RUN_IN_VMPL_PROCESS"@, "1"@);
    if opt.vmpl_process { lemma_set_name(s7, "RUN_IN_VMPL_PROCESS"@, "1"@); }
    let s9 = set_if(s8, opt.vmpl_thread, "RUN_IN_VMPL_THREAD"@, "1"@);
    lemma_other_name(s8, opt.vmpl_thread, "RUN_IN_VMPL_THREAD"@, "1"@, n);
    let s10 = set_if(s9, opt.user_mode, "RUN_IN_USER_MODE"@, "1"@);
    lemma_other_name(s9, opt.user_mode, "RUN_IN_USER_MODE"@, "1"@, n);
    let s11 = set_if(s10, opt.preload, "LD_PRELOAD"@, preload_value(opt.libzhook));
    lemma_other_name(s10, opt.preload, "LD_PRELOAD"@, preload_value(opt.libzhook), n);
    let s12 = set_if(s11, opt.debug, "VMPL_DEBUG_ENABLED"@, "1"@);
    lemma_other_name(s11, opt.debug, "VMPL_DEBUG_ENABLED"@, "1"@, n);
    assert(options_env(opt) == s12);
}

/// What the options assign to `RUN_IN_VMPL_THREAD`.
#[verifier::spinoff_prover]
proof fn lemma_options_set_run_in_vmpl_thread(opt: Opt)
    ensures
        ({
            let n = "RUN_IN_VMPL_THREAD"@;
            &&& assigned(options_env(opt)).contains_key(n) == opt.vmpl_thread
            &&& opt.vmpl_thread ==> assigned(options_env(opt))[n] == "1"@
        }),
{
    let n = "RUN_IN_VMPL_THREAD"@;
    reveal_strlit("HOTCALLS_CONFIG_FILE");
    reveal_strlit("LD_PRELOAD");
    reveal_strlit("LIBZPHOOK");
    reveal_strlit("RUN_IN_USER_MODE");
    reveal_strlit("RUN_IN_VMPL");
    reveal_strlit("RUN_IN_VMPL_PROCESS");
    reveal_strlit("RUN_IN_VMPL_THREAD");
    reveal_strlit("VMPL_DEBUG_ENABLED");
    reveal_strlit("VMPL_ENABLED");
    reveal_strlit("VMPL_LOG_FILE");
    reveal_strlit("VMPL_LOG_LEVEL");
    reveal_strlit("VMPL_LOG_SHOW_TIME");
    assert("HOTCALLS_CONFIG_FILE"@.len() == 20);
    assert("LD_PRELOAD"@.len() == 10);
    assert("LIBZPHOOK"@.len() == 9);
    assert("RUN_IN_USER_MODE"@.len() == 16);
    assert("RUN_IN_VMPL"@.len() == 11);
    assert("RUN_IN_VMPL_PROCESS"@.len() == 19);
    assert("RUN_IN_VMPL_THREAD"@.len() == 18);
    assert("VMPL_DEBUG_ENABLED"@.len() == 18);
    assert("VMPL_ENABLED"@.len() == 12);
    assert("VMPL_LOG_FILE"@.len() == 13);
    assert("VMPL_LOG_LEVEL"@.len() == 14);
    assert("VMPL_LOG_SHOW_TIME"@.len() == 18);
    assert("VMPL_LOG_SHOW_TIME"@[0] == 'V' && "RUN_IN_VMPL_THREAD"@[0] == 'R' && "VMPL_DEBUG_ENABLED"@[0] == 'V');
    assert("VMPL_LOG_SHOW_TIME"@[5] == 'L' && "VMPL_DEBUG_ENABLED"@[5] == 'D');
    reveal_strlit("true");
    reveal_strlit("false");
    let s0 = set_opt(Seq::<(Seq<char>, Seq<char>)>::empty(), opt.log_level, "VMPL_LOG_LEVEL"@);
    if let Some(x) = opt.log_level { lemma_other_name(Seq::<(Seq<char>, Seq<char>)>::empty(), true, "VMPL_LOG_LEVEL"@, x@, n); }
    let s1 = match opt.log_show_time { Some(b) => s0.push(("VMPL_LOG_SHOW_TIME"@, bool_text(b))), None => s0 };
    if let Some(b) = opt.log_show_time { lemma_other_name(s0, true, "VMPL_LOG_SHOW_TIME"@, bool_text(b), n); }
    let s2 = set_opt(s1, opt.log_file, "VMPL_LOG_FILE"@);
    if let Some(x) = opt.log_file { lemma_other_name(s1, true, "VMPL_LOG_FILE"@, x@, n); }
    let s3 = set_if(s2, opt.silent, "VMPL_LOG_LEVEL"@, "error"@);
    lemma_other_name(s2, opt.silent, "VMPL_LOG_LEVEL"@, "error"@, n);
    let s4 = set_if(s3, opt.libzhook, "LIBZPHOOK"@, "libzphook_basic.so"@);
    lemma_other_name(s3, opt.libzhook, "LIBZPHOOK"@, "libzphook_basic.so"@, n);
    let s5 = set_opt(s4, opt.hotcalls, "HOTCALLS_CONFIG_FILE"@);
    if let Some(x) = opt.hotcalls { lemma_other_name(s4, true, "HOTCALLS_CONFIG_FILE"@, x@, n); }
    let s6 = set_if(s5, opt.enable_vmpl, "VMPL_ENABLED"@, "1"@);
    lemma_other_name(s5, opt.enable_vmpl, "VMPL_ENABLED"@, "1"@, n);
    let s7 = set_if(s6, opt.vmpl, "RUN_IN_VMPL"@, "1"@);
    lemma_other_name(s6, opt.vmpl, "RUN_IN_VMPL"@, "1"@, n);
    let s8 = set_if(s7, opt.vmpl_process, "RUN_IN_VMPL_PROCESS"@, "1"@);
    lemma_other_name(s7, opt.vmpl_process, "RUN_IN_VMPL_PROCESS"@, "1"@, n);
    let s9 = set_if(s8, opt.vmpl_thread, "RUN_IN_VMPL_THREAD"@, "1"@);
    if opt.vmpl_thread { lemma_set_name(s8, "RUN_IN_VMPL_THREAD"@, "1"@); }
    let s10 = set_if(s9, opt.user_mode, "RUN_IN_USER_MODE"@, "1"@);
    lemma_other_name(s9, opt.user_mode, "RUN_IN_USER_MODE"@, "1"@, n);
    let s11 = set_if(s10, opt.preload, "LD_PRELOAD"@, preload_value(opt.libzhook));
    lemma_other_name(s10, opt.preload, "LD_PRELOAD"@, preload_value(opt.libzhook), n);
    let s12 = set_if(s11, opt.debug, "VMPL_DEBUG_ENABLED"@, "1"@);
    lemma_other_name(s11, opt.debug, "VMPL_DEBUG_ENABLED"@, "1"@, n);
    assert(options_env(opt) == s12);
}

/// What the options assign to `VMPL_DEBUG_ENABLED`.
#[verifier::spinoff_prover]
proof fn lemma_options_set_vmpl_debug_enabled(opt: Opt)
    ensures
        ({
            let n = "VMPL_DEBUG_ENABLED"@;
            &&& assigned(options_env(opt)).contains_key(n) == opt.debug
            &&& opt.debug ==> assigned(options_env(opt))[n] == "1"@
        }),
{
    let n = "VMPL_DEBUG_ENABLED"@;
    reveal_strlit("HOTCALLS_CONFIG_FILE");
    reveal_strlit("LD_PRELOAD");
    reveal_strlit("LIBZPHOOK");
    reveal_strlit("RUN_IN_USER_MODE");
    reveal_strlit("RUN_IN_VMPL");
    reveal_strlit("RUN_IN_VMPL_PROCESS");
    reveal_strlit("RUN_IN_VMPL_THREAD");
    reveal_strlit("VMPL_DEBUG_ENABLED");
    reveal_strlit("VMPL_ENABLED");
    reveal_strlit("VMPL_LOG_FILE");
    reveal_strlit("VMPL_LOG_LEVEL");
    reveal_strlit("VMPL_LOG_SHOW_TIME");
    assert("HOTCALLS_CONFIG_FILE"@.len() == 20);
    assert("LD_PRELOAD"@.len() == 10);
    assert("LIBZPHOOK"@.len() == 9);
    assert("RUN_IN_USER_MODE"@.len() == 16);
    assert("RUN_IN_VMPL"@.len() == 11);
    assert("RUN_IN_VMPL_PROCESS"@.len() == 19);
    assert("RUN_IN_VMPL_THREAD"@.len() == 18);
    assert("VMPL_DEBUG_ENABLED"@.len() == 18);
    assert("VMPL_ENABLED"@.len() == 12);
    assert("VMPL_LOG_FILE"@.len() == 13);
    assert("VMPL_LOG_LEVEL"@.len() == 14);
    assert("VMPL_LOG_SHOW_TIME"@.len() == 18);
    assert("VMPL_LOG_SHOW_TIME"@[0] == 'V' && "RUN_IN_VMPL_THREAD"@[0] == 'R' && "VMPL_DEBUG_ENABLED"@[0] == 'V');
    assert("VMPL_LOG_SHOW_TIME"@[5] == 'L' && "VMPL_DEBUG_ENABLED"@[5] == 'D');
    reveal_strlit("true");
    reveal_strlit("false");
    let s0 = set_opt(Seq::<(Seq<char>, Seq<char>)>::empty(), opt.log_level, "VMPL_LOG_LEVEL"@);
    if let Some(x) = opt.log_level { lemma_other_name(Seq::<(Seq<char>, Seq<char>)>::empty(), true, "VMPL_LOG_LEVEL"@, x@, n); }
    let s1 = match opt.log_show_time { Some(b) => s0.push(("VMPL_LOG_SHOW_TIME"@, bool_text(b))), None => s0 };
    if let Some(b) = opt.log_show_time { lemma_other_name(s0, true, "VMPL_LOG_SHOW_TIME"@, bool_text(b), n); }
    let s2 = set_opt(s1, opt.log_file, "VMPL_LOG_FILE"@);
    if let Some(x) = opt.log_file { lemma_other_name(s1, true, "VMPL_LOG_FILE"@, x@, n); }
    let s3 = set_if(s2, opt.silent, "VMPL_LOG_LEVEL"@, "error"@);
    lemma_other_name(s2, opt.silent, "VMPL_LOG_LEVEL"@, "error"@, n);
    let s4 = set_if(s3, opt.libzhook, "LIBZPHOOK"@, "libzphook_basic.so"@);
    lemma_other_name(s3, opt.libzhook, "LIBZPHOOK"@, "libzphook_basic.so"@, n);
    let s5 = set_opt(s4, opt.hotcalls, "HOTCALLS_CONFIG_FILE"@);
    if let Some(x) = opt.hotcalls { lemma_other_name(s4, true, "HOTCALLS_CONFIG_FILE"@, x@, n); }
    let s6 = set_if(s5, opt.enable_vmpl, "VMPL_ENABLED"@, "1"@);
    lemma_other_name(s5, opt.enable_vmpl, "VMPL_ENABLED"@, "1"@, n);
    let s7 = set_if(s6, opt.vmpl, "RUN_IN_VMPL"@, "1"@);
    lemma_other_name(s6, opt.vmpl, "RUN_IN_VMPL"@, "1"@, n);
    let s8 = set_if(s7, opt.vmpl_process, "RUN_IN_VMPL_PROCESS"@, "1"@);
    lemma_other_name(s7, opt.vmpl_process, "RUN_IN_VMPL_PROCESS"@, "1"@, n);
    let s9 = set_if(s8, opt.vmpl_thread, "RUN_IN_VMPL_THREAD"@, "1"@);
    lemma_other_name(s8, opt.vmpl_thread, "RUN_IN_VMPL_THREAD"@, "1"@, n);
    let s10 = set_if(s9, opt.user_mode, "RUN_IN_USER_MODE"@, "1"@);
    lemma_other_name(s9, opt.user_mode, "RUN_IN_USER_MODE"@, "1"@, n);
    let s11 = set_if(s10, opt.preload, "LD_PRELOAD"@, preload_value(opt.libzhook));
    lemma_other_name(s10, opt.preload, "LD_PRELOAD"@, preload_value(opt.libzhook), n);
    let s12 = set_if(s11, opt.debug, "VMPL_DEBUG_ENABLED"@, "1"@);
    if opt.debug { lemma_set_name(s11, "VMPL_DEBUG_ENABLED"@, "1"@); }
    assert(options_env(opt) == s12);
}

/// What the options assign to `VMPL_ENABLED`.
#[verifier::spinoff_prover]
proof fn lemma_options_set_vmpl_enabled(opt: Opt)
    ensures
        ({
            let n = "VMPL_ENABLED"@;
            &&& assigned(options_env(opt)).contains_key(n) == opt.enable_vmpl
            &&& opt.enable_vmpl ==> assigned(options_env(opt))[n] == "1"@
        }),
{
    let n = "VMPL_ENABLED"@;
    reveal_strlit("HOTCALLS_CONFIG_FILE");
    reveal_strlit("LD_PRELOAD");
    reveal_strlit("LIBZPHOOK");
    reveal_strlit("RUN_IN_USER_MODE");
    reveal_strlit("RUN_IN_VMPL");
    reveal_strlit("RUN_IN_VMPL_PROCESS");
    reveal_strlit("RUN_IN_VMPL_THREAD");
    reveal_strlit("VMPL_DEBUG_ENABLED");
    reveal_strlit("VMPL_ENABLED");
    reveal_strlit("VMPL_LOG_FILE");
    reveal_strlit("VMPL_LOG_LEVEL");
    reveal_strlit("VMPL_LOG_SHOW_TIME");
    assert("HOTCALLS_CONFIG_FILE"@.len() == 20);
    assert("LD_PRELOAD"@.len() == 10);
    assert("LIBZPHOOK"@.len() == 9);
    assert("RUN_IN_USER_MODE"@.len() == 16);
    assert("RUN_IN_VMPL"@.len() == 11);
    assert("RUN_IN_VMPL_PROCESS"@.len() == 19);
    assert("RUN_IN_VMPL_THREAD"@.len() == 18);
    assert("VMPL_DEBUG_ENABLED"@.len() == 18);
    assert("VMPL_ENABLED"@.len() == 12);
    assert("VMPL_LOG_FILE"@.len() == 13);
    assert("VMPL_LOG_LEVEL"@.len() == 14);
    assert("VMPL_LOG_SHOW_TIME"@.len() == 18);
    assert("VMPL_LOG_SHOW_TIME"@[0] == 'V' && "RUN_IN_VMPL_THREAD"@[0] == 'R' && "VMPL_DEBUG_ENABLED"@[0] == 'V');
    assert("VMPL_LOG_SHOW_TIME"@[5] == 'L' && "VMPL_DEBUG_ENABLED"@[5] == 'D');
    reveal_strlit("true");
    reveal_strlit("false");
    let s0 = set_opt(Seq::<(Seq<char>, Seq<char>)>::empty(), opt.log_level, "VMPL_LOG_LEVEL"@);
    if let Some(x) = opt.log_level { lemma_other_name(Seq::<(Seq<char>, Seq<char>)>::empty(), true, "VMPL_LOG_LEVEL"@, x@, n); }
    let s1 = match opt.log_show_time { Some(b) => s0.push(("VMPL_LOG_SHOW_TIME"@, bool_text(b))), None => s0 };
    if let Some(b) = opt.log_show_time { lemma_other_name(s0, true, "VMPL_LOG_SHOW_TIME"@, bool_text(b), n); }
    let s2 = set_opt(s1, opt.log_file, "VMPL_LOG_FILE"@);
    if let Some(x) = opt.log_file { lemma_other_name(s1, true, "VMPL_LOG_FILE"@, x@, n); }
    let s3 = set_if(s2, opt.silent, "VMPL_LOG_LEVEL"@, "error"@);
    lemma_other_name(s2, opt.silent, "VMPL_LOG_LEVEL"@, "error"@, n);
    let s4 = set_if(s3, opt.libzhook, "LIBZPHOOK"@, "libzphook_basic.so"@);
    lemma_other_name(s3, opt.libzhook, "LIBZPHOOK"@, "libzphook_basic.so"@, n);
    let s5 = set_opt(s4, opt.hotcalls, "HOTCALLS_CONFIG_FILE"@);
    if let Some(x) = opt.hotcalls { lemma_other_name(s4, true, "HOTCALLS_CONFIG_FILE"@, x@, n); }
    let s6 = set_if(s5, opt.enable_vmpl, "VMPL_ENABLED"@, "1"@);
    if opt.enable_vmpl { lemma_set_name(s5, "VMPL_ENABLED"@, "1"@); }
    let s7 = set_if(s6, opt.vmpl, "RUN_IN_VMPL"@, "1"@);
    lemma_other_name(s6, opt.vmpl, "RUN_IN_VMPL"@, "1"@, n);
    let s8 = set_if(s7, opt.vmpl_process, "RUN_IN_VMPL_PROCESS"@, "1"@);
    lemma_other_name(s7, opt.vmpl_process, "RUN_IN_VMPL_PROCESS"@, "1"@, n);
    let s9 = set_if(s8, opt.vmpl_thread, "RUN_IN_VMPL_THREAD"@, "1"@);
    lemma_other_name(s8, opt.vmpl_thread, "RUN_IN_VMPL_THREAD"@, "1"@, n);
    let s10 = set_if(s9, opt.user_mode, "RUN_IN_USER_MODE"@, "1"@);
    lemma_other_name(s9, opt.user_mode, "RUN_IN_USER_MODE"@, "1"@, n);
    let s11 = set_if(s10, opt.preload, "LD_PRELOAD"@, preload_value(opt.libzhook));
    lemma_other_name(s10, opt.preload, "LD_PRELOAD"@, preload_value(opt.libzhook), n);
    let s12 = set_if(s11, opt.debug, "VMPL_DEBUG_ENABLED"@, "1"@);
    lemma_other_name(s11, opt.debug, "VMPL_DEBUG_ENABLED"@, "1"@, n);
    assert(options_env(opt) == s12);
}

/// What the options assign to `VMPL_LOG_FILE`.
#[verifier::spinoff_prover]
proof fn lemma_options_set_vmpl_log_file(opt: Opt)
    ensures
        ({
            let n = "VMPL_LOG_FILE"@;
            &&& assigned(options_env(opt)).contains_key(n) == (opt.log_file is Some)
            &&& opt.log_file is Some ==> assigned(options_env(opt))[n] == opt.log_file->0@
        }),
{
    let n = "VMPL_LOG_FILE"@;
    reveal_strlit("HOTCALLS_CONFIG_FILE");
    reveal_strlit("LD_PRELOAD");
    reveal_strlit("LIBZPHOOK");
    reveal_strlit("RUN_IN_USER_MODE");
    reveal_strlit("RUN_IN_VMPL");
    reveal_strlit("RUN_IN_VMPL_PROCESS");
    reveal_strlit("RUN_IN_VMPL_THREAD");
    reveal_strlit("VMPL_DEBUG_ENABLED");
    reveal_strlit("VMPL_ENABLED");
    reveal_strlit("VMPL_LOG_FILE");
    reveal_strlit("VMPL_LOG_LEVEL");
    reveal_strlit("VMPL_LOG_SHOW_TIME");
    assert("HOTCALLS_CONFIG_FILE"@.len() == 20);
    assert("LD_PRELOAD"@.len() == 10);
    assert("LIBZPHOOK"@.len() == 9);
    assert("RUN_IN_USER_MODE"@.len() == 16);
    assert("RUN_IN_VMPL"@.len() == 11);
    assert("RUN_IN_VMPL_PROCESS"@.len() == 19);
    assert("RUN_IN_VMPL_THREAD"@.len() == 18);
    assert("VMPL_DEBUG_ENABLED"@.len() == 18);
    assert("VMPL_ENABLED"@.len() == 12);
    assert("VMPL_LOG_FILE"@.len() == 13);
    assert("VMPL_LOG_LEVEL"@.len() == 14);
    assert("VMPL_LOG_SHOW_TIME"@.len() == 18);
    assert("VMPL_LOG_SHOW_TIME"@[0] == 'V' && "RUN_IN_VMPL_THREAD"@[0] == 'R' && "VMPL_DEBUG_ENABLED"@[0] == 'V');
    assert("VMPL_LOG_SHOW_TIME"@[5] == 'L' && "VMPL_DEBUG_ENABLED"@[5] == 'D');
    reveal_strlit("true");
    reveal_strlit("false");
    let s0 = set_opt(Seq::<(Seq<char>, Seq<char>)>::empty(), opt.log_level, "VMPL_LOG_LEVEL"@);
    if let Some(x) = opt.log_level { lemma_other_name(Seq::<(Seq<char>, Seq<char>)>::empty(), true, "VMPL_LOG_LEVEL"@, x@, n); }
    let s1 = match opt.log_show_time { Some(b) => s0.push(("VMPL_LOG_SHOW_TIME"@, bool_text(b))), None => s0 };
    if let Some(b) = opt.log_show_time { lemma_other_name(s0, true, "VMPL_LOG_SHOW_TIME"@, bool_text(b), n); }
    let s2 = set_opt(s1, opt.log_file, "VMPL_LOG_FILE"@);
    if let Some(x) = opt.log_file { lemma_set_name(s1, "VMPL_LOG_FILE"@, x@); }
    let s3 = set_if(s2, opt.silent, "VMPL_LOG_LEVEL"@, "error"@);
    lemma_other_name(s2, opt.silent, "VMPL_LOG_LEVEL"@, "error"@, n);
    let s4 = set_if(s3, opt.libzhook, "LIBZPHOOK"@, "libzphook_basic.so"@);
    lemma_other_name(s3, opt.libzhook, "LIBZPHOOK"@, "libzphook_basic.so"@, n);
    let s5 = set_opt(s4, opt.hotcalls, "HOTCALLS_CONFIG_FILE"@);
    if let Some(x) = opt.hotcalls { lemma_other_name(s4, true, "HOTCALLS_CONFIG_FILE"@, x@, n); }
    let s6 = set_if(s5, opt.enable_vmpl, "VMPL_ENABLED"@, "1"@);
    lemma_other_name(s5, opt.enable_vmpl, "VMPL_ENABLED"@, "1"@, n);
    let s7 = set_if(s6, opt.vmpl, "RUN_IN_VMPL"@, "1"@);
    lemma_other_name(s6, opt.vmpl, "RUN_IN_VMPL"@, "1"@, n);
    let s8 = set_if(s7, opt.vmpl_process, "RUN_IN_VMPL_PROCESS"@, "1"@);
    lemma_other_name(s7, opt.vmpl_process, "RUN_IN_VMPL_PROCESS"@, "1"@, n);
    let s9 = set_if(s8, opt.vmpl_thread, "RUN_IN_VMPL_THREAD"@, "1"@);
    lemma_other_name(s8, opt.vmpl_thread, "RUN_IN_VMPL_THREAD"@, "1"@, n);
    let s10 = set_if(s9, opt.user_mode, "RUN_IN_USER_MODE"@, "1"@);
    lemma_other_name(s9, opt.user_mode, "RUN_IN_USER_MODE"@, "1"@, n);
    let s11 = set_if(s10, opt.preload, "LD_PRELOAD"@, preload_value(opt.libzhook));
    lemma_other_name(s10, opt.preload, "LD_PRELOAD"@, preload_value(opt.libzhook), n);
    let s12 = set_if(s11, opt.debug, "VMPL_DEBUG_ENABLED"@, "1"@);
    lemma_other_name(s11, opt.debug, "VMPL_DEBUG_ENABLED"@, "1"@, n);
    assert(options_env(opt) == s12);
}

/// What the options assign to `VMPL_LOG_LEVEL`.
#[verifier::spinoff_prover]
proof fn lemma_options_set_vmpl_log_level(opt: Opt)
    ensures
        ({
            let n = "VMPL_LOG_LEVEL"@;
            &&& assigned(options_env(opt)).contains_key(n) == (opt.silent || opt.log_level is Some)
            &&& opt.silent ==> assigned(options_env(opt))[n] == "error"@
            &&& !opt.silent && opt.log_level is Some ==> assigned(options_env(opt))[n] == opt.log_level->0@
        }),
{
    let n = "VMPL_LOG_LEVEL"@;
    reveal_strlit("HOTCALLS_CONFIG_FILE");
    reveal_strlit("LD_PRELOAD");
    reveal_strlit("LIBZPHOOK");
    reveal_strlit("RUN_IN_USER_MODE");
    reveal_strlit("RUN_IN_VMPL");
    reveal_strlit("RUN_IN_VMPL_PROCESS");
    reveal_strlit("RUN_IN_VMPL_THREAD");
    reveal_strlit("VMPL_DEBUG_ENABLED");
    reveal_strlit("VMPL_ENABLED");
    reveal_strlit("VMPL_LOG_FILE");
    reveal_strlit("VMPL_LOG_LEVEL");
    reveal_strlit("VMPL_LOG_SHOW_TIME");
    assert("HOTCALLS_CONFIG_FILE"@.len() == 20);
    assert("LD_PRELOAD"@.len() == 10);
    assert("LIBZPHOOK"@.len() == 9);
    assert("RUN_IN_USER_MODE"@.len() == 16);
    assert("RUN_IN_VMPL"@.len() == 11);
    assert("RUN_IN_VMPL_PROCESS"@.len() == 19);
    assert("RUN_IN_VMPL_THREAD"@.len() == 18);
    assert("VMPL_DEBUG_ENABLED"@.len() == 18);
    assert("VMPL_ENABLED"@.len() == 12);
    assert("VMPL_LOG_FILE"@.len() == 13);
    assert("VMPL_LOG_LEVEL"@.len() == 14);
    assert("VMPL_LOG_SHOW_TIME"@.len() == 18);
    assert("VMPL_LOG_SHOW_TIME"@[0] == 'V' && "RUN_IN_VMPL_THREAD"@[0] == 'R' && "VMPL_DEBUG_ENABLED"@[0] == 'V');
    assert("VMPL_LOG_SHOW_TIME"@[5] == 'L' && "VMPL_DEBUG_ENABLED"@[5] == 'D');
    reveal_strlit("true");
    reveal_strlit("false");
    let s0 = set_opt(Seq::<(Seq<char>, Seq<char>)>::empty(), opt.log_level, "VMPL_LOG_LEVEL"@);
    if let Some(x) = opt.log_level { lemma_set_name(Seq::<(Seq<char>, Seq<char>)>::empty(), "VMPL_LOG_LEVEL"@, x@); }
    let s1 = match opt.log_show_time { Some(b) => s0.push(("VMPL_LOG_SHOW_TIME"@, bool_text(b))), None => s0 };
    if let Some(b) = opt.log_show_time { lemma_other_name(s0, true, "VMPL_LOG_SHOW_TIME"@, bool_text(b), n); }
    let s2 = set_opt(s1, opt.log_file, "VMPL_LOG_FILE"@);
    if let Some(x) = opt.log_file { lemma_other_name(s1, true, "VMPL_LOG_FILE"@, x@, n); }
    let s3 = set_if(s2, opt.silent, "VMPL_LOG_LEVEL"@, "error"@);
    if opt.silent { lemma_set_name(s2, "VMPL_LOG_LEVEL"@, "error"@); }
    let s4 = set_if(s3, opt.libzhook, "LIBZPHOOK"@, "libzphook_basic.so"@);
    lemma_other_name(s3, opt.libzhook, "LIBZPHOOK"@, "libzphook_basic.so"@, n);
    let s5 = set_opt(s4, opt.hotcalls, "HOTCALLS_CONFIG_FILE"@);
    if let Some(x) = opt.hotcalls { lemma_other_name(s4, true, "HOTCALLS_CONFIG_FILE"@, x@, n); }
    let s6 = set_if(s5, opt.enable_vmpl, "VMPL_ENABLED"@, "1"@);
    lemma_other_name(s5, opt.enable_vmpl, "VMPL_ENABLED"@, "1"@, n);
    let s7 = set_if(s6, opt.vmpl, "RUN_IN_VMPL"@, "1"@);
    lemma_other_name(s6, opt.vmpl, "RUN_IN_VMPL"@, "1"@, n);
    let s8 = set_if(s7, opt.vmpl_process, "RUN_IN_VMPL_PROCESS"@, "1"@);
    lemma_other_name(s7, opt.vmpl_process, "RUN_IN_VMPL_PROCESS"@, "1"@, n);
    let s9 = set_if(s8, opt.vmpl_thread, "RUN_IN_VMPL_THREAD"@, "1"@);
    lemma_other_name(s8, opt.vmpl_thread, "RUN_IN_VMPL_THREAD"@, "1"@, n);
    let s10 = set_if(s9, opt.user_mode, "RUN_IN_USER_MODE"@, "1"@);
    lemma_other_name(s9, opt.user_mode, "RUN_IN_USER_MODE"@, "1"@, n);
    let s11 = set_if(s10, opt.preload, "LD_PRELOAD"@, preload_value(opt.libzhook));
    lemma_other_name(s10, opt.preload, "LD_PRELOAD"@, preload_value(opt.libzhook), n);
    let s12 = set_if(s11, opt.debug, "VMPL_DEBUG_ENABLED"@, "1"@);
    lemma_other_name(s11, opt.debug, "VMPL_DEBUG_ENABLED"@, "1"@, n);
    assert(options_env(opt) == s12);
}

/// What the options assign to `VMPL_LOG_SHOW_TIME`.
#[verifier::spinoff_prover]
proof fn lemma_options_set_vmpl_log_show_time(opt: Opt)
    ensures
        ({
            let n = "VMPL_LOG_SHOW_TIME"@;
            &&& assigned(options_env(opt)).contains_key(n) == (opt.log_show_time is Some)
            &&& opt.log_show_time == Some(true) ==> assigned(options_env(opt))[n] == "true"@
            &&& opt.log_show_time == Some(false) ==> assigned(options_env(opt))[n] == "false"@
        }),
{
    let n = "VMPL_LOG_SHOW_TIME"@;
    reveal_strlit("HOTCALLS_CONFIG_FILE");
    reveal_strlit("LD_PRELOAD");
    reveal_strlit("LIBZPHOOK");
    reveal_strlit("RUN_IN_USER_MODE");
    reveal_strlit("RUN_IN_VMPL");
    reveal_strlit("RUN_IN_VMPL_PROCESS");
    reveal_strlit("RUN_IN_VMPL_THREAD");
    reveal_strlit("VMPL_DEBUG_ENABLED");
    reveal_strlit("VMPL_ENABLED");
    reveal_strlit("VMPL_LOG_FILE");
    reveal_strlit("VMPL_LOG_LEVEL");
    reveal_strlit("VMPL_LOG_SHOW_TIME");
    assert("HOTCALLS_CONFIG_FILE"@.len() == 20);
    assert("LD_PRELOAD"@.len() == 10);
    assert("LIBZPHOOK"@.len() == 9);
    assert("RUN_IN_USER_MODE"@.len() == 16);
    assert("RUN_IN_VMPL"@.len() == 11);
    assert("RUN_IN_VMPL_PROCESS"@.len() == 19);
    assert("RUN_IN_VMPL_THREAD"@.len() == 18);
    assert("VMPL_DEBUG_ENABLED"@.len() == 18);
    assert("VMPL_ENABLED"@.len() == 12);
    assert("VMPL_LOG_FILE"@.len() == 13);
    assert("VMPL_LOG_LEVEL"@.len() == 14);
    assert("VMPL_LOG_SHOW_TIME"@.len() == 18);
    assert("VMPL_LOG_SHOW_TIME"@[0] == 'V' && "RUN_IN_VMPL_THREAD"@[0] == 'R' && "VMPL_DEBUG_ENABLED"@[0] == 'V');
    assert("VMPL_LOG_SHOW_TIME"@[5] == 'L' && "VMPL_DEBUG_ENABLED"@[5] == 'D');
    reveal_strlit("true");
    reveal_strlit("false");
    let s0 = set_opt(Seq::<(Seq<char>, Seq<char>)>::empty(), opt.log_level, "VMPL_LOG_LEVEL"@);
    if let Some(x) = opt.log_level { lemma_other_name(Seq::<(Seq<char>, Seq<char>)>::empty(), true, "VMPL_LOG_LEVEL"@, x@, n); }
    let s1 = match opt.log_show_time { Some(b) => s0.push(("VMPL_LOG_SHOW_TIME"@, bool_text(b))), None => s0 };
    if let Some(b) = opt.log_show_time { lemma_set_name(s0, "VMPL_LOG_SHOW_TIME"@, bool_text(b)); }
    let s2 = set_opt(s1, opt.log_file, "VMPL_LOG_FILE"@);
    if let Some(x) = opt.log_file { lemma_other_name(s1, true, "VMPL_LOG_FILE"@, x@, n); }
    let s3 = set_if(s2, opt.silent, "VMPL_LOG_LEVEL"@, "error"@);
    lemma_other_name(s2, opt.silent, "VMPL_LOG_LEVEL"@, "error"@, n);
    let s4 = set_if(s3, opt.libzhook, "LIBZPHOOK"@, "libzphook_basic.so"@);
    lemma_other_name(s3, opt.libzhook, "LIBZPHOOK"@, "libzphook_basic.so"@, n);
    let s5 = set_opt(s4, opt.hotcalls, "HOTCALLS_CONFIG_FILE"@);
    if let Some(x) = opt.hotcalls { lemma_other_name(s4, true, "HOTCALLS_CONFIG_FILE"@, x@, n); }
    let s6 = set_if(s5, opt.enable_vmpl, "VMPL_ENABLED"@, "1"@);
    lemma_other_name(s5, opt.enable_vmpl, "VMPL_ENABLED"@, "1"@, n);
    let s7 = set_if(s6, opt.vmpl, "RUN_IN_VMPL"@, "1"@);
    lemma_other_name(s6, opt.vmpl, "RUN_IN_VMPL"@, "1"@, n);
    let s8 = set_if(s7, opt.vmpl_process, "RUN_IN_VMPL_PROCESS"@, "1"@);
    lemma_other_name(s7, opt.vmpl_process, "RUN_IN_VMPL_PROCESS"@, "1"@, n);
    let s9 = set_if(s8, opt.vmpl_thread, "RUN_IN_VMPL_THREAD"@, "1"@);
    lemma_other_name(s8, opt.vmpl_thread, "RUN_IN_VMPL_THREAD"@, "1"@, n);
    let s10 = set_if(s9, opt.user_mode, "RUN_IN_USER_MODE"@, "1"@);
    lemma_other_name(s9, opt.user_mode, "RUN_IN_USER_MODE"@, "1"@, n);
    let s11 = set_if(s10, opt.preload, "LD_PRELOAD"@, preload_value(opt.libzhook));
    lemma_other_name(s10, opt.preload, "LD_PRELOAD"@, preload_value(opt.libzhook), n);
    let s12 = set_if(s11, opt.debug, "VMPL_DEBUG_ENABLED"@, "1"@);
    lemma_other_name(s11, opt.debug, "VMPL_DEBUG_ENABLED"@, "1"@, n);
    assert(options_env(opt) == s12);
}

/// Each option sets its own variable, whatever the other options are, unless the
/// shell sets that variable itself: a flag sets its variable to `1` exactly when it
/// is given (`-e` `VMPL_ENABLED`, `-v` `RUN_IN_VMPL`, `-p` `RUN_IN_VMPL_PROCESS`, `-t`
/// `RUN_IN_VMPL_THREAD`, `-u` `RUN_IN_USER_MODE`, `-d` `VMPL_DEBUG_ENABLED`); `-z` sets
/// `LIBZPHOOK` to `libzphook_basic.so`; `-c` sets `LD_PRELOAD` to `libdunify.so`, with
/// `libzpoline.so` after it where `-z` is given; `-h`, `-L` and `-T` pass their values;
/// the log level is `error` in silent mode and the given level otherwise.
pub proof fn law_each_option_sets_its_variable(opt: Opt, vars: EnvVars)
    ensures
        !vars.vars().contains_key("VMPL_ENABLED"@) ==> (effective_env(opt, vars).contains_key("VMPL_ENABLED"@) == opt.enable_vmpl && (opt.enable_vmpl ==> effective_env(opt, vars)["VMPL_ENABLED"@] == "1"@)),
        !vars.vars().contains_key("RUN_IN_VMPL"@) ==> (effective_env(opt, vars).contains_key("RUN_IN_VMPL"@) == opt.vmpl && (opt.vmpl ==> effective_env(opt, vars)["RUN_IN_VMPL"@] == "1"@)),
        !vars.vars().contains_key("RUN_IN_VMPL_PROCESS"@) ==> (effective_env(opt, vars).contains_key("RUN_IN_VMPL_PROCESS"@) == opt.vmpl_process && (opt.vmpl_process ==> effective_env(opt, vars)["RUN_IN_VMPL_PROCESS"@] == "1"@)),
        !vars.vars().contains_key("RUN_IN_VMPL_THREAD"@) ==> (effective_env(opt, vars).contains_key("RUN_IN_VMPL_THREAD"@) == opt.vmpl_thread && (opt.vmpl_thread ==> effective_env(opt, vars)["RUN_IN_VMPL_THREAD"@] == "1"@)),
        !vars.vars().contains_key("RUN_IN_USER_MODE"@) ==> (effective_env(opt, vars).contains_key("RUN_IN_USER_MODE"@) == opt.user_mode && (opt.user_mode ==> effective_env(opt, vars)["RUN_IN_USER_MODE"@] == "1"@)),
        !vars.vars().contains_key("VMPL_DEBUG_ENABLED"@) ==> (effective_env(opt, vars).contains_key("VMPL_DEBUG_ENABLED"@) == opt.debug && (opt.debug ==> effective_env(opt, vars)["VMPL_DEBUG_ENABLED"@] == "1"@)),
        !vars.vars().contains_key("LIBZPHOOK"@) ==> (effective_env(opt, vars).contains_key("LIBZPHOOK"@) == opt.libzhook && (opt.libzhook ==> effective_env(opt, vars)["LIBZPHOOK"@] == "libzphook_basic.so"@)),
        !vars.vars().contains_key("LD_PRELOAD"@) ==> (effective_env(opt, vars).contains_key("LD_PRELOAD"@) == opt.preload && (opt.preload ==> effective_env(opt, vars)["LD_PRELOAD"@] == (if opt.libzhook { "libdunify.so:libzpoline.so"@ } else { "libdunify.so"@ }))),
        !vars.vars().contains_key("HOTCALLS_CONFIG_FILE"@) ==> (effective_env(opt, vars).contains_key("HOTCALLS_CONFIG_FILE"@) == (opt.hotcalls is Some) && (opt.hotcalls is Some ==> effective_env(opt, vars)["HOTCALLS_CONFIG_FILE"@] == opt.hotcalls->0@)),
        !vars.vars().contains_key("VMPL_LOG_FILE"@) ==> (effective_env(opt, vars).contains_key("VMPL_LOG_FILE"@) == (opt.log_file is Some) && (opt.log_file is Some ==> effective_env(opt, vars)["VMPL_LOG_FILE"@] == opt.log_file->0@)),
        !vars.vars().contains_key("VMPL_LOG_SHOW_TIME"@) ==> (effective_env(opt, vars).contains_key("VMPL_LOG_SHOW_TIME"@) == (opt.log_show_time is Some) && (opt.log_show_time == Some(true) ==> effective_env(opt, vars)["VMPL_LOG_SHOW_TIME"@] == "true"@) && (opt.log_show_time == Some(false) ==> effective_env(opt, vars)["VMPL_LOG_SHOW_TIME"@] == "false"@)),
        !vars.vars().contains_key("VMPL_LOG_LEVEL"@) ==> (effective_env(opt, vars).contains_key("VMPL_LOG_LEVEL"@) == (opt.silent || opt.log_level is Some) && (opt.silent ==> effective_env(opt, vars)["VMPL_LOG_LEVEL"@] == "error"@) && (!opt.silent && opt.log_level is Some ==> effective_env(opt, vars)["VMPL_LOG_LEVEL"@] == opt.log_level->0@)),
{
    lemma_options_set_hotcalls_config_file(opt);
    lemma_options_set_ld_preload(opt);
    lemma_options_set_libzphook(opt);
    lemma_options_set_run_in_user_mode(opt);
    lemma_options_set_run_in_vmpl(opt);
    lemma_options_set_run_in_vmpl_process(opt);
    lemma_options_set_run_in_vmpl_thread(opt);
    lemma_options_set_vmpl_debug_enabled(opt);
    lemma_options_set_vmpl_enabled(opt);
    lemma_options_set_vmpl_log_file(opt);
    lemma_options_set_vmpl_log_level(opt);
    lemma_options_set_vmpl_log_show_time(opt);
    lemma_assigned_append(options_env(opt), vars.pairs());
}

} // verus!
