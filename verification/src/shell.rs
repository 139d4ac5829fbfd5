//! The interactive shell: what each line typed, or each other outcome of reading a
//! line, makes it do.

use vstd::prelude::*;
use crate::text::{chars_of, string_of, strs, deep, split_ws, split_whitespace, is_blank, is_text, concat_chars, lemma_blank_iff_no_words};
use crate::env::{EnvVars, with_env, upsert};
use crate::launch::{Opt, LaunchPlan, run_command, is_launch_of, same_settings};
use crate::decimal::{dec_digits, decimal_chars};

verus! {

broadcast use vstd::string::group_string_axioms;

/// What reading a line gave.
pub enum ShellEvent {
    /// A line was read.
    Line(String),
    /// The reading was interrupted (Ctrl-C).
    Interrupted,
    /// The input ended (Ctrl-D).
    Eof,
    /// Reading failed, with this message.
    Failed(String),
}

/// What the shell does in answer.
pub enum ShellAction {
    /// Nothing to show or run.
    Nothing,
    /// Print these lines.
    Print(Vec<String>),
    /// Print the history of the lines.
    ShowHistory,
    /// Run this program.
    Launch(LaunchPlan),
}

/// The answer of the shell to one event: what to do, whether to record the line in
/// the history afterwards, and whether to stop.
pub struct ShellReply {
    pub action: ShellAction,
    pub record: bool,
    pub stop: bool,
}

/// What the shell keeps from one line to the next: the options, whose program and
/// arguments each command replaces, and the variables set with `env`.
pub struct ShellState {
    pub opt: Opt,
    pub vars: EnvVars,
}

/// The lines of the help text.
pub open spec fn help_text() -> Seq<Seq<char>> {
    seq![
        "VMPL Shell - Type 'exit' to quit"@,
        "Available commands:"@,
        "  help                     - Show this help message"@,
        "  history                  - Show command history"@,
        "  exit                     - Exit the shell"@,
        "  env <var> <value>        - Set environment variable"@,
    ]
}

/// The lines of the help text.
pub fn help_lines() -> (r: Vec<String>)
    ensures
        strs(r@) == help_text(),
{
    let r = vec![
        String::from_str("VMPL Shell - Type 'exit' to quit"),
        String::from_str("Available commands:"),
        String::from_str("  help                     - Show this help message"),
        String::from_str("  history                  - Show command history"),
        String::from_str("  exit                     - Exit the shell"),
        String::from_str("  env <var> <value>        - Set environment variable"),
    ];
    assert(strs(r@) =~= help_text());
    r
}

/// The line of the history listing for the entry at position `i`.
pub open spec fn history_line(i: nat, entry: Seq<char>) -> Seq<char> {
    dec_digits(i) + ": "@ + entry
}

/// The lines of the history listing: each entry after its position and `: `.
pub fn history_lines(entries: &Vec<String>) -> (r: Vec<String>)
    ensures
        r@.len() == entries@.len(),
        forall|i: int| 0 <= i < r@.len() ==> (#[trigger] r@[i])@ == history_line(i as nat, entries@[i]@),
{
    let mut r: Vec<String> = Vec::new();
    for i in 0..entries.len()
        invariant
            r@.len() == i,
            forall|k: int| 0 <= k < i ==> (#[trigger] r@[k])@ == history_line(k as nat, entries@[k]@),
    {
        let num = decimal_chars(i);
        let sep = chars_of(": ");
        let e = chars_of(entries[i].as_str());
        let a = concat_chars(&num, &sep);
        let b = concat_chars(&a, &e);
        r.push(string_of(&b));
    }
    r
}

/// The line printed when reading a line failed.
pub open spec fn failure_line(msg: Seq<char>) -> Seq<char> {
    "Error: "@ + msg
}

/// The action prints exactly the given lines.
pub open spec fn prints(a: ShellAction, lines: Seq<Seq<char>>) -> bool {
    a matches ShellAction::Print(v) && strs(v@) == lines
}

/// The answer to a line whose words are `w`, and the state it leaves.
pub open spec fn line_reply(w: Seq<Seq<char>>, before: ShellState, after: ShellState, r: ShellReply) -> bool {
    if w.len() == 0 {
        &&& r.action is Nothing && !r.record && !r.stop
        &&& after == before
    } else if w[0] == "e"@ || w[0] == "env"@ {
        if w.len() < 3 {
            &&& prints(r.action, seq!["Usage: env <var> <value>"@]) && !r.record && !r.stop
            &&& after == before
        } else {
            &&& r.action is Nothing && r.record && !r.stop
            &&& after.opt == before.opt
            &&& after.vars.vars() == before.vars.vars().insert(w[1], w[2])
            &&& after.vars.pairs() == upsert(before.vars.pairs(), w[1], w[2])
        }
    } else if w[0] == "q"@ || w[0] == "exit"@ || w[0] == "quit"@ {
        &&& r.action is Nothing && !r.record && r.stop
        &&& after == before
    } else if w[0] == "h"@ || w[0] == "help"@ {
        &&& prints(r.action, help_text()) && r.record && !r.stop
        &&& after == before
    } else if w[0] == "history"@ {
        &&& r.action is ShowHistory && r.record && !r.stop
        &&& after == before
    } else {
        &&& r.record && !r.stop
        &&& after.vars == before.vars
        &&& same_settings(after.opt, before.opt)
        &&& after.opt.program matches Some(p) && p@ == w[0]
        &&& strs(after.opt.program_args@) == w.drop_first()
        &&& r.action matches ShellAction::Launch(plan) && is_launch_of(
            plan,
            after.opt.program->0,
            after.opt.program_args@,
            after.opt,
            after.vars,
        )
    }
}

/// The answer of the shell to an event, and the state it leaves.
pub open spec fn shell_reply(e: ShellEvent, before: ShellState, after: ShellState, r: ShellReply) -> bool {
    match e {
        ShellEvent::Line(l) => line_reply(split_ws(l@), before, after, r),
        ShellEvent::Interrupted => prints(r.action, seq!["CTRL-C"@]) && !r.record && !r.stop
            && after == before,
        ShellEvent::Eof => prints(r.action, seq!["CTRL-D"@]) && !r.record && r.stop && after
            == before,
        ShellEvent::Failed(m) => prints(r.action, seq![failure_line(m@)]) && !r.record && r.stop
            && after == before,
    }
}

/// A reply that prints one line.
fn print_one(line: String, record: bool, stop: bool) -> (r: ShellReply)
    ensures
        prints(r.action, seq![line@]),
        r.record == record,
        r.stop == stop,
{
    let v = vec![line];
    assert(strs(v@) =~= seq![v@[0]@]);
    ShellReply { action: ShellAction::Print(v), record, stop }
}

/// Answers one event of the shell: a line typed, an interruption, the end of the
/// input or a failure to read.
pub fn shell_step(state: &mut ShellState, event: &ShellEvent) -> (r: ShellReply)
    ensures
        shell_reply(*event, *old(state), *final(state), r),
{
    match event {
        ShellEvent::Interrupted => print_one(String::from_str("CTRL-C"), false, false),
        ShellEvent::Eof => print_one(String::from_str("CTRL-D"), false, true),
        ShellEvent::Failed(m) => {
            let t = chars_of("Error: ");
            let mc = chars_of(m.as_str());
            let l = concat_chars(&t, &mc);
            print_one(string_of(&l), false, true)
        },
        ShellEvent::Line(line) => {
            let l = chars_of(line.as_str());
            let parts = split_whitespace(&l);
            if parts.len() == 0 {
                return ShellReply { action: ShellAction::Nothing, record: false, stop: false };
            }
            let first = &parts[0];
            if is_text(first, "e") || is_text(first, "env") {
                if parts.len() < 3 {
                    return print_one(String::from_str("Usage: env <var> <value>"), false, false);
                }
                let var = string_of(&parts[1]);
                let value = string_of(&parts[2]);
                with_env(&mut state.vars, var.as_str(), value.as_str());
                ShellReply { action: ShellAction::Nothing, record: true, stop: false }
            } else if is_text(first, "q") || is_text(first, "exit") || is_text(first, "quit") {
                ShellReply { action: ShellAction::Nothing, record: false, stop: true }
            } else if is_text(first, "h") || is_text(first, "help") {
                ShellReply { action: ShellAction::Print(help_lines()), record: true, stop: false }
            } else if is_text(first, "history") {
                ShellReply { action: ShellAction::ShowHistory, record: true, stop: false }
            } else {
                let mut args: Vec<String> = Vec::new();
                for i in 0..parts.len()
                    invariant
                        strs(args@) == deep(parts@).take(i as int),
                {
                    let ghost a0 = strs(args@);
                    args.push(string_of(&parts[i]));
                    assert(strs(args@) =~= a0.push(parts@[i as int]@));
                    assert(deep(parts@).take(i + 1) =~= deep(parts@).take(i as int).push(
                        parts@[i as int]@,
                    ));
                }
                assert(deep(parts@).take(parts@.len() as int) =~= deep(parts@));
                let plan = run_command(&mut state.opt, &args, &state.vars);
                assert(strs(args@.subrange(1, args@.len() as int)) =~= strs(args@).drop_first());
                ShellReply { action: ShellAction::Launch(plan), record: true, stop: false }
            }
        },
    }
}

/// A blank line does nothing and is not recorded in the history.
pub proof fn law_blank_lines_ignored(line: Seq<char>, before: ShellState, after: ShellState, r: ShellReply)
    requires
        is_blank(line),
        line_reply(split_ws(line), before, after, r),
    ensures
        r.action is Nothing,
        !r.record,
        !r.stop,
        after == before,
{
    lemma_blank_iff_no_words(line);
}

/// `env NAME VALUE` sets the variable for the programs the shell runs afterwards,
/// and the line is recorded in the history.
pub proof fn law_env_sets_variable(line: Seq<char>, before: ShellState, after: ShellState, r: ShellReply)
    requires
        split_ws(line).len() >= 3,
        split_ws(line)[0] == "env"@ || split_ws(line)[0] == "e"@,
        line_reply(split_ws(line), before, after, r),
    ensures
        after.vars.vars().contains_key(split_ws(line)[1]),
        after.vars.vars()[split_ws(line)[1]] == split_ws(line)[2],
        r.record,
        !r.stop,
{
}

/// `exit`, `quit` and `q` end the shell, and are not recorded in the history.
pub proof fn law_exit_stops(line: Seq<char>, before: ShellState, after: ShellState, r: ShellReply)
    requires
        split_ws(line).len() >= 1,
        split_ws(line)[0] == "exit"@ || split_ws(line)[0] == "quit"@ || split_ws(line)[0] == "q"@,
        line_reply(split_ws(line), before, after, r),
    ensures
        r.stop,
        !r.record,
        after == before,
{
    reveal_strlit("exit");
    reveal_strlit("quit");
    reveal_strlit("q");
    reveal_strlit("e");
    reveal_strlit("env");
    assert("exit"@.len() == 4 && "quit"@.len() == 4 && "env"@.len() == 3);
    assert("q"@.len() == 1 && "e"@.len() == 1);
    assert("q"@[0] == 'q' && "e"@[0] == 'e');
}

/// A line that is no command of the shell runs its first word as a program with the
/// other words as arguments, under the options and the variables set so far.
pub proof fn law_other_lines_run(line: Seq<char>, before: ShellState, after: ShellState, r: ShellReply)
    requires
        split_ws(line).len() >= 1,
        !(split_ws(line)[0] == "e"@ || split_ws(line)[0] == "env"@ || split_ws(line)[0] == "q"@
            || split_ws(line)[0] == "exit"@ || split_ws(line)[0] == "quit"@ || split_ws(line)[0]
            == "h"@ || split_ws(line)[0] == "help"@ || split_ws(line)[0] == "history"@),
        line_reply(split_ws(line), before, after, r),
    ensures
        r.record,
        after.vars == before.vars,
        r.action matches ShellAction::Launch(plan) && plan.program@ == split_ws(line)[0] && strs(
            plan.args@,
        ) == split_ws(line).drop_first(),
{
}

/// `env` or `e` with fewer than a name and a value only prints the usage line: it
/// runs nothing, changes nothing, is not recorded in the history and does not stop.
pub proof fn law_env_needs_name_and_value(l: String, before: ShellState, after: ShellState, r: ShellReply)
    requires
        shell_reply(ShellEvent::Line(l), before, after, r),
        1 <= split_ws(l@).len() < 3,
        split_ws(l@)[0] == "env"@ || split_ws(l@)[0] == "e"@,
    ensures
        r.action matches ShellAction::Print(v) && strs(v@) == seq!["Usage: env <var> <value>"@],
        !r.record,
        !r.stop,
        after == before,
{
}

} // verus!
