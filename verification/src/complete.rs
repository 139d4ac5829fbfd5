//! Completion and hints for the lines typed into the shell.

use vstd::prelude::*;
use crate::text::{
    has_prefix, chars_of, starts_with, string_of, deep, copy_chars, split_char, split_on, strs,
    ends_with_char, ends_with, has_char, is_text, concat_chars, split_ws, split_whitespace,
    lemma_word_encoding_bound, concat_str,
};
use crate::paths::{opt_text, path_parent, path_file_name, parent_of, file_name_of};
use crate::env::{EnvVars, value_or_empty};
use vstd::utf8::{encode_utf8, decode_utf8};
use vstd::string::StringSliceAdditionalSpecFns;
use crate::order::{strictly_sorted, insert_sorted, lemma_sorted_unique, sorted_distinct, lemma_sorted_exists};
use crate::fs::{FileEntry, FsView, listing};
use crate::launch::{Opt, options_env, set_if, set_opt, bool_text, preload_value};

verus! {

/// A completion: what the list shows, and what replaces the word being typed.
pub struct Candidate {
    pub display: String,
    pub replacement: String,
}

/// A completion taken by its texts.
pub open spec fn cand(c: Candidate) -> (Seq<char>, Seq<char>) {
    (c.display@, c.replacement@)
}

/// Completions taken by their texts.
pub open spec fn cands(v: Seq<Candidate>) -> Seq<(Seq<char>, Seq<char>)> {
    v.map_values(|c: Candidate| cand(c))
}

/// Each text shown and inserted as it is.
pub open spec fn same_pairs(names: Seq<Seq<char>>) -> Seq<(Seq<char>, Seq<char>)> {
    names.map_values(|n: Seq<char>| (n, n))
}

/// The entry is an executable file whose name begins with `prefix`: a file with an
/// execute bit set for its owner, its group or others.
pub open spec fn is_exec_match(e: FileEntry, prefix: Seq<char>) -> bool {
    &&& e.is_file
    &&& e.mode matches Some(m) && m & 0o111u32 != 0
    &&& has_prefix(e.name@, prefix)
}

/// The names of the executables of a directory that begin with `prefix`, in order.
pub open spec fn entry_matches(es: Seq<FileEntry>, prefix: Seq<char>) -> Seq<Seq<char>>
    decreases es.len(),
{
    if es.len() == 0 {
        Seq::empty()
    } else if is_exec_match(es.last(), prefix) {
        entry_matches(es.drop_last(), prefix).push(es.last().name@)
    } else {
        entry_matches(es.drop_last(), prefix)
    }
}

/// The names of the executables that begin with `prefix` in the directories `dirs`
/// that could be read, in order, with repetitions.
pub open spec fn path_matches(dirs: Seq<Seq<char>>, fs: Seq<crate::fs::DirListing>, prefix: Seq<char>) -> Seq<Seq<char>>
    decreases dirs.len(),
{
    if dirs.len() == 0 {
        Seq::empty()
    } else {
        path_matches(dirs.drop_last(), fs, prefix) + match listing(fs, dirs.last()) {
            Some(es) => entry_matches(es, prefix),
            None => Seq::empty(),
        }
    }
}

/// The completions by the executables on the search path `path_var` (directories
/// separated by `:`) whose names begin with `prefix`: sorted, each name once.
pub open spec fn executable_completions(prefix: Seq<char>, path_var: Seq<char>, fs: Seq<crate::fs::DirListing>) -> Seq<(Seq<char>, Seq<char>)> {
    same_pairs(sorted_distinct(path_matches(split_char(path_var, ':'), fs, prefix)))
}

/// Tests whether an entry is an executable whose name begins with `prefix`.
fn exec_match(e: &FileEntry, prefix: &Vec<char>) -> (b: bool)
    ensures
        b == is_exec_match(*e, prefix@),
{
    let executable = match e.mode {
        Some(m) => m & 0o111u32 != 0,
        None => false,
    };
    if e.is_file && executable {
        let n = chars_of(e.name.as_str());
        starts_with(&n, prefix)
    } else {
        false
    }
}

/// Completions that show and insert the given texts.
pub fn pairs_of(names: &Vec<Vec<char>>) -> (r: Vec<Candidate>)
    ensures
        cands(r@) == same_pairs(deep(names@)),
{
    let mut r: Vec<Candidate> = Vec::new();
    for i in 0..names.len()
        invariant
            cands(r@) == same_pairs(deep(names@.take(i as int))),
    {
        let c = Candidate { display: string_of(&names[i]), replacement: string_of(&names[i]) };
        let ghost r0 = r@;
        r.push(c);
        assert(names@.take(i + 1) =~= names@.take(i as int).push(names@[i as int]));
        assert(cands(r@) =~= cands(r0).push(cand(c)));
        assert(same_pairs(deep(names@.take(i + 1))) =~= same_pairs(deep(names@.take(i as int))).push(
            (names@[i as int]@, names@[i as int]@),
        ));
    }
    assert(names@.take(names@.len() as int) =~= names@);
    r
}

/// Sorts texts into code point order, keeping each once.
pub fn sort_distinct(found: &Vec<Vec<char>>) -> (names: Vec<Vec<char>>)
    ensures
        deep(names@) == sorted_distinct(deep(found@)),
{
    let mut names: Vec<Vec<char>> = Vec::new();
    for k in 0..found.len()
        invariant
            strictly_sorted(deep(names@)),
            forall|y: Seq<char>| #[trigger]
                deep(names@).contains(y) <==> deep(found@).take(k as int).contains(y),
    {
        let ghost before = deep(names@);
        let x = copy_chars(&found[k]);
        insert_sorted(&mut names, x);
        assert forall|y: Seq<char>| #[trigger] deep(names@).contains(y) <==> deep(found@).take(
            k + 1,
        ).contains(y) by {
            let t = deep(found@).take(k + 1);
            assert(t =~= deep(found@).take(k as int).push(found@[k as int]@));
            if t.contains(y) {
                let m = choose|m: int| 0 <= m < t.len() && t[m] == y;
                if m < k {
                    assert(deep(found@).take(k as int)[m] == y);
                }
            }
            if deep(found@).take(k as int).contains(y) {
                let m = choose|m: int| 0 <= m < k && deep(found@).take(k as int)[m] == y;
                assert(t[m] == y);
            }
            if y == found@[k as int]@ {
                assert(t[k as int] == y);
            }
        }
    }
    assert(deep(found@).take(found@.len() as int) =~= deep(found@));
    let ghost s = deep(found@);
    let ghost r = deep(names@);
    assert(strictly_sorted(r) && (forall|y: Seq<char>| #[trigger] r.contains(y) <==> s.contains(y)));
    let ghost c = sorted_distinct(s);
    proof {
        lemma_sorted_unique(r, c);
    }
    names
}

/// The executables on the search path whose names begin with `prefix`: each shown
/// and inserted as it is, sorted, each name once.
pub fn executable_candidates(prefix: &str, path_var: &str, fs: &FsView) -> (r: Vec<Candidate>)
    ensures
        cands(r@) == executable_completions(prefix@, path_var@, fs.dirs@),
{
    let p = chars_of(prefix);
    let pv = chars_of(path_var);
    let pieces = split_on(&pv, ':');
    let mut found: Vec<Vec<char>> = Vec::new();
    for i in 0..pieces.len()
        invariant
            deep(pieces@) == split_char(path_var@, ':'),
            p@ == prefix@,
            deep(found@) == path_matches(deep(pieces@).take(i as int), fs.dirs@, prefix@),
    {
        let ghost dirs = deep(pieces@);
        assert(dirs.take(i + 1).drop_last() =~= dirs.take(i as int));
        assert(dirs.take(i + 1).last() == pieces@[i as int]@);
        match fs.find(&pieces[i]) {
            Some(k) => {
                let es = &fs.dirs[k].entries;
                let ghost base = deep(found@);
                assert(es@.take(0) =~= Seq::<FileEntry>::empty());
                assert(base + entry_matches(es@.take(0), prefix@) =~= base);
                for j in 0..es.len()
                    invariant
                        p@ == prefix@,
                        deep(found@) == base + entry_matches(es@.take(j as int), prefix@),
                {
                    assert(es@.take(j + 1).drop_last() =~= es@.take(j as int));
                    assert(es@.take(j + 1).last() == es@[j as int]);
                    if exec_match(&es[j], &p) {
                        let ghost f0 = deep(found@);
                        found.push(chars_of(es[j].name.as_str()));
                        assert(deep(found@) =~= f0.push(es@[j as int].name@));
                    }
                }
                assert(es@.take(es@.len() as int) =~= es@);
            },
            None => {
                assert(deep(found@) + Seq::<Seq<char>>::empty() =~= deep(found@));
            },
        }
    }
    assert(deep(pieces@).take(pieces@.len() as int) =~= deep(pieces@));
    let names = sort_distinct(&found);
    pairs_of(&names)
}

/// Where to look for completions of a path that holds a `/`, and the beginning of
/// the names to complete there: the path itself and nothing where it ends in `/`;
/// else its parent and file name (the latter empty where there is none); `./` and
/// the whole path where it has no parent. An empty directory stands for `.`.
pub open spec fn search_target(input: Seq<char>, parent: Option<Seq<char>>, file_name: Option<Seq<char>>) -> (Seq<char>, Seq<char>) {
    let t = if ends_with_char(input, '/') {
        (input, Seq::<char>::empty())
    } else {
        match parent {
            Some(p) => (
                p,
                match file_name {
                    Some(f) => f,
                    None => Seq::<char>::empty(),
                },
            ),
            None => ("./"@, input),
        }
    };
    (if t.0.len() == 0 {
        "."@
    } else {
        t.0
    }, t.1)
}

/// The completion by an entry of the directory `dir`: its name, with a `/` where it
/// is a directory, is shown; the path to it is inserted, with a `/` where it is a
/// directory and does not end in one already.
pub open spec fn dir_candidate(dir: Seq<char>, e: FileEntry) -> (Seq<char>, Seq<char>) {
    let joined = if dir == "."@ {
        e.name@
    } else {
        dir + seq!['/'] + e.name@
    };
    let full = if e.is_dir && !ends_with_char(joined, '/') {
        joined.push('/')
    } else {
        joined
    };
    (if e.is_dir {
        e.name@.push('/')
    } else {
        e.name@
    }, full)
}

/// The completions by the entries of `dir` whose names begin with `prefix`, in the
/// order of the entries.
pub open spec fn dir_completions(dir: Seq<char>, prefix: Seq<char>, es: Seq<FileEntry>) -> Seq<(Seq<char>, Seq<char>)>
    decreases es.len(),
{
    if es.len() == 0 {
        Seq::empty()
    } else if has_prefix(es.last().name@, prefix) {
        dir_completions(dir, prefix, es.drop_last()).push(dir_candidate(dir, es.last()))
    } else {
        dir_completions(dir, prefix, es.drop_last())
    }
}

/// The completion by an entry of the working directory: its name, with a `/` where
/// it is a directory, is shown; its name is inserted.
pub open spec fn cwd_candidate(e: FileEntry) -> (Seq<char>, Seq<char>) {
    (if e.is_dir {
        e.name@.push('/')
    } else {
        e.name@
    }, e.name@)
}

/// The completions by the entries of the working directory whose names begin with
/// `prefix`, in the order of the entries.
pub open spec fn cwd_completions(prefix: Seq<char>, es: Seq<FileEntry>) -> Seq<(Seq<char>, Seq<char>)>
    decreases es.len(),
{
    if es.len() == 0 {
        Seq::empty()
    } else if has_prefix(es.last().name@, prefix) {
        cwd_completions(prefix, es.drop_last()).push(cwd_candidate(es.last()))
    } else {
        cwd_completions(prefix, es.drop_last())
    }
}

/// The completions of a word that names a path: without a `/`, the executables on the
/// search path and then the entries of the working directory that begin with it;
/// with one, the entries of the directory it names that begin with its last part.
pub open spec fn path_completions(input: Seq<char>, path_var: Seq<char>, fs: Seq<crate::fs::DirListing>) -> Seq<(Seq<char>, Seq<char>)> {
    if !input.contains('/') {
        executable_completions(input, path_var, fs) + match listing(fs, "."@) {
            Some(es) => cwd_completions(input, es),
            None => Seq::empty(),
        }
    } else {
        let t = search_target(input, path_parent(input), path_file_name(input));
        match listing(fs, t.0) {
            Some(es) => dir_completions(t.0, t.1, es),
            None => Seq::empty(),
        }
    }
}

/// The text of `c` followed by `/`.
fn with_slash(c: &Vec<char>) -> (r: Vec<char>)
    ensures
        r@ == c@.push('/'),
{
    let mut r = copy_chars(c);
    r.push('/');
    r
}

/// The directory and the beginning of the names to complete for a path that holds a
/// `/`, given what `Path::parent` and `Path::file_name` give for it.
pub fn search_target_of(input: &str, parent: Option<String>, file_name: Option<String>) -> (r: (String, String))
    ensures
        (r.0@, r.1@) == search_target(input@, opt_text(parent), opt_text(file_name)),
{
    let inp = chars_of(input);
    let (dir, prefix) = if ends_with(&inp, '/') {
        (String::from_str(input), String::new())
    } else {
        match parent {
            Some(p) => (
                p,
                match file_name {
                    Some(f) => f,
                    None => String::new(),
                },
            ),
            None => (String::from_str("./"), String::from_str(input)),
        }
    };
    if dir.as_str().is_empty() {
        (String::from_str("."), prefix)
    } else {
        (dir, prefix)
    }
}

/// The completions by the entries of `dir` whose names begin with `prefix`.
pub fn dir_candidates(dir: &str, prefix: &str, es: &Vec<FileEntry>) -> (r: Vec<Candidate>)
    ensures
        cands(r@) == dir_completions(dir@, prefix@, es@),
{
    let d = chars_of(dir);
    let p = chars_of(prefix);
    let is_dot = is_text(&d, ".");
    let mut r: Vec<Candidate> = Vec::new();
    for j in 0..es.len()
        invariant
            d@ == dir@,
            p@ == prefix@,
            is_dot == (dir@ == "."@),
            cands(r@) == dir_completions(dir@, prefix@, es@.take(j as int)),
    {
        assert(es@.take(j + 1).drop_last() =~= es@.take(j as int));
        assert(es@.take(j + 1).last() == es@[j as int]);
        let e = &es[j];
        let name = chars_of(e.name.as_str());
        if starts_with(&name, &p) {
            let joined = if is_dot {
                copy_chars(&name)
            } else {
                let ds = with_slash(&d);
                concat_chars(&ds, &name)
            };
            let full = if e.is_dir && !ends_with(&joined, '/') {
                with_slash(&joined)
            } else {
                joined
            };
            let shown = if e.is_dir {
                with_slash(&name)
            } else {
                copy_chars(&name)
            };
            let c = Candidate { display: string_of(&shown), replacement: string_of(&full) };
            let ghost r0 = r@;
            r.push(c);
            assert(cands(r@) =~= cands(r0).push(cand(c)));
            assert(cand(c) == dir_candidate(dir@, es@[j as int]));
        }
    }
    assert(es@.take(es@.len() as int) =~= es@);
    r
}

/// The completions by the entries of the working directory whose names begin with
/// `prefix`.
pub fn cwd_candidates(prefix: &str, es: &Vec<FileEntry>) -> (r: Vec<Candidate>)
    ensures
        cands(r@) == cwd_completions(prefix@, es@),
{
    let p = chars_of(prefix);
    let mut r: Vec<Candidate> = Vec::new();
    for j in 0..es.len()
        invariant
            p@ == prefix@,
            cands(r@) == cwd_completions(prefix@, es@.take(j as int)),
    {
        assert(es@.take(j + 1).drop_last() =~= es@.take(j as int));
        assert(es@.take(j + 1).last() == es@[j as int]);
        let e = &es[j];
        let name = chars_of(e.name.as_str());
        if starts_with(&name, &p) {
            let shown = if e.is_dir {
                with_slash(&name)
            } else {
                copy_chars(&name)
            };
            let c = Candidate { display: string_of(&shown), replacement: string_of(&name) };
            let ghost r0 = r@;
            r.push(c);
            assert(cands(r@) =~= cands(r0).push(cand(c)));
        }
    }
    assert(es@.take(es@.len() as int) =~= es@);
    r
}

/// Appends completions.
fn extend_candidates(r: &mut Vec<Candidate>, more: Vec<Candidate>)
    ensures
        cands(final(r)@) == cands(old(r)@) + cands(more@),
{
    let mut more = more;
    let ghost r0 = r@;
    let ghost m0 = more@;
    r.append(&mut more);
    assert(r@ == r0 + m0);
    assert(cands(r0 + m0) =~= cands(r0) + cands(m0));
}

/// The commands and environment variables that the shell completes.
pub struct VmplHelper {
    pub commands: Vec<String>,
    pub env_vars: Vec<String>,
}

/// The commands of the shell.
pub open spec fn shell_commands() -> Seq<Seq<char>> {
    seq!["env"@, "exit"@, "quit"@, "help"@, "history"@]
}

/// The environment variables that the tool knows.
pub open spec fn known_env_vars() -> Seq<Seq<char>> {
    seq![
        "VMPL_INSTALL_PATH"@,
        "VMPL_LOG_LEVEL"@,
        "VMPL_LOG_SHOW_TIME"@,
        "VMPL_LOG_FILE"@,
        "LIBZPHOOK"@,
        "HOTCALLS_CONFIG_FILE"@,
        "VMPL_ENABLED"@,
        "RUN_IN_VMPL"@,
        "RUN_IN_VMPL_PROCESS"@,
        "RUN_IN_VMPL_THREAD"@,
        "RUN_IN_USER_MODE"@,
        "LD_PRELOAD"@,
        "VMPL_DEBUG_ENABLED"@,
    ]
}

impl VmplHelper {
    /// The completer of the shell, with its commands and the environment variables the
    /// tool knows.
    pub fn new() -> (h: VmplHelper)
        ensures
            strs(h.commands@) == shell_commands(),
            strs(h.env_vars@) == known_env_vars(),
    {
        let commands = vec![
            String::from_str("env"),
            String::from_str("exit"),
            String::from_str("quit"),
            String::from_str("help"),
            String::from_str("history"),
        ];
        let env_vars = vec![
            String::from_str("VMPL_INSTALL_PATH"),
            String::from_str("VMPL_LOG_LEVEL"),
            String::from_str("VMPL_LOG_SHOW_TIME"),
            String::from_str("VMPL_LOG_FILE"),
            String::from_str("LIBZPHOOK"),
            String::from_str("HOTCALLS_CONFIG_FILE"),
            String::from_str("VMPL_ENABLED"),
            String::from_str("RUN_IN_VMPL"),
            String::from_str("RUN_IN_VMPL_PROCESS"),
            String::from_str("RUN_IN_VMPL_THREAD"),
            String::from_str("RUN_IN_USER_MODE"),
            String::from_str("LD_PRELOAD"),
            String::from_str("VMPL_DEBUG_ENABLED"),
        ];
        let h = VmplHelper { commands, env_vars };
        assert(strs(h.commands@) =~= shell_commands());
        assert(strs(h.env_vars@) =~= known_env_vars());
        h
    }

    /// The value of the environment variable `var` in `env`, or the empty text where
    /// it is not set.
    pub fn get_env_value(&self, env: &EnvVars, var: &str) -> (r: String)
        ensures
            r@ == value_or_empty(env.vars(), var@),
    {
        env.value_of(var)
    }

    /// The executables on the search path `path_var` whose names begin with
    /// `prefix`, each once, in code point order.
    pub fn get_executables_from_path(&self, prefix: &str, path_var: &str, fs: &FsView) -> (r: Vec<Candidate>)
        ensures
            cands(r@) == executable_completions(prefix@, path_var@, fs.dirs@),
    {
        executable_candidates(prefix, path_var, fs)
    }

    /// The completions of a word that names a path.
    pub fn get_path_completions(&self, input: &str, path_var: &str, fs: &FsView) -> (r: Vec<Candidate>)
        ensures
            cands(r@) == path_completions(input@, path_var@, fs.dirs@),
    {
        let inp = chars_of(input);
        if !has_char(&inp, '/') {
            let mut r = self.get_executables_from_path(input, path_var, fs);
            let dot = chars_of(".");
            match fs.find(&dot) {
                Some(k) => {
                    let more = cwd_candidates(input, &fs.dirs[k].entries);
                    extend_candidates(&mut r, more);
                },
                None => {
                    assert(cands(r@) + Seq::<(Seq<char>, Seq<char>)>::empty() =~= cands(r@));
                },
            }
            return r;
        }
        let parent = if ends_with(&inp, '/') {
            None
        } else {
            parent_of(input)
        };
        let file_name = if !ends_with(&inp, '/') && parent.is_some() {
            file_name_of(input)
        } else {
            None
        };
        let ghost want = search_target(input@, path_parent(input@), path_file_name(input@));
        let (dir, prefix) = search_target_of(input, parent, file_name);
        assert((dir@, prefix@) == want);
        let d = chars_of(dir.as_str());
        match fs.find(&d) {
            Some(k) => dir_candidates(dir.as_str(), prefix.as_str(), &fs.dirs[k].entries),
            None => Vec::new(),
        }
    }
}

/// The texts of `items` that begin with `word`, in order.
pub open spec fn prefixed(items: Seq<Seq<char>>, word: Seq<char>) -> Seq<Seq<char>>
    decreases items.len(),
{
    if items.len() == 0 {
        Seq::empty()
    } else if has_prefix(items.last(), word) {
        prefixed(items.drop_last(), word).push(items.last())
    } else {
        prefixed(items.drop_last(), word)
    }
}

/// The first text of `items` that begins with `word`.
pub open spec fn first_prefixed(items: Seq<Seq<char>>, word: Seq<char>) -> Option<Seq<char>>
    decreases items.len(),
{
    if items.len() == 0 {
        None
    } else if has_prefix(items[0], word) {
        Some(items[0])
    } else {
        first_prefixed(items.drop_first(), word)
    }
}

/// The text of a line before the byte position `pos`.
pub open spec fn text_before(line: Seq<char>, pos: int) -> Seq<char> {
    decode_utf8(encode_utf8(line).subrange(0, pos))
}

/// The word being typed at the end of `before`: none right after a space, else the
/// last word, if any.
pub open spec fn current_word(before: Seq<char>) -> Seq<char> {
    if ends_with_char(before, ' ') {
        Seq::empty()
    } else if split_ws(before).len() > 0 {
        split_ws(before).last()
    } else {
        Seq::empty()
    }
}

/// The byte position where the word being typed begins, before the cursor at `pos`.
pub open spec fn completion_start(pos: int, word: Seq<char>) -> int {
    if word.len() == 0 {
        pos
    } else {
        pos - encode_utf8(word).len()
    }
}

/// `w` is the command `env`, or its short form `e`.
pub open spec fn is_env_command(w: Seq<char>) -> bool {
    w == "env"@ || w == "e"@
}

/// The completions by environment variables: each shown with its current value.
pub open spec fn var_completions(vars: Seq<Seq<char>>, word: Seq<char>, env: Map<Seq<char>, Seq<char>>) -> Seq<(Seq<char>, Seq<char>)> {
    prefixed(vars, word).map_values(
        |v: Seq<char>| (v + " (current: "@ + value_or_empty(env, v) + ")"@, v),
    )
}

/// The completion by the current value of a variable, where it has one.
pub open spec fn value_completions(value: Seq<char>) -> Seq<(Seq<char>, Seq<char>)> {
    if value.len() > 0 {
        seq![("current: "@ + value, value)]
    } else {
        Seq::empty()
    }
}

/// The completions of the text `before` the cursor: commands for the first word,
/// variable names for the word after `env`, the variable's value after that, and
/// paths otherwise.
pub open spec fn completion_candidates(
    commands: Seq<Seq<char>>,
    vars: Seq<Seq<char>>,
    before: Seq<char>,
    env: Map<Seq<char>, Seq<char>>,
    path_var: Seq<char>,
    fs: Seq<crate::fs::DirListing>,
) -> Seq<(Seq<char>, Seq<char>)> {
    let w = split_ws(before);
    let word = current_word(before);
    if w.len() == 0 || w[0].len() == 0 {
        same_pairs(prefixed(commands, word))
    } else if is_env_command(w[0]) && w.len() <= 2 {
        var_completions(vars, word, env)
    } else if is_env_command(w[0]) && w.len() == 3 {
        value_completions(value_or_empty(env, w[1]))
    } else if word.len() > 0 {
        path_completions(word, path_var, fs)
    } else {
        Seq::empty()
    }
}

/// The completion of `before` looks for paths: the line has a first word, it is not
/// handled as a variable or its value, and a word is being typed.
pub open spec fn completes_path(before: Seq<char>) -> bool {
    let w = split_ws(before);
    &&& !(w.len() == 0 || w[0].len() == 0)
    &&& !(is_env_command(w[0]) && w.len() <= 3)
    &&& current_word(before).len() > 0
}

/// The directories whose entries the completion of a path `word` reads: those of the
/// search path and the working directory for a bare name, else the directory the
/// word names.
pub open spec fn dirs_for_word(word: Seq<char>, path_var: Seq<char>) -> Seq<Seq<char>> {
    if !word.contains('/') {
        split_char(path_var, ':').push("."@)
    } else {
        seq![search_target(word, path_parent(word), path_file_name(word)).0]
    }
}

/// The directories whose entries the completion of the text `before` reads.
pub open spec fn completion_dirs_for(before: Seq<char>, path_var: Seq<char>) -> Seq<Seq<char>> {
    if completes_path(before) {
        dirs_for_word(current_word(before), path_var)
    } else {
        Seq::empty()
    }
}

/// The hint shown after the text of a line.
pub open spec fn hint_for(vars: Seq<Seq<char>>, line: Seq<char>, env: Map<Seq<char>, Seq<char>>) -> Option<Seq<char>> {
    let w = split_ws(line);
    if w.len() == 0 {
        None
    } else if is_env_command(w[0]) {
        if w.len() == 1 {
            Some(" <variable> <value>"@)
        } else if w.len() == 2 {
            match first_prefixed(vars, w[1]) {
                Some(v) => if value_or_empty(env, v).len() > 0 {
                    Some(" current value: "@ + value_or_empty(env, v))
                } else {
                    Some(" <value>"@)
                },
                None => Some(" <value>"@),
            }
        } else {
            None
        }
    } else if w[0] == "help"@ || w[0] == "h"@ {
        Some(" - Show available commands"@)
    } else if w[0] == "exit"@ || w[0] == "quit"@ || w[0] == "q"@ {
        Some(" - Exit the shell"@)
    } else if w[0] == "history"@ {
        Some(" - Show command history"@)
    } else {
        None
    }
}

/// The texts of `items` that begin with `word`, in order.
fn prefixed_items(items: &Vec<String>, word: &Vec<char>) -> (r: Vec<Vec<char>>)
    ensures
        deep(r@) == prefixed(strs(items@), word@),
{
    let mut r: Vec<Vec<char>> = Vec::new();
    for i in 0..items.len()
        invariant
            deep(r@) == prefixed(strs(items@).take(i as int), word@),
    {
        let ghost t = strs(items@).take(i + 1);
        assert(t.drop_last() =~= strs(items@).take(i as int));
        assert(t.last() == items@[i as int]@);
        let it = chars_of(items[i].as_str());
        if starts_with(&it, word) {
            let ghost r0 = deep(r@);
            r.push(it);
            assert(deep(r@) =~= r0.push(items@[i as int]@));
        }
    }
    assert(strs(items@).take(items@.len() as int) =~= strs(items@));
    r
}

/// The first of `items` that begins with `word`.
fn first_prefixed_item(items: &Vec<String>, word: &Vec<char>) -> (r: Option<String>)
    ensures
        opt_text(r) == first_prefixed(strs(items@), word@),
{
    let mut i: usize = 0;
    assert(strs(items@).skip(0) =~= strs(items@));
    while i < items.len()
        invariant
            i <= items.len(),
            first_prefixed(strs(items@), word@) == first_prefixed(strs(items@).skip(i as int), word@),
        decreases items.len() - i,
    {
        let ghost t = strs(items@).skip(i as int);
        assert(t[0] == items@[i as int]@);
        let it = chars_of(items[i].as_str());
        if starts_with(&it, word) {
            return Some(items[i].clone());
        }
        assert(t.drop_first() =~= strs(items@).skip(i + 1));
        i = i + 1;
    }
    None
}

/// Tests whether a word is the command `env` or its short form `e`.
fn env_command(w: &Vec<char>) -> (b: bool)
    ensures
        b == is_env_command(w@),
{
    is_text(w, "env") || is_text(w, "e")
}

impl VmplHelper {
    /// The completions of the variables whose names begin with `word`.
    fn var_candidates(&self, word: &Vec<char>, env: &EnvVars) -> (r: Vec<Candidate>)
        ensures
            cands(r@) == var_completions(strs(self.env_vars@), word@, env.vars()),
    {
        let names = prefixed_items(&self.env_vars, word);
        let ghost ns = deep(names@);
        let mut r: Vec<Candidate> = Vec::new();
        for i in 0..names.len()
            invariant
                ns == deep(names@),
                ns == prefixed(strs(self.env_vars@), word@),
                cands(r@) == ns.take(i as int).map_values(
                    |v: Seq<char>| (v + " (current: "@ + value_or_empty(env.vars(), v) + ")"@, v),
                ),
        {
            let n = string_of(&names[i]);
            let value = self.get_env_value(env, n.as_str());
            let a = concat_str(&names[i], " (current: ");
            let vc = chars_of(value.as_str());
            let b = concat_chars(&a, &vc);
            let d = concat_str(&b, ")");
            let c = Candidate { display: string_of(&d), replacement: n };
            let ghost r0 = r@;
            r.push(c);
            assert(ns.take(i + 1) =~= ns.take(i as int).push(ns[i as int]));
            assert(cands(r@) =~= cands(r0).push(cand(c)));
        }
        assert(ns.take(ns.len() as int) =~= ns);
        r
    }

    /// The completions of a line whose cursor stands at the byte position `pos`: the
    /// byte position where the word being typed begins, and the completions for it.
    pub fn complete(&self, line: &str, pos: usize, env: &EnvVars, path_var: &str, fs: &FsView) -> (r: (usize, Vec<Candidate>))
        requires
            vstd::utf8::is_char_boundary(encode_utf8(line@), pos as int),
        ensures
            r.0 == completion_start(pos as int, current_word(text_before(line@, pos as int))),
            cands(r.1@) == completion_candidates(
                strs(self.commands@),
                strs(self.env_vars@),
                text_before(line@, pos as int),
                env.vars(),
                path_var@,
                fs.dirs@,
            ),
    {
        proof {
            vstd::utf8::encode_utf8_valid_utf8(line@);
            reveal_with_fuel(vstd::utf8::is_char_boundary, 2);
        }
        let (head, _) = line.split_at(pos);
        proof {
            vstd::utf8::encode_utf8_decode_utf8(head@);
            assert(head.spec_bytes() == encode_utf8(head@));
        }
        let before = chars_of(head);
        assert(before@ == text_before(line@, pos as int));
        let words = split_whitespace(&before);
        let word: Vec<char> = if ends_with(&before, ' ') {
            Vec::new()
        } else if words.len() > 0 {
            copy_chars(&words[words.len() - 1])
        } else {
            Vec::new()
        };
        assert(word@ == current_word(before@));
        let mut matches: Vec<Candidate> = Vec::new();
        if words.len() == 0 || words[0].len() == 0 {
            let cs = prefixed_items(&self.commands, &word);
            matches = pairs_of(&cs);
        } else if env_command(&words[0]) && words.len() <= 2 {
            matches = self.var_candidates(&word, env);
        } else if env_command(&words[0]) && words.len() == 3 {
            let var_name = string_of(&words[1]);
            let current_value = self.get_env_value(env, var_name.as_str());
            if !current_value.as_str().is_empty() {
                let cv = chars_of(current_value.as_str());
                let shown = chars_of("current: ");
                let d = concat_chars(&shown, &cv);
                matches.push(Candidate { display: string_of(&d), replacement: current_value });
                assert(cands(matches@) =~= value_completions(value_or_empty(env.vars(), words@[1]@)));
            } else {
                assert(cands(matches@) =~= value_completions(value_or_empty(env.vars(), words@[1]@)));
            }
        } else if word.len() > 0 {
            let w = string_of(&word);
            matches = self.get_path_completions(w.as_str(), path_var, fs);
        } else {
            assert(cands(matches@) =~= Seq::<(Seq<char>, Seq<char>)>::empty());
        }
        let start = if word.len() == 0 {
            pos
        } else {
            let w = string_of(&word);
            proof {
                lemma_word_encoding_bound(before@, split_ws(before@).len() - 1);
            }
            pos - w.as_str().len()
        };
        (start, matches)
    }

    /// The directories whose entries `complete` reads for the same line and cursor.
    pub fn completion_dirs(&self, line: &str, pos: usize, path_var: &str) -> (r: Vec<String>)
        requires
            vstd::utf8::is_char_boundary(encode_utf8(line@), pos as int),
        ensures
            strs(r@) == completion_dirs_for(text_before(line@, pos as int), path_var@),
    {
        proof {
            vstd::utf8::encode_utf8_valid_utf8(line@);
            reveal_with_fuel(vstd::utf8::is_char_boundary, 2);
        }
        let (head, _) = line.split_at(pos);
        proof {
            vstd::utf8::encode_utf8_decode_utf8(head@);
            assert(head.spec_bytes() == encode_utf8(head@));
        }
        let before = chars_of(head);
        assert(before@ == text_before(line@, pos as int));
        let words = split_whitespace(&before);
        let word: Vec<char> = if ends_with(&before, ' ') {
            Vec::new()
        } else if words.len() > 0 {
            copy_chars(&words[words.len() - 1])
        } else {
            Vec::new()
        };
        assert(word@ == current_word(before@));
        let mut r: Vec<String> = Vec::new();
        if words.len() == 0 || words[0].len() == 0 || (env_command(&words[0]) && words.len() <= 3)
            || word.len() == 0 {
            assert(strs(r@) =~= Seq::<Seq<char>>::empty());
            return r;
        }
        if !has_char(&word, '/') {
            let pv = chars_of(path_var);
            let pieces = split_on(&pv, ':');
            for i in 0..pieces.len()
                invariant
                    strs(r@) == deep(pieces@).take(i as int),
            {
                let ghost r0 = strs(r@);
                r.push(string_of(&pieces[i]));
                assert(strs(r@) =~= r0.push(pieces@[i as int]@));
                assert(deep(pieces@).take(i + 1) =~= deep(pieces@).take(i as int).push(
                    pieces@[i as int]@,
                ));
            }
            assert(deep(pieces@).take(pieces@.len() as int) =~= deep(pieces@));
            let ghost r0 = strs(r@);
            r.push(String::from_str("."));
            assert(strs(r@) =~= r0.push("."@));
        } else {
            let w = string_of(&word);
            let parent = if ends_with(&word, '/') {
                None
            } else {
                parent_of(w.as_str())
            };
            let file_name = if !ends_with(&word, '/') && parent.is_some() {
                file_name_of(w.as_str())
            } else {
                None
            };
            let (dir, _) = search_target_of(w.as_str(), parent, file_name);
            r.push(dir);
            assert(strs(r@) =~= seq![r@[0]@]);
        }
        r
    }

    /// The hint shown after what has been typed on a line.
    pub fn hint(&self, line: &str, env: &EnvVars) -> (r: Option<String>)
        ensures
            opt_text(r) == hint_for(strs(self.env_vars@), line@, env.vars()),
    {
        let l = chars_of(line);
        let w = split_whitespace(&l);
        if w.len() == 0 {
            return None;
        }
        if env_command(&w[0]) {
            if w.len() == 1 {
                Some(String::from_str(" <variable> <value>"))
            } else if w.len() == 2 {
                match first_prefixed_item(&self.env_vars, &w[1]) {
                    Some(found) => {
                        let current = self.get_env_value(env, found.as_str());
                        if !current.as_str().is_empty() {
                            let mut h = String::from_str(" current value: ");
                            h.append(current.as_str());
                            Some(h)
                        } else {
                            Some(String::from_str(" <value>"))
                        }
                    },
                    None => Some(String::from_str(" <value>")),
                }
            } else {
                None
            }
        } else if is_text(&w[0], "help") || is_text(&w[0], "h") {
            Some(String::from_str(" - Show available commands"))
        } else if is_text(&w[0], "exit") || is_text(&w[0], "quit") || is_text(&w[0], "q") {
            Some(String::from_str(" - Exit the shell"))
        } else if is_text(&w[0], "history") {
            Some(String::from_str(" - Show command history"))
        } else {
            None
        }
    }
}

/// The texts of `items` that begin with `word` are exactly those that the first-word
/// and variable completions offer.
pub proof fn law_completions_are_prefixed(items: Seq<Seq<char>>, word: Seq<char>, x: Seq<char>)
    ensures
        prefixed(items, word).contains(x) <==> (items.contains(x) && has_prefix(x, word)),
    decreases items.len(),
{
    if items.len() > 0 {
        law_completions_are_prefixed(items.drop_last(), word, x);
        let p0 = prefixed(items.drop_last(), word);
        if items.drop_last().contains(x) {
            let k = choose|k: int| 0 <= k < items.drop_last().len() && items.drop_last()[k] == x;
            assert(items[k] == x);
        }
        if items.contains(x) && x != items.last() {
            let k = choose|k: int| 0 <= k < items.len() && items[k] == x;
            assert(items.drop_last()[k] == x);
        }
        if has_prefix(items.last(), word) {
            let p1 = p0.push(items.last());
            if p1.contains(x) && x != items.last() {
                let k = choose|k: int| 0 <= k < p1.len() && p1[k] == x;
                assert(p0[k] == x);
            }
            if p0.contains(x) {
                let k = choose|k: int| 0 <= k < p0.len() && p0[k] == x;
                assert(p1[k] == x);
            }
            assert(p1[p0.len() as int] == items.last());
        }
        assert(items[items.len() - 1] == items.last());
    }
}

/// The word being typed begins within the text before the cursor.
pub proof fn law_completion_start_in_line(line: Seq<char>, pos: int)
    requires
        vstd::utf8::is_char_boundary(encode_utf8(line), pos),
    ensures
        0 <= completion_start(pos, current_word(text_before(line, pos))) <= pos,
{
    vstd::utf8::encode_utf8_valid_utf8(line);
    reveal_with_fuel(vstd::utf8::is_char_boundary, 2);
    let b = encode_utf8(line).subrange(0, pos);
    let before = text_before(line, pos);
    vstd::utf8::valid_utf8_split(encode_utf8(line), pos);
    vstd::utf8::decode_utf8_encode_utf8(b);
    assert(encode_utf8(before) == b);
    let w = split_ws(before);
    if !ends_with_char(before, ' ') && w.len() > 0 {
        lemma_word_encoding_bound(before, w.len() - 1);
    }
}

/// A directory's completion is shown with a `/` and inserts a path ending in `/`.
pub proof fn law_directories_end_in_slash(dir: Seq<char>, e: FileEntry)
    requires
        e.is_dir,
    ensures
        ends_with_char(dir_candidate(dir, e).0, '/'),
        ends_with_char(dir_candidate(dir, e).1, '/'),
        ends_with_char(cwd_candidate(e).0, '/'),
{
}

/// The executables offered for a bare name come in code point order, each name
/// once, and are exactly the executables found.
pub proof fn law_executables_sorted_once(found: Seq<Seq<char>>)
    ensures
        strictly_sorted(sorted_distinct(found)),
        forall|y: Seq<char>| #[trigger] sorted_distinct(found).contains(y) <==> found.contains(y),
{
    lemma_sorted_exists(found);
}

/// The completions of `s` whose inserted text begins with `b`, in order.
pub open spec fn keep_replacing(s: Seq<(Seq<char>, Seq<char>)>, b: Seq<char>) -> Seq<(Seq<char>, Seq<char>)>
    decreases s.len(),
{
    if s.len() == 0 {
        Seq::empty()
    } else if has_prefix(s.last().1, b) {
        keep_replacing(s.drop_last(), b).push(s.last())
    } else {
        keep_replacing(s.drop_last(), b)
    }
}

/// A prefix of a prefix is a prefix.
proof fn lemma_prefix_trans(n: Seq<char>, b: Seq<char>, a: Seq<char>)
    requires
        has_prefix(n, b),
        has_prefix(b, a),
    ensures
        has_prefix(n, a),
{
    assert forall|i: int| 0 <= i < a.len() implies n.take(a.len() as int)[i] == a[i] by {
        assert(n.take(b.len() as int)[i] == n[i]);
        assert(b.take(a.len() as int)[i] == b[i]);
    }
    assert(n.take(a.len() as int) =~= a);
}

/// Keeping the texts that begin with `b` works piecewise on two lists side by side.
proof fn lemma_prefixed_append(x: Seq<Seq<char>>, y: Seq<Seq<char>>, b: Seq<char>)
    ensures
        prefixed(x + y, b) == prefixed(x, b) + prefixed(y, b),
    decreases y.len(),
{
    if y.len() == 0 {
        assert(x + y =~= x);
        assert(prefixed(x, b) + prefixed(y, b) =~= prefixed(x, b));
    } else {
        assert((x + y).drop_last() =~= x + y.drop_last());
        assert((x + y).last() == y.last());
        lemma_prefixed_append(x, y.drop_last(), b);
        if has_prefix(y.last(), b) {
            assert(prefixed(x, b) + prefixed(y, b) =~= (prefixed(x, b) + prefixed(y.drop_last(), b)).push(y.last()));
        }
    }
}

/// Keeping the completions whose inserted text begins with `b` works piecewise on two
/// lists side by side.
proof fn lemma_keep_append(x: Seq<(Seq<char>, Seq<char>)>, y: Seq<(Seq<char>, Seq<char>)>, b: Seq<char>)
    ensures
        keep_replacing(x + y, b) == keep_replacing(x, b) + keep_replacing(y, b),
    decreases y.len(),
{
    if y.len() == 0 {
        assert(x + y =~= x);
        assert(keep_replacing(x, b) + keep_replacing(y, b) =~= keep_replacing(x, b));
    } else {
        assert((x + y).drop_last() =~= x + y.drop_last());
        assert((x + y).last() == y.last());
        lemma_keep_append(x, y.drop_last(), b);
        if has_prefix(y.last().1, b) {
            assert(keep_replacing(x, b) + keep_replacing(y, b) =~= (keep_replacing(x, b)
                + keep_replacing(y.drop_last(), b)).push(y.last()));
        }
    }
}

/// The executables of a directory that begin with the longer `b` are those that
/// begin with `a` and also with `b`.
proof fn lemma_entry_matches_narrow(es: Seq<FileEntry>, a: Seq<char>, b: Seq<char>)
    requires
        has_prefix(b, a),
    ensures
        entry_matches(es, b) == prefixed(entry_matches(es, a), b),
    decreases es.len(),
{
    if es.len() > 0 {
        lemma_entry_matches_narrow(es.drop_last(), a, b);
        let e = es.last();
        if has_prefix(e.name@, b) {
            lemma_prefix_trans(e.name@, b, a);
        }
        if is_exec_match(e, a) {
            let x = entry_matches(es.drop_last(), a);
            assert(x.push(e.name@).drop_last() =~= x);
        }
    }
}

/// The executables on the search path that begin with the longer `b` are those that
/// begin with `a` and also with `b`.
proof fn lemma_path_matches_narrow(dirs: Seq<Seq<char>>, fs: Seq<crate::fs::DirListing>, a: Seq<char>, b: Seq<char>)
    requires
        has_prefix(b, a),
    ensures
        path_matches(dirs, fs, b) == prefixed(path_matches(dirs, fs, a), b),
    decreases dirs.len(),
{
    if dirs.len() > 0 {
        lemma_path_matches_narrow(dirs.drop_last(), fs, a, b);
        let x = path_matches(dirs.drop_last(), fs, a);
        match listing(fs, dirs.last()) {
            Some(es) => {
                lemma_entry_matches_narrow(es, a, b);
                lemma_prefixed_append(x, entry_matches(es, a), b);
            },
            None => {
                lemma_prefixed_append(x, Seq::empty(), b);
                assert(prefixed(Seq::<Seq<char>>::empty(), b) =~= Seq::<Seq<char>>::empty());
            },
        }
    }
}

/// Keeping the texts that begin with `b` keeps a list strictly sorted.
proof fn lemma_prefixed_sorted(s: Seq<Seq<char>>, b: Seq<char>)
    requires
        strictly_sorted(s),
    ensures
        strictly_sorted(prefixed(s, b)),
    decreases s.len(),
{
    if s.len() > 0 {
        let t = s.drop_last();
        assert forall|i: int, j: int| 0 <= i < j < t.len() implies crate::order::lex_lt(#[trigger] t[i], #[trigger] t[j]) by {
            assert(t[i] == s[i] && t[j] == s[j]);
        }
        lemma_prefixed_sorted(t, b);
        if has_prefix(s.last(), b) {
            let p = prefixed(t, b);
            let q = p.push(s.last());
            assert forall|i: int, j: int| 0 <= i < j < q.len() implies crate::order::lex_lt(#[trigger] q[i], #[trigger] q[j]) by {
                if j == p.len() {
                    law_completions_are_prefixed(t, b, q[i]);
                    assert(p.contains(p[i]));
                    let k = choose|k: int| 0 <= k < t.len() && t[k] == p[i];
                    assert(s[k] == p[i]);
                    assert(s[s.len() - 1] == s.last());
                }
            }
        }
    }
}

/// Keeping the shown-and-inserted completions that begin with `b` is keeping the texts
/// that begin with `b`.
proof fn lemma_keep_same_pairs(s: Seq<Seq<char>>, b: Seq<char>)
    ensures
        keep_replacing(same_pairs(s), b) == same_pairs(prefixed(s, b)),
    decreases s.len(),
{
    if s.len() > 0 {
        lemma_keep_same_pairs(s.drop_last(), b);
        assert(same_pairs(s).drop_last() =~= same_pairs(s.drop_last()));
        assert(same_pairs(s).last() == (s.last(), s.last()));
        if has_prefix(s.last(), b) {
            assert(same_pairs(prefixed(s, b)) =~= same_pairs(prefixed(s.drop_last(), b)).push(
                (s.last(), s.last()),
            ));
        }
    } else {
        assert(same_pairs(s) =~= Seq::<(Seq<char>, Seq<char>)>::empty());
        assert(same_pairs(prefixed(s, b)) =~= Seq::<(Seq<char>, Seq<char>)>::empty());
    }
}

/// Sorting and then keeping the texts that begin with `b` is keeping and then sorting.
proof fn lemma_sorted_prefixed(s: Seq<Seq<char>>, b: Seq<char>)
    ensures
        sorted_distinct(prefixed(s, b)) == prefixed(sorted_distinct(s), b),
{
    lemma_sorted_exists(s);
    lemma_sorted_exists(prefixed(s, b));
    let r = sorted_distinct(s);
    lemma_prefixed_sorted(r, b);
    assert forall|y: Seq<char>| prefixed(r, b).contains(y) <==> sorted_distinct(prefixed(s, b)).contains(y) by {
        law_completions_are_prefixed(r, b, y);
        law_completions_are_prefixed(s, b, y);
    }
    lemma_sorted_unique(prefixed(r, b), sorted_distinct(prefixed(s, b)));
}

/// Typing more of a name only narrows the executables offered: those for the longer
/// prefix `b` are those for `a` that begin with `b`, in the same order.
pub proof fn law_executables_narrow(a: Seq<char>, b: Seq<char>, path_var: Seq<char>, fs: Seq<crate::fs::DirListing>)
    requires
        has_prefix(b, a),
    ensures
        executable_completions(b, path_var, fs) == keep_replacing(executable_completions(a, path_var, fs), b),
{
    let dirs = split_char(path_var, ':');
    lemma_path_matches_narrow(dirs, fs, a, b);
    let m = path_matches(dirs, fs, a);
    lemma_sorted_prefixed(m, b);
    lemma_keep_same_pairs(sorted_distinct(m), b);
}

/// The entries of the working directory offered for the longer prefix `b` are those
/// offered for `a` whose names begin with `b`.
proof fn lemma_cwd_narrow(es: Seq<FileEntry>, a: Seq<char>, b: Seq<char>)
    requires
        has_prefix(b, a),
    ensures
        cwd_completions(b, es) == keep_replacing(cwd_completions(a, es), b),
    decreases es.len(),
{
    if es.len() > 0 {
        lemma_cwd_narrow(es.drop_last(), a, b);
        let e = es.last();
        if has_prefix(e.name@, b) {
            lemma_prefix_trans(e.name@, b, a);
        }
        if has_prefix(e.name@, a) {
            let x = cwd_completions(a, es.drop_last());
            assert(x.push(cwd_candidate(e)).drop_last() =~= x);
        }
    }
}

/// Typing more of a bare name only narrows the completions: those for the longer
/// word `b` are those for `a` whose inserted text begins with `b`, in the same order.
pub proof fn law_path_completions_narrow(a: Seq<char>, b: Seq<char>, path_var: Seq<char>, fs: Seq<crate::fs::DirListing>)
    requires
        !a.contains('/'),
        !b.contains('/'),
        has_prefix(b, a),
    ensures
        path_completions(b, path_var, fs) == keep_replacing(path_completions(a, path_var, fs), b),
{
    law_executables_narrow(a, b, path_var, fs);
    let x = executable_completions(a, path_var, fs);
    match listing(fs, "."@) {
        Some(es) => {
            lemma_cwd_narrow(es, a, b);
            lemma_keep_append(x, cwd_completions(a, es), b);
        },
        None => {
            lemma_keep_append(x, Seq::empty(), b);
            assert(keep_replacing(Seq::<(Seq<char>, Seq<char>)>::empty(), b) =~= Seq::<(Seq<char>, Seq<char>)>::empty());
        },
    }
}

/// No text occurs twice in `s`.
pub open spec fn no_repeats(s: Seq<Seq<char>>) -> bool {
    forall|i: int, j: int| 0 <= i < j < s.len() ==> #[trigger] s[i] != #[trigger] s[j]
}

/// Some options make a launch assign the variable `k`.
pub open spec fn option_sets_name(k: Seq<char>) -> bool {
    exists|opt: Opt, i: int| 0 <= i < options_env(opt).len() && (#[trigger] options_env(opt)[i]).0 == k
}

/// Every variable assigned in `s` is one the tool knows.
pub open spec fn names_known(s: Seq<(Seq<char>, Seq<char>)>) -> bool {
    forall|i: int| 0 <= i < s.len() ==> known_env_vars().contains((#[trigger] s[i]).0)
}

/// Assigning a known variable keeps every assigned variable known.
proof fn lemma_known_push(s: Seq<(Seq<char>, Seq<char>)>, k: Seq<char>, v: Seq<char>, at: int)
    requires
        names_known(s),
        0 <= at < known_env_vars().len(),
        known_env_vars()[at] == k,
    ensures
        names_known(s.push((k, v))),
{
    assert forall|i: int| 0 <= i < s.push((k, v)).len() implies known_env_vars().contains((#[trigger] s.push((k, v))[i]).0) by {
        if i == s.len() {
            assert(known_env_vars()[at] == k);
        } else {
            assert(s.push((k, v))[i] == s[i]);
        }
    }
}

/// Assigning a known variable where `cond` holds keeps every assigned variable known.
proof fn lemma_known_set_if(s: Seq<(Seq<char>, Seq<char>)>, cond: bool, k: Seq<char>, v: Seq<char>, at: int)
    requires
        names_known(s),
        0 <= at < known_env_vars().len(),
        known_env_vars()[at] == k,
    ensures
        names_known(set_if(s, cond, k, v)),
{
    if cond {
        lemma_known_push(s, k, v, at);
    }
}

/// Assigning a known variable a value, where there is one, keeps every assigned
/// variable known.
proof fn lemma_known_set_opt(s: Seq<(Seq<char>, Seq<char>)>, o: Option<String>, k: Seq<char>, at: int)
    requires
        names_known(s),
        0 <= at < known_env_vars().len(),
        known_env_vars()[at] == k,
    ensures
        names_known(set_opt(s, o, k)),
{
    if let Some(v) = o {
        lemma_known_push(s, k, v@, at);
    }
}

/// Every variable that some options assign is one the tool knows.
#[verifier::spinoff_prover]
proof fn lemma_options_names_known(opt: Opt)
    ensures
        names_known(options_env(opt)),
{
    assert(names_known(Seq::<(Seq<char>, Seq<char>)>::empty()));
    let s0 = set_opt(Seq::empty(), opt.log_level, "VMPL_LOG_LEVEL"@);
    lemma_known_set_opt(Seq::empty(), opt.log_level, "VMPL_LOG_LEVEL"@, 1);
    let s1 = match opt.log_show_time {
        Some(b) => s0.push(("VMPL_LOG_SHOW_TIME"@, bool_text(b))),
        None => s0,
    };
    if let Some(b) = opt.log_show_time {
        lemma_known_push(s0, "VMPL_LOG_SHOW_TIME"@, bool_text(b), 2);
    }
    let s2 = set_opt(s1, opt.log_file, "VMPL_LOG_FILE"@);
    lemma_known_set_opt(s1, opt.log_file, "VMPL_LOG_FILE"@, 3);
    let s3 = set_if(s2, opt.silent, "VMPL_LOG_LEVEL"@, "error"@);
    lemma_known_set_if(s2, opt.silent, "VMPL_LOG_LEVEL"@, "error"@, 1);
    let s4 = set_if(s3, opt.libzhook, "LIBZPHOOK"@, "libzphook_basic.so"@);
    lemma_known_set_if(s3, opt.libzhook, "LIBZPHOOK"@, "libzphook_basic.so"@, 4);
    let s5 = set_opt(s4, opt.hotcalls, "HOTCALLS_CONFIG_FILE"@);
    lemma_known_set_opt(s4, opt.hotcalls, "HOTCALLS_CONFIG_FILE"@, 5);
    let s6 = set_if(s5, opt.enable_vmpl, "VMPL_ENABLED"@, "1"@);
    lemma_known_set_if(s5, opt.enable_vmpl, "VMPL_ENABLED"@, "1"@, 6);
    let s7 = set_if(s6, opt.vmpl, "RUN_IN_VMPL"@, "1"@);
    lemma_known_set_if(s6, opt.vmpl, "RUN_IN_VMPL"@, "1"@, 7);
    let s8 = set_if(s7, opt.vmpl_process, "RUN_IN_VMPL_PROCESS"@, "1"@);
    lemma_known_set_if(s7, opt.vmpl_process, "RUN_IN_VMPL_PROCESS"@, "1"@, 8);
    let s9 = set_if(s8, opt.vmpl_thread, "RUN_IN_VMPL_THREAD"@, "1"@);
    lemma_known_set_if(s8, opt.vmpl_thread, "RUN_IN_VMPL_THREAD"@, "1"@, 9);
    let s10 = set_if(s9, opt.user_mode, "RUN_IN_USER_MODE"@, "1"@);
    lemma_known_set_if(s9, opt.user_mode, "RUN_IN_USER_MODE"@, "1"@, 10);
    let s11 = set_if(s10, opt.preload, "LD_PRELOAD"@, preload_value(opt.libzhook));
    lemma_known_set_if(s10, opt.preload, "LD_PRELOAD"@, preload_value(opt.libzhook), 11);
    lemma_known_set_if(s11, opt.debug, "VMPL_DEBUG_ENABLED"@, "1"@, 12);
    assert(options_env(opt) == set_if(s11, opt.debug, "VMPL_DEBUG_ENABLED"@, "1"@));
}

/// The options with every flag on and every value given.
spec fn all_options() -> Opt {
    let v: String = vstd::pervasive::arbitrary();
    Opt {
        run: true,
        shell: false,
        preload: true,
        libzhook: true,
        hotcalls: Some(v),
        enable_vmpl: true,
        vmpl: true,
        vmpl_process: true,
        vmpl_thread: true,
        user_mode: true,
        debug: true,
        log_level: Some(v),
        log_show_time: Some(true),
        log_file: Some(v),
        silent: true,
        program: None,
        program_args: vstd::pervasive::arbitrary(),
    }
}

/// The completer's command list and variable list hold no name twice, and the
/// variables it offers are `VMPL_INSTALL_PATH` and exactly those that some options
/// make a launch set.
pub proof fn law_helper_lists(h: VmplHelper)
    requires
        strs(h.commands@) == shell_commands(),
        strs(h.env_vars@) == known_env_vars(),
    ensures
        no_repeats(strs(h.commands@)),
        no_repeats(strs(h.env_vars@)),
        forall|k: Seq<char>| #[trigger] strs(h.env_vars@).contains(k) <==> (k == "VMPL_INSTALL_PATH"@
            || option_sets_name(k)),
{
    reveal_strlit("env");
    reveal_strlit("exit");
    reveal_strlit("quit");
    reveal_strlit("help");
    reveal_strlit("history");
    reveal_strlit("VMPL_INSTALL_PATH");
    reveal_strlit("VMPL_LOG_LEVEL");
    reveal_strlit("VMPL_LOG_SHOW_TIME");
    reveal_strlit("VMPL_LOG_FILE");
    reveal_strlit("LIBZPHOOK");
    reveal_strlit("HOTCALLS_CONFIG_FILE");
    reveal_strlit("VMPL_ENABLED");
    reveal_strlit("RUN_IN_VMPL");
    reveal_strlit("RUN_IN_VMPL_PROCESS");
    reveal_strlit("RUN_IN_VMPL_THREAD");
    reveal_strlit("RUN_IN_USER_MODE");
    reveal_strlit("LD_PRELOAD");
    reveal_strlit("VMPL_DEBUG_ENABLED");
    let c = shell_commands();
    assert(c[0].len() == 3 && c[1].len() == 4 && c[2].len() == 4 && c[3].len() == 4 && c[4].len() == 7);
    assert(c[1][0] == 'e' && c[2][0] == 'q' && c[3][0] == 'h');
    let kn = known_env_vars();
    assert(kn[0].len() == 17 && kn[1].len() == 14 && kn[2].len() == 18 && kn[3].len() == 13);
    assert(kn[4].len() == 9 && kn[5].len() == 20 && kn[6].len() == 12 && kn[7].len() == 11);
    assert(kn[8].len() == 19 && kn[9].len() == 18 && kn[10].len() == 16 && kn[11].len() == 10);
    assert(kn[12].len() == 18);
    assert(kn[2][0] == 'V' && kn[9][0] == 'R' && kn[12][0] == 'V' && kn[2][5] == 'L' && kn[12][5] == 'D');
    let opt = all_options();
    let e = options_env(opt);
    assert(e.len() == 13);
    assert(e[0].0 == kn[1] && e[1].0 == kn[2] && e[2].0 == kn[3] && e[4].0 == kn[4]);
    assert(e[5].0 == kn[5] && e[6].0 == kn[6] && e[7].0 == kn[7] && e[8].0 == kn[8]);
    assert(e[9].0 == kn[9] && e[10].0 == kn[10] && e[11].0 == kn[11] && e[12].0 == kn[12]);
    assert forall|k: Seq<char>| #[trigger] kn.contains(k) <==> (k == "VMPL_INSTALL_PATH"@
        || option_sets_name(k)) by {
        if kn.contains(k) {
            let m = choose|m: int| 0 <= m < kn.len() && kn[m] == k;
            if m == 1 {
                assert(options_env(opt)[0].0 == k);
            } else if m == 2 {
                assert(options_env(opt)[1].0 == k);
            } else if m == 3 {
                assert(options_env(opt)[2].0 == k);
            } else if m == 4 {
                assert(options_env(opt)[4].0 == k);
            } else if m == 5 {
                assert(options_env(opt)[5].0 == k);
            } else if m == 6 {
                assert(options_env(opt)[6].0 == k);
            } else if m == 7 {
                assert(options_env(opt)[7].0 == k);
            } else if m == 8 {
                assert(options_env(opt)[8].0 == k);
            } else if m == 9 {
                assert(options_env(opt)[9].0 == k);
            } else if m == 10 {
                assert(options_env(opt)[10].0 == k);
            } else if m == 11 {
                assert(options_env(opt)[11].0 == k);
            } else if m == 12 {
                assert(options_env(opt)[12].0 == k);
            }
        }
        if option_sets_name(k) {
            let (o, i) = choose|o: Opt, i: int| 0 <= i < options_env(o).len() && (#[trigger] options_env(o)[i]).0 == k;
            lemma_options_names_known(o);
        }
        if k == "VMPL_INSTALL_PATH"@ {
            assert(kn[0] == k);
        }
    }
}

/// The entries whose names begin with `prefix`.
pub open spec fn named_with_prefix(prefix: Seq<char>) -> spec_fn(FileEntry) -> bool {
    |e: FileEntry| has_prefix(e.name@, prefix)
}

/// Every entry of the directory whose name begins with the typed part, the name
/// itself included, is offered, in the order of the entries, and no other.
pub proof fn law_dir_completions_are_matching_entries(dir: Seq<char>, prefix: Seq<char>, es: Seq<FileEntry>)
    ensures
        dir_completions(dir, prefix, es) == es.filter(named_with_prefix(prefix)).map_values(
            |e: FileEntry| dir_candidate(dir, e),
        ),
    decreases es.len(),
{
    let pred = named_with_prefix(prefix);
    if es.len() == 0 {
        reveal_with_fuel(Seq::filter, 1);
        assert(es.filter(pred).map_values(|e: FileEntry| dir_candidate(dir, e)) =~= Seq::<(Seq<char>, Seq<char>)>::empty());
    } else {
        law_dir_completions_are_matching_entries(dir, prefix, es.drop_last());
        assert(es =~= es.drop_last().push(es.last()));
        es.drop_last().lemma_filter_push(es.last(), pred);
        let f0 = es.drop_last().filter(pred);
        if pred(es.last()) {
            assert(f0.push(es.last()).map_values(|e: FileEntry| dir_candidate(dir, e)) =~= f0.map_values(
                |e: FileEntry| dir_candidate(dir, e),
            ).push(dir_candidate(dir, es.last())));
        }
    }
}

/// Every entry of the working directory whose name begins with the word, the name
/// itself included, is offered, in the order of the entries, and no other.
pub proof fn law_cwd_completions_are_matching_entries(prefix: Seq<char>, es: Seq<FileEntry>)
    ensures
        cwd_completions(prefix, es) == es.filter(named_with_prefix(prefix)).map_values(
            |e: FileEntry| cwd_candidate(e),
        ),
    decreases es.len(),
{
    let pred = named_with_prefix(prefix);
    if es.len() == 0 {
        reveal_with_fuel(Seq::filter, 1);
        assert(es.filter(pred).map_values(|e: FileEntry| cwd_candidate(e)) =~= Seq::<(Seq<char>, Seq<char>)>::empty());
    } else {
        law_cwd_completions_are_matching_entries(prefix, es.drop_last());
        assert(es =~= es.drop_last().push(es.last()));
        es.drop_last().lemma_filter_push(es.last(), pred);
        let f0 = es.drop_last().filter(pred);
        if pred(es.last()) {
            assert(f0.push(es.last()).map_values(|e: FileEntry| cwd_candidate(e)) =~= f0.map_values(
                |e: FileEntry| cwd_candidate(e),
            ).push(cwd_candidate(es.last())));
        }
    }
}

/// For a word holding `/`, the completions are the entries of the directory it
/// names whose names begin with its last part, in the order of the entries; none
/// where that directory cannot be read.
pub proof fn law_path_word_completions(input: Seq<char>, path_var: Seq<char>, fs: Seq<crate::fs::DirListing>)
    requires
        input.contains('/'),
    ensures
        ({
            let t = search_target(input, path_parent(input), path_file_name(input));
            path_completions(input, path_var, fs) == match listing(fs, t.0) {
                Some(es) => es.filter(named_with_prefix(t.1)).map_values(|e: FileEntry| dir_candidate(t.0, e)),
                None => Seq::empty(),
            }
        }),
{
    let t = search_target(input, path_parent(input), path_file_name(input));
    if let Some(es) = listing(fs, t.0) {
        law_dir_completions_are_matching_entries(t.0, t.1, es);
    }
}

/// The first of `items` that begins with `word` is the one at the first position
/// holding such a text; there is none where no text begins with `word`.
proof fn lemma_first_prefixed_at(items: Seq<Seq<char>>, word: Seq<char>)
    ensures
        forall|i: int| 0 <= i < items.len() && has_prefix(items[i], word) && (forall|j: int| 0 <= j < i ==> !has_prefix(#[trigger] items[j], word))
            ==> first_prefixed(items, word) == Some(items[i]),
        (forall|i: int| 0 <= i < items.len() ==> !has_prefix(#[trigger] items[i], word)) ==> first_prefixed(items, word) is None,
    decreases items.len(),
{
    if items.len() > 0 {
        let t = items.drop_first();
        lemma_first_prefixed_at(t, word);
        assert forall|i: int| 0 <= i < items.len() && has_prefix(items[i], word) && (forall|j: int| 0 <= j < i ==> !has_prefix(#[trigger] items[j], word))
            implies first_prefixed(items, word) == Some(items[i]) by {
            if i > 0 {
                assert(!has_prefix(items[0], word));
                assert(t[i - 1] == items[i]);
                assert forall|j: int| 0 <= j < i - 1 implies !has_prefix(#[trigger] t[j], word) by {
                    assert(t[j] == items[j + 1]);
                }
            }
        }
        if forall|i: int| 0 <= i < items.len() ==> !has_prefix(#[trigger] items[i], word) {
            assert(!has_prefix(items[0], word));
            assert forall|i: int| 0 <= i < t.len() implies !has_prefix(#[trigger] t[i], word) by {
                assert(t[i] == items[i + 1]);
            }
        }
    }
}

/// After `env W` (or `e W`) the hint shows the current value of the first known
/// variable whose name begins with `W`, and ` <value>` where that variable has no
/// value or no known variable begins with `W`: never the value of a later variable.
pub proof fn law_env_hint(vars: Seq<Seq<char>>, line: Seq<char>, env: Map<Seq<char>, Seq<char>>)
    requires
        split_ws(line).len() == 2,
        split_ws(line)[0] == "env"@ || split_ws(line)[0] == "e"@,
    ensures
        forall|i: int| 0 <= i < vars.len() && has_prefix(vars[i], split_ws(line)[1]) && (forall|j: int| 0 <= j < i ==> !has_prefix(#[trigger] vars[j], split_ws(line)[1]))
            ==> hint_for(vars, line, env) == (if value_or_empty(env, vars[i]).len() > 0 {
                Some(" current value: "@ + value_or_empty(env, vars[i]))
            } else {
                Some(" <value>"@)
            }),
        (forall|i: int| 0 <= i < vars.len() ==> !has_prefix(#[trigger] vars[i], split_ws(line)[1]))
            ==> hint_for(vars, line, env) == Some(" <value>"@),
{
    lemma_first_prefixed_at(vars, split_ws(line)[1]);
}

/// The shown-and-inserted pair of `n` is among those of `s` exactly when `n` is.
proof fn lemma_same_pairs_contains(s: Seq<Seq<char>>, n: Seq<char>)
    ensures
        same_pairs(s).contains((n, n)) <==> s.contains(n),
{
    if s.contains(n) {
        let k = choose|k: int| 0 <= k < s.len() && s[k] == n;
        assert(same_pairs(s)[k] == (n, n));
    }
    if same_pairs(s).contains((n, n)) {
        let k = choose|k: int| 0 <= k < same_pairs(s).len() && same_pairs(s)[k] == (n, n);
        assert(s[k] == n);
    }
}

/// A directory entry is an executable whose name begins with `prefix`, with name `n`.
pub open spec fn offers_executable(es: Seq<FileEntry>, prefix: Seq<char>, n: Seq<char>) -> bool {
    exists|j: int| #![trigger es[j]] 0 <= j < es.len() && es[j].is_file && (es[j].mode matches Some(m) && m & 0o111u32 != 0)
        && has_prefix(es[j].name@, prefix) && es[j].name@ == n
}

/// The names that a directory offers as executables.
proof fn lemma_entry_matches_contains(es: Seq<FileEntry>, prefix: Seq<char>, n: Seq<char>)
    ensures
        entry_matches(es, prefix).contains(n) <==> offers_executable(es, prefix, n),
    decreases es.len(),
{
    if es.len() > 0 {
        let t = es.drop_last();
        lemma_entry_matches_contains(t, prefix, n);
        let x = entry_matches(t, prefix);
        if offers_executable(t, prefix, n) {
            let j = choose|j: int| #![trigger t[j]] 0 <= j < t.len() && t[j].is_file && (t[j].mode matches Some(m) && m & 0o111u32 != 0)
                && has_prefix(t[j].name@, prefix) && t[j].name@ == n;
            assert(es[j] == t[j]);
        }
        if offers_executable(es, prefix, n) {
            let j = choose|j: int| #![trigger es[j]] 0 <= j < es.len() && es[j].is_file && (es[j].mode matches Some(m) && m & 0o111u32 != 0)
                && has_prefix(es[j].name@, prefix) && es[j].name@ == n;
            if j < t.len() {
                assert(t[j] == es[j]);
            }
        }
        if is_exec_match(es.last(), prefix) {
            let y = x.push(es.last().name@);
            if y.contains(n) {
                let k = choose|k: int| 0 <= k < y.len() && y[k] == n;
                if k < x.len() {
                    assert(x[k] == n);
                }
            }
            if x.contains(n) {
                let k = choose|k: int| 0 <= k < x.len() && x[k] == n;
                assert(y[k] == n);
            }
            if n == es.last().name@ {
                assert(y[x.len() as int] == n);
                assert(es[es.len() - 1] == es.last());
            }
        } else {
            if offers_executable(es, prefix, n) {
                let j = choose|j: int| #![trigger es[j]] 0 <= j < es.len() && es[j].is_file && (es[j].mode matches Some(m) && m & 0o111u32 != 0)
                    && has_prefix(es[j].name@, prefix) && es[j].name@ == n;
                if j == es.len() - 1 {
                    assert(es[j] == es.last());
                }
            }
        }
    }
}

/// Some readable directory of `dirs` offers the executable `n`.
pub open spec fn path_offers(dirs: Seq<Seq<char>>, fs: Seq<crate::fs::DirListing>, prefix: Seq<char>, n: Seq<char>) -> bool {
    exists|i: int| #![trigger dirs[i]] 0 <= i < dirs.len() && (listing(fs, dirs[i]) matches Some(es) && offers_executable(es, prefix, n))
}

/// The names that the directories of the search path offer as executables.
proof fn lemma_path_matches_contains(dirs: Seq<Seq<char>>, fs: Seq<crate::fs::DirListing>, prefix: Seq<char>, n: Seq<char>)
    ensures
        path_matches(dirs, fs, prefix).contains(n) <==> path_offers(dirs, fs, prefix, n),
    decreases dirs.len(),
{
    if dirs.len() > 0 {
        let t = dirs.drop_last();
        lemma_path_matches_contains(t, fs, prefix, n);
        let x = path_matches(t, fs, prefix);
        let y = match listing(fs, dirs.last()) {
            Some(es) => entry_matches(es, prefix),
            None => Seq::<Seq<char>>::empty(),
        };
        if let Some(es) = listing(fs, dirs.last()) {
            lemma_entry_matches_contains(es, prefix, n);
        }
        let z = x + y;
        if z.contains(n) {
            let k = choose|k: int| 0 <= k < z.len() && z[k] == n;
            if k < x.len() {
                assert(x[k] == n);
                let i = choose|i: int| #![trigger t[i]] 0 <= i < t.len() && (listing(fs, t[i]) matches Some(es) && offers_executable(es, prefix, n));
                assert(dirs[i] == t[i]);
            } else {
                assert(y[k - x.len()] == n);
                assert(dirs[dirs.len() - 1] == dirs.last());
            }
        }
        if path_offers(dirs, fs, prefix, n) {
            let i = choose|i: int| #![trigger dirs[i]] 0 <= i < dirs.len() && (listing(fs, dirs[i]) matches Some(es) && offers_executable(es, prefix, n));
            if i < t.len() {
                assert(t[i] == dirs[i]);
                let k = choose|k: int| 0 <= k < x.len() && x[k] == n;
                assert(z[k] == n);
            } else {
                assert(dirs[i] == dirs.last());
                let k = choose|k: int| 0 <= k < y.len() && y[k] == n;
                assert(z[x.len() + k] == n);
            }
        }
    }
}

/// A name is offered as an executable exactly when some readable directory of the
/// search path holds a file of that name that begins with the prefix and has an
/// execute bit (`0o111`) set, whatever its other mode bits; an executable is shown
/// and inserted as its name.
pub proof fn law_executables_offered(prefix: Seq<char>, path_var: Seq<char>, fs: Seq<crate::fs::DirListing>, n: Seq<char>, c: (Seq<char>, Seq<char>))
    ensures
        executable_completions(prefix, path_var, fs).contains((n, n)) <==> path_offers(split_char(path_var, ':'), fs, prefix, n),
        executable_completions(prefix, path_var, fs).contains(c) ==> c.0 == c.1,
{
    let m = path_matches(split_char(path_var, ':'), fs, prefix);
    law_executables_sorted_once(m);
    lemma_same_pairs_contains(sorted_distinct(m), n);
    lemma_path_matches_contains(split_char(path_var, ':'), fs, prefix, n);
    let s = same_pairs(sorted_distinct(m));
    if s.contains(c) {
        let k = choose|k: int| 0 <= k < s.len() && s[k] == c;
    }
}

} // verus!
