# vmpl_run

A tool that runs programs with VMPL (Virtual Machine Privilege Level) support, as a
Verus-verified library with a thin command-line program around it.

- `src/` — the verified library:
  - `launch.rs`: the options, the environment a launched program gets, `run_command`;
  - `env.rs`: the variables set in the shell (`with_env`), one assignment per name;
  - `complete.rs`: completion of commands, variables, values and paths, and hints;
  - `shell.rs`: what each line typed into the shell makes it do;
  - `decimal.rs`: reading and writing decimal numbers;
  - `text.rs`, `order.rs`: white space, words, prefixes, code point order;
  - `fs.rs`, `paths.rs`: directory listings handed in as values, and the parts of a path.
- `app/main.rs` — argument parsing, the line editor, the file system and process
  environment, and starting programs.
- `tests/` — tests of the library.
