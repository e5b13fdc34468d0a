# q_shell

Process-backed shells for an entity-component world: a terminal's line
discipline, a small interactive language, an interpreter that runs one
registered program at a time, and the job control that decides which process
owns the terminal.

`src/` is the verified library. Entities are plain 64-bit ids, and each system
of the shell is a function from the values it reads to what it does:

- `language` — `SimpleShellLanguage` splits a line into shell words (through
  `shlex`) and turns them into a `ShellIr`.
- `systems::input` — keyboard events to terminal input, canonical line
  editing (`process_line_input`, specified by `line_step`), and routing of
  terminal input to the foreground process's stdin.
- `systems::interpreter` — one frame of the interpreter (`run_shell`): the
  phase and jobs, at most one line of stdin, decoding (`decode_line`), the
  installed language's parse, the program lookup, and dispatch
  (`dispatch_line`, with the dispatch law).
- `systems::io`, `systems::lifecycle`, `systems::spawn` — terminal
  foreground, hang-up, output and reply routing, relation cleanup, and job
  spawning (one spawn per accepted request).
- `data::shell` — the shell's components and `plan_foreground_job`, with the
  proofs that an accepted plan replaces the foreground group and input owner,
  that repeating it changes nothing, and that other shells are left alone.
- `plugins` — the shell phases, the process template new shells run, and
  which plugins the shell plugin adds.

`app/` holds the Bevy plugins, components and systems that read the world,
call the library and apply its decisions. `tests/` runs the library on the
scenarios of the shell's own tests.
