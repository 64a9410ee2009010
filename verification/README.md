# sequential_thinking

Thoughts, sessions and their store, for a tool that lets a client think step by
step. The library is written and proved in Verus; a server in ordinary Rust
runs it.

## Layout

- `src/` is the library. Whatever talks to the outside is written there as a
  job: it says which request comes next (to the file system, to an actor, to a
  channel) and goes on with the outcome.
  - `types`, `branches`, `session`: thoughts, the state of a session, and the
    actor that owns it.
  - `tool`, `session_map`, `sequence_manager`, `session_id`, `calls`: the sessions
    of all connections, their thought chains and ids, and the calls that they
    see.
  - `persistence`, `persist`, `restore`, `processor`, `command_order`,
    `disk_cleanup`, `shutdown`: the store of session files, from the check of a
    path to the shutdown.
  - `thought_files`, `thought_processor`, `thought_restore`,
    `thought_round_trip`: the store that keeps one file per thought.
  - `trait_impl`, `prompts`, `thought_box`, `string_utils`, `logging`, `server`:
    what clients and terminals see.
  - `path`, `clock`: paths and times.
- `tests/` runs the library on concrete values.
- `app/` is the server: tasks, channels, files and clocks around the library.

## What is proved

Every verified function states what it returns and changes; what is trusted of
other crates is stated at the functions that call them, with nothing stated of
the terminal, which the environment decides. Laws that span functions are public
proof functions whose names start with `law_`: that a session file is at every
time the old one or the new one, complete; that a rename follows a sync; that a
restored session is the one that was saved, and the one that the next thought of
its connection asks for, also after a restart; that no session sees the calls of
another; that a thought is taken after the final one and after clearing; that of
many commands to the store the last one for a session decides; that nothing is
written or deleted outside the store; that a cleanup forgets no session; that a
shutdown sends every session once, in batches of fixed size; and others.
