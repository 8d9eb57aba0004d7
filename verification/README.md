# ssh_session

The decisions of an SSH session, written and proved in Verus: how a session gets to its target over
jump hosts, how it moves data between its channels and their users, and how it answers requests.

- `src/` is the library. It performs no input or output. Each piece of work is a task that gives an
  action and takes in how that action came out; the contracts say exactly which action follows, and
  the `law_` proofs say what holds over many steps.
- `app/` performs the actions with libssh, libssh2, sockets and threads. The wrappers around the two
  libraries and the dialogue with the user are its type parameters.
- `tests/` runs the library on plain values and on real descriptors.

What is taken on trust: five types of outside crates that are only passed along (`src/resources.rs`),
and how the standard library writes a text in quotes (`src/text.rs`).
