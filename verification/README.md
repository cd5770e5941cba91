# bridge_app

The application core of a bridge between a chat platform and a coding agent: it
admits messages one at a time, runs one task at a time, asks users to approve or
answer what the agent requests, and delivers answers, diffs and files. The core
is written in Verus; each function states in its contract what it returns or
changes, and Verus proves it.

## Layout

- `src/` is the verified library. It performs no I/O: time, storage, the agent
  and the chat platform reach it as plain values, and what it wants done leaves
  it as plain values.
  - `scheduler` admits and orders tasks, `execution` binds an agent's events to
    one turn, `interactions` keeps open approvals and questions.
  - `cards`, `approval_card`, `plans`, `markdown`, `presentation` and `outcome`
    build what users see; `answering` delivers an answer part by part.
  - `sessions`, `directories`, `files`, `staging` and `delivery` are the use
    cases around the agent's threads, the workspace and its files.
  - `runtime` is the serial owner of all state. `runtime::state` gives its model;
    each handler's contract names the state that follows from the state before.
    `runtime::laws` and `runtime::completions` state what holds of the whole.
- `tests/` runs the library on concrete values.
- `app/` holds the asynchronous surroundings: the ports, the background jobs, the
  sender and the run loop.

The library trusts one statement about the standard library: what
`String::push` does to a string.
