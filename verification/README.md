# zoid

The verified core of zoid, a terminal coding agent. The library under
`src/` holds the decisions and data transformations behind the agent's
terminal UI, agent loop and installers, each stated as a contract and
proved with Verus:

- the conversation projection, kept up to date one event at a time;
- scheduled wake-ups and their pending set;
- the startup session picker, the session drawer, scrollbar and
  conversation clicks, and when the rendered transcript can be reused;
- config rows and their writes, the environment config layer, provider
  selection, the first-run onboarding wizard and the pickers;
- importing modes from upstream repositories, which plugin install
  effects are accepted, install reports, and the plugin catalog;
- observability aggregates, on-disk locations, git output, session ids and
  user-facing strings.

Where the agent calls an outside crate (ULID text, base64, std's string
collection and Unicode case mapping), the call sits behind a small trusted
wrapper whose contract says what the crate documents.

`tests/` runs the library against concrete cases. `app/` is the binary's
shell: command-line handling, the tracing layer, the environment snapshot,
filesystem, git and terminal adapters, and the installers that write what
the library plans. The interactive terminal UI, the agent loop and the
session store come from sibling workspace crates that this repository does
not contain.
