# devboule_daemon

The decisions of a desktop daemon that runs agent sessions over project
workspaces, verified with Verus.

`src/` holds the logic. Whatever needs the disk, git, a pipe, the registry or the
journal is written as a step function: it takes what is known so far and says the
one thing to do next, or the answer. Its contract equates that step with a spec
function of the same facts, and the `law_` functions state what holds along every
path: which checkouts are never removed, which names are never overwritten, which
sentences carry no path.

- `text`, `numbers`, `utf16`, `platform`, `paths`, `wire`: texts, decimals,
  UTF-16, path spellings by the rules of a platform, and wire errors that the
  rest is stated over.
- `shell_unwrap`, `shell_command`, `tool_paths`, `wire_json`, `text_safety`: what
  an agent's tool call is shown as, and which command a terminal runs.
- `registry`, `workspace`, `workspace_create`, `workspace_delete`,
  `workspace_paths`, `session_types`, `session_rules`, `spawn_errors`: projects,
  workspaces and sessions.
- `workspace_entries` and the `workspace_file_` modules: renaming, duplicating,
  deleting and previewing one file of a workspace.
- `tailscale_http`, `tailscale_localapi`, `transport`: the LocalAPI client and the
  daemon's pipe.
- `windows_path_env`, `windows_registry_path`: the search path that discovery and
  spawned programs share.
- `tool_policy`, `user_providers`: the two JSON files beside the journal.
- `std_text`, `json`: what is taken from the standard library and `serde_json`
  without proof, each item with its contract.

`app/` performs the steps: files, git and journal traits, sockets, pipes and the
JSON of the stores. `tests/` drives the step functions over a disk in memory.
