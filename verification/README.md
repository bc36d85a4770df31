# operoid

The decision logic of the Operoid agent studio, its local server and its mail bridge, as a
library verified with Verus.

- `src/` — the library. Every function states what it returns in `requires`/`ensures` over
  mathematical models (`Seq`, `Set`, `Multiset`, spec functions), and the laws that span
  functions stand as public proof functions (`lemma_*`). Calls into outside crates (`regex`,
  `mail-parser`, `percent-encoding`, `encoding_rs`, `chrono`, `dirs`, `serde_json`) sit behind small
  trusted wrappers whose contracts say what the crate's documentation promises, or name the result.
- `tests/` — the library's tests, run against the compiled crate with the real outside crates.
- `app/` — the I/O around it: the settings file, the bridge's TOML file, the JSON contract, the
  factory's files, the mail state file and the prerequisite probes.

Module map: `factories`, `companies`, `classifier`, `factory_types` (the knowledge factory);
`app_config`, `brains`, `gbrain_cli`, `mcp`, `prereq` (brains and the gbrain command line);
`scheduler`, `event_bus`, `write_note`, `tools`, `llm`, `operations` (the agent runtime);
`server`, `auth`, `service` (the local server); `bridge`, `bridge_config`, `email`, `percent`,
`contract` (the mail bridge and its contract); `text`, `l10n` (shared text and messages).
