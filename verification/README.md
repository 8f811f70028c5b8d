# agentbuddy

Installer for WorkBuddy agents and expert teams, with adapters for the
OpenClaw, ZQClaw and Hermes agent runtimes. The library in `src/` is written
in Verus: every function carries a contract that Verus proves.

- `src/text.rs` — characters, Unicode trimming, line splitting, path joining,
  `Path::with_extension` for backup names.
- `src/json.rs` — JSON documents as plain values and their mathematical view;
  parsing and pretty-printing are serde_json's, behind two trusted wrappers.
- `src/agent_md.rs` — the agent markdown format (front matter + body), file names.
- `src/content.rs` — SOUL.md / AGENTS.md / IDENTITY.md and SKILL.md generation.
- `src/install.rs` — install and uninstall plans for the claw runtimes and Hermes
  (uninstall removes every directory the install created).
- `src/runtime.rs` — the runtimes and how their presence is reported.
- `src/catalog.rs` — the plugin catalog read from the marketplace manifest.
- `src/registry.rs` — the `my-experts` marketplace registry: layout, the
  manifest, `known_marketplaces.json` and `installed_plugins.json` documents as
  install and uninstall rewrite them (other plugins are never touched; every
  file is backed up before it is rewritten).
- `src/clock.rs` — UTC calendar arithmetic and ISO-8601 timestamps.
- `src/paths.rs`, `src/cli.rs` — search locations and the headless command line.

`app/` is the program around the library: the Tauri GUI commands, the CLI
entry point, and all file-system and environment access.

Paths are handled as Unix `PathBuf` does: components are joined with `/`,
and backup names follow `Path::with_extension` on Unix.
