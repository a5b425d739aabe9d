# me

A better `whoami` for your shell: who you are, where you are, and what you
are working on (project kinds, Git branch, SSH, sudo, containers).

The decisions of the tool live in a library whose functions carry
`requires` / `ensures` contracts proved by Verus; a thin program around it
reads the system, asks the user and writes files.

## Layout

- `src/` — the verified library.
  - `model.rs`, `config.rs`, `cli.rs`, `app.rs`: the report's data, the
    configuration and its environment overrides, the command-line options
    and how they select fields, modes and render options.
  - `output/`: the block, compact, `key = value` and JSON renderings, with
    the shared rules for how much project context is shown.
  - `context/`: project detectors, Git `HEAD` and tag resolution, SSH and
    container detection, tool version parsing, Docker Compose summaries.
  - `providers/`: identity, runtime and network facts turned into the report.
  - `shell_integration/`: the managed block that `me install` writes, the
    rules for where it goes, upserting and removing it, and the laws that
    tie install and uninstall together.
  - `update.rs`: install-source detection, version comparison, release
    artifact names and SHA-256 checksum verification.
  - `text.rs`, `path.rs`, `sort.rs`: string, path and sorting helpers with
    their specifications.
- `app/` — the program: argument parsing, system calls, file and network
  I/O, prompts and the watch loop.
- `tests/` — scenario tests run against the compiled library.

Calls into `sha2`, `serde_yaml`, `serde_json` and `owo-colors` that the library makes
stand behind small trusted wrappers whose doc comments say what is assumed
of them.
