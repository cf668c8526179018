# linux_post_install

A verified library for manifest-driven replication of a Linux workstation,
and the program around it.

- `src/` is the library, verified with Verus:
  - `os_details`: distributions, package managers, `os-release` parsing;
  - `manifest`: the manifest, its model, profile package lookup;
  - `apply`: the plan of operations that applying a manifest performs;
  - `capture`: the manifest recorded from package-tool output;
  - `cli`: the command line;
  - `shell`, `paths`: shell quoting, command display, paths and templates;
  - `text`, `order`: character-level text processing and string order;
  - `bundle`: the extracted workstation bundle.
- `app/` is the program: it reads files, runs commands, copies dotfiles and
  reads and writes TOML manifests, and leaves every decision to the library.
- `tests/` exercises the library on concrete values.
