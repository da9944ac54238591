# rest

A TypeScript build toolkit around the OXC compiler, written in Verus: the
decisions and text processing of the build are verified, the file system,
processes and the command line stay outside.

- `src/` — the verified library: the OXC pipeline (`oxc`), bundling
  (`bundle`), NLS extraction and replacement (`nls`), web worker bootstraps
  and detection (`worker`), private field conversion (`transform`), the
  compiler configurations (`compiler_config`, `swc`), the command line's
  entry and target selection (`binary`), and the text, path, map and hash
  helpers they share.
- `app/` — the `rest` program: argument parsing, directory walks, file
  reads and writes, esbuild processes, JSON and the file watcher.
- `tests/` — tests of the library.
