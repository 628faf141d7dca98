# pmcc: Package Manager Control Center

A tool that looks at the package managers of one machine (npm, pnpm, Yarn,
nvm, Homebrew, Maven, pip, Cargo, Docker, Bun, uv), the Cargo build
directories under a chosen root, the session records of two coding agents and
the editor's workspace storage, and offers a few constrained maintenance
operations on them.

## Layout

- `src/` is the library, verified with Verus. It holds what each command's
  output means, the cleanup plans and their guards, the registry of build
  directory scans, the walks' decisions and bookkeeping, the parsing of
  session records and timestamps, and the editor storage mapping. Every
  answer of the outside world (a command's run, a file's metadata, a
  directory listing, a path's resolution) reaches the library as an argument
  or through a closure, and the contracts say what the library does for each
  answer.
- `app/` is the command-line shell around it: running commands, reading the
  file system and the environment, the measurement walks, and printing.
- `tests/` runs the library on concrete values.

## Safety rules that are proved

- Cache cleanup only ever runs the fixed command plan of a manager; nvm,
  Maven and Cargo have none, and the one directory the tool deletes itself
  (`_npx` in npm's cache) is deleted only once its path is proven to be that
  directory.
- A multi-step cleanup reports each step as the runner answered it (its
  state, output and failure), success, partial completion or failure as the
  steps went, and stops at the first failure.
- The package lists of the npm, pnpm, Yarn Classic, Homebrew, pip, Cargo,
  Docker, Bun and uv scans are the parsed output of their list commands, and a scan without
  a version carries the recorded failure of its version probe. Once the
  version answered, these scans report exactly one failure for each later
  command that did not answer cleanly (or whose output was refused; pip
  passes over a missing `python3`), in the order the commands ran, so a scan whose commands all answered cleanly
  reports no failure.
- A Cargo build directory is cleaned only through `cargo clean --offline`,
  only when it was fully measured and, checked again just before, is still
  the project's own `target` with a Cargo marker, inside the authorized root.
- Session records are moved to the trash only when they are record files of
  their directory that are not open, and a bulk removal only touches records
  older than the chosen age.
