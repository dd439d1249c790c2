# rustv

A manager for several installed versions of the Rust compiler and its tools.

- `src/` is the verified library: paths (`path`), command lines (`shell`),
  releases and their download, build and install plans (`version`), the
  installation with its current version, version listing and shims (`rustv`),
  and the subcommands of the program (`cli`).
- `app/` holds the programs `rustv` and `rustv-build`: argument parsing, the
  environment, the file system, HTTP and child processes. They ask the library
  what to do and carry it out.
- `tests/` runs the library on concrete values.
