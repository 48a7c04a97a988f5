# moon

The decision logic of a monorepo task runner, written in Verus with its
behaviour stated in `requires`/`ensures` contracts and proved.

- `src/` is the verified library: task targets and their parsing, conversion
  of `package.json` scripts and Turborepo pipelines into tasks, project
  dependencies and inherited tasks, file groups, the cache check of a task
  run (as a sequence of questions to the caller), operations and their
  statuses, remote cache batching, code owners and VCS hook files, the
  JavaScript dependency sync, Deno and Node.js toolchain decisions, query
  listings, and text helpers (ordered maps keyed by text, path joining,
  relative paths, UTF-8 process output).
- Calls into outside crates (`shell-words`, `lenient_semver`, `diff`,
  `regex-syntax` for Unicode word characters, `starbase_styles` for terminal
  colours) and into
  `std` where `vstd` gives no specification stand behind small trusted
  wrappers whose doc comments say what is assumed of them.
- `tests/` exercises the library on concrete values.
- `app/` is the command line around it: file system, processes, serde
  formats, and glob walking.
