# dock

`dock` uses Docker containers as development environments. A project's
`dock.yaml` names its environments; `dock run-in <env> <command>` rebuilds the
environment's image and runs the command in a new container, `dock shell`
starts a shell there, `dock rebuild` replaces a tagged image with a new build,
`dock init` copies a template into the current directory, and `dock clean`
removes the images and cache volumes of the environments.

## Layout

- `src/`: the library, verified with Verus: the choice of environment and
  the arguments of the `docker` commands, the checks on the Dock file, the
  routing of mounted paths between nested containers and the host (`trie`,
  `run_in`), the rendering of the commands' output (`cmd_loggers`), the
  parsing of templates sources (`init`), and the decisions between the
  commands of a run (whether a cache volume needs creating, which follow-up
  a rebuild takes).
- `app/`: the `dock` binary: the command line, and the file system, process
  and environment work that the library's decisions call for.
- `tests/`: tests of the library on concrete values.
