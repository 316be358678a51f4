# innkeeper

The decision logic of the Elsewhere session manager, verified with Verus.

- `src/` is the verified library:
  - the steps of a session's life as functions from state and event to
    next state and action: preparing a container (`prepare`), replacing it
    through a snapshot (`replace`) and one watcher pass (`reconcile`);
  - the checks and session changes of requests (`handlers`, `settings`,
    previews and API answers in `api`);
  - GPU choice (`gpu`), request validation (`validation`), release
    versions (`versions`), package databases (`packages`), Docker commands
    and settings files (`containers`, `config`), release assets and
    prepared images (`releases`), single lifecycle decisions
    (`lifecycle`), stored rows (`store`), terminal password input
    (`terminal`), token redaction (`redact`) and the character helpers
    they share (`text`).
- `app/` is the command around it: it runs those steps against Docker and
  the files of the data directory, reads the host's devices, manifests and
  package databases, and hands the library plain values.
- `tests/` runs the library on concrete values.
