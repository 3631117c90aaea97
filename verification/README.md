# podup

The verified core of a small service that validates GitHub package webhooks,
enforces rate limits, refreshes Podman images and restarts the matching
systemd user units, with a JSON API, a scheduler loop and state maintenance.

- `src/` is the library, written in Verus: input validation (unit names, host
  paths, SSH targets, shell tokens), parsing (HTTP requests, registry
  challenges, cron schedules, quadlet files, `podman` JSON, JSONL event logs),
  and the decisions that drive tasks (rate limits, stop/retry plans, deploy
  and webhook task steps, health verdicts, pruning cutoffs). Each public
  function states its result in its contract; the laws that relate several
  functions are public proof functions (`lemma_*`).
- Calls into `url`, `semver`, `regex`, `hex`, `hmac`/`sha2`, `subtle`,
  `base64` and `nanoid` go through small wrappers whose contracts are
  trusted; their doc comments say what each one claims.
- `tests/` exercises the library on concrete values.
- `app/` is the command-line front end: it reads the environment and the
  arguments, runs `systemctl --user`, and prints the results.
