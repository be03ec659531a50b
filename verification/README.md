# forgejo_ssp

A static site provider for a self-hosted Forgejo or Gitea server: a request for
`{repo}.{user}.{suffix}` (or `{repo}.{suffix}`, for the default user) is served
from a local checkout of the repository's pages branch, which is cloned or
refreshed when it is missing or older than an hour.

- `src/` is the verified library: host-name routing (`repo`), the `.git` guard
  (`request`), cache metadata and freshness (`meta`), coordination of
  concurrent fetches (`fetching`), the git synchronisation steps as a state
  machine (`sync`), errors (`error`), settings (`config`) and string helpers
  (`text`).
- `app/` is the HTTP service around it: settings from the command line and the
  environment, the axum server, file serving, metadata files on disk, and the
  git2 calls that the `sync` state machine asks for.
- `tests/` exercises the library on concrete values.
