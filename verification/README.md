# GridOps

GridOps runs self-hosted runners for GitHub Actions and Bitbucket Pipelines: in
containers on one host, and in macOS machines on another. It keeps pools of
runners at the size that their queued jobs ask for.

- `src/` is the library: every decision that GridOps makes, as functions with
  contracts that Verus proves. It knows no network, file or database.
- `app/` is the programs around it: the API, the manager of containers, the
  reconciler and the agent for macOS machines. They read, ask the library, and
  do what it says.
- `tests/` runs the library on examples.

Where the library calls another crate (for dates, addresses, encryption, digests,
signatures and JSON), a small function with a stated contract makes the call.
The comment above it says what is claimed of that crate and not proved here.

Processors are counted in billionths, so that half a processor is a whole
number. Shares of successful runs are counted in tenths of a percent.
