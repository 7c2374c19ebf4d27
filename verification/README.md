# soundome

The verified core of Soundome, a self-hosted music library manager with a
REST server and a command-line client.

## Layout

- `src/` — the library, verified with Verus. Every public function states
  what it returns in its `ensures`; the laws that span several functions are
  public proof functions whose names begin with `law_`.
  - `text.rs`, `ids.rs` — string and id-list helpers shared by the rest.
  - `models.rs`, `config/` — enums, configuration sections and their defaults,
    and the set-once configuration slot.
  - `database/` — row types and the decision logic of the repositories:
    merges and reference rewiring, album resolution, the structural reference
    audit, schedule flags.
  - `server/` — request checking, DTO building, pagination, storage
    statistics, sync scheduling and task cancellation.
  - `cli/` — URL building, search filters, playlist download naming and the
    download manifest.
  - `ai/`, `services/` — the AI client settings and prompt framing, and the
    service bundle handed to request handlers.
- `tests/` — tests of the library from outside, run with the outside crates
  linked.
- `app/` — the command-line program: argument parsing, HTTP calls, terminal
  output, audio tagging and file writes, all calling into the library for
  their decisions.
