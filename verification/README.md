# dccmd_rs

A command line client for DRACOON (downloads, uploads, transfers, listing,
creating and deleting nodes, users, groups, reports and stored credentials),
written as a verified library with a thin shell around it.

## Layout

- `src/` – the library, verified with Verus. Public functions state in their
  contracts what they return or change, as far as it does not rest on an
  interface the caller implements (a filesystem, a credential store, a
  progress display): there the contract says which answer of that interface
  the result is made of. The laws that span several functions are public
  proof functions (`lemma_*`).
  - `text.rs` – character-level string operations and their specifications.
  - `api/` – request models: filters, sorts, list parameters, node models and
    their query strings.
  - `app/` – the command logic: authentication as a state machine
    (`auth/connect.rs`), stored credentials (`config/`), groups, reports,
    download and upload planning, local path normalisation, directory walks,
    and the messages each command reports.
- `app/` – what touches the machine: the local filesystem, the credential
  store of the operating system, terminal prompts, the upload progress
  callback shared between tasks, and report lines that show percentages. The
  HTTP side of the client (requests to DRACOON and S3) is not part of this
  build; the library takes what those requests return as plain values.
- `tests/` – tests of the library on concrete values.

Calls into `unicode-normalization` and `tokio` are made from the library
through small trusted wrappers whose contracts are documented where they are
declared.
