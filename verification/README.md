# anahtar

A KeePass (KDBX) vault toolkit whose core is verified with Verus: listing,
searching, showing and auditing entries without leaking secrets, and writing
changed vaults as KDBX 4.1 without ever overwriting an input before a
verified copy exists.

## Layout

- `src/` — the verified library.
  - `kdbx.rs` holds the `keepass` database and states, over four named views
    (groups, entries, root, format), what each call into the crate reads or
    changes; `vault.rs` is the library's own copy of a vault.
  - `listing.rs`, `query.rs`, `detail.rs`, `audit.rs` read a vault: listings
    in group-path and title order, selectors, entry details with secrets
    masked unless revealed, and audits that name entries only.
  - `edit.rs` changes an opened database (entries and groups); `write.rs`
    prepares save-as writes and checks their read-back; `census.rs` shows
    that the walk of a well-formed database's tree meets every group once,
    and `readback.rs` what a search of a read-back finds; `commit.rs` decides
    each step of finishing a save-as (temporary file, read-back check,
    replacement of the output), and `inplace.rs` each step of an in-place
    write (backup, temporary copy, verification, replacement, restore).
  - `header.rs`, `paths.rs`, `text.rs`, `order.rs`, `ids.rs`, `totp.rs`,
    `generator.rs` hold the header parser, path rules, text and ordering
    helpers, UUIDs, TOTP settings and the password generator; `clipboard.rs`
    the wait before a copied secret is cleared and when it is cleared.
  - `service.rs`, `cli.rs`, `gui.rs`, `ffi.rs` hold the decisions of the
    application facade and of the command line, desktop and C front ends.
- `tests/` — tests of the library on generated vaults.
- `app/` — the command-line program: argument parsing, prompts, files,
  configuration, clipboard and printing around the library.
