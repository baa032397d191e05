# mimicrypt

The verified secure core of Mimicrypt, a serverless end-to-end encrypted
messenger that uses e-mail (SMTP/IMAP) as its transport.

- `src/` is the library, written and proved with Verus:
  - `spec_types`: protocol constants, wire types and the version check
  - `crypto`: device keys, signed prekeys, signatures, fingerprints, the
    X25519 bootstrap key agreement, AEAD helpers
  - `bootstrap`: contact invitations, invite responses, trust on first use,
    safety numbers
  - `ratchet`: Double Ratchet sessions with a bounded replay cache and a
    bound on skipped message keys
  - `wire`: the binary envelope format, with its round-trip proof
  - `envelope`: padding, sealing and opening messages
  - `reliability`: outbox state transitions, retry backoff, dedupe keys
  - `mail_transport`, `storage`, `app_services`: the decisions behind the
    mail exchanges, the local store and the application service
  - `primitives`: the trusted calls into the cryptographic, encoding,
    identifier and time crates, with the contracts they are taken at
- `app/` is ordinary Rust around it: JSON documents, SQLite and keyring
  storage, SMTP/IMAP, and the application service.
- `tests/` runs the library against the real crates.

Sessions live in memory only: the Double Ratchet crate version this library
builds on gives its ratchet state no serialisation, so a session does not
survive a restart of the application.
