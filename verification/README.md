# Flare (verified core)

Flare is a Signal messaging client. This crate holds the logic of the client as a library
whose behaviour is stated in Verus contracts and proved: how received content is classified
and turned into messages, how a channel keeps its timeline, the reactions that wait for their
message and who is typing, how messages are described and notified, the decisions of the
set-up and of the receiving loop, and the formatting rules of the user interface.

Layout:

- `src/` — the verified library, one module per concern (`timeline`, `channel`, `incoming`,
  `mentions`, `describe`, `ui`, ...). Calls into other crates (`gettext-rs`, `phonenumber`,
  `regex`, `url`, `uuid`) stand behind small trusted wrappers whose contracts say what the
  crates document.
- `tests/` — tests of the library on concrete values.
- `app/` — a small command-line front end: it prepares the storage folder and its passphrase,
  shows what the library computes, and with `--screenshot` fills the screenshot mode's
  channels with their messages and prints them.

Verify with Verus, then build and test with Cargo.
