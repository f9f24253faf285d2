# pnd

`pnd` encrypts files with a password (AES-256-GCM under a PBKDF2-SHA256 key,
written as `.lock` files) and keeps files in an encrypted vault: an encrypted
index of entries in virtual folders, each file sealed in blobs under keys of
its own.

- `src/` is the library, verified with Verus: the `.lock` format (whole or
  one frame at a time), what the command line asks for, the vault
  index and its operations, the vault page's state machine and key handling,
  the file browser, the viewers' decisions and the text the interface shows.
  The calls into the cryptographic, Base64, ZIP, image and `indexmap` crates
  sit behind a few trusted wrappers whose contracts say what those crates do.
- `app/` is the program around it: the command line, the terminal interface,
  reading and writing files, the index's JSON, and showing images and media.
- `tests/` exercises the library on concrete values.
