//! Verified core of `pnd`, a tool that encrypts files with a password and keeps
//! them in an encrypted vault: the encrypted single-file format, the encrypted
//! vault index and its in-memory operations, and the decision logic of the
//! interactive pages.

pub mod text;
pub mod fmt;
pub mod paths;
pub mod order;
pub mod sorting;
pub mod base64_text;
pub mod primitives;
pub mod bytes;
pub mod frame;
pub mod filetype;
pub mod index;
pub mod vault_crypto;
pub mod vault_file;
pub mod handle;
pub mod folders;
pub mod resolve;
pub mod ops;
pub mod cli;
pub mod browse;
pub mod vault_state;
pub mod keys;
pub mod vault_keys;
pub mod file_browser;
pub mod viewer;
pub mod views;
pub mod pages;
pub mod disposition;
pub mod download;
pub mod enc_dec;


