//! The engine behind a password manager over a GPG-encrypted credential store.
//!
//! The host reads files, decrypts, runs programs, owns the clipboard and
//! starts tasks. This library holds the rules: which request starts a task,
//! what goes on the clipboard and when it is scrubbed, which files are
//! entries and in which order, and what the fields of an entry are.

pub mod clipboard;
pub mod dedup;
pub mod dispatcher;
pub mod error;
pub mod events;
pub mod extract;
pub mod index;
pub mod operations;
pub mod order;
pub mod otp;
pub mod password_info;
pub mod password_store;
pub mod shell;
pub mod store_dir;
pub mod text;

pub use clipboard::copy_to_clipboard;
pub use error::Error;
pub use events::PasswordEvent;
pub use operations::{copy_id, copy_login, copy_otp, copy_password, decrypt, generate_otp};
pub use password_info::PasswordInfo;
pub use password_store::PasswordStore;
