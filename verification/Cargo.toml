[package]
name = "passepartout"
version = "0.1.0"
edition = "2021"
publish = false

[dependencies]
arboard = { version = "3", default-features = false }
dirs = "*"
futures = "0.3"
icu = "1.5"
sequoia-gpg-agent = "*"
sequoia-openpgp = { version = "*", default-features = false, features = ["crypto-rust", "allow-experimental-crypto", "allow-variable-time-crypto"] }
thiserror = "*"
totp-rs = { version = "5", features = ["otpauth"] }
