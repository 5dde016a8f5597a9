//! One-time setup: a debug keystore, and the Java system image for `javac`.
pub mod keystore;
pub mod sysmodules;
