use vstd::prelude::*;

use crate::text::{copy_str, str_eq};

verus! {

/// A target architecture of the native libraries in the APK.
#[derive(Clone, Copy, Debug, PartialEq, Eq, Structural)]
pub enum Arch {
    Amd64,
    Arm64,
}

/// An `--arch` value that names no supported architecture.
#[derive(Debug)]
pub struct UnsupportedArch {
    pub value: String,
}

/// The architecture that an `--arch` value names, if any.
pub open spec fn arch_named(value: Seq<char>) -> Option<Arch> {
    if value == "amd64"@ {
        Some(Arch::Amd64)
    } else if value == "arm64"@ {
        Some(Arch::Arm64)
    } else {
        None
    }
}

/// The Rust target triple for an architecture.
pub open spec fn rustc_triple(a: Arch) -> Seq<char> {
    match a {
        Arch::Amd64 => "x86_64-linux-android"@,
        Arch::Arm64 => "aarch64-linux-android"@,
    }
}

/// The Android ABI directory name for an architecture.
pub open spec fn abi_name(a: Arch) -> Seq<char> {
    match a {
        Arch::Amd64 => "x86_64"@,
        Arch::Arm64 => "arm64-v8a"@,
    }
}

impl Arch {
    /// The architecture named on the command line: `amd64` or `arm64`.
    pub fn from_cli_arg(value: &str) -> (res: Result<Arch, UnsupportedArch>)
        ensures
            match res {
                Ok(a) => arch_named(value@) == Some(a),
                Err(e) => arch_named(value@) is None && e.value@ == value@,
            },
    {
        if str_eq(value, "amd64") {
            Ok(Arch::Amd64)
        } else if str_eq(value, "arm64") {
            Ok(Arch::Arm64)
        } else {
            Err(UnsupportedArch { value: copy_str(value) })
        }
    }

    /// The Rust target triple, such as `aarch64-linux-android`.
    pub fn rustc(&self) -> (res: &'static str)
        ensures
            res@ == rustc_triple(*self),
    {
        match self {
            Arch::Amd64 => "x86_64-linux-android",
            Arch::Arm64 => "aarch64-linux-android",
        }
    }

    /// The ABI directory under `lib/` in the APK, such as `arm64-v8a`.
    pub fn aapt(&self) -> (res: &'static str)
        ensures
            res@ == abi_name(*self),
    {
        match self {
            Arch::Amd64 => "x86_64",
            Arch::Arm64 => "arm64-v8a",
        }
    }
}

} // verus!
