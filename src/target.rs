//! The platforms a toolchain is published for.

use vstd::prelude::*;
use crate::text::str_eq;

verus! {

/// A platform the toolchain is installed for.
#[allow(non_camel_case_types)]
#[derive(Debug, Clone, Copy, PartialEq, Eq, Structural, Hash)]
pub enum Target {
    x86_64UnknownLinuxMusl,
    x86_64AppleDarwin,
    Aarch64AppleDarwin,
}

impl Target {
    /// The directory name of the platform.
    pub open spec fn spec_name(self) -> Seq<char> {
        match self {
            Target::x86_64UnknownLinuxMusl => "x86_64-unknown-linux-musl"@,
            Target::x86_64AppleDarwin => "x86_64-apple-darwin"@,
            Target::Aarch64AppleDarwin => "aarch64-apple-darwin"@,
        }
    }

    /// Whether the platform takes the macOS artifact (else the Linux one).
    pub open spec fn spec_is_macos(self) -> bool {
        !(self is x86_64UnknownLinuxMusl)
    }

    pub fn name(&self) -> (r: &'static str)
        ensures
            r@ == self.spec_name(),
    {
        match self {
            Target::x86_64UnknownLinuxMusl => "x86_64-unknown-linux-musl",
            Target::x86_64AppleDarwin => "x86_64-apple-darwin",
            Target::Aarch64AppleDarwin => "aarch64-apple-darwin",
        }
    }

    pub fn is_macos(&self) -> (r: bool)
        ensures
            r == self.spec_is_macos(),
    {
        match self {
            Target::x86_64UnknownLinuxMusl => false,
            _ => true,
        }
    }

    /// The platform named `s`, if any.
    pub fn from_name(s: &str) -> (r: Option<Target>)
        ensures
            match r {
                Some(t) => s@ == t.spec_name(),
                None => forall|t: Target| s@ != t.spec_name(),
            },
    {
        proof {
            reveal_strlit("x86_64-apple-darwin");
            reveal_strlit("aarch64-apple-darwin");
            reveal_strlit("x86_64-unknown-linux-musl");
        }
        if str_eq(s, "x86_64-apple-darwin") {
            Some(Target::x86_64AppleDarwin)
        } else if str_eq(s, "aarch64-apple-darwin") {
            Some(Target::Aarch64AppleDarwin)
        } else if str_eq(s, "x86_64-unknown-linux-musl") {
            Some(Target::x86_64UnknownLinuxMusl)
        } else {
            None
        }
    }

    /// The default platform for an operating system and architecture, as
    /// named by the Rust standard library (`linux`, `macos`; `x86_64`, `aarch64`).
    pub fn for_platform(os: &str, arch: &str) -> (r: Option<Target>)
        ensures
            r == (if os@ == "linux"@ && arch@ == "x86_64"@ {
                Some(Target::x86_64UnknownLinuxMusl)
            } else if os@ == "macos"@ && arch@ == "x86_64"@ {
                Some(Target::x86_64AppleDarwin)
            } else if os@ == "macos"@ && arch@ == "aarch64"@ {
                Some(Target::Aarch64AppleDarwin)
            } else {
                None
            }),
    {
        if str_eq(os, "linux") && str_eq(arch, "x86_64") {
            Some(Target::x86_64UnknownLinuxMusl)
        } else if str_eq(os, "macos") && str_eq(arch, "x86_64") {
            Some(Target::x86_64AppleDarwin)
        } else if str_eq(os, "macos") && str_eq(arch, "aarch64") {
            Some(Target::Aarch64AppleDarwin)
        } else {
            None
        }
    }
}

} // verus!
