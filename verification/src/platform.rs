//! The platform identifier: the `{os}-{arch}` string that picks the
//! release asset for the host. Unknown values pass through unchanged; the
//! mapping is best-effort and has no error path.

use vstd::prelude::*;
use vstd::string::*;
use crate::text::str_eq;

verus! {

/// The OS family as the release assets name it.
pub open spec fn os_family(os: Seq<char>) -> Seq<char> {
    if os == "macos"@ {
        "darwin"@
    } else {
        os
    }
}

/// The CPU architecture as the release assets name it.
pub open spec fn arch_family(arch: Seq<char>) -> Seq<char> {
    if arch == "x86_64"@ {
        "x64"@
    } else if arch == "arm"@ {
        "aarch64"@
    } else {
        arch
    }
}

pub open spec fn platform_id(os: Seq<char>, arch: Seq<char>) -> Seq<char> {
    os_family(os) + "-"@ + arch_family(arch)
}

/// Derives the two-part platform identifier from the host's OS and CPU
/// architecture names, as `std::env::consts` reports them.
pub fn get_architecture(os: &str, arch: &str) -> (r: String)
    ensures
        r@ == platform_id(os@, arch@),
{
    let mut out = if str_eq(os, "macos") {
        String::from_str("darwin")
    } else {
        String::from_str(os)
    };
    out.append("-");
    if str_eq(arch, "x86_64") {
        out.append("x64");
    } else if str_eq(arch, "arm") {
        out.append("aarch64");
    } else {
        out.append(arch);
    }
    out
}

} // verus!
