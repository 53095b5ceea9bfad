//! Shared constants and byte-to-text decoding.

use vstd::prelude::*;
use vstd::utf8::{decode_utf8, valid_utf8};

verus! {

/// Interpreter of the virtual environment that holds the Google Play client.
pub const VENV_PYTHON: &'static str = "/tmp/apkdl_venv/bin/python3";

/// Prefix of the scratch directories under the system temporary directory.
pub const TEMP_PREFIX: &'static str = "apkdl_";

/// The CPU architectures that split APKs are named after, in the order in which they are tried.
pub const ARCHES: [&'static str; 4] = ["arm64_v8a", "armeabi_v7a", "x86_64", "x86"];

/// The architecture names as character sequences.
pub open spec fn arch_names() -> Seq<Seq<char>> {
    seq!["arm64_v8a"@, "armeabi_v7a"@, "x86_64"@, "x86"@]
}

/// `std::str::from_utf8`: the text that `b` encodes, or `None` when `b` is not valid UTF-8.
#[verifier::external_body]
pub(crate) fn str_from_utf8(b: &[u8]) -> (res: Option<&str>)
    ensures
        res is Some <==> valid_utf8(b@),
        res matches Some(s) ==> s@ == decode_utf8(b@),
{
    std::str::from_utf8(b).ok()
}

/// What `as_str` yields for the bytes `b`.
pub open spec fn text_of(b: Seq<u8>) -> Seq<char> {
    if valid_utf8(b) {
        decode_utf8(b)
    } else {
        Seq::empty()
    }
}

/// The text that `b` encodes as UTF-8, or the empty string when it is not valid UTF-8.
pub fn as_str(b: &[u8]) -> (res: &str)
    ensures
        res@ == text_of(b@),
{
    match str_from_utf8(b) {
        Some(s) => s,
        None => {
            let e = "";
            proof {
                reveal_strlit("");
            }
            e
        },
    }
}

} // verus!

verus! {

/// The index of the first architecture whose name occurs in `name`.
pub open spec fn first_arch(name: Seq<char>) -> Option<int> {
    first_arch_from(name, 0)
}

/// The first architecture at index `i` or later whose name occurs in `name`.
pub open spec fn first_arch_from(name: Seq<char>, i: int) -> Option<int>
    decreases 4 - i,
{
    if i < 0 || i >= 4 {
        None
    } else if crate::text::has_infix(name, arch_names()[i]) {
        Some(i)
    } else {
        first_arch_from(name, i + 1)
    }
}

/// The architecture name at index `i < 4`.
pub fn arch_name(i: usize) -> (res: &'static str)
    requires
        i < 4,
    ensures
        res@ == arch_names()[i as int],
{
    proof {
        reveal_strlit("arm64_v8a");
        reveal_strlit("armeabi_v7a");
        reveal_strlit("x86_64");
        reveal_strlit("x86");
    }
    ARCHES[i]
}

/// The index of the first architecture whose name occurs in `name`, if any.
pub fn arch_in_name(name: &Vec<char>) -> (res: Option<usize>)
    ensures
        match res {
            Some(i) => i < 4 && first_arch(name@) == Some(i as int),
            None => first_arch(name@) is None,
        },
{
    let mut i: usize = 0;
    while i < 4
        invariant
            0 <= i <= 4,
            first_arch(name@) == first_arch_from(name@, i as int),
        decreases 4 - i,
    {
        if crate::text::contains_str(name, arch_name(i)) {
            return Some(i);
        }
        i = i + 1;
    }
    None
}

} // verus!
