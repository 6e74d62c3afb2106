//! Filesystem path comparisons and UTF-8 decoding, as `std` performs them.
use vstd::prelude::*;
use std::path::Path;
use vstd::utf8::{valid_utf8, decode_utf8};

verus! {

/// Whether `std::path::Path` considers `a` and `b` the same path: the same components.
pub uninterp spec fn path_eq(a: Seq<char>, b: Seq<char>) -> bool;

/// What `Path::strip_prefix` leaves of `path` after the components of `base`, as text;
/// none where `base` is not a prefix of `path` or the rest is not text.
pub uninterp spec fn path_rest(path: Seq<char>, base: Seq<char>) -> Option<Seq<char>>;

/// The characters that the bytes `b` encode in UTF-8, if they are valid UTF-8.
pub open spec fn utf8(b: Seq<u8>) -> Option<Seq<char>> {
    if valid_utf8(b) { Some(decode_utf8(b)) } else { None }
}

/// Compares two paths with `Path`'s `==`, which compares their components. The contract
/// names the result and claims nothing more of it.
#[verifier::external_body]
pub(crate) fn same_path(a: &str, b: &str) -> (r: bool)
    ensures
        r == path_eq(a@, b@),
{
    Path::new(a) == Path::new(b)
}

/// Calls `Path::strip_prefix` and gives the rest as text (a rest of UTF-8 text is text).
/// The contract names the result and claims nothing more of it.
#[verifier::external_body]
pub(crate) fn strip_path(path: &str, base: &str) -> (r: Option<String>)
    ensures
        match r {
            Some(s) => path_rest(path@, base@) == Some(s@),
            None => path_rest(path@, base@) is None,
        },
{
    match Path::new(path).strip_prefix(Path::new(base)) {
        Ok(rest) => rest.to_str().map(|s| s.to_owned()),
        Err(_) => None,
    }
}

/// Calls `std::str::from_utf8`. The contract claims that it accepts exactly the valid
/// UTF-8 byte sequences and decodes them as vstd's model of UTF-8 does.
#[verifier::external_body]
pub(crate) fn utf8_text(b: &Vec<u8>) -> (r: Option<String>)
    ensures
        match r {
            Some(s) => utf8(b@) == Some(s@),
            None => utf8(b@) is None,
        },
{
    match std::str::from_utf8(b) {
        Ok(s) => Some(s.to_owned()),
        Err(_) => None,
    }
}

} // verus!
