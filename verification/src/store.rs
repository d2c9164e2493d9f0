//! Where the store keeps an object: a path made from its digest.

use crate::digest::{is_digest, is_hex_digit};
use vstd::prelude::*;
use vstd::string::{StrSliceExecFns, StringExecFns};

verus! {

/// The directory of all objects, with its separator.
pub open spec fn objects_dir() -> Seq<char> {
    seq!['o', 'b', 'j', 'e', 'c', 't', 's', '/']
}

/// The path of the object with the given digest, relative to the store's
/// root: under `objects/`, a directory named by the digest's first two
/// characters, and in it a file named by the other 38.
pub open spec fn object_path(digest: Seq<char>) -> Seq<char> {
    objects_dir() + digest.take(2) + seq!['/'] + digest.skip(2)
}

fn hex_char(c: char) -> (r: bool)
    ensures
        r == is_hex_digit(c),
{
    ('0' <= c && c <= '9') || ('a' <= c && c <= 'f')
}

fn path_of_digest(digest: &str) -> (r: String)
    requires
        is_digest(digest@),
    ensures
        r@ == object_path(digest@),
{
    proof {
        reveal_strlit("objects/");
        reveal_strlit("/");
    }
    let mut path = String::from_str("objects/");
    path.append(digest.substring_char(0, 2));
    path.append("/");
    path.append(digest.substring_char(2, 40));
    assert(path@ =~= object_path(digest@));
    path
}

/// The path under which the store keeps the object with the given digest.
/// A string that is no digest, 40 lower-case hexadecimal digits, has none.
pub fn resolve_object_path(digest: &str) -> (r: Option<String>)
    ensures
        match r {
            Some(path) => is_digest(digest@) && path@ == object_path(digest@),
            None => !is_digest(digest@),
        },
{
    if digest.unicode_len() != 40 {
        return None;
    }
    let mut i: usize = 0;
    while i < 40
        invariant
            i <= 40,
            digest@.len() == 40,
            forall|j: int| 0 <= j < i ==> is_hex_digit(#[trigger] digest@[j]),
        decreases 40 - i,
    {
        if !hex_char(digest.get_char(i)) {
            return None;
        }
        i += 1;
    }
    Some(path_of_digest(digest))
}

/// The path under which the store keeps the object with the given digest.
pub(crate) fn digest_path(digest: &String) -> (r: String)
    requires
        is_digest(digest@),
    ensures
        r@ == object_path(digest@),
{
    path_of_digest(digest.as_str())
}

} // verus!
