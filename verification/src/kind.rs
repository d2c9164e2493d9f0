//! The four kinds of object and their names in an object's header.

use vstd::prelude::*;
use vstd::string::*;

verus! {

/// The kind of an object, as declared in its header.
#[derive(Clone, Copy, Debug, PartialEq, Eq, Structural)]
pub enum ObjectType {
    Blob,
    Commit,
    Tree,
    Tag,
}

/// The lowercase ASCII name of a kind, as it stands in a header.
pub open spec fn kind_name(kind: ObjectType) -> Seq<u8> {
    match kind {
        ObjectType::Blob => seq![0x62u8, 0x6c, 0x6f, 0x62],
        ObjectType::Commit => seq![0x63u8, 0x6f, 0x6d, 0x6d, 0x69, 0x74],
        ObjectType::Tree => seq![0x74u8, 0x72, 0x65, 0x65],
        ObjectType::Tag => seq![0x74u8, 0x61, 0x67],
    }
}

/// An ASCII letter folded to lower case; any other byte unchanged.
pub open spec fn to_lower(b: u8) -> u8 {
    if 0x41 <= b <= 0x5a {
        (b + 0x20) as u8
    } else {
        b
    }
}

/// Equality of two byte strings up to the case of ASCII letters.
pub open spec fn eq_ignore_case(a: Seq<u8>, b: Seq<u8>) -> bool {
    &&& a.len() == b.len()
    &&& forall|i: int| 0 <= i < a.len() ==> to_lower(#[trigger] a[i]) == to_lower(b[i])
}

/// The kind that a header token names, if it names one.
pub open spec fn kind_of_token(token: Seq<u8>) -> Option<ObjectType> {
    if eq_ignore_case(token, kind_name(ObjectType::Blob)) {
        Some(ObjectType::Blob)
    } else if eq_ignore_case(token, kind_name(ObjectType::Commit)) {
        Some(ObjectType::Commit)
    } else if eq_ignore_case(token, kind_name(ObjectType::Tree)) {
        Some(ObjectType::Tree)
    } else if eq_ignore_case(token, kind_name(ObjectType::Tag)) {
        Some(ObjectType::Tag)
    } else {
        None
    }
}

impl ObjectType {
    /// The name of this kind: `blob`, `commit`, `tree` or `tag`.
    pub fn name(self) -> (r: &'static str)
        ensures
            is_ascii(r),
            r.spec_bytes() == kind_name(self),
    {
        match self {
            ObjectType::Blob => {
                proof {
                    reveal_strlit("blob");
                    lemma_ascii_literal_bytes("blob", kind_name(self));
                }
                "blob"
            },
            ObjectType::Commit => {
                proof {
                    reveal_strlit("commit");
                    lemma_ascii_literal_bytes("commit", kind_name(self));
                }
                "commit"
            },
            ObjectType::Tree => {
                proof {
                    reveal_strlit("tree");
                    lemma_ascii_literal_bytes("tree", kind_name(self));
                }
                "tree"
            },
            ObjectType::Tag => {
                proof {
                    reveal_strlit("tag");
                    lemma_ascii_literal_bytes("tag", kind_name(self));
                }
                "tag"
            },
        }
    }

    /// Matches a header token against the four names, ignoring the case of
    /// ASCII letters.
    pub fn from_token(token: &[u8]) -> (r: Option<ObjectType>)
        ensures
            r == kind_of_token(token@),
    {
        if bytes_eq_ignore_case(token, ObjectType::Blob.name().as_bytes()) {
            Some(ObjectType::Blob)
        } else if bytes_eq_ignore_case(token, ObjectType::Commit.name().as_bytes()) {
            Some(ObjectType::Commit)
        } else if bytes_eq_ignore_case(token, ObjectType::Tree.name().as_bytes()) {
            Some(ObjectType::Tree)
        } else if bytes_eq_ignore_case(token, ObjectType::Tag.name().as_bytes()) {
            Some(ObjectType::Tag)
        } else {
            None
        }
    }
}

/// An ASCII string's bytes are its characters, one byte each.
proof fn lemma_ascii_literal_bytes(s: &str, bytes: Seq<u8>)
    requires
        s@.len() == bytes.len(),
        forall|i: int| 0 <= i < bytes.len() ==> bytes[i] < 0x80 && #[trigger] s@[i] == bytes[i] as char,
    ensures
        is_ascii(s),
        s.spec_bytes() == bytes,
{
    assert(is_ascii(s)) by {
        assert forall|i: int| 0 <= i < s@.len() implies '\0' <= #[trigger] s@[i] <= '\u{7f}' by {
            assert(s@[i] == bytes[i] as char);
        }
    }
    vstd::utf8::is_ascii_chars_encode_utf8(s@);
    assert forall|i: int| 0 <= i < bytes.len() implies s.spec_bytes()[i] == bytes[i] by {
        assert(s@[i] == bytes[i] as char);
        assert(s@[i] as u8 == s.spec_bytes()[i]);
    }
    assert(s.spec_bytes() =~= bytes);
}

fn lower(b: u8) -> (r: u8)
    ensures
        r == to_lower(b),
{
    if 0x41 <= b && b <= 0x5a {
        b + 0x20
    } else {
        b
    }
}

fn bytes_eq_ignore_case(a: &[u8], b: &[u8]) -> (r: bool)
    ensures
        r == eq_ignore_case(a@, b@),
{
    if a.len() != b.len() {
        return false;
    }
    let mut i: usize = 0;
    while i < a.len()
        invariant
            i <= a@.len(),
            a@.len() == b@.len(),
            forall|j: int| 0 <= j < i ==> to_lower(#[trigger] a@[j]) == to_lower(b@[j]),
        decreases a@.len() - i,
    {
        if lower(a[i]) != lower(b[i]) {
            return false;
        }
        i += 1;
    }
    true
}

} // verus!
