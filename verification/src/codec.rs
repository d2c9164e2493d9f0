//! The canonical encoding of an object, `<type> <len>\0<content>`, and what a
//! stream of bytes decodes to.

use crate::decimal::{decimal, parse_decimal};
use crate::error::CodecErrorView;
use crate::kind::{kind_name, kind_of_token, ObjectType};
use vstd::prelude::*;

verus! {

/// The byte between the type and the length.
pub const SPACE: u8 = 0x20;

/// The byte that ends the length.
pub const NUL: u8 = 0x00;

/// An object as a mathematical value.
pub enum ObjectView {
    Blob { data: Seq<u8> },
    Commit,
    Tree,
    Tag,
}

impl ObjectView {
    /// The kind of this object.
    pub open spec fn kind(self) -> ObjectType {
        match self {
            ObjectView::Blob { .. } => ObjectType::Blob,
            ObjectView::Commit => ObjectType::Commit,
            ObjectView::Tree => ObjectType::Tree,
            ObjectView::Tag => ObjectType::Tag,
        }
    }
}

impl ObjectView {
    /// The content that stands behind this object's header. Only blobs have
    /// one so far.
    pub open spec fn body(self) -> Result<Seq<u8>, CodecErrorView> {
        match self {
            ObjectView::Blob { data } => Ok(data),
            _ => Err(CodecErrorView::UnimplementedStructure { kind: self.kind() }),
        }
    }

    /// This object's canonical encoding, where it has one.
    pub open spec fn encoding(self) -> Result<Seq<u8>, CodecErrorView> {
        match self.body() {
            Ok(content) => Ok(canonical_encoding(self.kind(), content)),
            Err(e) => Err(e),
        }
    }
}

/// Whether `i` is the place of the first `b` in `s`.
pub open spec fn first_at(s: Seq<u8>, b: u8, i: int) -> bool {
    &&& 0 <= i < s.len()
    &&& s[i] == b
    &&& forall|j: int| 0 <= j < i ==> s[j] != b
}

/// The place of the first `b` in `s`, if there is one.
pub open spec fn find_byte(s: Seq<u8>, b: u8) -> Option<int> {
    if exists|i: int| first_at(s, b, i) {
        Some(choose|i: int| first_at(s, b, i))
    } else {
        None
    }
}

/// The first occurrence is found where it is.
pub proof fn lemma_find_byte_at(s: Seq<u8>, b: u8, i: int)
    requires
        first_at(s, b, i),
    ensures
        find_byte(s, b) == Some(i),
{
    let j = choose|j: int| first_at(s, b, j);
    assert(first_at(s, b, j));
    if j < i {
        assert(s[j] != b);
    }
    if i < j {
        assert(s[i] != b);
    }
}

/// Nothing is found where the byte does not occur.
pub proof fn lemma_find_byte_absent(s: Seq<u8>, b: u8)
    requires
        forall|j: int| 0 <= j < s.len() ==> s[j] != b,
    ensures
        find_byte(s, b) is None,
{
}

/// The header of an object of kind `kind` with `len` bytes of content.
pub open spec fn header(kind: ObjectType, len: nat) -> Seq<u8> {
    kind_name(kind) + seq![SPACE] + decimal(len) + seq![NUL]
}

/// The canonical encoding: the bytes that are hashed and, compressed, stored.
pub open spec fn canonical_encoding(kind: ObjectType, content: Seq<u8>) -> Seq<u8> {
    header(kind, content.len()) + content
}

/// The object of kind `kind` with the given content. Only blobs have a
/// structure so far.
pub open spec fn construct(kind: ObjectType, content: Seq<u8>) -> Result<
    ObjectView,
    CodecErrorView,
> {
    match kind {
        ObjectType::Blob => Ok(ObjectView::Blob { data: content }),
        _ => Err(CodecErrorView::UnimplementedStructure { kind }),
    }
}

/// What follows a header's type and space: the length, a NUL, the content.
pub open spec fn decode_body(kind: ObjectType, rest: Seq<u8>) -> Result<
    ObjectView,
    CodecErrorView,
> {
    match find_byte(rest, NUL) {
        None => Err(CodecErrorView::MalformedHeader),
        Some(nul) => match parse_decimal(rest.take(nul)) {
            None => Err(CodecErrorView::InvalidLength),
            Some(declared) => {
                let content = rest.skip(nul + 1);
                if declared > usize::MAX {
                    Err(CodecErrorView::InvalidLength)
                } else if content.len() != declared {
                    Err(CodecErrorView::SizeMismatch { declared, actual: content.len() })
                } else {
                    construct(kind, content)
                }
            },
        },
    }
}

/// What a stream of bytes decodes to: the type up to the first space, the
/// length up to the first NUL after it, then exactly that many bytes.
pub open spec fn decode(bytes: Seq<u8>) -> Result<ObjectView, CodecErrorView> {
    match find_byte(bytes, SPACE) {
        None => Err(CodecErrorView::MalformedHeader),
        Some(space) => match kind_of_token(bytes.take(space)) {
            None => Err(CodecErrorView::UnknownType { token: bytes.take(space) }),
            Some(kind) => decode_body(kind, bytes.skip(space + 1)),
        },
    }
}

/// The place of the first `b` in `s`, if there is one.
pub fn position(s: &[u8], b: u8) -> (r: Option<usize>)
    ensures
        match r {
            Some(i) => find_byte(s@, b) == Some(i as int),
            None => find_byte(s@, b) is None,
        },
{
    let mut i: usize = 0;
    while i < s.len()
        invariant
            i <= s@.len(),
            forall|j: int| 0 <= j < i ==> s@[j] != b,
        decreases s@.len() - i,
    {
        if s[i] == b {
            proof {
                lemma_find_byte_at(s@, b, i as int);
            }
            return Some(i);
        }
        i += 1;
    }
    proof {
        lemma_find_byte_absent(s@, b);
    }
    None
}

} // verus!
