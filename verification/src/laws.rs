//! What holds of the canonical encoding and its decoding, for all objects.

use crate::codec::{
    canonical_encoding, construct, decode, decode_body, find_byte, first_at, header,
    lemma_find_byte_at, ObjectView, NUL, SPACE,
};
use crate::decimal::{all_digits, decimal, is_digit, lemma_decimal_round_trip, parse_decimal};
use crate::error::CodecErrorView;
use crate::error::ErrorView;
use crate::kind::{eq_ignore_case, kind_name, kind_of_token, to_lower, ObjectType};
use crate::object::loaded;
use vstd::prelude::*;

verus! {

/// A kind's name holds no space and is the token of that kind alone.
pub proof fn lemma_kind_name_is_its_token(kind: ObjectType)
    ensures
        forall|j: int| 0 <= j < kind_name(kind).len() ==> kind_name(kind)[j] != SPACE,
        kind_of_token(kind_name(kind)) == Some(kind),
{
    let blob = kind_name(ObjectType::Blob);
    let commit = kind_name(ObjectType::Commit);
    let tree = kind_name(ObjectType::Tree);
    let tag = kind_name(ObjectType::Tag);
    assert(eq_ignore_case(kind_name(kind), kind_name(kind)));
    assert(!eq_ignore_case(tree, blob)) by {
        assert(to_lower(tree[0]) != to_lower(blob[0]));
    }
    assert(!eq_ignore_case(commit, blob));
    assert(!eq_ignore_case(tag, blob));
    assert(!eq_ignore_case(tree, commit));
    assert(!eq_ignore_case(tag, commit));
    assert(!eq_ignore_case(tag, tree));
}

/// An encoding's first space stands right after the kind's name.
pub proof fn lemma_header_token(kind: ObjectType, len: nat, tail: Seq<u8>)
    ensures
        find_byte(header(kind, len) + tail, SPACE) == Some(kind_name(kind).len() as int),
        (header(kind, len) + tail).take(kind_name(kind).len() as int) == kind_name(kind),
        (header(kind, len) + tail).skip(kind_name(kind).len() as int + 1) == decimal(len) + seq![
            NUL,
        ] + tail,
{
    let bytes = header(kind, len) + tail;
    let name = kind_name(kind);
    lemma_kind_name_is_its_token(kind);
    assert(first_at(bytes, SPACE, name.len() as int)) by {
        assert forall|j: int| 0 <= j < name.len() implies bytes[j] != SPACE by {
            assert(bytes[j] == name[j]);
        }
    }
    lemma_find_byte_at(bytes, SPACE, name.len() as int);
    assert(bytes.take(name.len() as int) =~= name);
    assert(bytes.skip(name.len() as int + 1) =~= decimal(len) + seq![NUL] + tail);
}

/// What follows a header is checked against the length that the header
/// declares, and only then given its structure.
pub proof fn lemma_decode_after_header(kind: ObjectType, len: nat, tail: Seq<u8>)
    requires
        len <= usize::MAX,
    ensures
        decode(header(kind, len) + tail) == if tail.len() != len {
            Err::<ObjectView, CodecErrorView>(
                CodecErrorView::SizeMismatch { declared: len, actual: tail.len() },
            )
        } else {
            construct(kind, tail)
        },
{
    let bytes = header(kind, len) + tail;
    let digits = decimal(len);
    let rest = digits + seq![NUL] + tail;
    lemma_header_token(kind, len, tail);
    lemma_kind_name_is_its_token(kind);
    lemma_decimal_round_trip(len);
    assert(first_at(rest, NUL, digits.len() as int)) by {
        assert forall|j: int| 0 <= j < digits.len() implies rest[j] != NUL by {
            assert(rest[j] == digits[j]);
            assert(is_digit(digits[j]));
        }
    }
    lemma_find_byte_at(rest, NUL, digits.len() as int);
    assert(rest.take(digits.len() as int) =~= digits);
    assert(rest.skip(digits.len() as int + 1) =~= tail);
    assert(decode(bytes) == decode_body(kind, rest));
}

/// Round trip: the canonical encoding of a blob decodes to that blob,
/// whatever its content holds.
pub proof fn lemma_round_trip(content: Seq<u8>)
    requires
        content.len() <= usize::MAX,
    ensures
        decode(canonical_encoding(ObjectType::Blob, content)) == Ok::<ObjectView, CodecErrorView>(
            ObjectView::Blob { data: content },
        ),
{
    lemma_decode_after_header(ObjectType::Blob, content.len(), content);
}

/// Corruption detection: an encoding cut short anywhere in its content
/// decodes to a size mismatch, and never to a shorter object.
pub proof fn lemma_truncation_detected(kind: ObjectType, content: Seq<u8>, kept: nat)
    requires
        content.len() <= usize::MAX,
        kept < content.len(),
    ensures
        decode(
            canonical_encoding(kind, content).take((header(kind, content.len()).len() + kept) as int),
        ) == Err::<ObjectView, CodecErrorView>(
            CodecErrorView::SizeMismatch { declared: content.len(), actual: kept },
        ),
{
    let head = header(kind, content.len());
    let cut = canonical_encoding(kind, content).take((head.len() + kept) as int);
    assert(cut =~= head + content.take(kept as int));
    lemma_decode_after_header(kind, content.len(), content.take(kept as int));
}

/// Unknown type rejection: a stream whose first token is none of the four
/// names decodes to `UnknownType` with that token, whatever follows.
pub proof fn lemma_unknown_type_rejected(token: Seq<u8>, rest: Seq<u8>)
    requires
        forall|j: int| 0 <= j < token.len() ==> token[j] != SPACE,
        kind_of_token(token) is None,
    ensures
        decode(token + seq![SPACE] + rest) == Err::<ObjectView, CodecErrorView>(
            CodecErrorView::UnknownType { token },
        ),
{
    let bytes = token + seq![SPACE] + rest;
    assert(first_at(bytes, SPACE, token.len() as int)) by {
        assert forall|j: int| 0 <= j < token.len() implies bytes[j] != SPACE by {
            assert(bytes[j] == token[j]);
        }
    }
    lemma_find_byte_at(bytes, SPACE, token.len() as int);
    assert(bytes.take(token.len() as int) =~= token);
}

/// Header inclusion: objects of different kinds never share a canonical
/// encoding, so the bytes that are hashed differ even where the content is
/// the same.
pub proof fn lemma_kinds_encode_apart(
    first: ObjectType,
    second: ObjectType,
    first_content: Seq<u8>,
    second_content: Seq<u8>,
)
    requires
        first != second,
    ensures
        canonical_encoding(first, first_content) != canonical_encoding(second, second_content),
{
    lemma_header_token(first, first_content.len(), first_content);
    lemma_header_token(second, second_content.len(), second_content);
    lemma_kind_name_is_its_token(first);
    lemma_kind_name_is_its_token(second);
}

/// Reading back: stored bytes from which the decoder gives a blob's
/// canonical encoding are read as that blob.
pub proof fn lemma_load_round_trip(content: Seq<u8>)
    requires
        content.len() <= usize::MAX,
    ensures
        loaded(Some(canonical_encoding(ObjectType::Blob, content))) == Ok::<ObjectView, ErrorView>(
            ObjectView::Blob { data: content },
        ),
{
    lemma_round_trip(content);
}

} // verus!
