//! Objects: typed content, its canonical encoding and its identity.

use crate::codec::{construct, decode, position, ObjectView, NUL, SPACE};
use crate::decimal::{parse_usize, push_decimal};
use crate::digest::{hex_sha1, is_digest, Hasher};
use crate::error::{CodecError, CodecErrorView, Error, ErrorView, StoreError};
use crate::kind::{kind_name, ObjectType};
use crate::sink::{appended_part, NullSink, Sink};
use crate::split_write::SplitWrite;
use crate::store::{digest_path, object_path};
use crate::zlib::{
    compress, decompress, zlib_deflate, zlib_inflate, Compression, DEFAULT_LEVEL,
};
use vstd::prelude::*;
use vstd::slice::{slice_subrange, slice_to_vec};
use vstd::string::{is_ascii, StringSliceAdditionalSpecFns};

verus! {

/// An object of the store. Only a blob carries content so far.
#[derive(Clone, Debug, PartialEq, Eq)]
pub enum Object {
    Blob { data: Vec<u8> },
    Commit,
    Tree,
    Tag,
}

impl View for Object {
    type V = ObjectView;

    open spec fn view(&self) -> ObjectView {
        match *self {
            Object::Blob { data } => ObjectView::Blob { data: data@ },
            Object::Commit => ObjectView::Commit,
            Object::Tree => ObjectView::Tree,
            Object::Tag => ObjectView::Tag,
        }
    }
}

/// Whether an outcome of decoding is the one that the model gives.
pub open spec fn decoded_as(
    r: Result<Object, CodecError>,
    expected: Result<ObjectView, CodecErrorView>,
) -> bool {
    match r {
        Ok(object) => expected == Ok::<ObjectView, CodecErrorView>(object@),
        Err(e) => expected == Err::<ObjectView, CodecErrorView>(e@),
    }
}

/// Whether writing `payload` to a sink came to `r`, given what the sink had
/// taken before and has taken after. A payload that cannot be made leaves the
/// sink as it was. One that can is taken whole on success, and in part at
/// most where the sink fails, which a reliable sink never does.
pub open spec fn wrote<T>(
    payload: Result<Seq<u8>, CodecErrorView>,
    before: Seq<u8>,
    after: Seq<u8>,
    reliable: bool,
    r: Result<T, Error>,
) -> bool {
    match payload {
        Err(e) => after == before && (r matches Err(x) && x@ == ErrorView::Codec(e)),
        Ok(bytes) => match r {
            Ok(_) => after == before + bytes,
            Err(_) => !reliable && appended_part(before, after, bytes),
        },
    }
}

/// An object's digest and its stored bytes at a compression level, given
/// what the encoder gives for its canonical encoding.
pub open spec fn stored(object: ObjectView, level: u32) -> Result<(Seq<char>, Seq<u8>), ErrorView> {
    match object.encoding() {
        Err(e) => Err(ErrorView::Codec(e)),
        Ok(bytes) => match zlib_deflate(bytes, level) {
            None => Err(ErrorView::Store(StoreError::IOFailure)),
            Some(data) => Ok((hex_sha1(bytes), data)),
        },
    }
}

/// The object that stored bytes hold, given what the decoder gave for them.
pub open spec fn loaded(inflated: Option<Seq<u8>>) -> Result<ObjectView, ErrorView> {
    match inflated {
        None => Err(ErrorView::Store(StoreError::IOFailure)),
        Some(plain) => match decode(plain) {
            Ok(object) => Ok(object),
            Err(e) => Err(ErrorView::Codec(e)),
        },
    }
}

/// What `save` hands to the store: an object's digest, the path under the
/// store's root where it is kept, and the compressed bytes to keep there.
#[derive(Clone, Debug, PartialEq, Eq)]
pub struct LooseObject {
    pub sha1: String,
    pub path: String,
    pub data: Vec<u8>,
}

impl Object {
    /// The kind of this object.
    pub fn kind(&self) -> (r: ObjectType)
        ensures
            r == self@.kind(),
    {
        match self {
            Object::Blob { .. } => ObjectType::Blob,
            Object::Commit => ObjectType::Commit,
            Object::Tree => ObjectType::Tree,
            Object::Tag => ObjectType::Tag,
        }
    }

    /// The name of this object's kind, as it stands in the header.
    pub fn type_str(&self) -> (r: &'static str)
        ensures
            is_ascii(r),
            r.spec_bytes() == kind_name(self@.kind()),
    {
        self.kind().name()
    }

    /// Makes the object of kind `typ` whose content is `data`. Kinds other
    /// than blob are recognised but have no structure yet.
    pub fn deserialize(typ: ObjectType, data: Vec<u8>) -> (r: Result<Object, CodecError>)
        ensures
            decoded_as(r, construct(typ, data@)),
    {
        match typ {
            ObjectType::Blob => Ok(Object::Blob { data }),
            ObjectType::Commit => Err(CodecError::UnimplementedStructure { kind: typ }),
            ObjectType::Tree => Err(CodecError::UnimplementedStructure { kind: typ }),
            ObjectType::Tag => Err(CodecError::UnimplementedStructure { kind: typ }),
        }
    }

    /// Makes the object of kind `typ` from content that was read in full,
    /// with no header before it.
    pub fn deserialize_read(typ: ObjectType, reader: &[u8]) -> (r: Result<Object, CodecError>)
        ensures
            decoded_as(r, construct(typ, reader@)),
    {
        Object::deserialize(typ, slice_to_vec(reader))
    }

    /// Decodes a canonical encoding: the type, the declared length, and
    /// content of exactly that length.
    pub fn deserialize_with_header(data: &[u8]) -> (r: Result<Object, CodecError>)
        ensures
            decoded_as(r, decode(data@)),
    {
        let space: usize = match position(data, SPACE) {
            Some(i) => i,
            None => {
                return Err(CodecError::MalformedHeader);
            },
        };
        let token = slice_subrange(data, 0, space);
        assert(token@ =~= data@.take(space as int));
        let typ = match ObjectType::from_token(token) {
            Some(typ) => typ,
            None => {
                return Err(CodecError::UnknownType { token: slice_to_vec(token) });
            },
        };
        let rest = slice_subrange(data, space + 1, data.len());
        assert(rest@ =~= data@.skip(space + 1));
        let nul: usize = match position(rest, NUL) {
            Some(i) => i,
            None => {
                return Err(CodecError::MalformedHeader);
            },
        };
        let field = slice_subrange(rest, 0, nul);
        assert(field@ =~= rest@.take(nul as int));
        let declared: usize = match parse_usize(field) {
            Some(n) => n,
            None => {
                return Err(CodecError::InvalidLength);
            },
        };
        let content = slice_subrange(rest, nul + 1, rest.len());
        assert(content@ =~= rest@.skip(nul + 1));
        if content.len() != declared {
            return Err(CodecError::SizeMismatch { declared, actual: content.len() });
        }
        Object::deserialize(typ, slice_to_vec(content))
    }

    /// Writes this object's content, without a header, to `write`.
    pub fn serialize<W: Sink>(&self, write: &mut W) -> (r: Result<(), Error>)
        ensures
            final(write).reliable() == old(write).reliable(),
            wrote(
                self@.body(),
                old(write).accepted(),
                final(write).accepted(),
                old(write).reliable(),
                r,
            ),
    {
        match self {
            Object::Blob { data } => {
                assert(data@.take(0) =~= Seq::<u8>::empty());
                assert(old(write).accepted() + Seq::<u8>::empty() =~= old(write).accepted());
                write.write_all(data.as_slice())
            },
            _ => {
                let kind = self.kind();
                Err(Error::Codec(CodecError::UnimplementedStructure { kind }))
            },
        }
    }

    /// Writes this object's canonical encoding to `write` and returns the
    /// object's digest: the SHA-1, in hexadecimal, of exactly those bytes.
    pub fn serialize_with_header<W: Sink>(&self, write: &mut W) -> (r: Result<String, Error>)
        ensures
            final(write).reliable() == old(write).reliable(),
            wrote(
                self@.encoding(),
                old(write).accepted(),
                final(write).accepted(),
                old(write).reliable(),
                r,
            ),
            r matches Ok(sha1) ==> self@.encoding() matches Ok(bytes) && sha1@ == hex_sha1(bytes)
                && is_digest(sha1@),
    {
        let data = match self {
            Object::Blob { data } => data,
            _ => {
                let kind = self.kind();
                return Err(Error::Codec(CodecError::UnimplementedStructure { kind }));
            },
        };
        let ghost before = old(write).accepted();
        let ghost bytes = self@.encoding()->Ok_0;
        let mut name: Vec<u8> = slice_to_vec(self.type_str().as_bytes());
        name.push(SPACE);
        let mut length: Vec<u8> = Vec::new();
        push_decimal(&mut length, data.len());
        length.push(NUL);
        assert(bytes =~= name@ + length@ + data@);
        assert(bytes.take(0) =~= Seq::<u8>::empty());
        assert(before + Seq::<u8>::empty() =~= before);

        let mut hasher = Hasher::new();
        let mut split = SplitWrite::new(write, &mut hasher);
        match split.write_all(name.as_slice()) {
            Ok(_) => {},
            Err(e) => {
                assert(appended_part(before, split.first.accepted(), bytes)) by {
                    let k = split.first.accepted().len() - before.len();
                    assert(name@.take(k) =~= bytes.take(k));
                }
                return Err(e);
            },
        }
        let ghost named = split.first.accepted();
        assert(named == before + name@);
        match split.write_all(length.as_slice()) {
            Ok(_) => {},
            Err(e) => {
                assert(appended_part(before, split.first.accepted(), bytes)) by {
                    let after = split.first.accepted();
                    let k = after.len() - named.len();
                    assert(after == named + length@.take(k));
                    assert(bytes.take(name@.len() + k) =~= name@ + length@.take(k));
                    assert(after =~= before + bytes.take(after.len() - before.len()));
                }
                return Err(e);
            },
        }
        let ghost headed = split.first.accepted();
        assert(headed == before + name@ + length@);
        match split.write_all(data.as_slice()) {
            Ok(_) => {},
            Err(e) => {
                assert(appended_part(before, split.first.accepted(), bytes)) by {
                    let after = split.first.accepted();
                    let k = after.len() - headed.len();
                    assert(after == headed + data@.take(k));
                    assert(bytes.take(name@.len() + length@.len() + k) =~= name@ + length@
                        + data@.take(k));
                    assert(after =~= before + bytes.take(after.len() - before.len()));
                }
                return Err(e);
            },
        }
        assert(split.first.accepted() =~= before + bytes);
        assert(hasher.accepted() =~= bytes);
        Ok(hasher.finalize_hex())
    }

    /// This object's digest and its stored bytes, at the usual compression
    /// level.
    pub fn serialize_zlib(&self) -> (r: Result<(String, Vec<u8>), Error>)
        ensures
            match stored(self@, DEFAULT_LEVEL) {
                Ok((sha1, data)) => r matches Ok(pair) && pair.0@ == sha1 && pair.1@ == data
                    && is_digest(sha1),
                Err(e) => r matches Err(x) && x@ == e,
            },
    {
        self.serialize_zlib_comp(Compression::default())
    }

    /// This object's digest and its stored bytes: the canonical encoding,
    /// hashed and compressed at `comp`.
    pub fn serialize_zlib_comp(&self, comp: Compression) -> (r: Result<(String, Vec<u8>), Error>)
        ensures
            match stored(self@, comp.spec_level()) {
                Ok((sha1, data)) => r matches Ok(pair) && pair.0@ == sha1 && pair.1@ == data
                    && is_digest(sha1),
                Err(e) => r matches Err(x) && x@ == e,
            },
    {
        let mut plain: Vec<u8> = Vec::new();
        let sha1 = match self.serialize_with_header(&mut plain) {
            Ok(sha1) => sha1,
            Err(e) => {
                return Err(e);
            },
        };
        assert(plain@ =~= self@.encoding()->Ok_0);
        let data = match compress(plain.as_slice(), comp) {
            Ok(data) => data,
            Err(e) => {
                return Err(e);
            },
        };
        Ok((sha1, data))
    }

    /// This object's digest, with nothing written anywhere.
    pub fn sha1(&self) -> (r: Result<String, Error>)
        ensures
            match self@.encoding() {
                Ok(bytes) => r matches Ok(sha1) && sha1@ == hex_sha1(bytes) && is_digest(sha1@),
                Err(e) => r matches Err(x) && x@ == ErrorView::Codec(e),
            },
    {
        let mut nowhere = NullSink::new();
        self.serialize_with_header(&mut nowhere)
    }

    /// Prepares this object for the store: its digest, the path that the
    /// digest gives, and the compressed bytes. Writing them is the caller's.
    pub fn save(&self) -> (r: Result<LooseObject, Error>)
        ensures
            match stored(self@, DEFAULT_LEVEL) {
                Ok((sha1, data)) => r matches Ok(loose) && loose.sha1@ == sha1 && loose.data@
                    == data && loose.path@ == object_path(sha1),
                Err(e) => r matches Err(x) && x@ == e,
            },
    {
        let (sha1, data) = match self.serialize_zlib() {
            Ok(pair) => pair,
            Err(e) => {
                return Err(e);
            },
        };
        let path = digest_path(&sha1);
        Ok(LooseObject { sha1, path, data })
    }

    /// Reads an object from its stored bytes: decompresses them and decodes
    /// the canonical encoding that comes out.
    pub fn deserialize_zlib(data: &[u8]) -> (r: Result<Object, Error>)
        ensures
            match loaded(zlib_inflate(data@)) {
                Ok(object) => r matches Ok(o) && o@ == object,
                Err(e) => r matches Err(x) && x@ == e,
            },
    {
        let plain = match decompress(data) {
            Ok(plain) => plain,
            Err(e) => {
                return Err(e);
            },
        };
        match Object::deserialize_with_header(plain.as_slice()) {
            Ok(object) => Ok(object),
            Err(e) => Err(Error::Codec(e)),
        }
    }
}

} // verus!
