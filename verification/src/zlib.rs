//! Compression of stored bytes, by the `flate2` crate.

use crate::error::{Error, ErrorView, StoreError};
use vstd::prelude::*;

verus! {

/// `std::io::Error`, the error of the encoder and the decoder. Nothing is
/// read from it.
#[verifier::external_type_specification]
#[verifier::external_body]
pub struct ExIoError(std::io::Error);

/// What the zlib encoder gives for `data` at compression level `level`, or
/// nothing where it fails.
pub uninterp spec fn zlib_deflate(data: Seq<u8>, level: u32) -> Option<Seq<u8>>;

/// What the zlib decoder gives for the first zlib stream in `data`, or
/// nothing where `data` starts with no sound stream.
pub uninterp spec fn zlib_inflate(data: Seq<u8>) -> Option<Seq<u8>>;

/// `flate2::write::ZlibEncoder` over a vector: all of `data` is written to a
/// fresh encoder of the given level, which is then finished. The bytes that
/// come out depend on `data` and `level` alone.
#[verifier::external_body]
fn deflate(data: &[u8], level: u32) -> (r: Result<Vec<u8>, std::io::Error>)
    requires
        level <= 9,
    ensures
        match r {
            Ok(out) => zlib_deflate(data@, level) == Some(out@),
            Err(_) => zlib_deflate(data@, level) is None,
        },
{
    let mut encoder = flate2::write::ZlibEncoder::new(Vec::new(), flate2::Compression::new(level));
    std::io::Write::write_all(&mut encoder, data)?;
    encoder.finish()
}

/// `flate2::bufread::ZlibDecoder` over a slice, read to its end: the bytes of
/// the first zlib stream in `data`, or the decoder's error. The outcome
/// depends on `data` alone.
#[verifier::external_body]
fn inflate(data: &[u8]) -> (r: Result<Vec<u8>, std::io::Error>)
    ensures
        match r {
            Ok(out) => zlib_inflate(data@) == Some(out@),
            Err(_) => zlib_inflate(data@) is None,
        },
{
    let mut out = Vec::new();
    std::io::Read::read_to_end(&mut flate2::bufread::ZlibDecoder::new(data), &mut out)?;
    Ok(out)
}

/// The level at which objects are stored where none is asked for.
pub const DEFAULT_LEVEL: u32 = 6;

/// How hard the encoder works, on zlib's scale of 0 (store only) to 9.
#[derive(Clone, Copy, Debug, PartialEq, Eq)]
pub struct Compression {
    level: u32,
}

impl Compression {
    #[verifier::type_invariant]
    spec fn in_range(self) -> bool {
        self.level <= 9
    }

    /// The level as a number.
    pub closed spec fn spec_level(self) -> u32 {
        self.level
    }

    /// The given level, if it is one of 0 to 9.
    pub fn new(level: u32) -> (r: Option<Compression>)
        ensures
            match r {
                Some(c) => level <= 9 && c.spec_level() == level,
                None => level > 9,
            },
    {
        if level <= 9 {
            Some(Compression { level })
        } else {
            None
        }
    }

    /// No compression: level 0.
    pub fn none() -> (r: Compression)
        ensures
            r.spec_level() == 0,
    {
        Compression { level: 0 }
    }

    /// The fastest compression: level 1.
    pub fn fast() -> (r: Compression)
        ensures
            r.spec_level() == 1,
    {
        Compression { level: 1 }
    }

    /// The smallest output: level 9.
    pub fn best() -> (r: Compression)
        ensures
            r.spec_level() == 9,
    {
        Compression { level: 9 }
    }

    /// The level as a number, from 0 to 9.
    #[verifier::when_used_as_spec(spec_level)]
    pub fn level(self) -> (r: u32)
        ensures
            r == self.spec_level(),
            r <= 9,
    {
        proof {
            use_type_invariant(self);
        }
        self.level
    }
}

impl Default for Compression {
    /// The usual trade of speed for size: level 6.
    fn default() -> (r: Compression)
        ensures
            r.spec_level() == DEFAULT_LEVEL,
    {
        Compression { level: DEFAULT_LEVEL }
    }
}

/// What compressing `data` comes to, given what the encoder gave.
pub open spec fn compressed(deflated: Option<Seq<u8>>) -> Result<Seq<u8>, ErrorView> {
    match deflated {
        Some(out) => Ok(out),
        None => Err(ErrorView::Store(StoreError::IOFailure)),
    }
}

/// Whether an outcome with bytes is the one that the model gives.
pub open spec fn bytes_as(r: Result<Vec<u8>, Error>, expected: Result<Seq<u8>, ErrorView>) -> bool {
    match r {
        Ok(out) => expected == Ok::<Seq<u8>, ErrorView>(out@),
        Err(e) => expected == Err::<Seq<u8>, ErrorView>(e@),
    }
}

/// Compresses `data` into one zlib stream.
pub fn compress(data: &[u8], level: Compression) -> (r: Result<Vec<u8>, Error>)
    ensures
        bytes_as(r, compressed(zlib_deflate(data@, level.spec_level()))),
{
    match deflate(data, level.level()) {
        Ok(out) => Ok(out),
        Err(_) => Err(Error::Store(StoreError::IOFailure)),
    }
}

/// Decompresses the zlib stream that `data` starts with.
pub fn decompress(data: &[u8]) -> (r: Result<Vec<u8>, Error>)
    ensures
        bytes_as(r, compressed(zlib_inflate(data@))),
{
    match inflate(data) {
        Ok(out) => Ok(out),
        Err(_) => Err(Error::Store(StoreError::IOFailure)),
    }
}

} // verus!
