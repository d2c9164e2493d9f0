//! SHA-1 digests and their hexadecimal form.

use crate::error::Error;
use crate::sink::Sink;
use vstd::prelude::*;
use vstd::string::StringExecFns;

verus! {

/// A running SHA-1 computation. It holds the hasher of the `sha1` crate,
/// `sha1::Sha1`, whose type is bounded by traits of other crates and cannot
/// be declared to the verifier. So the whole struct is opaque: all that is
/// known of it is which bytes it was fed.
#[verifier::external_body]
pub struct Hasher {
    state: sha1::Sha1,
}

/// The bytes that a hasher has been fed so far, in order.
pub uninterp spec fn hasher_absorbed(h: Hasher) -> Seq<u8>;

/// The SHA-1 digest of a byte string.
pub uninterp spec fn sha1_digest(data: Seq<u8>) -> Seq<u8>;

/// `Sha1::new` of the `sha1` crate: a fresh hasher, which has been fed
/// nothing.
#[verifier::external_body]
fn hasher_new() -> (h: Hasher)
    ensures
        hasher_absorbed(h) == Seq::<u8>::empty(),
{
    Hasher { state: <sha1::Sha1 as sha1::Digest>::new() }
}

/// `Digest::update` of the `sha1` crate: the hasher is fed `data` after what
/// it was fed before. The call cannot fail.
#[verifier::external_body]
fn hasher_update(h: &mut Hasher, data: &[u8])
    ensures
        hasher_absorbed(*final(h)) == hasher_absorbed(*old(h)) + data@,
{
    sha1::Digest::update(&mut h.state, data)
}

/// `Digest::finalize` of the `sha1` crate: the SHA-1 digest of all that the
/// hasher was fed, which is 20 bytes long.
#[verifier::external_body]
fn hasher_finalize(h: Hasher) -> (d: Vec<u8>)
    ensures
        d@ == sha1_digest(hasher_absorbed(h)),
        d@.len() == 20,
{
    sha1::Digest::finalize(h.state).to_vec()
}

/// The sixteen hexadecimal digits, lower case.
pub open spec fn hex_digits() -> Seq<char> {
    seq!['0', '1', '2', '3', '4', '5', '6', '7', '8', '9', 'a', 'b', 'c', 'd', 'e', 'f']
}

/// The hexadecimal form of a byte string: two lower-case digits for each
/// byte, the high half first.
pub open spec fn hex(bytes: Seq<u8>) -> Seq<char> {
    Seq::new(
        2 * bytes.len(),
        |i: int|
            hex_digits()[if i % 2 == 0 {
                bytes[i / 2] as int / 16
            } else {
                bytes[i / 2] as int % 16
            }],
    )
}

/// Whether a character is a lower-case hexadecimal digit.
pub open spec fn is_hex_digit(c: char) -> bool {
    ('0' <= c <= '9') || ('a' <= c <= 'f')
}

/// Whether a string has the form of a SHA-1 digest in hexadecimal: 40
/// lower-case hexadecimal digits.
pub open spec fn is_digest(s: Seq<char>) -> bool {
    &&& s.len() == 40
    &&& forall|i: int| 0 <= i < s.len() ==> is_hex_digit(#[trigger] s[i])
}

/// The hexadecimal form of 20 bytes has the form of a digest.
pub proof fn lemma_hex_is_digest(bytes: Seq<u8>)
    requires
        bytes.len() == 20,
    ensures
        is_digest(hex(bytes)),
{
    assert forall|i: int| 0 <= i < hex(bytes).len() implies is_hex_digit(
        #[trigger] hex(bytes)[i],
    ) by {
        let d = if i % 2 == 0 {
            bytes[i / 2] as int / 16
        } else {
            bytes[i / 2] as int % 16
        };
        assert(0 <= d < 16);
        assert(hex(bytes)[i] == hex_digits()[d]);
        assert(forall|k: int| 0 <= k < 16 ==> is_hex_digit(#[trigger] hex_digits()[k]));
    }
}

/// The digest under which a byte string is known: the hexadecimal form of
/// its SHA-1.
pub open spec fn hex_sha1(data: Seq<u8>) -> Seq<char> {
    hex(sha1_digest(data))
}

fn hex_digit(n: u8) -> (r: &'static str)
    requires
        n < 16,
    ensures
        r@ == seq![hex_digits()[n as int]],
{
    proof {
        reveal_strlit("0");
        reveal_strlit("1");
        reveal_strlit("2");
        reveal_strlit("3");
        reveal_strlit("4");
        reveal_strlit("5");
        reveal_strlit("6");
        reveal_strlit("7");
        reveal_strlit("8");
        reveal_strlit("9");
        reveal_strlit("a");
        reveal_strlit("b");
        reveal_strlit("c");
        reveal_strlit("d");
        reveal_strlit("e");
        reveal_strlit("f");
    }
    let r = match n {
        0 => "0",
        1 => "1",
        2 => "2",
        3 => "3",
        4 => "4",
        5 => "5",
        6 => "6",
        7 => "7",
        8 => "8",
        9 => "9",
        10 => "a",
        11 => "b",
        12 => "c",
        13 => "d",
        14 => "e",
        _ => "f",
    };
    assert(r@ =~= seq![hex_digits()[n as int]]);
    r
}

/// Writes bytes in hexadecimal, lower case.
pub fn to_hex(bytes: &[u8]) -> (r: String)
    ensures
        r@ == hex(bytes@),
{
    let mut out = String::new();
    let mut i: usize = 0;
    while i < bytes.len()
        invariant
            i <= bytes@.len(),
            out@ == hex(bytes@.take(i as int)),
        decreases bytes@.len() - i,
    {
        let b: u8 = bytes[i];
        out.append(hex_digit(b / 16));
        out.append(hex_digit(b % 16));
        assert(out@ =~= hex(bytes@.take(i + 1)));
        i += 1;
    }
    assert(bytes@.take(i as int) =~= bytes@);
    out
}

impl Hasher {
    /// A hasher that has been fed nothing.
    pub fn new() -> (r: Hasher)
        ensures
            r.accepted() == Seq::<u8>::empty(),
    {
        hasher_new()
    }

    /// The SHA-1 digest of all that was written to this hasher: 20 bytes.
    pub fn finalize(self) -> (r: Vec<u8>)
        ensures
            r@ == sha1_digest(self.accepted()),
            r@.len() == 20,
    {
        hasher_finalize(self)
    }

    /// The SHA-1 digest of all that was written to this hasher, in
    /// hexadecimal.
    pub fn finalize_hex(self) -> (r: String)
        ensures
            r@ == hex_sha1(self.accepted()),
            is_digest(r@),
    {
        let digest = hasher_finalize(self);
        proof {
            lemma_hex_is_digest(digest@);
        }
        to_hex(digest.as_slice())
    }
}

/// A hasher takes every byte it is given into the digest.
impl Sink for Hasher {
    open spec fn accepted(&self) -> Seq<u8> {
        hasher_absorbed(*self)
    }

    open spec fn reliable(&self) -> bool {
        true
    }

    /// Every byte goes into the digest as it is taken.
    open spec fn flushed(&self) -> bool {
        true
    }

    fn write(&mut self, buf: &[u8]) -> (r: Result<usize, Error>) {
        hasher_update(self, buf);
        assert(buf@.take(buf@.len() as int) =~= buf@);
        Ok(buf.len())
    }

    fn write_all(&mut self, buf: &[u8]) -> (r: Result<(), Error>) {
        hasher_update(self, buf);
        Ok(())
    }

    fn flush(&mut self) -> (r: Result<(), Error>) {
        Ok(())
    }
}

} // verus!
