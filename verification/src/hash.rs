//! The hash engine: an incremental hasher whose digest names an object.
//!
//! The digest of a payload is the lowercase hexadecimal rendering of its
//! SHA-1 hash. Hashing itself is done by the `sha1` crate behind a
//! trusted wrapper; the hexadecimal rendering is verified code.

use vstd::prelude::*;

verus! {

/// What the SHA-1 hash of a byte sequence is. The hash is a function of
/// the bytes alone; its definition is left to the `sha1` crate.
pub uninterp spec fn sha1_of(data: Seq<u8>) -> Seq<u8>;

/// Relies on the `sha1` crate's `Digest` implementation for `Sha1`:
/// the digest depends on the fed bytes alone and is 20 bytes long.
#[verifier::external_body]
fn sha1_bytes(data: &Vec<u8>) -> (r: Vec<u8>)
    ensures
        r@ == sha1_of(data@),
        r@.len() == 20,
{
    let mut h = <sha1::Sha1 as sha1::Digest>::new();
    sha1::Digest::update(&mut h, data.as_slice());
    sha1::Digest::finalize(h).to_vec()
}

/// Whether `b` is an ASCII lowercase hexadecimal digit.
pub open spec fn is_hex_lower(b: u8) -> bool {
    (48 <= b <= 57) || (97 <= b <= 102)
}

/// The ASCII byte of the hexadecimal digit `n`, for `n < 16`.
pub open spec fn hex_digit(n: nat) -> u8 {
    if n < 10 {
        (48 + n) as u8
    } else {
        (87 + n) as u8
    }
}

/// The lowercase hexadecimal rendering of a byte sequence: two digits
/// per byte, high nibble first.
pub open spec fn hex_of(s: Seq<u8>) -> Seq<u8> {
    Seq::new(
        s.len() * 2,
        |i: int|
            if i % 2 == 0 {
                hex_digit((s[i / 2] / 16) as nat)
            } else {
                hex_digit((s[i / 2] % 16) as nat)
            },
    )
}

/// The content address of a payload: the lowercase hexadecimal
/// rendering of its SHA-1 hash, 40 digits.
pub open spec fn digest_of(payload: Seq<u8>) -> Seq<u8> {
    hex_of(sha1_of(payload))
}

pub proof fn lemma_hex_of_is_hex(s: Seq<u8>)
    ensures
        hex_of(s).len() == s.len() * 2,
        forall|i: int| 0 <= i < hex_of(s).len() ==> is_hex_lower(#[trigger] hex_of(s)[i]),
{
    assert forall|i: int| 0 <= i < hex_of(s).len() implies is_hex_lower(#[trigger] hex_of(s)[i]) by {
        if i % 2 == 0 {
            assert(s[i / 2] / 16 < 16) by {
                assert(s[i / 2] <= 255);
            }
        } else {
            assert(s[i / 2] % 16 < 16);
        }
    }
}

/// Renders bytes in lowercase hexadecimal.
pub fn hex_encode(data: &Vec<u8>) -> (v: Vec<u8>)
    ensures
        v@ == hex_of(data@),
{
    let n = data.len();
    let mut v: Vec<u8> = Vec::new();
    let mut i: usize = 0;
    while i < n
        invariant
            0 <= i <= n,
            n == data@.len(),
            v@ =~= hex_of(data@).subrange(0, 2 * i),
        decreases n - i,
    {
        let b = data[i];
        let hi = b / 16;
        let lo = b % 16;
        let hi_digit: u8 = if hi < 10 {
            48 + hi
        } else {
            87 + hi
        };
        let lo_digit: u8 = if lo < 10 {
            48 + lo
        } else {
            87 + lo
        };
        proof {
            assert((2 * i as int) / 2 == i as int);
            assert((2 * i as int + 1) / 2 == i as int);
            assert(hi_digit == hex_of(data@)[2 * i as int]);
            assert(lo_digit == hex_of(data@)[2 * i as int + 1]);
        }
        v.push(hi_digit);
        v.push(lo_digit);
        proof {
            assert(v@ =~= hex_of(data@).subrange(0, 2 * (i + 1)));
        }
        i = i + 1;
    }
    proof {
        assert(hex_of(data@).subrange(0, 2 * (n as int)) =~= hex_of(data@));
    }
    v
}

/// A content address: the fixed-format lowercase hexadecimal digest of
/// an object's payload. Produced only by finalizing a [`Hasher`].
#[derive(Debug)]
pub struct HexDigest {
    bytes: Vec<u8>,
}

impl View for HexDigest {
    type V = Seq<u8>;

    closed spec fn view(&self) -> Seq<u8> {
        self.bytes@
    }
}

impl HexDigest {
    /// A well-formed digest: 40 lowercase hexadecimal ASCII bytes.
    pub open spec fn wf(&self) -> bool {
        self@.len() == 40 && forall|i: int| 0 <= i < self@.len() ==> is_hex_lower(#[trigger] self@[i])
    }

    /// The digest's bytes, all ASCII.
    pub fn as_bytes(&self) -> (r: &Vec<u8>)
        ensures
            r@ == self@,
    {
        &self.bytes
    }

    /// Whether two digests address the same content.
    pub fn same(&self, other: &HexDigest) -> (r: bool)
        ensures
            r == (self@ == other@),
    {
        crate::bytes::bytes_eq(&self.bytes, &other.bytes)
    }
}

impl Clone for HexDigest {
    fn clone(&self) -> (r: Self)
        ensures
            r@ == self@,
    {
        HexDigest { bytes: crate::bytes::copy_bytes(&self.bytes) }
    }
}

/// The hash engine: folds bytes into a running state, any number of
/// times; finalizing returns the digest of everything fed so far.
pub struct Hasher {
    data: Vec<u8>,
}

impl View for Hasher {
    type V = Seq<u8>;

    /// The bytes fed so far.
    closed spec fn view(&self) -> Seq<u8> {
        self.data@
    }
}

impl Hasher {
    /// A fresh engine with nothing fed yet.
    pub fn new() -> (h: Hasher)
        ensures
            h@ == Seq::<u8>::empty(),
    {
        Hasher { data: Vec::new() }
    }

    /// Folds `buf[start..end]` into the running state. Never fails.
    pub fn write_range(&mut self, buf: &Vec<u8>, start: usize, end: usize)
        requires
            start <= end <= buf@.len(),
        ensures
            final(self)@ == old(self)@ + buf@.subrange(start as int, end as int),
    {
        crate::bytes::push_range(&mut self.data, buf, start, end);
    }

    /// Folds all of `buf` into the running state. Never fails.
    pub fn write_all(&mut self, buf: &Vec<u8>)
        ensures
            final(self)@ == old(self)@ + buf@,
    {
        crate::bytes::push_all(&mut self.data, buf);
    }

    /// Consumes the engine and returns the digest of the bytes fed.
    pub fn finish(self) -> (d: HexDigest)
        ensures
            d@ == digest_of(self@),
            d.wf(),
    {
        let raw = sha1_bytes(&self.data);
        let bytes = hex_encode(&raw);
        proof {
            lemma_hex_of_is_hex(raw@);
        }
        HexDigest { bytes }
    }
}

} // verus!
