//! The uncompressed payload formats: the blob header and the tree entry
//! lines, together with the decimal length rendering they use.

use vstd::prelude::*;

verus! {

/// The ASCII bytes of `n` written in decimal, most significant digit first.
pub open spec fn dec_digits(n: nat) -> Seq<u8>
    decreases n,
{
    if n < 10 {
        seq![(n + 48) as u8]
    } else {
        dec_digits(n / 10).push((n % 10 + 48) as u8)
    }
}

/// The ASCII bytes of `"blob"`.
pub open spec fn blob_kind_bytes() -> Seq<u8> {
    seq![98u8, 108u8, 111u8, 98u8]
}

/// The ASCII bytes of `"tree"`.
pub open spec fn tree_kind_bytes() -> Seq<u8> {
    seq![116u8, 114u8, 101u8, 101u8]
}

/// The header that prefixes a blob payload: `"blob "`, the decimal byte
/// count, then a NUL byte.
pub open spec fn blob_header(n: nat) -> Seq<u8> {
    blob_kind_bytes() + seq![32u8] + dec_digits(n) + seq![0u8]
}

/// The payload of a blob holding the raw bytes `b`: the header, then `b`.
pub open spec fn blob_payload(b: Seq<u8>) -> Seq<u8> {
    blob_header(b.len()) + b
}

/// One formatted tree entry: `"<kind> <hex-digest>\t<name>\n"`.
pub open spec fn entry_line(kind: Seq<u8>, digest: Seq<u8>, name: Seq<u8>) -> Seq<u8> {
    kind + seq![32u8] + digest + seq![9u8] + name + seq![10u8]
}

/// Writes `n` in decimal ASCII.
pub fn format_len(n: usize) -> (v: Vec<u8>)
    ensures
        v@ == dec_digits(n as nat),
{
    let mut digits: Vec<u8> = Vec::new();
    let mut m: usize = n;
    proof {
        assert(dec_digits(n as nat) + digits@ =~= dec_digits(n as nat));
    }
    while m >= 10
        invariant
            dec_digits(m as nat) + digits@ == dec_digits(n as nat),
        decreases m,
    {
        let d: u8 = (m % 10) as u8 + 48;
        let ghost prev = digits@;
        digits.insert(0, d);
        proof {
            assert(digits@ =~= seq![d] + prev);
            assert(dec_digits(m as nat) == dec_digits((m as nat) / 10).push(d));
            assert(dec_digits((m as nat) / 10) + (seq![d] + prev) =~= dec_digits(
                (m as nat) / 10,
            ).push(d) + prev);
        }
        m = m / 10;
    }
    let d: u8 = m as u8 + 48;
    let ghost prev = digits@;
    digits.insert(0, d);
    proof {
        assert(digits@ =~= seq![d] + prev);
        assert(dec_digits(m as nat) == seq![d]);
        assert(seq![d] + prev =~= dec_digits(m as nat) + prev);
    }
    digits
}

/// Writes the ASCII bytes of `"blob"`.
pub fn blob_kind_vec() -> (v: Vec<u8>)
    ensures
        v@ == blob_kind_bytes(),
{
    let mut v: Vec<u8> = Vec::new();
    v.push(98);
    v.push(108);
    v.push(111);
    v.push(98);
    proof {
        assert(v@ =~= blob_kind_bytes());
    }
    v
}

/// Writes the ASCII bytes of `"tree"`.
pub fn tree_kind_vec() -> (v: Vec<u8>)
    ensures
        v@ == tree_kind_bytes(),
{
    let mut v: Vec<u8> = Vec::new();
    v.push(116);
    v.push(114);
    v.push(101);
    v.push(101);
    proof {
        assert(v@ =~= tree_kind_bytes());
    }
    v
}

/// Builds the header of a blob of `n` raw bytes.
pub fn blob_header_vec(n: usize) -> (v: Vec<u8>)
    ensures
        v@ == blob_header(n as nat),
{
    let mut v = blob_kind_vec();
    v.push(32);
    let digits = format_len(n);
    crate::bytes::push_all(&mut v, &digits);
    v.push(0);
    proof {
        assert(v@ =~= blob_header(n as nat));
    }
    v
}

/// Builds one formatted tree entry line.
pub fn entry_line_vec(kind: &Vec<u8>, digest: &Vec<u8>, name: &Vec<u8>) -> (v: Vec<u8>)
    ensures
        v@ == entry_line(kind@, digest@, name@),
{
    let mut v: Vec<u8> = Vec::new();
    crate::bytes::push_all(&mut v, kind);
    v.push(32);
    crate::bytes::push_all(&mut v, digest);
    v.push(9);
    crate::bytes::push_all(&mut v, name);
    v.push(10);
    proof {
        assert(v@ =~= entry_line(kind@, digest@, name@));
    }
    v
}

} // verus!
