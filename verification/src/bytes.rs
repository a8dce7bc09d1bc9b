//! Small verified helpers on byte vectors.

use vstd::prelude::*;

verus! {

/// Appends `src[start..end]` to `dst`.
pub fn push_range(dst: &mut Vec<u8>, src: &Vec<u8>, start: usize, end: usize)
    requires
        start <= end <= src@.len(),
    ensures
        final(dst)@ == old(dst)@ + src@.subrange(start as int, end as int),
{
    let mut i: usize = start;
    while i < end
        invariant
            start <= i <= end <= src@.len(),
            dst@ == old(dst)@ + src@.subrange(start as int, i as int),
        decreases end - i,
    {
        dst.push(src[i]);
        proof {
            assert(src@.subrange(start as int, i + 1) == src@.subrange(
                start as int,
                i as int,
            ).push(src@[i as int]));
        }
        i = i + 1;
    }
}

/// Appends the whole of `src` to `dst`.
pub fn push_all(dst: &mut Vec<u8>, src: &Vec<u8>)
    ensures
        final(dst)@ == old(dst)@ + src@,
{
    let n = src.len();
    push_range(dst, src, 0, n);
    proof {
        assert(src@.subrange(0, src@.len() as int) == src@);
    }
}

/// Returns a fresh vector holding the same bytes as `src`.
pub fn copy_bytes(src: &Vec<u8>) -> (r: Vec<u8>)
    ensures
        r@ == src@,
{
    let mut r: Vec<u8> = Vec::new();
    push_all(&mut r, src);
    proof {
        assert(Seq::<u8>::empty() + src@ == src@);
    }
    r
}

/// Compares two byte vectors for equality of their contents.
pub fn bytes_eq(a: &Vec<u8>, b: &Vec<u8>) -> (r: bool)
    ensures
        r == (a@ == b@),
{
    if a.len() != b.len() {
        return false;
    }
    let n = a.len();
    let mut i: usize = 0;
    while i < n
        invariant
            0 <= i <= n,
            n == a@.len() == b@.len(),
            forall|j: int| 0 <= j < i ==> a@[j] == b@[j],
        decreases n - i,
    {
        if a[i] != b[i] {
            return false;
        }
        i = i + 1;
    }
    proof {
        assert(a@ =~= b@);
    }
    true
}

} // verus!
