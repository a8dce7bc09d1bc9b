//! Staging one object for publication, and materializing one back.
//!
//! An [`ObjectWriter`] folds every byte it is given into a hash engine
//! and an encoder, so that finishing yields the object's digest
//! together with its compressed stream. An [`ObjectReader`] hands the
//! decompressed bytes of a stored object out in chunks while re-hashing
//! them, so that finishing can verify the expected address.

use vstd::prelude::*;

use crate::codec::{inflate_of, zlib_of, Decoder, Encoder};
use crate::error::StoreError;
use crate::hash::{digest_of, Hasher, HexDigest};

verus! {

/// The mathematical shape of a stored object: its address and its
/// compressed bytes.
pub struct SpecObject {
    pub digest: Seq<u8>,
    pub bytes: Seq<u8>,
}

/// The object that stores the payload `p`.
pub open spec fn obj_for(p: Seq<u8>) -> SpecObject {
    SpecObject { digest: digest_of(p), bytes: zlib_of(p) }
}

/// A well-formed stored object: its digest is the hash of the payload
/// its bytes decompress to.
pub open spec fn obj_wf(o: SpecObject) -> bool {
    exists|p: Seq<u8>| o == obj_for(p)
}

/// One object ready to be published: its content address, and the
/// compressed bytes to be stored under it.
pub struct StoredObject {
    pub digest: HexDigest,
    pub bytes: Vec<u8>,
}

impl View for StoredObject {
    type V = SpecObject;

    open spec fn view(&self) -> SpecObject {
        SpecObject { digest: self.digest@, bytes: self.bytes@ }
    }
}

/// Stages one object: every byte written goes to the encoder
/// (compressed) and to the hash engine (uncompressed), so the digest
/// reflects the payload in the order it was produced.
pub struct ObjectWriter {
    encoder: Encoder,
    hasher: Hasher,
}

impl View for ObjectWriter {
    type V = Seq<u8>;

    /// The payload staged so far.
    closed spec fn view(&self) -> Seq<u8> {
        self.hasher@
    }
}

impl ObjectWriter {
    /// Encoder and hash engine have been fed the same bytes.
    pub closed spec fn wf(&self) -> bool {
        self.encoder@ == self.hasher@
    }

    /// Opens a fresh staging area.
    pub fn new() -> (w: ObjectWriter)
        ensures
            w@ == Seq::<u8>::empty(),
            w.wf(),
    {
        ObjectWriter { encoder: Encoder::new(), hasher: Hasher::new() }
    }

    /// Stages `buf[start..end]`, compressing it and folding it into the
    /// running hash.
    pub fn write_range(&mut self, buf: &Vec<u8>, start: usize, end: usize)
        requires
            old(self).wf(),
            start <= end <= buf@.len(),
        ensures
            final(self).wf(),
            final(self)@ == old(self)@ + buf@.subrange(start as int, end as int),
    {
        self.encoder.write_range(buf, start, end);
        self.hasher.write_range(buf, start, end);
    }

    /// Stages all of `buf`.
    pub fn write_all(&mut self, buf: &Vec<u8>)
        requires
            old(self).wf(),
        ensures
            final(self).wf(),
            final(self)@ == old(self)@ + buf@,
    {
        self.encoder.write_all(buf);
        self.hasher.write_all(buf);
    }

    /// Closes the staged object and returns its digest together with
    /// its compressed bytes. Never fails: both halves work in memory.
    pub fn finish(self) -> (r: StoredObject)
        requires
            self.wf(),
        ensures
            r@ == obj_for(self@),
            r.digest.wf(),
            inflate_of(r@.bytes) == Some(self@),
    {
        let digest = self.hasher.finish();
        let bytes = self.encoder.finish();
        StoredObject { digest, bytes }
    }
}

/// Materializes one stored object: decompresses its bytes, hands them
/// out in chunks, and re-hashes exactly what was handed out so that
/// the expected address can be verified at the end.
pub struct ObjectReader {
    expected: HexDigest,
    decoder: Decoder,
    hasher: Hasher,
}

impl ObjectReader {
    /// The whole decompressed payload of the object being read.
    pub closed spec fn stream(&self) -> Seq<u8> {
        self.decoder@
    }

    /// The bytes handed out to the caller so far.
    pub closed spec fn served(&self) -> Seq<u8> {
        self.hasher@
    }

    /// The digest the object is expected to hash to.
    pub closed spec fn expected(&self) -> Seq<u8> {
        self.expected@
    }

    /// What was handed out is exactly the stream up to the cursor.
    pub closed spec fn wf(&self) -> bool {
        self.decoder.wf() && self.hasher@ == self.decoder@.subrange(0, self.decoder.position())
    }

    /// Whether the whole stream has been handed out.
    pub open spec fn done(&self) -> bool {
        self.served() == self.stream()
    }

    /// Opens a reader over the compressed bytes found at an object's
    /// address. Fails with an I/O failure exactly when they are not a
    /// well-formed compressed stream.
    pub fn new(expected: HexDigest, compressed: &Vec<u8>) -> (r: Result<ObjectReader, StoreError>)
        ensures
            r is Ok <==> inflate_of(compressed@) is Some,
            r is Ok ==> r->Ok_0.stream() == inflate_of(compressed@)->0,
            r is Ok ==> r->Ok_0.expected() == expected@,
            r is Ok ==> r->Ok_0.served() == Seq::<u8>::empty(),
            r is Ok ==> r->Ok_0.wf(),
            r is Err ==> r->Err_0 is Io,
    {
        match Decoder::new(compressed) {
            Ok(decoder) => {
                proof {
                    assert(decoder@.subrange(0, 0) =~= Seq::<u8>::empty());
                }
                Ok(ObjectReader { expected, decoder, hasher: Hasher::new() })
            },
            Err(_) => Err(StoreError::Io),
        }
    }

    /// Hands out the next chunk of at most `max` bytes of the payload;
    /// an empty chunk signals the end of the stream. Every byte handed
    /// out is folded into the running hash.
    pub fn read_chunk(&mut self, max: usize) -> (chunk: Vec<u8>)
        requires
            old(self).wf(),
            max >= 1,
        ensures
            final(self).wf(),
            final(self).stream() == old(self).stream(),
            final(self).expected() == old(self).expected(),
            final(self).served() == old(self).served() + chunk@,
            chunk@.len() == if old(self).stream().len() - old(self).served().len() < max {
                old(self).stream().len() - old(self).served().len()
            } else {
                max as int
            },
            chunk@.len() == 0 ==> old(self).done(),
    {
        let ghost pos0 = self.decoder.position();
        let chunk = self.decoder.read_chunk(max);
        self.hasher.write_all(&chunk);
        proof {
            assert(self.decoder@.subrange(0, pos0) + self.decoder@.subrange(
                pos0,
                self.decoder.position(),
            ) =~= self.decoder@.subrange(0, self.decoder.position()));
            if chunk@.len() == 0 {
                assert(old(self).served() =~= old(self).stream());
            }
        }
        chunk
    }

    /// Closes the read: succeeds exactly when the bytes handed out hash
    /// to the expected digest, and fails with an integrity failure
    /// otherwise.
    pub fn finish(self) -> (r: Result<(), StoreError>)
        ensures
            r is Ok <==> digest_of(self.served()) == self.expected(),
            r is Err ==> r->Err_0 is Integrity,
    {
        let recomputed = self.hasher.finish();
        if recomputed.same(&self.expected) {
            Ok(())
        } else {
            Err(StoreError::Integrity)
        }
    }
}

} // verus!
