//! The stream codec: a symmetric compressor/decompressor pair.
//!
//! Compression and decompression are done by the `flate2` crate behind
//! trusted wrappers that work on whole in-memory buffers; the
//! incremental encoder state and the chunked read interface around them
//! are verified code.

use vstd::prelude::*;

verus! {

#[verifier::external_type_specification]
#[verifier::external_body]
pub struct ExIoError(std::io::Error);

/// What the zlib encoder produces from a byte sequence, at this
/// library's fixed compression level. The stream is a function of the
/// input bytes alone; its definition is left to the `flate2` crate.
pub uninterp spec fn zlib_of(data: Seq<u8>) -> Seq<u8>;

/// What the zlib decoder makes of a byte sequence: the decompressed
/// bytes, or nothing when the sequence is not a well-formed stream. A
/// function of the input bytes alone; left to the `flate2` crate.
pub uninterp spec fn inflate_of(data: Seq<u8>) -> Option<Seq<u8>>;

/// Relies on `flate2::write::ZlibEncoder` at the fast compression
/// level: the compressed stream depends on the input bytes alone, and
/// decoding it yields the input back. The call cannot fail: the
/// encoder surfaces only its sink's write errors, and the sink here is
/// an in-memory `Vec`, whose writes always succeed.
#[verifier::external_body]
fn zlib_compress(data: &Vec<u8>) -> (r: Vec<u8>)
    ensures
        r@ == zlib_of(data@),
        inflate_of(r@) == Some(data@),
{
    let mut e = flate2::write::ZlibEncoder::new(Vec::new(), flate2::Compression::fast());
    std::io::Write::write_all(&mut e, data.as_slice()).expect("a Vec sink cannot fail");
    e.finish().expect("a Vec sink cannot fail")
}

/// Relies on `flate2::read::ZlibDecoder`: decoding depends on the input
/// bytes alone, and fails exactly on byte sequences that are not
/// well-formed zlib streams.
#[verifier::external_body]
fn zlib_decompress(data: &Vec<u8>) -> (r: Result<Vec<u8>, std::io::Error>)
    ensures
        r is Ok <==> inflate_of(data@) is Some,
        r is Ok ==> r->Ok_0@ == inflate_of(data@)->0,
{
    let mut d = flate2::read::ZlibDecoder::new(data.as_slice());
    let mut out = Vec::new();
    std::io::Read::read_to_end(&mut d, &mut out)?;
    Ok(out)
}

/// The compressing half: buffers the bytes written to it; finishing
/// hands back the complete compressed stream.
pub struct Encoder {
    input: Vec<u8>,
}

impl View for Encoder {
    type V = Seq<u8>;

    /// The uncompressed bytes written so far.
    closed spec fn view(&self) -> Seq<u8> {
        self.input@
    }
}

impl Encoder {
    /// A fresh encoder with nothing written yet.
    pub fn new() -> (e: Encoder)
        ensures
            e@ == Seq::<u8>::empty(),
    {
        Encoder { input: Vec::new() }
    }

    /// Forwards `buf[start..end]` to the encoder.
    pub fn write_range(&mut self, buf: &Vec<u8>, start: usize, end: usize)
        requires
            start <= end <= buf@.len(),
        ensures
            final(self)@ == old(self)@ + buf@.subrange(start as int, end as int),
    {
        crate::bytes::push_range(&mut self.input, buf, start, end);
    }

    /// Forwards all of `buf` to the encoder.
    pub fn write_all(&mut self, buf: &Vec<u8>)
        ensures
            final(self)@ == old(self)@ + buf@,
    {
        crate::bytes::push_all(&mut self.input, buf);
    }

    /// Consumes the encoder and returns the complete compressed
    /// stream for everything written. Never fails: the stream is built
    /// in memory, so there is no sink whose writes could fail.
    pub fn finish(self) -> (r: Vec<u8>)
        ensures
            r@ == zlib_of(self@),
            inflate_of(r@) == Some(self@),
    {
        zlib_compress(&self.input)
    }
}

/// The decompressing half: constructed over a complete compressed
/// stream, it hands the decompressed bytes out in chunks.
pub struct Decoder {
    data: Vec<u8>,
    pos: usize,
}

impl View for Decoder {
    type V = Seq<u8>;

    /// The whole decompressed stream.
    closed spec fn view(&self) -> Seq<u8> {
        self.data@
    }
}

impl Decoder {
    /// How many decompressed bytes have been handed out already.
    pub closed spec fn position(&self) -> int {
        self.pos as int
    }

    /// The decoder's cursor never runs past the stream's end.
    pub open spec fn wf(&self) -> bool {
        0 <= self.position() <= self@.len()
    }

    /// Opens a decoder over a compressed stream. Fails with an I/O
    /// failure exactly when the bytes are not a well-formed stream.
    pub fn new(compressed: &Vec<u8>) -> (r: Result<Decoder, crate::error::StoreError>)
        ensures
            r is Ok <==> inflate_of(compressed@) is Some,
            r is Ok ==> r->Ok_0@ == inflate_of(compressed@)->0,
            r is Ok ==> r->Ok_0.position() == 0 && r->Ok_0.wf(),
            r is Err ==> r->Err_0 is Io,
    {
        match zlib_decompress(compressed) {
            Ok(data) => Ok(Decoder { data, pos: 0 }),
            Err(_) => Err(crate::error::StoreError::Io),
        }
    }

    /// Hands out the next chunk of at most `max` decompressed bytes; an
    /// empty chunk signals the end of the stream.
    pub fn read_chunk(&mut self, max: usize) -> (chunk: Vec<u8>)
        requires
            old(self).wf(),
            max >= 1,
        ensures
            final(self).wf(),
            final(self)@ == old(self)@,
            chunk@ == old(self)@.subrange(
                old(self).position(),
                final(self).position(),
            ),
            final(self).position() - old(self).position() == if old(self)@.len() - old(
                self,
            ).position() < max {
                old(self)@.len() - old(self).position()
            } else {
                max as int
            },
    {
        let remaining = self.data.len() - self.pos;
        let take = if remaining < max {
            remaining
        } else {
            max
        };
        let end = self.pos + take;
        let mut chunk: Vec<u8> = Vec::new();
        crate::bytes::push_range(&mut chunk, &self.data, self.pos, end);
        proof {
            assert(chunk@ =~= self.data@.subrange(self.pos as int, end as int));
        }
        self.pos = end;
        chunk
    }
}

} // verus!
