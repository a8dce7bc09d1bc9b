//! The object store facade: blob writes, recursive tree writes and
//! verified blob reads against a root location.
//!
//! The store itself works on plain bytes. Writing stages an object and
//! returns its digest together with the compressed bytes to publish;
//! the caller persists each published object at the path
//! [`ObjectStore::object_path`] derives from its digest. Reading takes
//! the compressed bytes found at such a path and re-verifies the
//! digest against what is handed back.

use vstd::prelude::*;

use crate::bytes::push_all;
use crate::codec::{inflate_of, zlib_of};
use crate::error::StoreError;
use crate::hash::{digest_of, HexDigest};
use crate::object::{obj_for, obj_wf, ObjectReader, ObjectWriter, StoredObject};
use crate::payload::{blob_header, blob_kind_vec, blob_payload, entry_line_vec, tree_kind_vec};
use crate::tree::{
    dir_objects, entries_objects, entries_payload, entries_supported, failed_objects,
    lemma_entries_full, lemma_entries_step, lemma_entries_supported_pointwise,
    lemma_failed_objects_split, node_objects, TreeEntry, TreeNode,
};

verus! {

/// The fan-out path of a digest, relative to the store root: the first
/// two digits name the subdirectory, the rest name the object file.
pub open spec fn object_rel_path(digest: Seq<u8>) -> Seq<u8>
    recommends
        digest.len() >= 2,
{
    digest.subrange(0, 2) + seq![47u8] + digest.subrange(2, digest.len() as int)
}

/// What a read of an object stored as `z` under the address `digest`
/// returns: the decompressed payload when `z` decodes and hashes to
/// `digest`, the matching failure otherwise.
pub open spec fn read_blob_spec(digest: Seq<u8>, z: Seq<u8>) -> Result<Seq<u8>, StoreError> {
    match inflate_of(z) {
        Option::None => Result::Err(StoreError::Io),
        Option::Some(p) => if digest_of(p) == digest {
            Result::Ok(p)
        } else {
            Result::Err(StoreError::Integrity)
        },
    }
}

/// The store facade over a fixed root location.
pub struct ObjectStore {
    location: Vec<u8>,
}

impl View for ObjectStore {
    type V = Seq<u8>;

    /// The root location's path bytes.
    closed spec fn view(&self) -> Seq<u8> {
        self.location@
    }
}

impl ObjectStore {
    /// A store rooted at `location`.
    pub fn new(location: Vec<u8>) -> (s: ObjectStore)
        ensures
            s@ == location@,
    {
        ObjectStore { location }
    }

    /// The path of the object addressed by `digest`: the root location,
    /// the two-digit fan-out subdirectory, then the object file.
    pub fn object_path(&self, digest: &HexDigest) -> (p: Vec<u8>)
        requires
            digest.wf(),
        ensures
            p@ == self@ + seq![47u8] + object_rel_path(digest@),
    {
        let mut p: Vec<u8> = Vec::new();
        push_all(&mut p, &self.location);
        p.push(47);
        let d = digest.as_bytes();
        p.push(d[0]);
        p.push(d[1]);
        p.push(47);
        let mut i: usize = 2;
        let n = d.len();
        while i < n
            invariant
                2 <= i <= n,
                n == d@.len(),
                p@ == self.location@ + seq![47u8] + d@.subrange(0, 2) + seq![47u8] + d@.subrange(
                    2,
                    i as int,
                ),
            decreases n - i,
        {
            p.push(d[i]);
            proof {
                assert(d@.subrange(2, i + 1) =~= d@.subrange(2, i as int).push(d@[i as int]));
                assert(p@ =~= self.location@ + seq![47u8] + d@.subrange(0, 2) + seq![47u8]
                    + d@.subrange(2, i + 1));
            }
            i = i + 1;
        }
        proof {
            assert(p@ =~= self@ + seq![47u8] + object_rel_path(digest@));
        }
        p
    }

    /// Writes the raw bytes of one file as a blob object: stages the
    /// header and then the contents in chunks of `buf_size` bytes,
    /// appends the finished object to `out`, and returns its digest.
    /// The chunk size never affects the digest, and the call never
    /// fails: the whole staging pipeline runs in memory.
    pub fn write_blob(
        &self,
        contents: &Vec<u8>,
        buf_size: usize,
        out: &mut Vec<StoredObject>,
    ) -> (d: HexDigest)
        requires
            buf_size >= 1,
        ensures
            d@ == digest_of(blob_payload(contents@)),
            d.wf(),
            final(out)@.len() == old(out)@.len() + 1,
            forall|j: int| 0 <= j < old(out)@.len() ==> final(out)@[j] == old(out)@[j],
            final(out)@[old(out)@.len() as int]@ == obj_for(blob_payload(contents@)),
            forall|j: int|
                old(out)@.len() <= j < final(out)@.len() ==> obj_wf(#[trigger] final(out)@[j]@),
            inflate_of(zlib_of(blob_payload(contents@))) == Some(blob_payload(contents@)),
    {
        let mut writer = ObjectWriter::new();
        let header = crate::payload::blob_header_vec(contents.len());
        writer.write_all(&header);
        proof {
            assert(Seq::<u8>::empty() + header@ =~= blob_header(contents@.len()));
        }
        let n = contents.len();
        let mut i: usize = 0;
        while i < n
            invariant
                buf_size >= 1,
                0 <= i <= n,
                n == contents@.len(),
                writer.wf(),
                writer@ == blob_header(contents@.len()) + contents@.subrange(0, i as int),
            decreases n - i,
        {
            let end = if n - i < buf_size {
                n
            } else {
                i + buf_size
            };
            writer.write_range(contents, i, end);
            proof {
                assert(contents@.subrange(0, i as int) + contents@.subrange(i as int, end as int)
                    =~= contents@.subrange(0, end as int));
                assert(writer@ =~= blob_header(contents@.len()) + contents@.subrange(
                    0,
                    end as int,
                ));
            }
            i = end;
        }
        proof {
            assert(contents@.subrange(0, n as int) =~= contents@);
            assert(writer@ =~= blob_payload(contents@));
        }
        let obj = writer.finish();
        let digest = obj.digest.clone();
        out.push(obj);
        proof {
            assert(obj_wf(out@[old(out)@.len() as int]@)) by {
                assert(out@[old(out)@.len() as int]@ == obj_for(blob_payload(contents@)));
            }
        }
        digest
    }

    /// Writes one directory as a tree object. Every child is written
    /// first — a file as a blob, a subdirectory recursively as a tree —
    /// and contributes one formatted entry line to the tree's payload.
    /// The call succeeds exactly when every entry of the tree is a
    /// file or a directory; a child of any other kind fails it with
    /// the unsupported-entry failure, staging only what was written
    /// before that child — never this directory's own tree object. The
    /// finished objects are appended to `out` in publication order,
    /// children before the tree object itself, and every appended
    /// object's digest is the hash of the payload its bytes decompress
    /// to.
    pub fn write_tree(
        &self,
        entries: &Vec<TreeEntry>,
        buf_size: usize,
        out: &mut Vec<StoredObject>,
    ) -> (r: Result<HexDigest, StoreError>)
        requires
            buf_size >= 1,
        ensures
            old(out)@.len() <= final(out)@.len(),
            forall|j: int| 0 <= j < old(out)@.len() ==> final(out)@[j] == old(out)@[j],
            forall|j: int|
                old(out)@.len() <= j < final(out)@.len() ==> obj_wf(#[trigger] final(out)@[j]@),
            r is Ok <==> entries_supported(entries@),
            r is Ok ==> r->Ok_0@ == digest_of(entries_payload(entries@)) && r->Ok_0.wf(),
            r is Ok ==> final(out)@.len() == old(out)@.len() + dir_objects(entries@).len(),
            r is Ok ==> forall|j: int|
                0 <= j < dir_objects(entries@).len() ==> final(out)@[old(out)@.len() + j]@
                    == #[trigger] dir_objects(entries@)[j],
            r is Ok ==> inflate_of(zlib_of(entries_payload(entries@))) == Some(
                entries_payload(entries@),
            ),
            r is Err ==> r->Err_0 is Unsupported,
            r is Err ==> final(out)@.len() == old(out)@.len() + failed_objects(entries@).len(),
            r is Err ==> forall|j: int|
                0 <= j < failed_objects(entries@).len() ==> final(out)@[old(out)@.len() + j]@
                    == #[trigger] failed_objects(entries@)[j],
        decreases entries@,
    {
        let mut writer = ObjectWriter::new();
        let n = entries.len();
        let mut i: usize = 0;
        proof {
            assert(entries@.subrange(0, 0) =~= Seq::<TreeEntry>::empty());
        }
        while i < n
            invariant
                buf_size >= 1,
                0 <= i <= n,
                n == entries@.len(),
                writer.wf(),
                writer@ == entries_payload(entries@.subrange(0, i as int)),
                entries_supported(entries@.subrange(0, i as int)),
                old(out)@.len() <= out@.len(),
                forall|j: int| 0 <= j < old(out)@.len() ==> out@[j] == old(out)@[j],
                forall|j: int| old(out)@.len() <= j < out@.len() ==> obj_wf(#[trigger] out@[j]@),
                out@.len() == old(out)@.len() + entries_objects(entries@.subrange(0, i as int)).len(),
                forall|j: int|
                    0 <= j < entries_objects(entries@.subrange(0, i as int)).len() ==> out@[old(
                        out,
                    )@.len() + j]@ == #[trigger] entries_objects(entries@.subrange(0, i as int))[j],
            decreases n - i,
        {
            let ghost prefix = entries@.subrange(0, i as int);
            let entry = &entries[i];
            proof {
                assert(decreases_to!(entries@ => entries@[i as int]));
            }
            let line = match &entry.node {
                TreeNode::File { bytes } => {
                    let d = self.write_blob(bytes, buf_size, out);
                    let kind = blob_kind_vec();
                    entry_line_vec(&kind, d.as_bytes(), &entry.name)
                },
                TreeNode::Dir { children } => {
                    let d = match self.write_tree(children, buf_size, out) {
                        Ok(d) => d,
                        Err(e) => {
                            proof {
                                lemma_entries_supported_pointwise(entries@);
                                lemma_failed_objects_split(entries@, i as int);
                            }
                            return Err(e);
                        },
                    };
                    let kind = tree_kind_vec();
                    entry_line_vec(&kind, d.as_bytes(), &entry.name)
                },
                TreeNode::Unsupported => {
                    proof {
                        lemma_entries_supported_pointwise(entries@);
                        lemma_failed_objects_split(entries@, i as int);
                        assert(failed_objects(entries@) =~= entries_objects(prefix));
                    }
                    return Err(StoreError::Unsupported);
                },
            };
            writer.write_all(&line);
            proof {
                lemma_entries_step(entries@, i as int);
                assert(writer@ =~= entries_payload(entries@.subrange(0, i + 1)));
                assert(entries_objects(entries@.subrange(0, i + 1)) =~= entries_objects(prefix)
                    + node_objects(entries@[i as int].node));
            }
            i = i + 1;
        }
        proof {
            lemma_entries_full(entries@);
        }
        let obj = writer.finish();
        let digest = obj.digest.clone();
        out.push(obj);
        proof {
            assert(obj_wf(out@[out@.len() - 1]@)) by {
                assert(out@[out@.len() - 1]@ == obj_for(entries_payload(entries@)));
            }
            assert(forall|j: int|
                0 <= j < dir_objects(entries@).len() ==> out@[old(out)@.len() + j]@
                    == #[trigger] dir_objects(entries@)[j]);
        }
        Ok(digest)
    }

    /// Reads the object addressed by `digest` from the compressed
    /// bytes found at its path: decompresses them in chunks of
    /// `buf_size` bytes, and hands the payload back only when it
    /// hashes to `digest`.
    pub fn read_blob(
        &self,
        digest: &HexDigest,
        compressed: &Vec<u8>,
        buf_size: usize,
    ) -> (r: Result<Vec<u8>, StoreError>)
        requires
            buf_size >= 1,
        ensures
            r is Ok <==> read_blob_spec(digest@, compressed@) is Ok,
            r is Ok ==> r->Ok_0@ == read_blob_spec(digest@, compressed@)->Ok_0,
            r is Err ==> r->Err_0 == read_blob_spec(digest@, compressed@)->Err_0,
    {
        let mut reader = match ObjectReader::new(digest.clone(), compressed) {
            Ok(reader) => reader,
            Err(e) => {
                return Err(e);
            },
        };
        let mut result: Vec<u8> = Vec::new();
        loop
            invariant_except_break
                buf_size >= 1,
                reader.wf(),
                reader.stream() == inflate_of(compressed@)->0,
                reader.expected() == digest@,
                result@ == reader.served(),
            ensures
                reader.stream() == inflate_of(compressed@)->0,
                reader.expected() == digest@,
                result@ == reader.served(),
                reader.done(),
            decreases reader.stream().len() - reader.served().len(),
        {
            let chunk = reader.read_chunk(buf_size);
            if chunk.len() == 0 {
                break;
            }
            push_all(&mut result, &chunk);
        }
        match reader.finish() {
            Ok(()) => Ok(result),
            Err(e) => Err(e),
        }
    }
}

} // verus!
