//! The store-wide properties, stated and proved over the same spec
//! functions the executable contracts use.

use vstd::prelude::*;

use crate::codec::{inflate_of, zlib_of};
use crate::error::StoreError;
use crate::hash::digest_of;
use crate::object::obj_for;
use crate::payload::{blob_header, blob_payload, dec_digits};
use crate::store::{object_rel_path, read_blob_spec};

verus! {

/// A decimal rendering always has at least one digit.
proof fn lemma_dec_len_pos(n: nat)
    ensures
        dec_digits(n).len() >= 1,
    decreases n,
{
    if n >= 10 {
        lemma_dec_len_pos(n / 10);
    }
}

/// A larger number never has a shorter decimal rendering.
proof fn lemma_dec_len_monotone(a: nat, b: nat)
    requires
        a <= b,
    ensures
        dec_digits(a).len() <= dec_digits(b).len(),
    decreases b,
{
    if b < 10 {
    } else if a < 10 {
        lemma_dec_len_pos(b / 10);
    } else {
        vstd::arithmetic::div_mod::lemma_div_is_ordered(a as int, b as int, 10);
        lemma_dec_len_monotone(a / 10, b / 10);
    }
}

/// A blob payload is its header followed by its raw bytes, and the
/// header grows with the byte count, so the whole payload's length
/// grows strictly with the byte count.
proof fn lemma_blob_payload_len_strict(b1: Seq<u8>, b2: Seq<u8>)
    requires
        b1.len() < b2.len(),
    ensures
        blob_payload(b1).len() < blob_payload(b2).len(),
{
    lemma_dec_len_monotone(b1.len(), b2.len());
}

/// Content addressing, up to the hash: distinct raw contents always
/// build distinct blob payloads, so writes of distinct contents hash
/// distinct inputs. (That the digests themselves then differ is the
/// collision resistance of the hash, which no proof here can supply.)
pub proof fn lemma_blob_payload_injective(b1: Seq<u8>, b2: Seq<u8>)
    requires
        b1 != b2,
    ensures
        blob_payload(b1) != blob_payload(b2),
{
    if b1.len() == b2.len() {
        let h = blob_header(b1.len()).len() as int;
        if blob_payload(b1) == blob_payload(b2) {
            assert forall|k: int| 0 <= k < b1.len() implies b1[k] == b2[k] by {
                assert(blob_payload(b1)[h + k] == b1[k]);
                assert(blob_payload(b2)[h + k] == b2[k]);
            }
            assert(b1 =~= b2);
        }
    } else if b1.len() < b2.len() {
        lemma_blob_payload_len_strict(b1, b2);
    } else {
        lemma_blob_payload_len_strict(b2, b1);
    }
}

/// Round trip: reading back what a blob write stored — the compressed
/// payload, under the payload's digest — succeeds and returns exactly
/// the blob payload of the written contents, header prefix included.
/// The hypothesis is what the codec guarantees of every stream the
/// encoder produced: decoding it yields the encoded bytes back.
pub proof fn lemma_blob_round_trip(b: Seq<u8>)
    requires
        inflate_of(zlib_of(blob_payload(b))) == Some(blob_payload(b)),
    ensures
        read_blob_spec(digest_of(blob_payload(b)), zlib_of(blob_payload(b))) == Result::<
            Seq<u8>,
            StoreError,
        >::Ok(blob_payload(b)),
{
}

/// Tamper detection, read side: a read that succeeds only ever hands
/// back bytes that hash to the requested digest; corrupted bytes are
/// never returned silently.
pub proof fn lemma_read_integrity(digest: Seq<u8>, z: Seq<u8>, p: Seq<u8>)
    requires
        read_blob_spec(digest, z) == Result::<Seq<u8>, StoreError>::Ok(p),
    ensures
        digest_of(p) == digest,
{
}

/// Idempotent re-write: the object and the fan-out path derived for a
/// blob depend on its contents alone, so writing the same contents
/// twice stages byte-identical objects for one and the same path.
pub proof fn lemma_rewrite_idempotent(b1: Seq<u8>, b2: Seq<u8>)
    requires
        b1 == b2,
    ensures
        obj_for(blob_payload(b1)) == obj_for(blob_payload(b2)),
        object_rel_path(digest_of(blob_payload(b1))) == object_rel_path(
            digest_of(blob_payload(b2)),
        ),
{
}

} // verus!
