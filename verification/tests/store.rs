//! Behavioral tests of the object store: blob and tree writes, reads,
//! integrity checking, and the payload formats.

use objstore::error::StoreError;
use objstore::object::StoredObject;
use objstore::store::ObjectStore;
use objstore::tree::{TreeEntry, TreeNode};

fn store() -> ObjectStore {
    ObjectStore::new(b"objects".to_vec())
}

/// The blob payload of `contents`: `"blob "`, decimal length, NUL,
/// then the raw bytes.
fn expected_blob_payload(contents: &[u8]) -> Vec<u8> {
    let mut p = Vec::new();
    p.extend_from_slice(b"blob ");
    p.extend_from_slice(contents.len().to_string().as_bytes());
    p.push(0);
    p.extend_from_slice(contents);
    p
}

fn sha1_hex(data: &[u8]) -> Vec<u8> {
    let mut h = <sha1::Sha1 as sha1::Digest>::new();
    sha1::Digest::update(&mut h, data);
    let raw = sha1::Digest::finalize(h);
    let mut hex = Vec::new();
    for b in raw.iter() {
        let digits = b"0123456789abcdef";
        hex.push(digits[(b >> 4) as usize]);
        hex.push(digits[(b & 15) as usize]);
    }
    hex
}

#[test]
fn blob_round_trip() {
    let s = store();
    let contents = b"hello world".to_vec();
    let mut out: Vec<StoredObject> = Vec::new();
    let digest = s.write_blob(&contents, 4, &mut out);
    assert_eq!(out.len(), 1);
    let payload = s.read_blob(&digest, &out[0].bytes, 3).unwrap();
    assert_eq!(payload, expected_blob_payload(b"hello world"));
}

#[test]
fn blob_round_trip_chunk_size_one() {
    let s = store();
    let contents = b"chunked".to_vec();
    let mut out: Vec<StoredObject> = Vec::new();
    let digest = s.write_blob(&contents, 1, &mut out);
    let payload = s.read_blob(&digest, &out[0].bytes, 1).unwrap();
    assert_eq!(payload, expected_blob_payload(b"chunked"));
}

#[test]
fn blob_digest_chunk_size_independent() {
    let s = store();
    let contents = b"the same bytes every time".to_vec();
    let mut digests = Vec::new();
    for buf_size in [1usize, 7, 1024] {
        let mut out: Vec<StoredObject> = Vec::new();
        let d = s.write_blob(&contents, buf_size, &mut out);
        digests.push(d.as_bytes().clone());
    }
    assert_eq!(digests[0], digests[1]);
    assert_eq!(digests[1], digests[2]);
}

#[test]
fn blob_digest_matches_hash_of_payload() {
    let s = store();
    let contents = b"addressed by content".to_vec();
    let mut out: Vec<StoredObject> = Vec::new();
    let digest = s.write_blob(&contents, 16, &mut out);
    let expected = sha1_hex(&expected_blob_payload(b"addressed by content"));
    assert_eq!(digest.as_bytes(), &expected);
}

#[test]
fn distinct_contents_distinct_digests() {
    let s = store();
    let mut out: Vec<StoredObject> = Vec::new();
    let d1 = s.write_blob(&b"abc".to_vec(), 8, &mut out);
    let d2 = s.write_blob(&b"abd".to_vec(), 8, &mut out);
    assert!(!d1.same(&d2));
    let d3 = s.write_blob(&b"ab".to_vec(), 8, &mut out);
    assert!(!d1.same(&d3));
}

#[test]
fn rewrite_idempotent() {
    let s = store();
    let contents = b"written twice".to_vec();
    let mut out: Vec<StoredObject> = Vec::new();
    let d1 = s.write_blob(&contents, 8, &mut out);
    let d2 = s.write_blob(&contents, 32, &mut out);
    assert!(d1.same(&d2));
    assert_eq!(out.len(), 2);
    assert_eq!(out[0].bytes, out[1].bytes);
    assert_eq!(s.object_path(&d1), s.object_path(&d2));
}

#[test]
fn tamper_substitution_detected_as_integrity_failure() {
    let s = store();
    let mut out: Vec<StoredObject> = Vec::new();
    let d1 = s.write_blob(&b"the real content".to_vec(), 8, &mut out);
    s.write_blob(&b"an impostor".to_vec(), 8, &mut out);
    // The bytes stored for the second object decode cleanly but hash
    // differently, so reading them under the first digest must fail.
    let r = s.read_blob(&d1, &out[1].bytes, 8);
    assert_eq!(r.unwrap_err(), StoreError::Integrity);
}

#[test]
fn tamper_bit_flip_never_returns_silently() {
    let s = store();
    let mut out: Vec<StoredObject> = Vec::new();
    let d = s.write_blob(&b"bytes worth protecting".to_vec(), 8, &mut out);
    let good = s.read_blob(&d, &out[0].bytes, 8).unwrap();
    let mut some_flip_failed = false;
    for i in 0..out[0].bytes.len() {
        let mut altered = out[0].bytes.clone();
        altered[i] ^= 0x40;
        // A flip may happen to decode to the very same payload; what
        // must never happen is a silent success with different bytes.
        match s.read_blob(&d, &altered, 8) {
            Ok(payload) => assert_eq!(payload, good),
            Err(_) => some_flip_failed = true,
        }
    }
    assert!(some_flip_failed);
}

#[test]
fn malformed_stream_is_an_io_failure() {
    let s = store();
    let mut out: Vec<StoredObject> = Vec::new();
    let d = s.write_blob(&b"whatever".to_vec(), 8, &mut out);
    let garbage = b"definitely not a zlib stream".to_vec();
    let r = s.read_blob(&d, &garbage, 8);
    assert_eq!(r.unwrap_err(), StoreError::Io);
}

#[test]
fn compression_shrinks_repetitive_content() {
    let s = store();
    let contents = vec![97u8; 4096];
    let mut out: Vec<StoredObject> = Vec::new();
    s.write_blob(&contents, 512, &mut out);
    // The stored bytes are the compressed payload, not the payload
    // itself.
    assert!(out[0].bytes.len() < expected_blob_payload(&contents).len());
}

#[test]
fn empty_blob_payload_and_digest() {
    let s = store();
    let contents: Vec<u8> = Vec::new();
    let mut out: Vec<StoredObject> = Vec::new();
    let digest = s.write_blob(&contents, 1024, &mut out);
    let payload = s.read_blob(&digest, &out[0].bytes, 1024).unwrap();
    assert_eq!(payload, b"blob 0\0".to_vec());
    assert_eq!(digest.as_bytes(), &sha1_hex(b"blob 0\0"));
    assert_eq!(
        digest.as_bytes(),
        &b"e69de29bb2d1d6434b8b29ae775ad8c2e48c5391".to_vec(),
    );
}

#[test]
fn header_holds_multi_digit_length() {
    let s = store();
    let contents = b"0123456789".to_vec();
    let mut out: Vec<StoredObject> = Vec::new();
    let digest = s.write_blob(&contents, 4, &mut out);
    let payload = s.read_blob(&digest, &out[0].bytes, 4).unwrap();
    assert_eq!(payload, b"blob 10\00123456789".to_vec());
}

#[test]
fn object_path_uses_two_level_fan_out() {
    let s = store();
    let contents: Vec<u8> = Vec::new();
    let mut out: Vec<StoredObject> = Vec::new();
    let digest = s.write_blob(&contents, 1024, &mut out);
    let path = s.object_path(&digest);
    assert_eq!(
        path,
        b"objects/e6/9de29bb2d1d6434b8b29ae775ad8c2e48c5391".to_vec(),
    );
}

#[test]
fn digest_is_forty_lowercase_hex_bytes() {
    let s = store();
    let mut out: Vec<StoredObject> = Vec::new();
    let digest = s.write_blob(&b"shape of an address".to_vec(), 8, &mut out);
    let bytes = digest.as_bytes();
    assert_eq!(bytes.len(), 40);
    for &b in bytes.iter() {
        assert!(b.is_ascii_hexdigit());
        assert!(!b.is_ascii_uppercase());
    }
}

#[test]
fn tree_composition() {
    let s = store();
    let tree = vec![
        TreeEntry { name: b"a.txt".to_vec(), node: TreeNode::File { bytes: b"hi".to_vec() } },
        TreeEntry {
            name: b"sub".to_vec(),
            node: TreeNode::Dir {
                children: vec![TreeEntry {
                    name: b"b.txt".to_vec(),
                    node: TreeNode::File { bytes: b"yo".to_vec() },
                }],
            },
        },
    ];
    let mut out: Vec<StoredObject> = Vec::new();
    let root = s.write_tree(&tree, 8, &mut out).unwrap();
    // Publication order: a.txt's blob, b.txt's blob, sub's tree, the
    // root tree itself.
    assert_eq!(out.len(), 4);
    assert!(root.same(&out[3].digest));

    let root_payload = s.read_blob(&root, &out[3].bytes, 8).unwrap();
    let mut expected = Vec::new();
    expected.extend_from_slice(b"blob ");
    expected.extend_from_slice(out[0].digest.as_bytes());
    expected.push(b'\t');
    expected.extend_from_slice(b"a.txt");
    expected.push(b'\n');
    expected.extend_from_slice(b"tree ");
    expected.extend_from_slice(out[2].digest.as_bytes());
    expected.push(b'\t');
    expected.extend_from_slice(b"sub");
    expected.push(b'\n');
    assert_eq!(root_payload, expected);

    // The blob for a.txt is a regular blob of "hi".
    let a_payload = s.read_blob(&out[0].digest, &out[0].bytes, 8).unwrap();
    assert_eq!(a_payload, expected_blob_payload(b"hi"));
}

#[test]
fn empty_directory_tree() {
    let s = store();
    let tree: Vec<TreeEntry> = Vec::new();
    let mut out: Vec<StoredObject> = Vec::new();
    let root = s.write_tree(&tree, 8, &mut out).unwrap();
    assert_eq!(out.len(), 1);
    let payload = s.read_blob(&root, &out[0].bytes, 8).unwrap();
    assert_eq!(payload, Vec::<u8>::new());
}

#[test]
fn unsupported_entry_fails_whole_tree() {
    let s = store();
    let tree = vec![TreeEntry { name: b"link".to_vec(), node: TreeNode::Unsupported }];
    let mut out: Vec<StoredObject> = Vec::new();
    let r = s.write_tree(&tree, 8, &mut out);
    assert_eq!(r.unwrap_err(), StoreError::Unsupported);
    // No object was published for the directory.
    assert_eq!(out.len(), 0);
}

#[test]
fn unsupported_entry_after_file_publishes_no_tree_object() {
    let s = store();
    let tree = vec![
        TreeEntry { name: b"kept.txt".to_vec(), node: TreeNode::File { bytes: b"kept".to_vec() } },
        TreeEntry { name: b"link".to_vec(), node: TreeNode::Unsupported },
    ];
    let mut out: Vec<StoredObject> = Vec::new();
    let r = s.write_tree(&tree, 8, &mut out);
    assert_eq!(r.unwrap_err(), StoreError::Unsupported);
    // The file written before the failure was published, but no tree
    // object was.
    assert_eq!(out.len(), 1);
    let payload = s.read_blob(&out[0].digest, &out[0].bytes, 8).unwrap();
    assert_eq!(payload, expected_blob_payload(b"kept"));
}

#[test]
fn blob_with_binary_content() {
    let s = store();
    let mut contents = Vec::new();
    for _ in 0..2 {
        for b in 0..=255u8 {
            contents.push(b);
        }
    }
    let mut out: Vec<StoredObject> = Vec::new();
    let digest = s.write_blob(&contents, 100, &mut out);
    let payload = s.read_blob(&digest, &out[0].bytes, 100).unwrap();
    // 512 bytes: a three-digit decimal length in the header.
    let mut expected = b"blob 512\0".to_vec();
    expected.extend_from_slice(&contents);
    assert_eq!(payload, expected);
}

#[test]
fn nested_tree_three_levels() {
    let s = store();
    let leaf = TreeEntry { name: b"leaf.txt".to_vec(), node: TreeNode::File { bytes: b"deep".to_vec() } };
    let mid = TreeEntry { name: b"mid".to_vec(), node: TreeNode::Dir { children: vec![leaf] } };
    let top = vec![TreeEntry { name: b"top".to_vec(), node: TreeNode::Dir { children: vec![mid] } }];
    let mut out: Vec<StoredObject> = Vec::new();
    let root = s.write_tree(&top, 8, &mut out).unwrap();
    // leaf blob, mid tree, top tree, root tree.
    assert_eq!(out.len(), 4);
    let root_payload = s.read_blob(&root, &out[3].bytes, 8).unwrap();
    let mut expected = b"tree ".to_vec();
    expected.extend_from_slice(out[2].digest.as_bytes());
    expected.push(b'\t');
    expected.extend_from_slice(b"top");
    expected.push(b'\n');
    assert_eq!(root_payload, expected);
}

#[test]
fn store_location_prefixes_object_paths() {
    let s = ObjectStore::new(b"/var/data/objstore".to_vec());
    let mut out: Vec<StoredObject> = Vec::new();
    let digest = s.write_blob(&b"somewhere else".to_vec(), 8, &mut out);
    let path = s.object_path(&digest);
    assert!(path.starts_with(b"/var/data/objstore/"));
    assert_eq!(path.len(), b"/var/data/objstore/".len() + 41);
}
