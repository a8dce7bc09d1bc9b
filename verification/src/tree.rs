//! The in-memory picture of a directory tree handed to the store, and
//! the payloads and objects that writing it produces.

use vstd::prelude::*;

use crate::hash::digest_of;
use crate::object::{obj_for, SpecObject};
use crate::payload::{blob_kind_bytes, blob_payload, entry_line, tree_kind_bytes};

verus! {

/// What one directory child holds.
pub enum TreeNode {
    /// A regular file and its raw bytes.
    File { bytes: Vec<u8> },
    /// A subdirectory and its immediate children, in the order the
    /// directory iteration produced them.
    Dir { children: Vec<TreeEntry> },
    /// Any other entry kind (symlink, device, ...), which the store
    /// does not support.
    Unsupported,
}

/// One child of a directory: its name and what it holds.
pub struct TreeEntry {
    pub name: Vec<u8>,
    pub node: TreeNode,
}

/// The kind word a child contributes to its parent's entry line.
pub open spec fn kind_bytes(n: TreeNode) -> Seq<u8> {
    match n {
        TreeNode::File { .. } => blob_kind_bytes(),
        _ => tree_kind_bytes(),
    }
}

/// Whether every node of the tree is a file or a directory.
pub open spec fn node_supported(n: TreeNode) -> bool
    decreases n,
{
    match n {
        TreeNode::File { .. } => true,
        TreeNode::Dir { children } => entries_supported(children@),
        TreeNode::Unsupported => false,
    }
}

/// Whether every entry of a child list is supported.
pub open spec fn entries_supported(es: Seq<TreeEntry>) -> bool
    decreases es,
{
    if es.len() == 0 {
        true
    } else {
        entries_supported(es.drop_last()) && node_supported(es.last().node)
    }
}

/// The payload of the object a node is stored as: the header-prefixed
/// bytes for a file, the concatenated entry lines for a directory.
pub open spec fn node_payload(n: TreeNode) -> Seq<u8>
    decreases n,
{
    match n {
        TreeNode::File { bytes } => blob_payload(bytes@),
        TreeNode::Dir { children } => entries_payload(children@),
        TreeNode::Unsupported => Seq::<u8>::empty(),
    }
}

/// The payload of a tree object: one formatted line per child, in
/// order, each carrying the child's kind, digest and name.
pub open spec fn entries_payload(es: Seq<TreeEntry>) -> Seq<u8>
    decreases es,
{
    if es.len() == 0 {
        Seq::<u8>::empty()
    } else {
        entries_payload(es.drop_last()) + entry_line(
            kind_bytes(es.last().node),
            digest_of(node_payload(es.last().node)),
            es.last().name@,
        )
    }
}

/// The content address a node is stored under.
pub open spec fn node_digest(n: TreeNode) -> Seq<u8> {
    digest_of(node_payload(n))
}

/// Every object that writing a node publishes, in publication order:
/// the objects of its children first, its own object last.
pub open spec fn node_objects(n: TreeNode) -> Seq<SpecObject>
    decreases n,
{
    match n {
        TreeNode::File { bytes } => seq![obj_for(blob_payload(bytes@))],
        TreeNode::Dir { children } => entries_objects(children@).push(
            obj_for(entries_payload(children@)),
        ),
        TreeNode::Unsupported => Seq::<SpecObject>::empty(),
    }
}

/// The objects published for a child list, child by child, in order.
pub open spec fn entries_objects(es: Seq<TreeEntry>) -> Seq<SpecObject>
    decreases es,
{
    if es.len() == 0 {
        Seq::<SpecObject>::empty()
    } else {
        entries_objects(es.drop_last()) + node_objects(es.last().node)
    }
}

/// Every object that writing a directory with children `es` publishes:
/// the children's objects, then the directory's own tree object.
pub open spec fn dir_objects(es: Seq<TreeEntry>) -> Seq<SpecObject> {
    entries_objects(es).push(obj_for(entries_payload(es)))
}

/// The objects a directory write has staged by the time it fails on
/// the first unsupported entry: every object of the fully written
/// children before it, then whatever the failing child itself staged —
/// never the directory's own tree object.
pub open spec fn failed_objects(es: Seq<TreeEntry>) -> Seq<SpecObject>
    decreases es,
{
    if es.len() == 0 {
        Seq::<SpecObject>::empty()
    } else if node_supported(es.first().node) {
        node_objects(es.first().node) + failed_objects(es.drop_first())
    } else {
        node_failed_objects(es.first().node)
    }
}

/// What the failing child itself staged: for a directory, the objects
/// of its own failed write; for an unsupported entry, nothing.
pub open spec fn node_failed_objects(n: TreeNode) -> Seq<SpecObject>
    decreases n,
{
    match n {
        TreeNode::Dir { children } => failed_objects(children@),
        _ => Seq::<SpecObject>::empty(),
    }
}

/// Unfolds the payload and object lists of a child list one child to
/// the right: processing `es[..i + 1]` is processing `es[..i]` and then
/// the child `es[i]`.
pub proof fn lemma_entries_step(es: Seq<TreeEntry>, i: int)
    requires
        0 <= i < es.len(),
    ensures
        entries_payload(es.subrange(0, i + 1)) == entries_payload(es.subrange(0, i)) + entry_line(
            kind_bytes(es[i].node),
            digest_of(node_payload(es[i].node)),
            es[i].name@,
        ),
        entries_objects(es.subrange(0, i + 1)) == entries_objects(es.subrange(0, i))
            + node_objects(es[i].node),
        entries_supported(es.subrange(0, i + 1)) == (entries_supported(es.subrange(0, i))
            && node_supported(es[i].node)),
{
    let pre = es.subrange(0, i + 1);
    assert(pre.drop_last() =~= es.subrange(0, i));
    assert(pre.last() == es[i]);
}

/// A child list is supported exactly when each of its nodes is.
pub proof fn lemma_entries_supported_pointwise(es: Seq<TreeEntry>)
    ensures
        entries_supported(es) <==> (forall|i: int|
            0 <= i < es.len() ==> node_supported(#[trigger] es[i].node)),
    decreases es.len(),
{
    if es.len() > 0 {
        lemma_entries_supported_pointwise(es.drop_last());
        if entries_supported(es) {
            assert forall|i: int| 0 <= i < es.len() implies node_supported(
                #[trigger] es[i].node,
            ) by {
                if i < es.len() - 1 {
                    assert(es.drop_last()[i] == es[i]);
                }
            }
        } else if forall|i: int| 0 <= i < es.len() ==> node_supported(#[trigger] es[i].node) {
            assert forall|i: int| 0 <= i < es.drop_last().len() implies node_supported(
                #[trigger] es.drop_last()[i].node,
            ) by {
                assert(es.drop_last()[i] == es[i]);
            }
            assert(node_supported(es.last().node));
        }
    }
}

/// Unfolds the object list of a non-empty child list at its first
/// child.
pub proof fn lemma_entries_objects_first(es: Seq<TreeEntry>)
    requires
        es.len() > 0,
    ensures
        entries_objects(es) == node_objects(es.first().node) + entries_objects(es.drop_first()),
    decreases es.len(),
{
    if es.len() == 1 {
        assert(es.drop_last() =~= Seq::<TreeEntry>::empty());
        assert(es.drop_first() =~= Seq::<TreeEntry>::empty());
        assert(es.last() == es.first());
        assert(entries_objects(es) =~= node_objects(es.first().node) + entries_objects(
            es.drop_first(),
        ));
    } else {
        lemma_entries_objects_first(es.drop_last());
        assert(es.drop_last().first() == es.first());
        assert(es.drop_last().drop_first() =~= es.drop_first().drop_last());
        assert(es.drop_first().last() == es.last());
        assert(entries_objects(es) =~= node_objects(es.first().node) + entries_objects(
            es.drop_first(),
        ));
    }
}

/// Where the first unsupported child sits, a failed write's staged
/// objects split into the supported prefix's objects followed by what
/// that child itself staged.
pub proof fn lemma_failed_objects_split(es: Seq<TreeEntry>, i: int)
    requires
        0 <= i < es.len(),
        entries_supported(es.subrange(0, i)),
        !node_supported(es[i].node),
    ensures
        failed_objects(es) == entries_objects(es.subrange(0, i)) + node_failed_objects(es[i].node),
    decreases i,
{
    if i == 0 {
        assert(es.first() == es[0]);
        assert(es.subrange(0, 0) =~= Seq::<TreeEntry>::empty());
        assert(entries_objects(es.subrange(0, 0)) + node_failed_objects(es[0].node)
            =~= node_failed_objects(es[0].node));
    } else {
        lemma_entries_supported_pointwise(es.subrange(0, i));
        assert(es.subrange(0, i)[0] == es[0]);
        assert(node_supported(es.first().node));
        let tail = es.drop_first();
        assert(tail.subrange(0, i - 1) =~= es.subrange(1, i));
        assert forall|j: int| 0 <= j < i - 1 implies node_supported(
            #[trigger] tail.subrange(0, i - 1)[j].node,
        ) by {
            assert(tail.subrange(0, i - 1)[j] == es[j + 1]);
            assert(es.subrange(0, i)[j + 1] == es[j + 1]);
        }
        lemma_entries_supported_pointwise(tail.subrange(0, i - 1));
        assert(tail[i - 1] == es[i]);
        lemma_failed_objects_split(tail, i - 1);
        lemma_entries_objects_first(es.subrange(0, i));
        assert(es.subrange(0, i).first() == es[0]);
        assert(es.subrange(0, i).drop_first() =~= tail.subrange(0, i - 1));
        assert(failed_objects(es) =~= entries_objects(es.subrange(0, i)) + node_failed_objects(
            es[i].node,
        ));
    }
}

/// A whole child list is the prefix of itself.
pub proof fn lemma_entries_full(es: Seq<TreeEntry>)
    ensures
        es.subrange(0, es.len() as int) == es,
{
    assert(es.subrange(0, es.len() as int) =~= es);
}

} // verus!
