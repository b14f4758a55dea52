//! Recursive size of a directory tree, symlinks excluded.

use vstd::prelude::*;

verus! {

/// What reading one filesystem entry without following symlinks gave.
/// A symlink is a leaf whatever it points to; a directory holds the
/// entries that listing it gave (none where it could not be listed).
pub enum FsNode {
    /// Its metadata could not be read.
    Unreadable,
    /// A symbolic link, broken or not.
    Symlink,
    /// Any entry that is neither a directory nor a symlink, with its length.
    File { len: u64 },
    /// A directory, with its own length and its entries.
    Dir { len: u64, children: Vec<FsNode> },
}

/// Bytes that `n` contributes: its own length and, for a directory, what
/// its entries contribute. Symlinks and unreadable entries contribute zero.
pub open spec fn node_size(n: FsNode) -> nat
    decreases n,
{
    match n {
        FsNode::Unreadable => 0,
        FsNode::Symlink => 0,
        FsNode::File { len } => len as nat,
        FsNode::Dir { len, children } => len as nat + entries_size(children@),
    }
}

/// Bytes that a list of entries contributes.
pub open spec fn entries_size(s: Seq<FsNode>) -> nat
    decreases s,
{
    if s.len() == 0 {
        0
    } else {
        entries_size(s.drop_last()) + node_size(s.last())
    }
}

/// The sum of a list of byte lengths.
pub open spec fn sum_lengths(s: Seq<u64>) -> nat
    decreases s.len(),
{
    if s.len() == 0 {
        0
    } else {
        sum_lengths(s.drop_last()) + s.last() as nat
    }
}

pub open spec fn saturate(x: int) -> u64 {
    if x <= u64::MAX {
        x as u64
    } else {
        u64::MAX
    }
}

/// Entries side by side contribute the sum of what each side contributes.
pub proof fn lemma_entries_size_concat(a: Seq<FsNode>, b: Seq<FsNode>)
    ensures
        entries_size(a + b) == entries_size(a) + entries_size(b),
    decreases b.len(),
{
    if b.len() == 0 {
        assert(a + b =~= a);
    } else {
        assert((a + b).drop_last() =~= a + b.drop_last());
        lemma_entries_size_concat(a, b.drop_last());
    }
}

proof fn lemma_entries_size_prefix(s: Seq<FsNode>, i: int)
    requires
        0 <= i < s.len(),
    ensures
        entries_size(s.take(i + 1)) == entries_size(s.take(i)) + node_size(s[i]),
{
    assert(s.take(i + 1).drop_last() =~= s.take(i));
}

proof fn lemma_entries_size_split(s: Seq<FsNode>, i: int)
    requires
        0 <= i <= s.len(),
    ensures
        entries_size(s) == entries_size(s.take(i)) + entries_size(s.skip(i)),
{
    assert(s =~= s.take(i) + s.skip(i));
    lemma_entries_size_concat(s.take(i), s.skip(i));
}

/// A symlink adds nothing to the size of the directory that holds it,
/// wherever it stands among the entries and whatever it points to.
pub proof fn lemma_symlink_adds_nothing(len: u64, children: Seq<FsNode>, i: int)
    requires
        0 <= i <= children.len(),
    ensures
        len + entries_size(children.insert(i, FsNode::Symlink)) == len + entries_size(children),
{
    let t = children.insert(i, FsNode::Symlink);
    assert(t =~= children.take(i) + seq![FsNode::Symlink] + children.skip(i));
    lemma_entries_size_concat(children.take(i) + seq![FsNode::Symlink], children.skip(i));
    lemma_entries_size_concat(children.take(i), seq![FsNode::Symlink]);
    let one = seq![FsNode::Symlink];
    assert(one.drop_last() =~= Seq::<FsNode>::empty());
    assert(entries_size(one) == entries_size(one.drop_last()) + node_size(one.last()));
    assert(entries_size(one) == 0);
    lemma_entries_size_split(children, i);
}

/// The size of a list of entries does not depend on the order they are
/// listed or visited in.
pub proof fn lemma_size_independent_of_order(a: Seq<FsNode>, b: Seq<FsNode>)
    requires
        a.to_multiset() == b.to_multiset(),
    ensures
        entries_size(a) == entries_size(b),
    decreases a.len(),
{
    broadcast use vstd::seq_lib::group_to_multiset_ensures;

    if a.len() == 0 {
        vstd::seq_lib::to_multiset_len(a);
        vstd::seq_lib::to_multiset_len(b);
        assert(b =~= a);
    } else {
        let x = a.last();
        assert(a =~= a.drop_last().push(x));
        assert(b.to_multiset().count(x) > 0);
        assert(b.contains(x));
        let k = choose|k: int| 0 <= k < b.len() && b[k] == x;
        let rest = b.remove(k);
        assert(rest.to_multiset() == b.to_multiset().remove(x));
        assert(a.drop_last().to_multiset() == a.to_multiset().remove(x));
        lemma_size_independent_of_order(a.drop_last(), rest);
        assert(b =~= b.take(k) + seq![x] + b.skip(k + 1));
        assert(rest =~= b.take(k) + b.skip(k + 1));
        lemma_entries_size_concat(b.take(k) + seq![x], b.skip(k + 1));
        lemma_entries_size_concat(b.take(k), seq![x]);
        lemma_entries_size_concat(b.take(k), b.skip(k + 1));
        let one = seq![x];
        assert(one.drop_last() =~= Seq::<FsNode>::empty());
        assert(entries_size(one) == entries_size(one.drop_last()) + node_size(one.last()));
        assert(entries_size(a) == entries_size(a.drop_last()) + node_size(x));
    }
}

/// Entries that are all regular files contribute exactly the sum of their
/// lengths.
pub proof fn lemma_files_only(children: Seq<FsNode>, lens: Seq<u64>)
    requires
        children.len() == lens.len(),
        forall|i: int| 0 <= i < lens.len() ==> children[i] == (FsNode::File { len: lens[i] }),
    ensures
        entries_size(children) == sum_lengths(lens),
    decreases lens.len(),
{
    if lens.len() > 0 {
        let n = lens.len() - 1;
        assert(children[n] == (FsNode::File { len: lens[n] }));
        assert(node_size(children.last()) == lens.last() as nat);
        lemma_files_only(children.drop_last(), lens.drop_last());
        assert(entries_size(children) == entries_size(children.drop_last()) + node_size(
            children.last(),
        ));
    }
}

/// Total bytes under `node`, counting no symlink. The sum stops at
/// `u64::MAX` rather than wrapping.
pub fn get_dir_size(node: &FsNode) -> (r: u64)
    ensures
        r == saturate(node_size(*node) as int),
    decreases node,
{
    match node {
        FsNode::Unreadable => 0,
        FsNode::Symlink => 0,
        FsNode::File { len } => *len,
        FsNode::Dir { len, children } => {
            let mut total: u64 = *len;
            let mut i: usize = 0;
            proof {
                assert(children@.take(0) =~= Seq::<FsNode>::empty());
            }
            while i < children.len()
                invariant
                    *node == (FsNode::Dir { len: *len, children: *children }),
                    i <= children@.len(),
                    total == saturate(*len + entries_size(children@.take(i as int))),
                decreases children@.len() - i,
            {
                proof {
                    lemma_entries_size_prefix(children@, i as int);
                    vstd::std_specs::vec::axiom_vec_index_decreases(*children, i as int);
                    assert(decreases_to!(*node => (*node)->children));
                    assert(decreases_to!(*node => children[i as int]));
                }
                let c = get_dir_size(&children[i]);
                total = total.saturating_add(c);
                i = i + 1;
            }
            proof {
                assert(children@.take(children@.len() as int) =~= children@);
            }
            total
        },
    }
}

} // verus!
