//! The namehash of a dotted name: a left fold of Keccak-256 digests over its
//! labels, starting from the root node (32 zero bytes) and working from the
//! top-level label down to the most specific one.

use tiny_keccak::Hasher;
use vstd::prelude::*;
use vstd::string::StringSliceAdditionalSpecFns;

verus! {

/// The Keccak-256 digest of a byte string.
pub uninterp spec fn keccak256_of(data: Seq<u8>) -> Seq<u8>;

/// Relies on tiny_keccak's `Keccak::v256` with `update` and `finalize`: the
/// 32-byte Keccak-256 digest of `data`, which depends on `data` alone.
#[verifier::external_body]
fn keccak256(data: &[u8]) -> (r: Vec<u8>)
    ensures
        r@ == keccak256_of(data@),
        r@.len() == 32,
{
    let mut out = [0u8; 32];
    let mut hasher = tiny_keccak::Keccak::v256();
    hasher.update(data);
    hasher.finalize(&mut out);
    out.to_vec()
}

/// The label separator.
pub const DOT: u8 = 0x2e;

/// The node of the root: 32 zero bytes.
pub open spec fn root_node() -> Seq<u8> {
    Seq::new(32, |_i: int| 0u8)
}

/// The labels of a name, most specific first. Every dot ends one label and
/// starts the next, so leading, trailing and doubled dots give empty labels.
pub open spec fn labels_of(name: Seq<u8>) -> Seq<Seq<u8>>
    decreases name.len(),
{
    if name.len() == 0 {
        seq![Seq::empty()]
    } else {
        let init = labels_of(name.drop_last());
        if name.last() == DOT {
            init.push(Seq::empty())
        } else {
            init.update(init.len() - 1, init.last().push(name.last()))
        }
    }
}

/// The node of a list of labels (most specific first): the root for no
/// labels, else the digest of the parent's node followed by the digest of
/// the first label.
pub open spec fn fold_labels(labels: Seq<Seq<u8>>) -> Seq<u8>
    decreases labels.len(),
{
    if labels.len() == 0 {
        root_node()
    } else {
        keccak256_of(fold_labels(labels.drop_first()) + keccak256_of(labels[0]))
    }
}

/// The node of a name given as its UTF-8 bytes. The empty name is the root.
pub open spec fn node_of(name: Seq<u8>) -> Seq<u8> {
    if name.len() == 0 {
        root_node()
    } else {
        fold_labels(labels_of(name))
    }
}

proof fn lemma_labels_nonempty(name: Seq<u8>)
    ensures
        labels_of(name).len() >= 1,
    decreases name.len(),
{
    if name.len() > 0 {
        lemma_labels_nonempty(name.drop_last());
    }
}

/// Splits `name` into its labels, most specific first.
fn split_labels(name: &[u8]) -> (r: Vec<Vec<u8>>)
    ensures
        r.deep_view() == labels_of(name@),
{
    let mut done: Vec<Vec<u8>> = Vec::new();
    let mut current: Vec<u8> = Vec::new();
    let mut i: usize = 0;
    while i < name.len()
        invariant
            i <= name@.len(),
            done.deep_view().push(current@) == labels_of(name@.subrange(0, i as int)),
        decreases name@.len() - i,
    {
        let ghost prefix = name@.subrange(0, i as int);
        let ghost next = name@.subrange(0, i + 1);
        assert(next.drop_last() == prefix);
        assert(next.last() == name@[i as int]);
        proof {
            lemma_labels_nonempty(prefix);
        }
        let ghost before = done.deep_view();
        if name[i] == DOT {
            let finished = current;
            assert(finished.deep_view() =~= finished@);
            done.push(finished);
            current = Vec::new();
            assert(done.deep_view() =~= before.push(finished@));
        } else {
            current.push(name[i]);
            assert(done.deep_view().push(current@) =~= labels_of(prefix).update(
                labels_of(prefix).len() - 1,
                labels_of(prefix).last().push(name@[i as int]),
            ));
        }
        i += 1;
    }
    assert(name@.subrange(0, name@.len() as int) == name@);
    let ghost before = done.deep_view();
    let last = current;
    assert(last.deep_view() =~= last@);
    done.push(last);
    assert(done.deep_view() =~= before.push(last@));
    done
}

/// The namehash of `name`: the 32-byte node that identifies it in the
/// registry. Total: every string, including the empty one, names with empty
/// labels and non-ASCII text, gives a node, and the same string always gives
/// the same node.
pub fn namehash(name: &str) -> (r: Vec<u8>)
    ensures
        r@ == node_of(name.spec_bytes()),
        r@.len() == 32,
        name@.len() == 0 ==> r@ == root_node(),
{
    let bytes = name.as_bytes();
    let mut node: Vec<u8> = Vec::new();
    let mut k: usize = 0;
    while k < 32
        invariant
            k <= 32,
            node@ == Seq::new(k as nat, |_i: int| 0u8),
        decreases 32 - k,
    {
        node.push(0u8);
        k += 1;
    }
    if bytes.len() == 0 {
        return node;
    }
    let labels = split_labels(bytes);
    let ghost all = labels.deep_view();
    let mut i: usize = labels.len();
    while i > 0
        invariant
            i <= labels@.len(),
            all == labels.deep_view(),
            all == labels_of(bytes@),
            node@ == fold_labels(all.subrange(i as int, all.len() as int)),
            node@.len() == 32,
        decreases i,
    {
        i -= 1;
        let ghost rest = all.subrange(i as int, all.len() as int);
        assert(labels@[i as int]@ =~= all[i as int]);
        assert(rest[0] == all[i as int]);
        let mut label_hash = keccak256(labels[i].as_slice());
        let mut joined = node;
        joined.append(&mut label_hash);
        node = keccak256(joined.as_slice());
        assert(all.subrange(i as int, all.len() as int).drop_first() =~= all.subrange(
            i + 1,
            all.len() as int,
        ));
    }
    assert(all.subrange(0, all.len() as int) == all);
    node
}

/// The node of `name` as a fixed 32-byte array.
pub fn compute_node(name: &str) -> (r: [u8; 32])
    ensures
        r@ == node_of(name.spec_bytes()),
        name@.len() == 0 ==> r@ == root_node(),
{
    let node = namehash(name);
    let mut out = [0u8; 32];
    let mut i: usize = 0;
    while i < 32
        invariant
            i <= 32,
            node@.len() == 32,
            out@.len() == 32,
            forall|j: int| 0 <= j < i ==> out@[j] == node@[j],
        decreases 32 - i,
    {
        out[i] = node[i];
        i += 1;
    }
    assert(out@ =~= node@);
    out
}

proof fn lemma_labels_of_single(label: Seq<u8>)
    requires
        !label.contains(DOT),
    ensures
        labels_of(label) == seq![label],
    decreases label.len(),
{
    if label.len() > 0 {
        let init = label.drop_last();
        assert(!init.contains(DOT)) by {
            if init.contains(DOT) {
                let j = choose|j: int| 0 <= j < init.len() && init[j] == DOT;
                assert(label[j] == DOT);
            }
        }
        lemma_labels_of_single(init);
        assert(label.last() != DOT);
        assert(init.push(label.last()) =~= label);
        assert(seq![init].update(0, init.push(label.last())) =~= seq![label]);
    } else {
        assert(label =~= Seq::<u8>::empty());
    }
}

proof fn lemma_labels_of_child(label: Seq<u8>, parent: Seq<u8>)
    requires
        !label.contains(DOT),
    ensures
        labels_of(label + seq![DOT] + parent) == seq![label] + labels_of(parent),
    decreases parent.len(),
{
    let name = label + seq![DOT] + parent;
    if parent.len() == 0 {
        lemma_labels_of_single(label);
        assert(name.drop_last() =~= label);
        assert(seq![label].push(Seq::<u8>::empty()) =~= seq![label] + labels_of(parent));
    } else {
        let up = parent.drop_last();
        lemma_labels_of_child(label, up);
        lemma_labels_nonempty(up);
        assert(name.drop_last() =~= label + seq![DOT] + up);
        assert(name.last() == parent.last());
        let prev = labels_of(up);
        if parent.last() == DOT {
            assert((seq![label] + prev).push(Seq::<u8>::empty()) =~= seq![label] + prev.push(
                Seq::<u8>::empty(),
            ));
        } else {
            let whole = seq![label] + prev;
            assert(whole.update(whole.len() - 1, whole.last().push(parent.last())) =~= seq![label]
                + prev.update(prev.len() - 1, prev.last().push(parent.last())));
        }
    }
}

/// A child's node is the digest of its parent's node followed by the digest
/// of its own label: for a label without dots and a non-empty parent name,
/// `label.parent` hashes as `parent` does, then one step more; and a
/// non-empty single label hashes one step from the root.
pub proof fn lemma_child_node(label: Seq<u8>, parent: Seq<u8>)
    requires
        !label.contains(DOT),
    ensures
        parent.len() > 0 ==> node_of(label + seq![DOT] + parent) == keccak256_of(
            node_of(parent) + keccak256_of(label),
        ),
        label.len() > 0 ==> node_of(label) == keccak256_of(root_node() + keccak256_of(label)),
{
    lemma_labels_of_child(label, parent);
    lemma_labels_of_single(label);
    let name = label + seq![DOT] + parent;
    assert(name.len() > 0);
    let ls = seq![label] + labels_of(parent);
    assert(ls.drop_first() =~= labels_of(parent));
    assert(seq![label].drop_first() =~= Seq::<Seq<u8>>::empty());
    assert(fold_labels(Seq::<Seq<u8>>::empty()) == root_node());
    assert(fold_labels(seq![label]) == keccak256_of(
        fold_labels(seq![label].drop_first()) + keccak256_of(label),
    ));
}

/// The namehash depends on the name alone: equal names always give equal
/// nodes.
pub proof fn lemma_namehash_deterministic(a: &str, b: &str)
    requires
        a@ == b@,
    ensures
        node_of(a.spec_bytes()) == node_of(b.spec_bytes()),
{
}

} // verus!
