//! A binary Merkle hash tree over an ordered list of leaf hashes: root
//! computation, inclusion-proof construction, and inclusion-proof checking.
//!
//! Neighbouring nodes pair off left to right and are combined with SHA-256;
//! a last node without a sibling is carried up unchanged. An inclusion proof
//! is the sequence of sibling hashes on the path from a leaf to the root,
//! bottom-most sibling first.

use vstd::prelude::*;

verus! {

use crate::encoding::{bytes_equal, clone_bytes};
use crate::hashes::{sha256, sha256_of};

/// The parent hash of two sibling nodes: SHA-256 of their concatenation.
pub open spec fn combine(a: Seq<u8>, b: Seq<u8>) -> Seq<u8> {
    sha256_of(a + b)
}

/// The level above `level`: pairs combined in order, a lone last node
/// carried up unchanged.
pub open spec fn next_level(level: Seq<Seq<u8>>) -> Seq<Seq<u8>> {
    Seq::new(
        (((level.len() + 1) / 2) as nat),
        |i: int|
            if 2 * i + 1 < level.len() {
                combine(level[2 * i], level[2 * i + 1])
            } else {
                level[2 * i]
            },
    )
}

/// The root of the tree over `level`; the root of a single node is that node
/// itself, and an empty level has no meaningful root.
pub open spec fn root_of(level: Seq<Seq<u8>>) -> Seq<u8>
    decreases level.len(),
{
    if level.len() == 0 {
        Seq::empty()
    } else if level.len() == 1 {
        level[0]
    } else {
        root_of(next_level(level))
    }
}

/// The sibling hashes on the path from position `i` of `level` to the root,
/// bottom-most first. Levels where the node is a lone last child contribute
/// nothing.
pub open spec fn proof_of(level: Seq<Seq<u8>>, i: int) -> Seq<Seq<u8>>
    decreases level.len(),
{
    if level.len() <= 1 {
        Seq::empty()
    } else if i % 2 == 0 {
        if i + 1 < level.len() {
            seq![level[i + 1]] + proof_of(next_level(level), i / 2)
        } else {
            proof_of(next_level(level), i / 2)
        }
    } else {
        seq![level[i - 1]] + proof_of(next_level(level), i / 2)
    }
}

/// Recomputes the root from a leaf hash, its index, the width of the leaf
/// level, and a sibling path; `None` when the path has the wrong shape for
/// that index and width.
pub open spec fn climb(cur: Seq<u8>, i: int, width: int, path: Seq<Seq<u8>>) -> Option<Seq<u8>>
    decreases width,
{
    if width <= 0 {
        None
    } else if width == 1 {
        if path.len() == 0 {
            Some(cur)
        } else {
            None
        }
    } else if i % 2 == 0 && i + 1 >= width {
        climb(cur, i / 2, (width + 1) / 2, path)
    } else if path.len() == 0 {
        None
    } else {
        let parent = if i % 2 == 0 {
            combine(cur, path[0])
        } else {
            combine(path[0], cur)
        };
        climb(parent, i / 2, (width + 1) / 2, path.drop_first())
    }
}

/// What it means for an inclusion proof to check out: the index lies in
/// range and recomputing the root from the leaf along the path gives `root`.
pub open spec fn proof_verifies(
    root: Seq<u8>,
    leaf: Seq<u8>,
    i: int,
    path: Seq<Seq<u8>>,
    total: int,
) -> bool {
    0 <= i < total && climb(leaf, i, total, path) == Some(root)
}

/// Whether every hash in a list is 32 bytes long.
pub open spec fn all_len_32(v: Seq<Vec<u8>>) -> bool {
    forall|i: int| 0 <= i < v.len() ==> (#[trigger] v[i])@.len() == 32
}

/// An inclusion proof built from a level verifies against that level's root:
/// for every leaf position, climbing from the leaf along the sibling path
/// that `proof_of` collects recomputes exactly `root_of`.
pub proof fn lemma_proof_of_verifies(level: Seq<Seq<u8>>, i: int)
    requires
        level.len() >= 1,
        0 <= i < level.len(),
    ensures
        climb(level[i], i, level.len() as int, proof_of(level, i)) == Some(root_of(level)),
    decreases level.len(),
{
    if level.len() == 1 {
    } else {
        let nl = next_level(level);
        assert(nl.len() == (level.len() + 1) / 2);
        assert(0 <= i / 2 < nl.len());
        lemma_proof_of_verifies(nl, i / 2);
        let path = proof_of(level, i);
        if i % 2 == 0 {
            if i + 1 < level.len() {
                assert(nl[i / 2] == combine(level[i], level[i + 1]));
                assert(path == seq![level[i + 1]] + proof_of(nl, i / 2));
                assert(path[0] == level[i + 1]);
                assert(path.drop_first() =~= proof_of(nl, i / 2));
                assert(path.len() > 0);
            } else {
                assert(2 * (i / 2) == i);
                assert(nl[i / 2] == level[i]);
                assert(path == proof_of(nl, i / 2));
            }
        } else {
            assert(2 * (i / 2) == i - 1);
            assert(nl[i / 2] == combine(level[i - 1], level[i]));
            assert(path == seq![level[i - 1]] + proof_of(nl, i / 2));
            assert(path[0] == level[i - 1]);
            assert(path.drop_first() =~= proof_of(nl, i / 2));
            assert(path.len() > 0);
        }
    }
}

/// Two different nodes that climb along one sibling path to the same root
/// exhibit a SHA-256 collision: either they collide directly at the first
/// combining step, or their distinct parents do so further up. So a forged
/// leaf can only pass an honest proof by colliding the hash.
proof fn lemma_climb_collision(x: Seq<u8>, y: Seq<u8>, i: int, width: int, path: Seq<Seq<u8>>)
    requires
        x != y,
        climb(x, i, width, path) is Some,
        climb(x, i, width, path) == climb(y, i, width, path),
    ensures
        exists|a: Seq<u8>, b: Seq<u8>|
            #![trigger sha256_of(a), sha256_of(b)]
            a != b && sha256_of(a) == sha256_of(b),
    decreases width,
{
    if width <= 0 {
    } else if width == 1 {
        assert(false);
    } else if i % 2 == 0 && i + 1 >= width {
        lemma_climb_collision(x, y, i / 2, (width + 1) / 2, path);
    } else {
        let sib = path[0];
        let px = if i % 2 == 0 { combine(x, sib) } else { combine(sib, x) };
        let py = if i % 2 == 0 { combine(y, sib) } else { combine(sib, y) };
        if px == py {
            let cx = if i % 2 == 0 { x + sib } else { sib + x };
            let cy = if i % 2 == 0 { y + sib } else { sib + y };
            if cx == cy {
                if i % 2 == 0 {
                    assert(cx.take(x.len() as int) =~= x);
                    assert(cy.take(x.len() as int) =~= y);
                } else {
                    assert(cx.skip(sib.len() as int) =~= x);
                    assert(cy.skip(sib.len() as int) =~= y);
                }
                assert(false);
            }
            assert(cx != cy && sha256_of(cx) == sha256_of(cy));
        } else {
            lemma_climb_collision(px, py, i / 2, (width + 1) / 2, path.drop_first());
        }
    }
}

/// Soundness of inclusion proofs, relative to collision resistance: a leaf
/// hash other than the one the batch holds at position `i` can pass that
/// position's honest proof only if two distinct byte strings share a
/// SHA-256 digest.
pub proof fn lemma_proof_of_sound(leaves: Seq<Seq<u8>>, leaf: Seq<u8>, i: int)
    requires
        leaves.len() >= 1,
        0 <= i < leaves.len(),
        leaf != leaves[i],
        proof_verifies(root_of(leaves), leaf, i, proof_of(leaves, i), leaves.len() as int),
    ensures
        exists|a: Seq<u8>, b: Seq<u8>|
            #![trigger sha256_of(a), sha256_of(b)]
            a != b && sha256_of(a) == sha256_of(b),
{
    lemma_proof_of_verifies(leaves, i);
    lemma_climb_collision(leaf, leaves[i], i, leaves.len() as int, proof_of(leaves, i));
}

/// The parent hash of two sibling nodes, as executable code.
pub(crate) fn combine_hashes(a: &Vec<u8>, b: &Vec<u8>) -> (r: Vec<u8>)
    ensures
        r@ == combine(a@, b@),
        r@.len() == 32,
{
    let mut buf: Vec<u8> = Vec::new();
    buf.extend_from_slice(a.as_slice());
    buf.extend_from_slice(b.as_slice());
    proof {
        assert(buf@ =~= a@ + b@);
    }
    sha256(buf.as_slice())
}

/// An independent copy of a list of hashes.
fn clone_hash_list(v: &Vec<Vec<u8>>) -> (r: Vec<Vec<u8>>)
    ensures
        r.deep_view() == v.deep_view(),
        r@.len() == v@.len(),
        all_len_32(v@) ==> all_len_32(r@),
{
    proof {
        assert(v.deep_view().len() == v@.len());
    }
    let mut r: Vec<Vec<u8>> = Vec::new();
    let n: usize = v.len();
    let mut i: usize = 0;
    while i < n
        invariant
            n == v@.len(),
            i <= n,
            r@.len() == i,
            r.deep_view() == v.deep_view().take(i as int),
            forall|k: int| 0 <= k < i ==> (#[trigger] r@[k])@ == v@[k]@,
        decreases n - i,
    {
        let c = clone_bytes(v[i].as_slice());
        proof {
            assert(c.deep_view() =~= c@);
            assert(v.deep_view()[i as int] =~= v@[i as int]@);
            assert(r.deep_view().len() == r@.len());
            assert(r@.len() == i);
        }
        r.push(c);
        proof {
            assert(r.deep_view() =~= v.deep_view().take(i + 1));
        }
        i = i + 1;
    }
    proof {
        assert(v.deep_view().take(n as int) =~= v.deep_view());
    }
    r
}

/// The level above `level`, as executable code.
fn next_level_vec(level: &Vec<Vec<u8>>) -> (r: Vec<Vec<u8>>)
    requires
        level@.len() >= 1,
    ensures
        r.deep_view() == next_level(level.deep_view()),
        r@.len() == (level@.len() + 1) / 2,
        all_len_32(level@) ==> all_len_32(r@),
{
    let ghost dv = level.deep_view();
    let half: usize = level.len() / 2 + level.len() % 2;
    proof {
        assert(dv.len() == level@.len());
        assert(half == (dv.len() + 1) / 2);
    }
    let mut r: Vec<Vec<u8>> = Vec::new();
    let mut j: usize = 0;
    proof {
        assert(r.deep_view() =~= next_level(dv).take(0));
    }
    while j < half
        invariant
            dv == level.deep_view(),
            dv.len() == level@.len(),
            half == (dv.len() + 1) / 2,
            level@.len() >= 1,
            j <= half,
            r@.len() == j,
            r.deep_view() == next_level(dv).take(j as int),
            all_len_32(level@) ==> (forall|k: int|
                0 <= k < j ==> (#[trigger] r@[k])@.len() == 32),
        decreases half - j,
    {
        let ghost rdv = r.deep_view();
        if j < level.len() / 2 {
            let parent = combine_hashes(&level[2 * j], &level[2 * j + 1]);
            proof {
                assert(dv[2 * (j as int)] =~= level@[2 * (j as int)]@);
                assert(dv[2 * (j as int) + 1] =~= level@[2 * (j as int) + 1]@);
                assert(2 * (j as int) + 1 < dv.len());
                assert(next_level(dv)[j as int] == combine(
                    dv[2 * (j as int)],
                    dv[2 * (j as int) + 1],
                ));
                assert(parent@ == next_level(dv)[j as int]);
            }
            r.push(parent);
        } else {
            let carried = clone_bytes(level[2 * j].as_slice());
            proof {
                assert(dv[2 * (j as int)] =~= level@[2 * (j as int)]@);
                assert(!(2 * (j as int) + 1 < dv.len()));
                assert(next_level(dv)[j as int] == dv[2 * (j as int)]);
                assert(carried@ == next_level(dv)[j as int]);
            }
            r.push(carried);
        }
        proof {
            assert(r.deep_view() =~~= rdv.push(next_level(dv)[j as int]));
            assert(r.deep_view() =~= next_level(dv).take(j + 1));
        }
        j = j + 1;
    }
    proof {
        assert(next_level(dv).take(half as int) =~= next_level(dv));
    }
    r
}

/// The Merkle root over a non-empty list of leaf hashes.
pub fn merkle_root(leaves: &Vec<Vec<u8>>) -> (r: Vec<u8>)
    requires
        leaves@.len() >= 1,
    ensures
        r@ == root_of(leaves.deep_view()),
        all_len_32(leaves@) ==> r@.len() == 32,
{
    let mut level: Vec<Vec<u8>> = clone_hash_list(leaves);
    while level.len() > 1
        invariant
            level@.len() >= 1,
            level.deep_view().len() == level@.len(),
            root_of(level.deep_view()) == root_of(leaves.deep_view()),
            all_len_32(leaves@) ==> all_len_32(level@),
        decreases level@.len(),
    {
        level = next_level_vec(&level);
    }
    clone_bytes(level[0].as_slice())
}

/// The inclusion proof for the leaf at `index`: the sibling hashes on its
/// path to the root, bottom-most first.
pub fn build_proof(leaves: &Vec<Vec<u8>>, index: usize) -> (r: Vec<Vec<u8>>)
    requires
        leaves@.len() >= 1,
        index < leaves@.len(),
    ensures
        r.deep_view() == proof_of(leaves.deep_view(), index as int),
{
    let mut level: Vec<Vec<u8>> = clone_hash_list(leaves);
    let mut idx: usize = index;
    let mut path: Vec<Vec<u8>> = Vec::new();
    proof {
        assert(path.deep_view() =~= Seq::<Seq<u8>>::empty());
        assert(path.deep_view() + proof_of(level.deep_view(), idx as int) =~= proof_of(
            leaves.deep_view(),
            index as int,
        ));
    }
    while level.len() > 1
        invariant
            level@.len() >= 1,
            level.deep_view().len() == level@.len(),
            idx < level@.len(),
            path.deep_view() + proof_of(level.deep_view(), idx as int) == proof_of(
                leaves.deep_view(),
                index as int,
            ),
        decreases level@.len(),
    {
        let ghost pdv = path.deep_view();
        let ghost ldv = level.deep_view();
        if idx % 2 == 0 {
            if idx + 1 < level.len() {
                path.push(clone_bytes(level[idx + 1].as_slice()));
                proof {
                    assert(path.deep_view() =~~= pdv.push(ldv[idx + 1]));
                    assert(proof_of(ldv, idx as int) == seq![ldv[idx + 1]] + proof_of(
                        next_level(ldv),
                        idx as int / 2,
                    ));
                    assert(path.deep_view() + proof_of(next_level(ldv), idx as int / 2) =~= pdv
                        + proof_of(ldv, idx as int));
                }
            } else {
                proof {
                    assert(proof_of(ldv, idx as int) == proof_of(next_level(ldv), idx as int / 2));
                }
            }
        } else {
            path.push(clone_bytes(level[idx - 1].as_slice()));
            proof {
                assert(path.deep_view() =~~= pdv.push(ldv[idx as int - 1]));
                assert(proof_of(ldv, idx as int) == seq![ldv[idx as int - 1]] + proof_of(
                    next_level(ldv),
                    idx as int / 2,
                ));
                assert(path.deep_view() + proof_of(next_level(ldv), idx as int / 2) =~= pdv
                    + proof_of(ldv, idx as int));
            }
        }
        level = next_level_vec(&level);
        idx = idx / 2;
    }
    proof {
        assert(proof_of(level.deep_view(), idx as int) =~= Seq::<Seq<u8>>::empty());
        assert(path.deep_view() =~= proof_of(leaves.deep_view(), index as int));
    }
    path
}

/// Checks an inclusion proof: recomputes the root from the leaf hash along
/// the sibling path and compares it with the supplied root.
pub fn verify_proof(
    root: &Vec<u8>,
    leaf: &Vec<u8>,
    index: usize,
    path: &Vec<Vec<u8>>,
    total_leaves: usize,
) -> (r: bool)
    ensures
        r == proof_verifies(root@, leaf@, index as int, path.deep_view(), total_leaves as int),
{
    if index >= total_leaves {
        return false;
    }
    let mut cur: Vec<u8> = clone_bytes(leaf.as_slice());
    let mut idx: usize = index;
    let mut width: usize = total_leaves;
    let mut p: usize = 0;
    proof {
        assert(path.deep_view().skip(0) =~= path.deep_view());
    }
    while width > 1
        invariant
            1 <= width,
            idx < width,
            p <= path@.len(),
            path.deep_view().len() == path@.len(),
            climb(leaf@, index as int, total_leaves as int, path.deep_view()) == climb(
                cur@,
                idx as int,
                width as int,
                path.deep_view().skip(p as int),
            ),
        decreases width,
    {
        if idx % 2 == 0 && idx + 1 >= width {
        } else {
            if p == path.len() {
                proof {
                    assert(path.deep_view().skip(p as int) =~= Seq::<Seq<u8>>::empty());
                }
                return false;
            }
            let sib: &Vec<u8> = &path[p];
            proof {
                assert(path.deep_view().skip(p as int)[0] =~= sib@);
                assert(path.deep_view().skip(p as int).drop_first() =~= path.deep_view().skip(
                    p as int + 1,
                ));
            }
            if idx % 2 == 0 {
                cur = combine_hashes(&cur, sib);
            } else {
                cur = combine_hashes(sib, &cur);
            }
            p = p + 1;
        }
        idx = idx / 2;
        width = width / 2 + width % 2;
    }
    if p != path.len() {
        proof {
            assert(path.deep_view().skip(p as int).len() > 0);
        }
        return false;
    }
    proof {
        assert(path.deep_view().skip(p as int) =~= Seq::<Seq<u8>>::empty());
    }
    bytes_equal(cur.as_slice(), root.as_slice())
}

} // verus!
