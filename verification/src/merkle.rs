//! Merkle tree over fixed-size 32-byte hashes.
//!
//! Levels are built bottom-up: each pair of nodes is combined by hashing
//! their concatenation, and an unpaired final node is carried up unchanged
//! (no padding). The root of zero leaves is the all-zero hash. A membership
//! proof lists, bottom-up, the sibling needed at each level; the verifier
//! tracks left/right placement through the index's parity, carrying the
//! running hash wherever the node had no sibling.

use vstd::prelude::*;

use crate::hashing::{sha256, sha256_of};

verus! {

/// The all-zero 32-byte hash, the defined root of an empty tree.
pub open spec fn zero_hash() -> Seq<u8> {
    Seq::new(32, |i: int| 0u8)
}

/// Combining two nodes: the hash of their concatenation.
pub open spec fn combine_hashes(a: Seq<u8>, b: Seq<u8>) -> Seq<u8> {
    sha256_of(a + b)
}

/// A vector of 32-byte nodes, seen as a sequence of byte sequences.
pub open spec fn level_view(v: Seq<[u8; 32]>) -> Seq<Seq<u8>> {
    v.map_values(|a: [u8; 32]| a@)
}

/// One level up: pairs combined, an unpaired final node carried unchanged.
pub open spec fn next_level(level: Seq<Seq<u8>>) -> Seq<Seq<u8>> {
    Seq::new(
        (level.len() + 1) / 2,
        |i: int|
            if 2 * i + 1 < level.len() {
                combine_hashes(level[2 * i], level[2 * i + 1])
            } else {
                level[2 * i]
            },
    )
}

/// The root of a level: the single node once the level has shrunk to one,
/// and the all-zero hash for an empty level.
pub open spec fn root_of(level: Seq<Seq<u8>>) -> Seq<u8>
    decreases level.len(),
{
    if level.len() == 0 {
        zero_hash()
    } else if level.len() == 1 {
        level[0]
    } else {
        root_of(next_level(level))
    }
}

/// The membership proof for the node at `idx`: bottom-up, the sibling at
/// each level where the node has one. A carried node contributes nothing.
pub open spec fn proof_of(level: Seq<Seq<u8>>, idx: int) -> Seq<Seq<u8>>
    recommends
        0 <= idx < level.len(),
    decreases level.len(),
{
    if level.len() <= 1 {
        Seq::<Seq<u8>>::empty()
    } else {
        let sib = if idx % 2 == 0 {
            idx + 1
        } else {
            idx - 1
        };
        let here: Seq<Seq<u8>> = if 0 <= sib < level.len() {
            seq![level[sib]]
        } else {
            Seq::<Seq<u8>>::empty()
        };
        here + proof_of(next_level(level), idx / 2)
    }
}

/// Recomputing the root from a leaf hash, its index, the width of the
/// leaf level and a sibling list: at each level the node is combined with
/// the next sibling, on the side its index parity dictates, or carried
/// unchanged when it is the unpaired last node of the level.
pub open spec fn recompute_root_from(h: Seq<u8>, idx: int, width: int, pf: Seq<Seq<u8>>) -> Seq<u8>
    decreases width,
{
    if width <= 1 {
        h
    } else if idx % 2 == 0 && idx + 1 >= width {
        recompute_root_from(h, idx / 2, (width + 1) / 2, pf)
    } else if pf.len() == 0 {
        h
    } else {
        let h2 = if idx % 2 == 0 {
            combine_hashes(h, pf[0])
        } else {
            combine_hashes(pf[0], h)
        };
        recompute_root_from(h2, idx / 2, (width + 1) / 2, pf.drop_first())
    }
}

/// For any leaf level and any valid index, recomputing the root from the
/// leaf at that index with its membership proof, combining by index parity
/// at each level, yields exactly the level's root.
pub proof fn lemma_merkle_proof_recomputes_root(level: Seq<Seq<u8>>, idx: int)
    requires
        0 <= idx < level.len(),
    ensures
        recompute_root_from(level[idx], idx, level.len() as int, proof_of(level, idx)) == root_of(
            level,
        ),
    decreases level.len(),
{
    let n = level.len() as int;
    if n == 1 {
        // width is 1, the proof is empty, and the recomputation returns the leaf,
        // which is the root of a single-node level.
    } else {
        let next = next_level(level);
        let half = idx / 2;
        assert(next.len() == (n + 1) / 2);
        assert(0 <= half < next.len());
        let rest = proof_of(next, half);
        if idx % 2 == 0 {
            if idx + 1 < n {
                // The sibling is to the right; the combined node is the
                // parent at half height.
                assert(next[half] == combine_hashes(level[idx], level[idx + 1]));
                let pf = proof_of(level, idx);
                assert(pf == seq![level[idx + 1]] + rest);
                assert(pf[0] == level[idx + 1]);
                assert(pf.len() >= 1);
                assert(pf.drop_first() =~= rest);
                lemma_merkle_proof_recomputes_root(next, half);
                assert(recompute_root_from(level[idx], idx, n, pf) == recompute_root_from(
                    next[half],
                    half,
                    (n + 1) / 2,
                    rest,
                ));
            } else {
                // Unpaired last node: carried up unchanged.
                assert(next[half] == level[idx]);
                assert(proof_of(level, idx) =~= rest);
                lemma_merkle_proof_recomputes_root(next, half);
            }
        } else {
            // The sibling is to the left.
            assert(2 * half == idx - 1);
            assert(next[half] == combine_hashes(level[idx - 1], level[idx]));
            let pf = proof_of(level, idx);
            assert(pf == seq![level[idx - 1]] + rest);
            assert(pf[0] == level[idx - 1]);
            assert(pf.len() >= 1);
            assert(pf.drop_first() =~= rest);
            lemma_merkle_proof_recomputes_root(next, half);
            assert(recompute_root_from(level[idx], idx, n, pf) == recompute_root_from(
                next[half],
                half,
                (n + 1) / 2,
                rest,
            ));
        }
    }
}

/// Merkle tree built from an ordered sequence of 32-byte leaf hashes.
pub struct MerkleTree {
    leaves: Vec<[u8; 32]>,
}

/// Combines two nodes exactly as [`combine_hashes`] describes: the hash of
/// the left node's bytes followed by the right node's bytes.
fn hash_pair(a: &[u8; 32], b: &[u8; 32]) -> (r: [u8; 32])
    ensures
        r@ == combine_hashes(a@, b@),
{
    let mut buf: Vec<u8> = Vec::new();
    let mut i: usize = 0;
    while i < 32
        invariant
            i <= 32,
            buf@ =~= a@.take(i as int),
        decreases 32 - i,
    {
        buf.push(a[i]);
        i = i + 1;
    }
    assert(buf@ =~= a@);
    let mut j: usize = 0;
    while j < 32
        invariant
            j <= 32,
            buf@ =~= a@ + b@.take(j as int),
        decreases 32 - j,
    {
        buf.push(b[j]);
        j = j + 1;
    }
    assert(buf@ =~= a@ + b@);
    sha256(buf.as_slice())
}

/// Pushing one node extends a level's view by the node's bytes: where the
/// view so far matches a target prefix and the new node matches the target's
/// next element, the extended view matches the longer prefix.
proof fn lemma_level_view_push(prev: Seq<[u8; 32]>, h: [u8; 32], target: Seq<Seq<u8>>)
    requires
        target.len() == prev.len() + 1,
        level_view(prev) == target.take(prev.len() as int),
        h@ == target[prev.len() as int],
    ensures
        level_view(prev.push(h)) == target,
{
    let ext = prev.push(h);
    assert forall|j: int| 0 <= j < target.len() implies level_view(ext)[j] == target[j] by {
        if j < prev.len() {
            assert(level_view(prev)[j] == target.take(prev.len() as int)[j]);
            assert(level_view(prev)[j] == prev[j]@);
            assert(ext[j] == prev[j]);
        } else {
            assert(ext[j] == h);
        }
    }
    assert(level_view(ext) =~= target);
}

/// Builds the next level up from `current`, as [`next_level`] describes.
fn build_next_level(current: &Vec<[u8; 32]>) -> (r: Vec<[u8; 32]>)
    ensures
        level_view(r@) =~= next_level(level_view(current@)),
{
    let ghost lv = level_view(current@);
    let mut next: Vec<[u8; 32]> = Vec::new();
    let mut i: usize = 0;
    while i < current.len()
        invariant
            lv == level_view(current@),
            i <= current.len(),
            i % 2 == 0 || i == current.len(),
            level_view(next@) =~~= next_level(lv).take(((i + 1) / 2) as int),
        decreases current.len() - i,
    {
        let ghost k = ((i + 1) / 2) as int;
        let ghost prev = next@;
        proof {
            assert(i % 2 == 0);
            assert(2 * k == i);
            assert(k < next_level(lv).len());
            assert(lv[i as int] == current@[i as int]@);
        }
        if i + 1 < current.len() {
            let h = hash_pair(&current[i], &current[i + 1]);
            next.push(h);
            proof {
                assert(lv[i + 1] == current@[i + 1]@);
                assert(next_level(lv)[k] == combine_hashes(lv[2 * k], lv[2 * k + 1]));
                assert(h@ == next_level(lv)[k]);
                assert(next_level(lv).take(k).len() == k);
                assert(level_view(prev).len() == prev.len());
                assert(prev.len() == k);
                assert(next_level(lv).take(k + 1).len() == k + 1);
                assert(next_level(lv).take(k + 1).take(k) =~= next_level(lv).take(k));
                assert(next_level(lv).take(k + 1)[k] == next_level(lv)[k]);
                lemma_level_view_push(prev, h, next_level(lv).take(k + 1));
            }
            i = i + 2;
        } else {
            let h = current[i];
            next.push(h);
            proof {
                assert(2 * k + 1 >= lv.len());
                assert(next_level(lv)[k] == lv[2 * k]);
                assert(h@ == next_level(lv)[k]);
                assert(next_level(lv).take(k).len() == k);
                assert(level_view(prev).len() == prev.len());
                assert(prev.len() == k);
                assert(next_level(lv).take(k + 1).len() == k + 1);
                assert(next_level(lv).take(k + 1).take(k) =~= next_level(lv).take(k));
                assert(next_level(lv).take(k + 1)[k] == next_level(lv)[k]);
                lemma_level_view_push(prev, h, next_level(lv).take(k + 1));
            }
            i = i + 1;
        }
    }
    proof {
        assert(level_view(next@) =~~= next_level(lv));
    }
    next
}

impl MerkleTree {
    /// The tree's leaves, as a sequence of byte sequences.
    pub closed spec fn leaves_view(&self) -> Seq<Seq<u8>> {
        level_view(self.leaves@)
    }

    /// Wraps an ordered sequence of leaf hashes.
    pub fn new(leaves: Vec<[u8; 32]>) -> (r: Self)
        ensures
            r.leaves_view() == level_view(leaves@),
    {
        MerkleTree { leaves }
    }

    /// How many leaves the tree holds.
    pub fn leaf_count(&self) -> (r: usize)
        ensures
            r == self.leaves_view().len(),
    {
        self.leaves.len()
    }

    /// The tree's root; the all-zero hash for zero leaves.
    pub fn root(&self) -> (r: [u8; 32])
        ensures
            r@ == root_of(self.leaves_view()),
            self.leaves_view().len() == 0 ==> r@ == zero_hash(),
    {
        if self.leaves.len() == 0 {
            let zeroes: [u8; 32] = [0u8; 32];
            assert(zeroes@ =~= zero_hash());
            return zeroes;
        }
        let mut current: Vec<[u8; 32]> = Vec::new();
        let mut i: usize = 0;
        while i < self.leaves.len()
            invariant
                i <= self.leaves.len(),
                current@ =~= self.leaves@.take(i as int),
            decreases self.leaves.len() - i,
        {
            current.push(self.leaves[i]);
            i = i + 1;
        }
        assert(current@ =~= self.leaves@);
        assert(level_view(current@) =~= self.leaves_view());
        while current.len() > 1
            invariant
                current.len() >= 1,
                root_of(level_view(current@)) == root_of(self.leaves_view()),
            decreases current.len(),
        {
            let next = build_next_level(&current);
            proof {
                assert(root_of(level_view(next@)) == root_of(level_view(current@)));
            }
            current = next;
        }
        current[0]
    }

    /// The membership proof for the leaf at `index`: bottom-up, the sibling
    /// hash needed at each level. `None` when `index` is out of range.
    pub fn membership_proof(&self, index: usize) -> (r: Option<Vec<[u8; 32]>>)
        ensures
            (r is Some) <==> (index as int) < self.leaves_view().len(),
            r matches Some(pf) ==> level_view(pf@) == proof_of(self.leaves_view(), index as int),
    {
        if index >= self.leaves.len() {
            return None;
        }
        let mut pf: Vec<[u8; 32]> = Vec::new();
        let mut current: Vec<[u8; 32]> = Vec::new();
        let mut i: usize = 0;
        while i < self.leaves.len()
            invariant
                i <= self.leaves.len(),
                current@ =~= self.leaves@.take(i as int),
            decreases self.leaves.len() - i,
        {
            current.push(self.leaves[i]);
            i = i + 1;
        }
        assert(current@ =~= self.leaves@);
        assert(level_view(current@) =~= self.leaves_view());
        let mut idx: usize = index;
        while current.len() > 1
            invariant
                idx < current.len(),
                proof_of(self.leaves_view(), index as int) =~= level_view(pf@) + proof_of(
                    level_view(current@),
                    idx as int,
                ),
            decreases current.len(),
        {
            let ghost lv = level_view(current@);
            let sibling = if idx % 2 == 0 {
                idx + 1
            } else {
                idx - 1
            };
            if sibling < current.len() {
                pf.push(current[sibling]);
                proof {
                    assert(proof_of(lv, idx as int) =~= seq![lv[sibling as int]] + proof_of(
                        next_level(lv),
                        idx as int / 2,
                    ));
                }
            } else {
                proof {
                    assert(proof_of(lv, idx as int) =~= proof_of(next_level(lv), idx as int / 2));
                }
            }
            let next = build_next_level(&current);
            current = next;
            idx = idx / 2;
            proof {
                assert(proof_of(self.leaves_view(), index as int) =~= level_view(pf@) + proof_of(
                    level_view(current@),
                    idx as int,
                ));
            }
        }
        assert(proof_of(level_view(current@), idx as int) =~= Seq::<Seq<u8>>::empty());
        assert(level_view(pf@) =~= proof_of(self.leaves_view(), index as int));
        Some(pf)
    }
}

/// Recomputes the root from a leaf hash, its index, the width of the leaf
/// level, and a membership proof, combining by index parity at each level.
/// Paired with [`lemma_merkle_proof_recomputes_root`], the result equals the
/// tree's root whenever the proof came from [`MerkleTree::membership_proof`].
pub fn verify_proof(leaf: &[u8; 32], index: usize, leaf_count: usize, pf: &Vec<[u8; 32]>) -> (r: [u8; 32])
    ensures
        r@ == recompute_root_from(leaf@, index as int, leaf_count as int, level_view(pf@)),
{
    let ghost goal = recompute_root_from(leaf@, index as int, leaf_count as int, level_view(pf@));
    let mut h: [u8; 32] = *leaf;
    let mut idx: usize = index;
    let mut width: usize = leaf_count;
    let mut used: usize = 0;
    proof {
        assert(level_view(pf@).skip(0) =~= level_view(pf@));
    }
    while width > 1
        invariant
            used <= pf@.len(),
            goal == recompute_root_from(leaf@, index as int, leaf_count as int, level_view(pf@)),
            goal == recompute_root_from(h@, idx as int, width as int, level_view(pf@).skip(
                used as int,
            )),
        decreases width,
    {
        let ghost remaining = level_view(pf@).skip(used as int);
        proof {
            assert((width as int + 1) / 2 == width as int / 2 + width as int % 2);
        }
        if idx % 2 == 0 && idx >= width - 1 {
            // Unpaired last node of this level: carried up unchanged.
            proof {
                assert(goal == recompute_root_from(
                    h@,
                    idx as int / 2,
                    (width as int + 1) / 2,
                    remaining,
                ));
            }
        } else if used >= pf.len() {
            // The proof ran short; the recomputation stops here.
            assert(remaining.len() == 0);
            assert(!(idx % 2 == 0 && idx as int + 1 >= width as int));
            assert(recompute_root_from(h@, idx as int, width as int, remaining) == h@);
            assert(goal == h@);
            return h;
        } else {
            let sibling = &pf[used];
            proof {
                assert(remaining.len() > 0);
                assert(remaining[0] == pf@[used as int]@);
                assert(remaining.drop_first() =~= level_view(pf@).skip(used as int + 1));
            }
            if idx % 2 == 0 {
                h = hash_pair(&h, sibling);
            } else {
                h = hash_pair(sibling, &h);
            }
            used = used + 1;
        }
        idx = idx / 2;
        width = width / 2 + width % 2;
    }
    h
}

} // verus!
