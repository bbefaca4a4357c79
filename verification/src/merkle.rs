//! Merkle roots over 32-byte hashes.
//!
//! The tree follows the consensus convention: at each level hashes are paired
//! left to right and an unpaired last hash is paired with itself; each pair is
//! reduced with double SHA-256. The root of a single hash is that hash.

use crate::encoding::enc_bytes;
use crate::hashes::{sha256d, sha256d_of};
use vstd::prelude::*;

verus! {

/// One pairwise reduction step.
pub open spec fn spec_merkle_level(hs: Seq<Seq<u8>>) -> Seq<Seq<u8>> {
    Seq::new(((hs.len() + 1) / 2) as nat, |i: int| sha256d_of(hs[2 * i] + hs[if 2 * i + 1
        < hs.len() {
        2 * i + 1
    } else {
        hs.len() - 1
    }]))
}

/// The merkle root of a non-empty list of hashes.
pub open spec fn spec_merkle_root(hs: Seq<Seq<u8>>) -> Seq<u8>
    recommends
        hs.len() >= 1,
    decreases hs.len(),
{
    if hs.len() <= 1 {
        if hs.len() == 1 {
            hs[0]
        } else {
            Seq::empty()
        }
    } else {
        spec_merkle_root(spec_merkle_level(hs))
    }
}

/// The merkle root of a single hash is that hash itself.
pub proof fn lemma_merkle_single(h: Seq<u8>)
    ensures
        spec_merkle_root(seq![h]) == h,
{
    assert(seq![h][0] == h);
}

/// Computes the merkle root of a non-empty list of 32-byte hashes.
pub fn merkle_root(hashes: &Vec<Vec<u8>>) -> (r: Vec<u8>)
    requires
        hashes@.len() >= 1,
    ensures
        r@ == spec_merkle_root(hashes.deep_view()),
{
    let mut cur: Vec<Vec<u8>> = Vec::new();
    let mut k: usize = 0;
    while k < hashes.len()
        invariant
            k <= hashes@.len(),
            cur@.len() == k,
            forall|j: int| 0 <= j < k ==> #[trigger] cur.deep_view()[j] == hashes.deep_view()[j],
        decreases hashes@.len() - k,
    {
        let ghost pre = cur.deep_view();
        let mut one: Vec<u8> = Vec::new();
        enc_bytes(&mut one, &hashes[k]);
        proof {
            assert(one@ =~= hashes.deep_view()[k as int]);
        }
        cur.push(one);
        proof {
            assert(cur.deep_view() =~~= pre.push(hashes.deep_view()[k as int]));
        }
        k = k + 1;
    }
    proof {
        assert(cur.deep_view() =~= hashes.deep_view());
    }
    let ghost orig = hashes.deep_view();
    while cur.len() > 1
        invariant
            cur@.len() >= 1,
            spec_merkle_root(cur.deep_view()) == spec_merkle_root(orig),
        decreases cur@.len(),
    {
        let ghost level_in = cur.deep_view();
        let n = cur.len();
        let half = n / 2 + n % 2;
        let mut next: Vec<Vec<u8>> = Vec::new();
        let mut i: usize = 0;
        while i < half
            invariant
                n == cur@.len(),
                1 < n,
                half == (n + 1) / 2,
                level_in == cur.deep_view(),
                0 <= i <= half,
                next@.len() == i,
                forall|j: int|
                    0 <= j < i ==> #[trigger] next.deep_view()[j] == spec_merkle_level(
                        level_in,
                    )[j],
            decreases half - i,
        {
            let mut buf: Vec<u8> = Vec::new();
            enc_bytes(&mut buf, &cur[2 * i]);
            if 2 * i + 1 < n {
                enc_bytes(&mut buf, &cur[2 * i + 1]);
                proof {
                    assert(buf@ =~= level_in[2 * (i as int)] + level_in[2 * (i as int) + 1]);
                }
            } else {
                enc_bytes(&mut buf, &cur[n - 1]);
                proof {
                    assert(buf@ =~= level_in[2 * (i as int)] + level_in[n - 1]);
                }
            }
            let h = sha256d(&buf);
            let ghost pre = next.deep_view();
            next.push(h);
            proof {
                assert(next.deep_view()[i as int] == h@);
                assert(h@ == spec_merkle_level(level_in)[i as int]);
                assert(forall|j: int|
                    0 <= j < i ==> #[trigger] next.deep_view()[j] == pre[j]);
            }
            i = i + 1;
        }
        proof {
            assert(next@.len() == (level_in.len() + 1) / 2);
            assert(next.deep_view() =~= spec_merkle_level(level_in));
            assert(spec_merkle_root(level_in) == spec_merkle_root(spec_merkle_level(level_in)));
        }
        cur = next;
    }
    let ghost last_level = cur.deep_view();
    proof {
        assert(last_level.len() == 1);
        assert(spec_merkle_root(last_level) == last_level[0]);
    }
    let r = match cur.pop() {
        Some(v) => v,
        None => Vec::new(),
    };
    proof {
        assert(r@ == last_level[0]);
    }
    r
}

} // verus!
