//! Transaction ids, salted short hashes, the transaction-list digest and the
//! Bitcoin merkle root, all built on SHA-256.

use vstd::prelude::*;
use sha2::Digest;
use crate::coinbase::zeros;
use crate::wire::{ids_view, le_u64, push_all, push_u64_le, txs_view, u64_at};

verus! {

/// The SHA-256 digest of a byte string.
pub uninterp spec fn sha256_of(data: Seq<u8>) -> Seq<u8>;

/// Relies on `sha2::Sha256::digest`: the 32-byte SHA-256 digest of `data`,
/// which depends on `data` alone.
#[verifier::external_body]
fn sha256(data: &[u8]) -> (r: [u8; 32])
    ensures
        r@ == sha256_of(data@),
{
    sha2::Sha256::digest(data).into()
}

/// SHA-256 applied twice.
pub open spec fn sha256d_of(data: Seq<u8>) -> Seq<u8> {
    sha256_of(sha256_of(data))
}

/// A transaction id: the double SHA-256 of the raw transaction, byte-reversed.
pub open spec fn txid_of(raw: Seq<u8>) -> Seq<u8> {
    sha256d_of(raw).reverse()
}

/// The salted short id of a transaction id.
pub open spec fn short_hash_of(txid: Seq<u8>, nonce: u64) -> u64 {
    u64_at(sha256_of(le_u64(nonce) + txid), 0)
}

/// The transaction ids of `txs`, concatenated in order.
pub open spec fn txids_concat(txs: Seq<Seq<u8>>) -> Seq<u8>
    decreases txs.len(),
{
    if txs.len() == 0 {
        Seq::empty()
    } else {
        txids_concat(txs.drop_last()) + txid_of(txs.last())
    }
}

/// The digest that commits to the ordered transaction list.
pub open spec fn tx_list_hash_of(txs: Seq<Seq<u8>>) -> Seq<u8> {
    sha256d_of(txids_concat(txs))
}

/// The parent of two merkle nodes.
pub open spec fn merkle_parent(a: Seq<u8>, b: Seq<u8>) -> Seq<u8> {
    sha256d_of(a + b)
}

/// One level up the merkle tree: nodes are paired in order, and the last one
/// is paired with itself when the count is odd.
pub open spec fn merkle_level(s: Seq<Seq<u8>>) -> Seq<Seq<u8>> {
    Seq::new(
        ((s.len() + 1) / 2) as nat,
        |i: int|
            merkle_parent(
                s[2 * i],
                if 2 * i + 1 < s.len() {
                    s[2 * i + 1]
                } else {
                    s[2 * i]
                },
            ),
    )
}

/// The merkle root of a list of ids: all zero for none, the id itself for one.
pub open spec fn merkle_of(s: Seq<Seq<u8>>) -> Seq<u8>
    decreases s.len(),
{
    if s.len() == 0 {
        zeros(32)
    } else if s.len() == 1 {
        s[0]
    } else {
        merkle_of(merkle_level(s))
    }
}

/// The bytes of `a` in reverse order.
fn reversed(a: &[u8; 32]) -> (r: [u8; 32])
    ensures
        r@ == a@.reverse(),
{
    let mut r: [u8; 32] = [0u8; 32];
    let mut i: usize = 0;
    while i < 32
        invariant
            i <= 32,
            a@.len() == 32,
            r@.len() == 32,
            forall|j: int| 0 <= j < i ==> r@[j] == a@[31 - j],
        decreases 32 - i,
    {
        r[i] = a[31 - i];
        i = i + 1;
    }
    assert(r@ =~= a@.reverse());
    r
}

/// The id of a raw transaction.
pub fn calc_txid(raw: &[u8]) -> (r: [u8; 32])
    ensures
        r@ == txid_of(raw@),
{
    let h1 = sha256(raw);
    let h2 = sha256(&h1);
    reversed(&h2)
}

/// The short id of `txid` salted with `nonce`.
pub fn calc_short_hash(txid: &[u8; 32], nonce: u64) -> (r: u64)
    ensures
        r == short_hash_of(txid@, nonce),
{
    let mut msg: Vec<u8> = Vec::new();
    push_u64_le(&mut msg, nonce);
    push_all(&mut msg, txid);
    let out = sha256(msg.as_slice());
    (out[0] as u64) | ((out[1] as u64) << 8u64) | ((out[2] as u64) << 16u64) | ((out[3] as u64)
        << 24u64) | ((out[4] as u64) << 32u64) | ((out[5] as u64) << 40u64) | ((out[6] as u64)
        << 48u64) | ((out[7] as u64) << 56u64)
}

/// The digest over the ids of `txs`, in order.
pub fn calc_tx_list_hash(txs: &[Vec<u8>]) -> (r: [u8; 32])
    ensures
        r@ == tx_list_hash_of(txs_view(txs@)),
{
    let mut cat: Vec<u8> = Vec::new();
    let mut i: usize = 0;
    while i < txs.len()
        invariant
            i <= txs@.len(),
            cat@ == txids_concat(txs_view(txs@.subrange(0, i as int))),
        decreases txs@.len() - i,
    {
        let id = calc_txid(txs[i].as_slice());
        push_all(&mut cat, &id);
        proof {
            let v = txs_view(txs@.subrange(0, i + 1));
            assert(v.drop_last() =~= txs_view(txs@.subrange(0, i as int)));
        }
        i = i + 1;
    }
    assert(txs@.subrange(0, txs@.len() as int) =~= txs@);
    let h1 = sha256(cat.as_slice());
    sha256(&h1)
}

/// The parent of two merkle nodes.
fn merkle_pair(a: &[u8; 32], b: &[u8; 32]) -> (r: [u8; 32])
    ensures
        r@ == merkle_parent(a@, b@),
{
    let mut cat: Vec<u8> = Vec::with_capacity(64);
    push_all(&mut cat, a);
    push_all(&mut cat, b);
    let h1 = sha256(cat.as_slice());
    sha256(&h1)
}

/// The Bitcoin merkle root of `txids`.
pub fn merkle_root(txids: &[[u8; 32]]) -> (r: [u8; 32])
    ensures
        r@ == merkle_of(ids_view(txids@)),
{
    if txids.len() == 0 {
        let z: [u8; 32] = [0u8; 32];
        assert(z@ =~= zeros(32));
        return z;
    }
    if txids.len() == 1 {
        return txids[0];
    }
    let mut level: Vec<[u8; 32]> = Vec::new();
    let mut k: usize = 0;
    while k < txids.len()
        invariant
            k <= txids@.len(),
            level@ == txids@.subrange(0, k as int),
        decreases txids@.len() - k,
    {
        level.push(txids[k]);
        k = k + 1;
    }
    assert(level@ =~= txids@);
    while level.len() > 1
        invariant
            level@.len() >= 1,
            merkle_of(ids_view(level@)) == merkle_of(ids_view(txids@)),
        decreases level@.len(),
    {
        let ghost lv = ids_view(level@);
        let mut next: Vec<[u8; 32]> = Vec::new();
        let n = level.len();
        let pairs = n / 2 + n % 2;
        let mut j: usize = 0;
        while j < pairs
            invariant
                j <= pairs,
                pairs == (n + 1) / 2,
                n == level@.len(),
                lv == ids_view(level@),
                n > 1,
                next@.len() == j,
                forall|t: int| 0 <= t < j ==> #[trigger] next@[t]@ == merkle_level(lv)[t],
            decreases pairs - j,
        {
            let i = 2 * j;
            let left = level[i];
            let right = if i + 1 < n {
                level[i + 1]
            } else {
                left
            };
            let h = merkle_pair(&left, &right);
            next.push(h);
            j = j + 1;
        }
        assert(ids_view(next@) =~= merkle_level(lv));
        level = next;
    }
    level[0]
}

/// The segwit commitment to a witness merkle root and nonce.
pub fn witness_commitment(nonce: &[u8; 32], root: &[u8; 32]) -> (r: [u8; 32])
    ensures
        r@ == sha256d_of(root@ + nonce@),
{
    let mut cat: Vec<u8> = Vec::with_capacity(64);
    push_all(&mut cat, root);
    push_all(&mut cat, nonce);
    let h1 = sha256(cat.as_slice());
    sha256(&h1)
}

/// The merkle root of no ids is all zero bytes, and that of a single id is
/// the id itself.
pub proof fn lemma_merkle_small(x: Seq<u8>)
    ensures
        merkle_of(Seq::<Seq<u8>>::empty()) == zeros(32),
        merkle_of(seq![x]) == x,
{
}

/// A level of odd length pairs its last node with itself: repeating the last
/// node of such a level leaves the next level, and so the root, as it is.
pub proof fn lemma_merkle_odd_duplicates_last(s: Seq<Seq<u8>>)
    requires
        s.len() % 2 == 1,
        s.len() > 1,
    ensures
        merkle_level(s) == merkle_level(s.push(s.last())),
        merkle_level(s).last() == merkle_parent(s.last(), s.last()),
        merkle_of(s) == merkle_of(s.push(s.last())),
{
    let t = s.push(s.last());
    assert(merkle_level(s) =~= merkle_level(t));
}

} // verus!
