use sha2::{Digest, Sha256};
use stratum_v2_jdc::hashing::{
    calc_short_hash, calc_tx_list_hash, calc_txid, merkle_root, witness_commitment,
};

const GENESIS_COINBASE: &str = "01000000010000000000000000000000000000000000000000000000000000000000000000ffffffff4d04ffff001d0104455468652054696d65732030332f4a616e2f32303039204368616e63656c6c6f72206f6e206272696e6b206f66207365636f6e64206261696c6f757420666f722062616e6b73ffffffff0100f2052a01000000434104678afdb0fe5548271967f1a67130b7105cd6a828e03909a67962e0ea1f61deb649f6bc3f4cef38c4f35504e51ec112de5c384df7ba0b8d578a4c702b6bf11d5fac00000000";
const GENESIS_TXID: &str = "4a5e1e4baab89f3a32518a88c31bc87f618f76673e2cc77ab2127b7afdeda33b";

fn sha256d(b: &[u8]) -> [u8; 32] {
    let h1 = Sha256::digest(b);
    Sha256::digest(h1).into()
}

#[test]
fn txid_of_genesis_coinbase() {
    let raw = hex::decode(GENESIS_COINBASE).unwrap();
    let id = calc_txid(&raw);
    assert_eq!(hex::encode(id), GENESIS_TXID);
}

#[test]
fn txid_is_reversed_double_sha() {
    let raw = vec![0x01, 0x02, 0x03];
    let mut want = sha256d(&raw);
    want.reverse();
    assert_eq!(calc_txid(&raw), want);
    assert_ne!(calc_txid(&raw), sha256d(&raw));
}

#[test]
fn short_hash_is_first_eight_le_bytes() {
    let txid = [0x42u8; 32];
    let nonce = 0x0102_0304_0506_0708u64;
    let mut h = Sha256::new();
    h.update(nonce.to_le_bytes());
    h.update(txid);
    let out = h.finalize();
    let want = u64::from_le_bytes([out[0], out[1], out[2], out[3], out[4], out[5], out[6], out[7]]);
    assert_eq!(calc_short_hash(&txid, nonce), want);
    assert_ne!(calc_short_hash(&txid, nonce), calc_short_hash(&txid, nonce + 1));
}

#[test]
fn tx_list_hash_over_txids() {
    let txs = vec![vec![0x01, 0x02], vec![0x03]];
    let mut cat = Vec::new();
    for t in &txs {
        cat.extend_from_slice(&calc_txid(t));
    }
    assert_eq!(calc_tx_list_hash(&txs), sha256d(&cat));
    assert_eq!(calc_tx_list_hash(&[]), sha256d(&[]));
}

fn pair(a: &[u8; 32], b: &[u8; 32]) -> [u8; 32] {
    let mut cat = a.to_vec();
    cat.extend_from_slice(b);
    sha256d(&cat)
}

#[test]
fn merkle_root_of_none_and_one() {
    assert_eq!(merkle_root(&[]), [0u8; 32]);
    let x = [0x33u8; 32];
    assert_eq!(merkle_root(&[x]), x);
}

#[test]
fn merkle_root_duplicates_last_on_odd_levels() {
    let a = [1u8; 32];
    let b = [2u8; 32];
    let c = [3u8; 32];
    let want = pair(&pair(&a, &b), &pair(&c, &c));
    assert_eq!(merkle_root(&[a, b, c]), want);
    assert_eq!(merkle_root(&[a, b, c, c]), want);
    assert_eq!(merkle_root(&[a, b]), pair(&a, &b));
}

#[test]
fn merkle_root_of_five() {
    let ids: Vec<[u8; 32]> = (1..=5u8).map(|i| [i; 32]).collect();
    let l1 = [pair(&ids[0], &ids[1]), pair(&ids[2], &ids[3]), pair(&ids[4], &ids[4])];
    let l2 = [pair(&l1[0], &l1[1]), pair(&l1[2], &l1[2])];
    assert_eq!(merkle_root(&ids), pair(&l2[0], &l2[1]));
}

#[test]
fn witness_commitment_is_double_sha_of_root_then_nonce() {
    let nonce = [0u8; 32];
    let root = [9u8; 32];
    assert_eq!(witness_commitment(&nonce, &root), pair(&root, &nonce));
}
