use stratum_v2_jdc::coinbase::{build_cb_prefix, build_cb_suffix, encode_height, witness_script};
use stratum_v2_jdc::error::Sv2Error;
use bytes::BytesMut;
use stratum_v2_jdc::framing::{drain_frames, next_frame};
use stratum_v2_jdc::messages::{
    build_frame, AllocToken, AllocTokenOk, DeclErrCode, DeclJob, DeclJobErr, DeclJobOk,
    IdentifyTxs, ProvideTxs, ProvideTxsOk,
};

fn short_message(e: Sv2Error) -> String {
    match e {
        Sv2Error::Serialization(m) => m,
        other => panic!("not a serialization error: {:?}", other),
    }
}

#[test]
fn test_alloc_token_serialize() {
    let msg = AllocToken::new(1, "miner", 8);
    let buf = msg.serialize().unwrap();
    assert_eq!(&buf[0..4], &1u32.to_le_bytes());
    assert_eq!(buf[4], 5);
}

#[test]
fn test_frame_builder() {
    let payload = vec![0x01, 0x02, 0x03];
    let frame = build_frame(0x50, 0x0002, &payload);

    assert_eq!(&frame[0..2], &0x0002u16.to_le_bytes());
    assert_eq!(frame[2], 0x50);
    assert_eq!(frame[3], 3);
    assert_eq!(&frame[6..], &payload);
}

#[test]
fn test_height_encoding() {
    assert_eq!(encode_height(0), vec![0x00]);
    assert_eq!(encode_height(1), vec![0x01, 0x01]);
    assert_eq!(encode_height(127), vec![0x01, 0x7F]);
    assert_eq!(encode_height(256), vec![0x02, 0x00, 0x01]);
}

#[test]
fn height_840000_uses_three_bytes() {
    let h = encode_height(840_000);
    assert_eq!(h[0], 0x03);
    assert_eq!(h, vec![0x03, 0x40, 0xD1, 0x0C]);
}

#[test]
fn height_encoding_larger_forms() {
    assert_eq!(encode_height(0x7FFF), vec![0x02, 0xFF, 0x7F]);
    assert_eq!(encode_height(0x8000), vec![0x03, 0x00, 0x80, 0x00]);
    assert_eq!(encode_height(0x80_0000), vec![0x04, 0x00, 0x00, 0x80, 0x00]);
}

#[test]
fn alloc_token_layout_is_exact() {
    let buf = AllocToken::new(0x0102_0304, "ab", 0x0809).serialize().unwrap();
    assert_eq!(buf, vec![0x04, 0x03, 0x02, 0x01, 2, b'a', b'b', 0x09, 0x08]);
}

#[test]
fn user_longer_than_255_fails() {
    let user = "u".repeat(256);
    let err = AllocToken::new(1, &user, 8).serialize().unwrap_err();
    assert_eq!(short_message(err), "user too long");
    let ok = AllocToken::new(1, &"u".repeat(255), 8).serialize().unwrap();
    assert_eq!(ok.len(), 4 + 1 + 255 + 2);
}

fn sample_job(token: Vec<u8>) -> DeclJob {
    DeclJob {
        req_id: 7,
        token,
        version: 0x2000_0000,
        cb_prefix: vec![0xA1, 0xA2],
        cb_suffix: vec![0xB1],
        hash_nonce: 0x1122_3344_5566_7788,
        short_hashes: vec![1, 2],
        tx_list_hash: [0xEE; 32],
        extra: vec![],
    }
}

#[test]
fn token_longer_than_255_fails() {
    let err = sample_job(vec![0; 256]).serialize().unwrap_err();
    assert_eq!(short_message(err), "token too long");
}

#[test]
fn decl_job_layout_is_exact() {
    let buf = sample_job(vec![0xAA, 0xBB]).serialize().unwrap();
    let mut want = vec![7, 0, 0, 0, 2, 0xAA, 0xBB, 0x00, 0x00, 0x00, 0x20];
    want.extend_from_slice(&[2, 0, 0xA1, 0xA2, 1, 0, 0xB1]);
    want.extend_from_slice(&0x1122_3344_5566_7788u64.to_le_bytes());
    want.extend_from_slice(&[2, 0]);
    want.extend_from_slice(&1u64.to_le_bytes());
    want.extend_from_slice(&2u64.to_le_bytes());
    want.extend_from_slice(&[0xEE; 32]);
    want.extend_from_slice(&[0, 0]);
    assert_eq!(buf, want);
}

#[test]
fn provide_txs_uses_24_bit_lengths() {
    let m = ProvideTxs { req_id: 2, txs: vec![vec![0x01, 0x02, 0x03], vec![]] };
    let buf = m.serialize().unwrap();
    assert_eq!(buf, vec![2, 0, 0, 0, 2, 0, 3, 0, 0, 1, 2, 3, 0, 0, 0]);
    let big = ProvideTxs { req_id: 1, txs: vec![vec![0x55; 0x1_0203]] };
    let b = big.serialize().unwrap();
    assert_eq!(&b[6..9], &[0x03, 0x02, 0x01]);
    assert_eq!(b.len(), 9 + 0x1_0203);
}

#[test]
fn alloc_token_ok_parses_fields() {
    let data = vec![1, 0, 0, 0, 2, 0xAA, 0xBB, 100, 0, 0, 0, 1];
    let m = AllocTokenOk::parse(&data).unwrap();
    assert_eq!(m.req_id, 1);
    assert_eq!(m.token, vec![0xAA, 0xBB]);
    assert_eq!(m.max_cb_extra, 100);
    assert!(m.async_ok);
    assert!(m.constraints.is_empty());
}

#[test]
fn alloc_token_ok_rejects_every_truncation() {
    let data = vec![1, 0, 0, 0, 2, 0xAA, 0xBB, 100, 0, 0, 0, 1];
    for n in 0..data.len() {
        let msg = short_message(AllocTokenOk::parse(&data[..n]).unwrap_err());
        assert!(msg.contains("too short") || msg.contains("truncated"), "{}", msg);
    }
    assert_eq!(short_message(AllocTokenOk::parse(&data[..3]).unwrap_err()), "too short");
    assert_eq!(short_message(AllocTokenOk::parse(&data[..6]).unwrap_err()), "truncated token");
}

#[test]
fn short_payloads_are_rejected_by_every_parser() {
    for n in 0..4 {
        let d = vec![0u8; n];
        assert_eq!(short_message(DeclJobOk::parse(&d).unwrap_err()), "too short");
        assert_eq!(short_message(IdentifyTxs::parse(&d).unwrap_err()), "too short");
        assert_eq!(short_message(ProvideTxsOk::parse(&d).unwrap_err()), "too short");
    }
    for n in 0..5 {
        let d = vec![0u8; n];
        assert_eq!(short_message(DeclJobErr::parse(&d).unwrap_err()), "too short");
    }
}

#[test]
fn decl_job_ok_reads_trailing_token() {
    let m = DeclJobOk::parse(&[2, 0, 0, 0, 1, 0xCC]).unwrap();
    assert_eq!(m.req_id, 2);
    assert_eq!(m.new_token, vec![0xCC]);
    let cut = DeclJobOk::parse(&[2, 0, 0, 0, 3, 0xCC]).unwrap_err();
    assert_eq!(short_message(cut), "truncated token");
    let zero = DeclJobOk::parse(&[2, 0, 0, 0, 0]).unwrap();
    assert!(zero.new_token.is_empty());
    let none = DeclJobOk::parse(&[9, 0, 0, 0]).unwrap();
    assert_eq!(none.req_id, 9);
    assert!(none.new_token.is_empty());
}

#[test]
fn decl_job_err_codes_and_details() {
    let mut d = vec![2, 0, 0, 0, 3, 8];
    d.extend_from_slice(b"too late");
    let m = DeclJobErr::parse(&d).unwrap();
    assert_eq!(m.req_id, 2);
    assert_eq!(m.code, DeclErrCode::Stale);
    assert_eq!(m.details, "too late");
    assert_eq!(DeclErrCode::from(1), DeclErrCode::BadToken);
    assert_eq!(DeclErrCode::from(2), DeclErrCode::BadParams);
    assert_eq!(DeclErrCode::from(0x42), DeclErrCode::Unknown);
    assert_eq!(DeclErrCode::Stale.name(), "Stale");
    let mut cut = vec![2, 0, 0, 0, 3, 9];
    cut.extend_from_slice(b"too");
    assert_eq!(short_message(DeclJobErr::parse(&cut).unwrap_err()), "truncated details");
    let bare = DeclJobErr::parse(&[1, 0, 0, 0, 1]).unwrap();
    assert_eq!(bare.code, DeclErrCode::BadToken);
    assert!(bare.details.is_empty());
}

#[test]
fn identify_txs_positions() {
    let m = IdentifyTxs::parse(&[2, 0, 0, 0, 2, 0, 0, 0, 5, 1]).unwrap();
    assert_eq!(m.req_id, 2);
    assert_eq!(m.positions, vec![0, 0x105]);
    let cut = IdentifyTxs::parse(&[2, 0, 0, 0, 3, 0, 7, 0, 9]).unwrap_err();
    assert_eq!(short_message(cut), "truncated positions");
    let half = IdentifyTxs::parse(&[2, 0, 0, 0, 3]).unwrap_err();
    assert_eq!(short_message(half), "truncated count");
    let bare = IdentifyTxs::parse(&[2, 0, 0, 0]).unwrap();
    assert!(bare.positions.is_empty());
    let empty = IdentifyTxs::parse(&[2, 0, 0, 0, 0, 0]).unwrap();
    assert!(empty.positions.is_empty());
}

#[test]
fn frame_length_is_header_plus_payload() {
    for n in [0usize, 1, 255, 256, 70_000] {
        let payload = vec![0x5A; n];
        let f = build_frame(0x52, 0x0002, &payload);
        assert_eq!(f.len(), 6 + n);
        assert_eq!(f[3] as usize | (f[4] as usize) << 8 | (f[5] as usize) << 16, n);
    }
}

#[test]
fn bytewise_reader_recovers_frames() {
    let payloads: Vec<Vec<u8>> = vec![vec![], vec![1, 2, 3], (0..600u32).map(|i| i as u8).collect()];
    let mut wire = Vec::new();
    for (i, p) in payloads.iter().enumerate() {
        wire.extend_from_slice(&build_frame(0x50 + i as u8, 0x0002, p));
    }
    let mut buf = BytesMut::with_capacity(16);
    let mut got = Vec::new();
    for b in &wire {
        buf.extend_from_slice(&[*b]);
        while let Some(f) = next_frame(&mut buf) {
            got.push(f);
        }
    }
    assert_eq!(got.len(), 3);
    for (i, f) in got.iter().enumerate() {
        assert_eq!(f.ext, 0x0002);
        assert_eq!(f.mtype, 0x50 + i as u8);
        assert_eq!(f.payload, payloads[i]);
    }
    assert!(buf.is_empty());
}

#[test]
fn partial_frame_stays_buffered() {
    let mut buf = BytesMut::with_capacity(16);
    buf.extend_from_slice(&[0x02, 0x00, 0x51, 0x04, 0x00, 0x00, 0xAA]);
    assert!(next_frame(&mut buf).is_none());
    assert_eq!(buf.len(), 7);
}

#[test]
fn coinbase_prefix_layout() {
    let p = build_cb_prefix(0x2000_0000, 840_000, b"sv2-jdc");
    assert_eq!(&p[0..4], &[0x00, 0x00, 0x00, 0x20]);
    assert_eq!(&p[4..7], &[0x00, 0x01, 0x01]);
    assert_eq!(&p[7..39], &[0u8; 32]);
    assert_eq!(&p[39..43], &[0xFF; 4]);
    assert_eq!(p[43], 4 + 7);
    assert_eq!(&p[44..48], &[0x03, 0x40, 0xD1, 0x0C]);
    assert_eq!(&p[48..], b"sv2-jdc");
    let long = build_cb_prefix(1, 1, &[0x11; 300]);
    assert_eq!(&long[43..46], &[0xFD, 0x2E, 0x01]);
}

#[test]
fn coinbase_suffix_layout() {
    let s = build_cb_suffix(5_000_000_000, &[0x6A], None);
    let mut want = vec![0xFF, 0xFF, 0xFF, 0xFF, 1];
    want.extend_from_slice(&5_000_000_000u64.to_le_bytes());
    want.extend_from_slice(&[1, 0x6A, 0x01, 0x20]);
    want.extend_from_slice(&[0u8; 32]);
    want.extend_from_slice(&[0, 0, 0, 0]);
    assert_eq!(s, want);

    let w = [0x77u8; 32];
    let sw = build_cb_suffix(1, &[0x51], Some(&w));
    assert_eq!(sw[4], 2);
    let ws = witness_script(&w);
    assert_eq!(&ws[..6], &[0x6A, 0x24, 0xAA, 0x21, 0xA9, 0xED]);
    assert_eq!(ws.len(), 38);
    assert_eq!(&sw[15..23], &0u64.to_le_bytes());
    assert_eq!(sw[23], 38);
    assert_eq!(&sw[24..62], &ws[..]);
}

#[test]
fn drain_takes_whole_frames_in_order() {
    let mut wire = build_frame(0x53, 0x0002, &[1, 2, 3, 4, 5]);
    wire.extend_from_slice(&build_frame(0x57, 0x0002, &[]));
    wire.extend_from_slice(&[0x02, 0x00, 0x55, 0x09]);
    let mut buf = BytesMut::with_capacity(64);
    buf.extend_from_slice(&wire);
    let frames = drain_frames(&mut buf);
    assert_eq!(frames.len(), 2);
    assert_eq!((frames[0].mtype, frames[0].payload.clone()), (0x53, vec![1, 2, 3, 4, 5]));
    assert_eq!((frames[1].mtype, frames[1].payload.len()), (0x57, 0));
    assert_eq!(&buf[..], &[0x02, 0x00, 0x55, 0x09]);
    assert!(drain_frames(&mut buf).is_empty());
    assert_eq!(buf.len(), 4);
}
