use stratum_v2_jdc::client::{
    check_handshake_response, DeclState, Handshake, PoolClient, PoolConnConfig, Reaction,
    SessionEnd, SUBSIDY,
};
use stratum_v2_jdc::error::Sv2Error;
use stratum_v2_jdc::hashing::{calc_short_hash, calc_txid};
use stratum_v2_jdc::msg_types;
use stratum_v2_jdc::types::{CoinbaseOut, Event};

fn tx0() -> Vec<u8> {
    vec![0x01, 0x00, 0x00, 0x00, 0xAB]
}

fn tx1() -> Vec<u8> {
    vec![0x02, 0x00, 0x00, 0x00, 0xCD, 0xEF]
}

fn session() -> PoolClient {
    let mut c = PoolClient::new(PoolConnConfig { address: "127.0.0.1:3336".to_string() });
    c.on_connected();
    c.on_handshake_sent();
    c.begin_session();
    c
}

fn quiet(r: &Reaction) -> bool {
    r.frame.is_none() && r.event.is_none()
}

/// A session that asked for a token and got `[0xAA, 0xBB]` for request 1.
fn ready_client() -> PoolClient {
    let mut c = session();
    let req = c.request_token().unwrap();
    assert_eq!(req[2], msg_types::ALLOC_TOKEN);
    assert_eq!(c.decl_state, DeclState::AwaitToken { req: 1 });
    let grant = vec![1, 0, 0, 0, 2, 0xAA, 0xBB, 100, 0, 0, 0, 1];
    let r = c.handle_msg(msg_types::ALLOC_TOKEN_OK, &grant).unwrap();
    assert!(r.frame.is_none());
    assert!(matches!(r.event, Some(Event::PoolUp)));
    c
}

/// Scenario 1: the happy path, leaving request 2 pending.
fn declared_client() -> (PoolClient, Vec<u8>) {
    let mut c = ready_client();
    let r = c.handle_event(Event::NewTemplate { height: 840_000, txs: 2, fees: 1000 }).unwrap();
    assert!(quiet(&r));
    let outputs = vec![CoinbaseOut { value: 5_000_000_000, script_pubkey: vec![0x6A] }];
    let r = c.handle_event(Event::DeclareJob { tpl_id: 1, outputs, txs: vec![tx0(), tx1()] }).unwrap();
    let frame = r.frame.expect("one DeclJob frame");
    match r.event {
        Some(Event::JobSent { tpl_id, txs }) => {
            assert_eq!(tpl_id, 1);
            assert_eq!(txs, 2);
        },
        other => panic!("unexpected event {:?}", other),
    }
    (c, frame)
}

fn u16_at(b: &[u8], p: usize) -> usize {
    b[p] as usize | (b[p + 1] as usize) << 8
}

#[test]
fn happy_path_declares_one_job() {
    let (c, frame) = declared_client();
    assert_eq!(&frame[0..2], &[0x02, 0x00]);
    assert_eq!(frame[2], msg_types::DECL_JOB);
    let p = &frame[6..];
    assert_eq!(frame.len() - 6, frame[3] as usize | (frame[4] as usize) << 8);
    assert_eq!(&p[0..4], &2u32.to_le_bytes());
    assert_eq!(p[4], 2);
    assert_eq!(&p[5..7], &[0xAA, 0xBB]);
    assert_eq!(&p[7..11], &0x2000_0000u32.to_le_bytes());
    let plen = u16_at(p, 11);
    let s_at = 13 + plen;
    let slen = u16_at(p, s_at);
    let n_at = s_at + 2 + slen;
    let nonce = u64::from_le_bytes(p[n_at..n_at + 8].try_into().unwrap());
    assert_eq!(nonce, c.hash_nonce);
    let count = u16_at(p, n_at + 8);
    assert_eq!(count, 2);
    let h0 = u64::from_le_bytes(p[n_at + 10..n_at + 18].try_into().unwrap());
    let h1 = u64::from_le_bytes(p[n_at + 18..n_at + 26].try_into().unwrap());
    assert_eq!(h0, calc_short_hash(&calc_txid(&tx0()), nonce));
    assert_eq!(h1, calc_short_hash(&calc_txid(&tx1()), nonce));
    let suffix = &p[s_at + 2..s_at + 2 + slen];
    assert_eq!(&suffix[5..13], &(1000 + SUBSIDY).to_le_bytes());
    assert_eq!(c.decl_state, DeclState::Pending { req: 2 });
    assert_eq!(c.pending.len(), 1);
    assert_eq!(c.pending.get(&2).unwrap().tpl_id, 1);
}

#[test]
fn identify_round_trip() {
    let (mut c, _) = declared_client();
    let ask = vec![2, 0, 0, 0, 1, 0, 0, 0];
    let r = c.handle_msg(msg_types::IDENTIFY_TXS, &ask).unwrap();
    assert!(r.event.is_none());
    let f = r.frame.unwrap();
    assert_eq!(f[2], msg_types::PROVIDE_TXS);
    let mut want = vec![2, 0, 0, 0, 1, 0, tx0().len() as u8, 0, 0];
    want.extend_from_slice(&tx0());
    assert_eq!(&f[6..], &want[..]);
    assert_eq!(c.decl_state, DeclState::AwaitTx { req: 2 });
}

#[test]
fn identify_skips_positions_out_of_range() {
    let (mut c, _) = declared_client();
    let ask = vec![2, 0, 0, 0, 3, 0, 9, 0, 1, 0, 0, 0];
    let f = c.handle_msg(msg_types::IDENTIFY_TXS, &ask).unwrap().frame.unwrap();
    let mut want = vec![2, 0, 0, 0, 2, 0, tx1().len() as u8, 0, 0];
    want.extend_from_slice(&tx1());
    want.extend_from_slice(&[tx0().len() as u8, 0, 0]);
    want.extend_from_slice(&tx0());
    assert_eq!(&f[6..], &want[..]);
}

#[test]
fn identify_for_unknown_request_is_invalid_state() {
    let (mut c, _) = declared_client();
    let err = c.handle_msg(msg_types::IDENTIFY_TXS, &[9, 0, 0, 0, 0, 0]).unwrap_err();
    assert!(matches!(err, Sv2Error::InvalidState(_)));
    assert_eq!(c.decl_state, DeclState::Pending { req: 2 });
}

#[test]
fn accept_replaces_token() {
    let (mut c, _) = declared_client();
    c.handle_msg(msg_types::IDENTIFY_TXS, &[2, 0, 0, 0, 1, 0, 0, 0]).unwrap();
    let r = c.handle_msg(msg_types::DECL_JOB_OK, &[2, 0, 0, 0, 1, 0xCC]).unwrap();
    match r.event {
        Some(Event::JobOk { tpl_id, token }) => {
            assert_eq!(tpl_id, 1);
            assert_eq!(token, vec![0xCC]);
        },
        other => panic!("unexpected event {:?}", other),
    }
    assert!(c.pending.is_empty());
    assert_eq!(c.token, Some(vec![0xCC]));
    assert_eq!(c.decl_state, DeclState::Ready);
    let ack = c.handle_msg(msg_types::PROVIDE_TXS_OK, &[2, 0, 0, 0]).unwrap();
    assert!(quiet(&ack));
}

#[test]
fn accept_without_token_keeps_old_one() {
    let (mut c, _) = declared_client();
    c.handle_msg(msg_types::DECL_JOB_OK, &[2, 0, 0, 0, 0]).unwrap();
    assert_eq!(c.token, Some(vec![0xAA, 0xBB]));
}

#[test]
fn reject_reports_code_and_details() {
    let (mut c, _) = declared_client();
    let mut d = vec![2, 0, 0, 0, 3, 8];
    d.extend_from_slice(b"too late");
    let r = c.handle_msg(msg_types::DECL_JOB_ERR, &d).unwrap();
    match r.event {
        Some(Event::JobFailed { tpl_id, reason }) => {
            assert_eq!(tpl_id, 1);
            assert_eq!(reason, "Stale: too late");
        },
        other => panic!("unexpected event {:?}", other),
    }
    assert_eq!(c.decl_state, DeclState::Ready);
    assert!(c.pending.is_empty());
}

#[test]
fn handshake_too_short_then_fresh_session() {
    let (mut c, _) = declared_client();
    c.end_session();
    c.on_connected();
    c.on_handshake_sent();
    let err = check_handshake_response(100).unwrap_err();
    assert_eq!(err, Sv2Error::NoiseHandshake("response too short".to_string()));
    match c.on_handshake_failed(&err) {
        Event::HandshakeErr(m) => assert_eq!(m, "Noise: response too short"),
        other => panic!("unexpected {:?}", other),
    }
    assert_eq!(c.hs_state, Handshake::Init);
    assert!(check_handshake_response(234).is_ok());
    assert!(matches!(check_handshake_response(0), Err(Sv2Error::NoiseHandshake(_))));
    c.begin_session();
    assert_eq!(c.decl_state, DeclState::NeedToken);
    assert!(c.token.is_none());
    assert!(c.pending.is_empty());
}

#[test]
fn shutdown_while_pending() {
    let mut c = ready_client();
    c.req_seq = 4;
    let r = c.handle_event(Event::DeclareJob { tpl_id: 3, outputs: vec![], txs: vec![tx0()] }).unwrap();
    assert!(r.frame.is_some());
    assert_eq!(c.decl_state, DeclState::Pending { req: 5 });
    let err = c.handle_event(Event::Shutdown).unwrap_err();
    assert_eq!(err, Sv2Error::Shutdown);
    assert_eq!(c.decl_state, DeclState::Pending { req: 5 });
    assert!(matches!(c.finish_session(Err(err)), SessionEnd::Stop));
    assert!(c.pending.is_empty());
}

#[test]
fn session_errors_are_reported_then_reconnect() {
    let (mut c, _) = declared_client();
    let end = c.finish_session(Err(Sv2Error::PoolConnection("closed".to_string())));
    match end {
        SessionEnd::Reconnect(Some(Event::Error(m))) => assert_eq!(m, "Pool: closed"),
        other => panic!("unexpected {:?}", other),
    }
    assert_eq!(c.hs_state, Handshake::Init);
    assert_eq!(c.decl_state, DeclState::NeedToken);
    assert!(c.token.is_none() && c.pending.is_empty());
}

#[test]
fn declare_ignored_unless_ready() {
    let mut c = session();
    c.token = Some(vec![1]);
    let r = c.declare_job(1, vec![], vec![tx0()]).unwrap();
    assert!(quiet(&r));
    assert!(c.pending.is_empty());
    let (mut d, _) = declared_client();
    let r = d.handle_event(Event::DeclareJob { tpl_id: 2, outputs: vec![], txs: vec![] }).unwrap();
    assert!(quiet(&r));
    assert_eq!(d.pending.len(), 1);
}

#[test]
fn declare_ignored_without_token() {
    let mut c = session();
    c.decl_state = DeclState::Ready;
    let r = c.declare_job(1, vec![], vec![tx0()]).unwrap();
    assert!(r.frame.is_none());
    assert!(c.pending.is_empty());
}

#[test]
fn messages_before_handshake_are_refused() {
    let mut c = PoolClient::new(PoolConnConfig { address: "x".to_string() });
    let err = c.handle_msg(msg_types::ALLOC_TOKEN_OK, &[1, 0, 0, 0, 0, 0, 0, 0, 0, 0]).unwrap_err();
    assert!(matches!(err, Sv2Error::InvalidState(_)));
}

#[test]
fn unknown_message_type_is_ignored() {
    let mut c = ready_client();
    let r = c.handle_msg(0x7F, &[1, 2, 3]).unwrap();
    assert!(quiet(&r));
    assert_eq!(c.decl_state, DeclState::Ready);
}

#[test]
fn malformed_grant_is_a_serialization_error() {
    let mut c = session();
    c.request_token().unwrap();
    let err = c.handle_msg(msg_types::ALLOC_TOKEN_OK, &[1, 0, 0, 0, 5, 1]).unwrap_err();
    assert_eq!(err, Sv2Error::Serialization("truncated token".to_string()));
    assert_eq!(c.decl_state, DeclState::AwaitToken { req: 1 });
}

#[test]
fn request_ids_wrap() {
    let mut c = session();
    c.req_seq = u32::MAX;
    assert_eq!(c.next_req(), 0);
    assert_eq!(c.next_req(), 1);
}

#[test]
fn token_request_frame_layout() {
    let mut c = session();
    let f = c.request_token().unwrap();
    let mut want = vec![0x02, 0x00, 0x50, 14, 0, 0, 1, 0, 0, 0, 7];
    want.extend_from_slice(b"sv2-jdc");
    want.extend_from_slice(&[8, 0]);
    assert_eq!(f, want);
}

#[test]
fn declare_refuses_live_request_id() {
    let (mut c, _) = declared_client();
    c.decl_state = DeclState::Ready;
    c.req_seq = 1;
    let err = c.handle_event(Event::DeclareJob { tpl_id: 9, outputs: vec![], txs: vec![] }).unwrap_err();
    assert!(matches!(err, Sv2Error::InvalidState(_)));
    assert_eq!(c.pending.len(), 1);
    assert_eq!(c.req_seq, 1);
}

#[test]
fn truncated_acceptance_is_refused() {
    let (mut c, _) = declared_client();
    let err = c.handle_msg(msg_types::DECL_JOB_OK, &[2, 0, 0, 0, 2, 0xCC]).unwrap_err();
    assert_eq!(err, Sv2Error::Serialization("truncated token".to_string()));
    assert_eq!(c.pending.len(), 1);
}

#[test]
fn connect_failure_announces_pool_down() {
    let mut c = PoolClient::new(PoolConnConfig { address: "127.0.0.1:1".to_string() });
    c.on_connected();
    assert!(matches!(c.on_connect_failed(), Event::PoolDown));
    assert_eq!(c.hs_state, Handshake::Init);
}
