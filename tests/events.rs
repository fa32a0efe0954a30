use stratum_v2_jdc::error::Sv2Error;
use stratum_v2_jdc::outputs::{parse_coinbase_outputs, CoinbaseOutputConfig};
use stratum_v2_jdc::template::{TemplateFeed, TxEntry};
use stratum_v2_jdc::types::{CoinbaseOut, Event, Stats};

#[test]
fn stats_follow_events() {
    let mut s = Stats::new();
    s.apply(&Event::NodeUp);
    s.apply(&Event::NewTemplate { height: 10, txs: 3, fees: 500 });
    s.apply(&Event::NewTemplate { height: 11, txs: 1, fees: 700 });
    s.apply(&Event::PoolUp);
    s.apply(&Event::HandshakeDone);
    s.apply(&Event::JobSent { tpl_id: 1, txs: 3 });
    s.apply(&Event::JobOk { tpl_id: 1, token: vec![] });
    s.apply(&Event::JobFailed { tpl_id: 2, reason: "x".to_string() });
    assert!(s.node_up && s.pool_up && s.handshake_ok);
    assert_eq!(s.height, 11);
    assert_eq!(s.templates, 2);
    assert_eq!(s.fees, 1200);
    assert_eq!((s.declared, s.accepted, s.rejected), (1, 1, 1));
    s.apply(&Event::PoolDown);
    assert!(!s.pool_up && !s.handshake_ok);
    s.apply(&Event::Error("boom".to_string()));
    assert_eq!(s.templates, 2);
}

#[test]
fn error_messages_carry_kind() {
    assert_eq!(Sv2Error::PoolConnection("closed".to_string()).message(), "Pool: closed");
    assert_eq!(Sv2Error::Serialization("too short".to_string()).message(), "Serialize: too short");
    assert_eq!(Sv2Error::ChannelSend.message(), "Send failed");
    assert_eq!(Sv2Error::Shutdown.message(), "Shutdown");
}

#[test]
fn coinbase_outputs_decode_hex() {
    let cfg = vec![
        CoinbaseOutputConfig { value: 5, script_pubkey: "6a".to_string() },
        CoinbaseOutputConfig { value: 7, script_pubkey: "0014AbCd".to_string() },
    ];
    let outs = parse_coinbase_outputs(&cfg).unwrap();
    assert_eq!(outs.len(), 2);
    assert_eq!(outs[0].value, 5);
    assert_eq!(outs[0].script_pubkey, vec![0x6A]);
    assert_eq!(outs[1].script_pubkey, vec![0x00, 0x14, 0xAB, 0xCD]);
}

#[test]
fn coinbase_outputs_reject_bad_hex() {
    for bad in ["6", "zz", "6a0"] {
        let cfg = vec![CoinbaseOutputConfig { value: 1, script_pubkey: bad.to_string() }];
        assert!(matches!(parse_coinbase_outputs(&cfg), Err(Sv2Error::Config(_))));
    }
}

#[test]
fn template_feed_emits_both_events() {
    let outs = vec![CoinbaseOut { value: 9, script_pubkey: vec![0x51] }];
    let mut feed = TemplateFeed::new(outs);
    assert!(feed.observe_height(5));
    assert!(!feed.observe_height(5));
    let txs = vec![
        TxEntry { data: "0102".to_string(), fee: Some(300) },
        TxEntry { data: "nothex".to_string(), fee: None },
        TxEntry { data: "ff".to_string(), fee: Some(40) },
    ];
    let (a, b) = feed.on_template(840_000, &txs);
    match a {
        Event::NewTemplate { height, txs, fees } => {
            assert_eq!((height, txs, fees), (840_000, 3, 340));
        },
        other => panic!("unexpected {:?}", other),
    }
    match b {
        Event::DeclareJob { tpl_id, outputs, txs } => {
            assert_eq!(tpl_id, 1);
            assert_eq!(outputs.len(), 1);
            assert_eq!(outputs[0].script_pubkey, vec![0x51]);
            assert_eq!(txs, vec![vec![0x01, 0x02], vec![0xFF]]);
        },
        other => panic!("unexpected {:?}", other),
    }
    let (_, b2) = feed.on_template(840_001, &[]);
    assert!(matches!(b2, Event::DeclareJob { tpl_id: 2, .. }));
}
