//! Coinbase outputs as configured: amounts with hex-encoded scripts.

use vstd::prelude::*;
use vstd::utf8::encode_utf8;
use crate::error::Sv2Error;
use crate::types::CoinbaseOut;

verus! {

/// A configured coinbase output, its script written in hex.
#[derive(Debug, Clone)]
pub struct CoinbaseOutputConfig {
    pub value: u64,
    pub script_pubkey: String,
}

/// The value of a hex digit, in either case.
pub open spec fn hex_digit(c: u8) -> Option<u8> {
    if 0x30 <= c <= 0x39 {
        Some((c - 0x30) as u8)
    } else if 0x61 <= c <= 0x66 {
        Some((c - 0x61 + 10) as u8)
    } else if 0x41 <= c <= 0x46 {
        Some((c - 0x41 + 10) as u8)
    } else {
        None
    }
}

/// The bytes a hex string spells, two digits each, if it is one.
pub open spec fn hex_decoded(s: Seq<u8>) -> Option<Seq<u8>> {
    if s.len() % 2 == 0 && forall|i: int| 0 <= i < s.len() ==> (#[trigger] hex_digit(s[i])) is Some {
        Some(
            Seq::new(
                (s.len() / 2) as nat,
                |i: int|
                    (16 * hex_digit(s[2 * i])->Some_0 + hex_digit(s[2 * i + 1])->Some_0) as u8,
            ),
        )
    } else {
        None
    }
}

/// Relies on `hex::decode`: an even number of hex digits, in either case,
/// decodes two digits to a byte; anything else is an error.
#[verifier::external_body]
pub(crate) fn hex_decode(s: &str) -> (r: Option<Vec<u8>>)
    ensures
        match r {
            Some(b) => hex_decoded(encode_utf8(s@)) == Some(b@),
            None => hex_decoded(encode_utf8(s@)) is None,
        },
{
    hex::decode(s).ok()
}

/// Whether every configured script is valid hex.
pub open spec fn all_hex(configs: Seq<CoinbaseOutputConfig>) -> bool {
    forall|i: int|
        0 <= i < configs.len() ==> (#[trigger] hex_decoded(encode_utf8(configs[i].script_pubkey@)))
            is Some
}

/// Decodes the configured outputs, in order; a script that is not hex is a
/// `Config` error.
pub fn parse_coinbase_outputs(configs: &[CoinbaseOutputConfig]) -> (r: Result<
    Vec<CoinbaseOut>,
    Sv2Error,
>)
    ensures
        r is Ok <==> all_hex(configs@),
        r matches Ok(v) ==> v@.len() == configs@.len() && forall|i: int|
            0 <= i < v@.len() ==> (#[trigger] v@[i]).value == configs@[i].value && Some(
                v@[i].script_pubkey@,
            ) == hex_decoded(encode_utf8(configs@[i].script_pubkey@)),
        r matches Err(e) ==> e is Config,
{
    let mut out: Vec<CoinbaseOut> = Vec::new();
    let mut i: usize = 0;
    while i < configs.len()
        invariant
            i <= configs@.len(),
            out@.len() == i,
            forall|j: int|
                0 <= j < i ==> (#[trigger] out@[j]).value == configs@[j].value && Some(
                    out@[j].script_pubkey@,
                ) == hex_decoded(encode_utf8(configs@[j].script_pubkey@)),
        decreases configs@.len() - i,
    {
        let c = &configs[i];
        let script = match hex_decode(c.script_pubkey.as_str()) {
            Some(b) => b,
            None => {
                return Err(Sv2Error::Config("invalid script_pubkey hex".to_owned()));
            },
        };
        out.push(CoinbaseOut { value: c.value, script_pubkey: script });
        i = i + 1;
    }
    assert forall|j: int| 0 <= j < configs@.len() implies (#[trigger] hex_decoded(
        encode_utf8(configs@[j].script_pubkey@),
    )) is Some by {
        assert(out@[j].value == configs@[j].value);
    }
    Ok(out)
}

} // verus!
