//! Turning a block template from the node into the two events the rest of
//! the client consumes.

use vstd::prelude::*;
use vstd::utf8::encode_utf8;
use crate::outputs::{hex_decode, hex_decoded};
use crate::types::{CoinbaseOut, Event};
use crate::wire::{copy_range, txs_view};

verus! {

/// A template transaction: its raw bytes in hex and its fee, if known.
#[derive(Debug, Clone)]
pub struct TxEntry {
    pub data: String,
    pub fee: Option<u64>,
}

/// The sum of the known fees, wrapping at the top of `u64`.
pub open spec fn fee_total(txs: Seq<TxEntry>) -> u64
    decreases txs.len(),
{
    if txs.len() == 0 {
        0
    } else {
        let f: u64 = match txs.last().fee {
            Some(f) => f,
            None => 0,
        };
        ((fee_total(txs.drop_last()) + f) % 0x1_0000_0000_0000_0000) as u64
    }
}

/// The raw bytes of the transactions whose hex decodes, in order; the others
/// are left out.
pub open spec fn decoded_txs(txs: Seq<TxEntry>) -> Seq<Seq<u8>>
    decreases txs.len(),
{
    if txs.len() == 0 {
        Seq::empty()
    } else {
        decoded_txs(txs.drop_last()) + match hex_decoded(encode_utf8(txs.last().data@)) {
            Some(b) => seq![b],
            None => Seq::empty(),
        }
    }
}

/// The amount and script of each output.
pub open spec fn outputs_view(s: Seq<CoinbaseOut>) -> Seq<(u64, Seq<u8>)> {
    s.map_values(|o: CoinbaseOut| (o.value, o.script_pubkey@))
}

/// A copy of the outputs.
pub fn copy_outputs(v: &Vec<CoinbaseOut>) -> (r: Vec<CoinbaseOut>)
    ensures
        outputs_view(r@) == outputs_view(v@),
{
    let mut r: Vec<CoinbaseOut> = Vec::new();
    let mut i: usize = 0;
    while i < v.len()
        invariant
            i <= v@.len(),
            outputs_view(r@) == outputs_view(v@.subrange(0, i as int)),
        decreases v@.len() - i,
    {
        let o = &v[i];
        let s = copy_range(o.script_pubkey.as_slice(), 0, o.script_pubkey.len());
        assert(s@ =~= o.script_pubkey@);
        let ghost before = r@;
        r.push(CoinbaseOut { value: o.value, script_pubkey: s });
        proof {
            let item = (o.value, o.script_pubkey@);
            assert(outputs_view(r@) =~= outputs_view(before).push(item));
            assert(outputs_view(v@.subrange(0, i + 1)) =~= outputs_view(
                v@.subrange(0, i as int),
            ).push(item));
        }
        i = i + 1;
    }
    assert(v@.subrange(0, v@.len() as int) =~= v@);
    r
}

/// Numbers the templates that the node hands out and carries the configured
/// coinbase outputs into each declaration.
pub struct TemplateFeed {
    pub outputs: Vec<CoinbaseOut>,
    pub last_height: u64,
    pub tpl_seq: u64,
}

impl TemplateFeed {
    /// A feed that has numbered no template yet.
    pub fn new(outputs: Vec<CoinbaseOut>) -> (r: Self)
        ensures
            r.outputs == outputs,
            r.last_height == 0,
            r.tpl_seq == 0,
    {
        TemplateFeed { outputs, last_height: 0, tpl_seq: 0 }
    }

    /// Notes the chain height; says whether it is a new block.
    pub fn observe_height(&mut self, h: u64) -> (r: bool)
        ensures
            r == (h > old(self).last_height),
            final(self).last_height == if r {
                h
            } else {
                old(self).last_height
            },
            final(self).tpl_seq == old(self).tpl_seq,
            final(self).outputs == old(self).outputs,
    {
        if h > self.last_height {
            self.last_height = h;
            true
        } else {
            false
        }
    }

    /// The events for a new template: `NewTemplate` with its height, size and
    /// fees, then `DeclareJob` under the next template id with the configured
    /// outputs and the transactions whose hex decodes.
    pub fn on_template(&mut self, height: u64, txs: &[TxEntry]) -> (r: (Event, Event))
        ensures
            final(self).tpl_seq == (if old(self).tpl_seq == u64::MAX {
                0
            } else {
                old(self).tpl_seq + 1
            }),
            final(self).last_height == old(self).last_height,
            final(self).outputs == old(self).outputs,
            r.0 == (Event::NewTemplate { height, txs: txs@.len() as usize, fees: fee_total(txs@) }),
            r.1 matches Event::DeclareJob { tpl_id, outputs, txs: raw } && tpl_id
                == final(self).tpl_seq && outputs_view(outputs@) == outputs_view(
                old(self).outputs@,
            ) && txs_view(raw@) == decoded_txs(txs@),
    {
        let mut fees: u64 = 0;
        let mut raw: Vec<Vec<u8>> = Vec::new();
        let mut i: usize = 0;
        while i < txs.len()
            invariant
                i <= txs@.len(),
                fees == fee_total(txs@.subrange(0, i as int)),
                txs_view(raw@) == decoded_txs(txs@.subrange(0, i as int)),
            decreases txs@.len() - i,
        {
            let t = &txs[i];
            match t.fee {
                Some(f) => {
                    fees = fees.wrapping_add(f);
                },
                None => {},
            }
            let ghost before = raw@;
            match hex_decode(t.data.as_str()) {
                Some(b) => {
                    raw.push(b);
                    assert(txs_view(raw@) =~= txs_view(before).push(raw@.last()@));
                },
                None => {},
            }
            proof {
                let s = txs@.subrange(0, i + 1);
                assert(s.drop_last() =~= txs@.subrange(0, i as int));
                assert(decoded_txs(s) =~= txs_view(raw@));
            }
            i = i + 1;
        }
        assert(txs@.subrange(0, txs@.len() as int) =~= txs@);
        self.tpl_seq = self.tpl_seq.wrapping_add(1);
        let first = Event::NewTemplate { height, txs: txs.len(), fees };
        let second = Event::DeclareJob {
            tpl_id: self.tpl_seq,
            outputs: copy_outputs(&self.outputs),
            txs: raw,
        };
        (first, second)
    }
}

} // verus!
