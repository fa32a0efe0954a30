//! The pool client's decisions: the handshake and declaration states, the
//! table of outstanding declarations, and what each inbound message or bus
//! event makes the client send and publish. The socket, the cipher and the
//! bus are driven by the caller, which hands each result on.

use vstd::prelude::*;
use vstd::string::StringExecFns;
use vstd::utf8::encode_utf8;
use std::collections::HashMap;
use crate::coinbase::{build_cb_prefix, build_cb_suffix, cb_prefix_bytes, cb_suffix_bytes};
use crate::error::{error_text, serialization_msg, Sv2Error};
use crate::framing::{buffered, drain_frames, has_frame, split_frames};
use crate::hashing::{
    calc_short_hash, calc_tx_list_hash, calc_txid, short_hash_of, tx_list_hash_of, txid_of,
};
use crate::messages::{
    alloc_token_bytes, alloc_token_ok_fault, build_frame, decl_job_err_details, decl_job_err_fault,
    decl_job_ok_fault, decl_job_ok_token, identify_fault,
    decl_job_payload, details_text, err_code_name, err_code_of, frame_bytes, identify_positions,
    provide_txs_payload, AllocToken, AllocTokenOk, DeclJob, DeclJobErr, DeclJobOk, IdentifyTxs,
    ProvideTxs, ProvideTxsOk, DECL_EXT,
};
use crate::msg_types::{
    ALLOC_TOKEN, ALLOC_TOKEN_OK, DECL_JOB, DECL_JOB_ERR, DECL_JOB_OK, IDENTIFY_TXS, PROVIDE_TXS,
    PROVIDE_TXS_OK,
};
use crate::types::{CoinbaseOut, Event};
use crate::wire::{copy_range, ids_view, txs_view, u32_at};

verus! {

broadcast use vstd::std_specs::hash::group_hash_axioms;

#[verifier::external_type_specification]
#[verifier::external_body]
pub struct ExInstant(std::time::Instant);

/// Relies on `std::time::Instant::now`: a reading of the monotonic clock,
/// of which nothing is stated.
pub assume_specification[ std::time::Instant::now ]() -> std::time::Instant;

/// Relies on `rand::random`: a value drawn from the thread-local generator,
/// of which nothing is stated.
pub assume_specification<T>[ rand::random::<T> ]() -> (r: T)
    where
        rand::distributions::Standard: rand::distributions::Distribution<T>,
;

#[verifier::external_type_specification]
#[verifier::external_body]
pub struct ExNoiseCodec(noise_sv2::NoiseCodec);

/// Relies on `noise_sv2::NoiseCodec::decrypt`: decrypts `data` in place and
/// says whether that succeeded. The plaintext depends on the codec's state,
/// so nothing is stated of it.
#[verifier::external_body]
fn decrypt_payload(codec: &mut noise_sv2::NoiseCodec, data: &mut Vec<u8>) -> (ok: bool) {
    codec.decrypt(data).is_ok()
}

/// Where the pool lives.
#[derive(Debug, Clone)]
pub struct PoolConnConfig {
    pub address: String,
}

/// Progress of the Noise handshake.
#[derive(Debug, Clone, Copy, PartialEq, Eq, Structural)]
pub enum Handshake {
    Init,
    Connected,
    Sent,
    Done,
}

/// Progress of the declaration protocol within a session.
#[derive(Debug, Clone, Copy, PartialEq, Eq, Structural)]
pub enum DeclState {
    NeedToken,
    AwaitToken { req: u32 },
    Ready,
    Pending { req: u32 },
    AwaitTx { req: u32 },
}

/// A declaration the pool has not answered yet.
#[derive(Debug)]
pub struct PendingDecl {
    pub tpl_id: u64,
    pub req_id: u32,
    pub txs: Vec<Vec<u8>>,
    pub txids: Vec<[u8; 32]>,
    pub nonce: u64,
    pub sent_at: std::time::Instant,
}

/// What one step asks of the caller: a plaintext frame to encrypt and send,
/// and an event to publish.
#[derive(Debug, Clone)]
pub struct Reaction {
    pub frame: Option<Vec<u8>>,
    pub event: Option<Event>,
}

/// What the connection loop does once a session is over.
#[derive(Debug, Clone)]
pub enum SessionEnd {
    /// Stop for good.
    Stop,
    /// Publish the event, if any, back off and connect again.
    Reconnect(Option<Event>),
}

/// A reaction that sends and publishes nothing.
pub open spec fn is_quiet(r: Reaction) -> bool {
    r.frame is None && r.event is None
}

/// The client's state. A session's entities (the declaration state, the token,
/// the request counter's use and the pending table) are reset at the start
/// and at the end of each session.
pub struct PoolClient {
    pub cfg: PoolConnConfig,
    pub hs_state: Handshake,
    pub decl_state: DeclState,
    pub token: Option<Vec<u8>>,
    pub req_seq: u32,
    pub hash_nonce: u64,
    pub pending: HashMap<u32, PendingDecl>,
    pub blk_version: u32,
    pub blk_height: u64,
    pub coinbase_val: u64,
}

/// The request id that follows `x`, wrapping at the top of `u32`.
pub open spec fn next_id(x: u32) -> u32 {
    if x == u32::MAX {
        0
    } else {
        (x + 1) as u32
    }
}

/// The block subsidy added to a template's fees; it is not halved with height.
pub const SUBSIDY: u64 = 312_500_000;

/// The coinbase value for a template with `fees`, wrapping at the top of `u64`.
pub open spec fn coinbase_value(fees: u64) -> u64 {
    ((fees + SUBSIDY) % 0x1_0000_0000_0000_0000) as u64
}

/// Whether `t` is a message type the pool sends to the client.
pub open spec fn is_inbound_type(t: u8) -> bool {
    t == ALLOC_TOKEN_OK || t == DECL_JOB_OK || t == DECL_JOB_ERR || t == IDENTIFY_TXS || t
        == PROVIDE_TXS_OK
}

/// Block version used for declared jobs.
pub const BLOCK_VERSION: u32 = 0x2000_0000;

/// The tag written into every coinbase script: `sv2-jdc`.
pub open spec fn jdc_tag() -> Seq<u8> {
    seq![0x73u8, 0x76u8, 0x32u8, 0x2du8, 0x6au8, 0x64u8, 0x63u8]
}

fn jdc_tag_bytes() -> (r: Vec<u8>)
    ensures
        r@ == jdc_tag(),
{
    let mut t: Vec<u8> = Vec::new();
    t.push(0x73);
    t.push(0x76);
    t.push(0x32);
    t.push(0x2d);
    t.push(0x6a);
    t.push(0x64);
    t.push(0x63);
    assert(t@ =~= jdc_tag());
    t
}

/// The output script of the first coinbase output, or a bare `OP_RETURN`
/// when there is none.
pub open spec fn coinbase_script(outputs: Seq<CoinbaseOut>) -> Seq<u8> {
    if outputs.len() > 0 {
        outputs[0].script_pubkey@
    } else {
        seq![0x6au8]
    }
}

/// The salted short hashes of the transactions' ids, in order.
pub open spec fn short_hashes_of(txs: Seq<Seq<u8>>, nonce: u64) -> Seq<u64> {
    Seq::new(txs.len(), |i: int| short_hash_of(txid_of(txs[i]), nonce))
}

/// The frame that declares a job with request id `rid` over `txs`.
pub open spec fn declare_frame(
    rid: u32,
    token: Seq<u8>,
    version: u32,
    height: u64,
    value: u64,
    script: Seq<u8>,
    nonce: u64,
    txs: Seq<Seq<u8>>,
) -> Seq<u8> {
    frame_bytes(
        DECL_JOB,
        DECL_EXT,
        decl_job_payload(
            rid,
            token,
            version,
            cb_prefix_bytes(version, height, jdc_tag()),
            cb_suffix_bytes(value, script, None),
            nonce,
            short_hashes_of(txs, nonce),
            tx_list_hash_of(txs),
            Seq::empty(),
        ),
    )
}

/// The user name the client asks tokens for: `sv2-jdc`.
pub open spec fn jdc_user() -> Seq<u8> {
    jdc_tag()
}

/// The frame that asks for a token with request id `rid`.
pub open spec fn token_request_frame(rid: u32) -> Seq<u8> {
    frame_bytes(ALLOC_TOKEN, DECL_EXT, alloc_token_bytes(rid, jdc_user(), 8))
}

/// What a `DeclareJob` does: nothing unless the client is `Ready` with a
/// token. A next request id that is still live in the pending table is an
/// `InvalidState` error. Otherwise it takes that id, enters the declaration
/// in the pending table, hands out its frame, moves to `Pending` and
/// announces `JobSent`.
pub open spec fn declare_done(
    o: PoolClient,
    n: PoolClient,
    r: Result<Reaction, Sv2Error>,
    tpl_id: u64,
    outputs: Seq<CoinbaseOut>,
    txs: Seq<Vec<u8>>,
) -> bool {
    if !(o.token is Some && o.decl_state == DeclState::Ready) {
        r matches Ok(x) && is_quiet(x) && n == o
    } else if o.pending@.contains_key(next_id(o.req_seq)) {
        r matches Err(e) && e is InvalidState && n == o
    } else {
        let rid = next_id(o.req_seq);
        let p = n.pending@[rid];
        &&& r matches Ok(x)
        &&& n.pending@.len() == o.pending@.len() + 1
        &&& x.frame matches Some(f)
        &&& f@ == declare_frame(
            rid,
            o.token->Some_0@,
            o.blk_version,
            o.blk_height,
            o.coinbase_val,
            coinbase_script(outputs),
            o.hash_nonce,
            txs_view(txs),
        )
        &&& x.event == Some(Event::JobSent { tpl_id, txs: txs.len() as usize })
        &&& n.pending@ == o.pending@.insert(rid, p)
        &&& p.tpl_id == tpl_id && p.req_id == rid && p.txs@ == txs
        &&& p.nonce == o.hash_nonce
        &&& ids_view(p.txids@) == txs_view(txs).map_values(|t: Seq<u8>| txid_of(t))
        &&& n.decl_state == DeclState::Pending { req: rid }
        &&& n.req_seq == rid
        &&& n.token == o.token
        &&& n.hs_state == o.hs_state
        &&& n.hash_nonce == o.hash_nonce
        &&& n.blk_version == o.blk_version
        &&& n.blk_height == o.blk_height
        &&& n.coinbase_val == o.coinbase_val
        &&& n.cfg == o.cfg
    }
}

/// The transactions at the listed positions, in the order listed; a position
/// past the end is skipped.
pub open spec fn picked(txs: Seq<Seq<u8>>, pos: Seq<u16>) -> Seq<Seq<u8>>
    decreases pos.len(),
{
    if pos.len() == 0 {
        Seq::empty()
    } else {
        picked(txs, pos.drop_last()) + if (pos.last() as int) < txs.len() {
            seq![txs[pos.last() as int]]
        } else {
            Seq::empty()
        }
    }
}

/// What an `AllocTokenOk` does: a malformed payload is an error and changes
/// nothing; otherwise the granted token is kept, the client is `Ready`, and
/// `PoolUp` is announced.
pub open spec fn token_ok_done(o: PoolClient, n: PoolClient, data: Seq<u8>, r: Result<
    Reaction,
    Sv2Error,
>) -> bool {
    match alloc_token_ok_fault(data) {
        Some(m) => r matches Err(e) && serialization_msg(e) == Some(m) && n == o,
        None => {
            &&& r matches Ok(x) && x.frame is None && x.event == Some(Event::PoolUp)
            &&& n.token matches Some(t) && t@ == data.subrange(5, 5 + data[4] as int)
            &&& n == (PoolClient { token: n.token, decl_state: DeclState::Ready, ..o })
        },
    }
}

/// What a `DeclJobOk` does: a fresh non-empty token replaces the held one,
/// the declaration leaves the pending table and, if it was there, `JobOk` is
/// announced with its template id; the client is `Ready`.
pub open spec fn job_ok_done(o: PoolClient, n: PoolClient, data: Seq<u8>, r: Result<
    Reaction,
    Sv2Error,
>) -> bool {
    if decl_job_ok_fault(data) is Some {
        r matches Err(e) && serialization_msg(e) == decl_job_ok_fault(data) && n == o
    } else {
        let req = u32_at(data, 0);
        let nt = decl_job_ok_token(data);
        let x = r->Ok_0;
        &&& r is Ok && x.frame is None
        &&& if o.pending@.contains_key(req) {
            x.event matches Some(Event::JobOk { tpl_id, token }) && tpl_id
                == o.pending@[req].tpl_id && token@ == nt
        } else {
            x.event is None
        }
        &&& if nt.len() > 0 {
            n.token matches Some(t) && t@ == nt
        } else {
            n.token == o.token
        }
        &&& n.pending@ == o.pending@.remove(req)
        &&& n == (PoolClient {
            token: n.token,
            pending: n.pending,
            decl_state: DeclState::Ready,
            ..o
        })
    }
}

/// The reason shown for a rejected declaration: `<code>: <details>`.
pub open spec fn rejection_reason(data: Seq<u8>) -> Seq<char> {
    err_code_name(err_code_of(data[4])) + ": "@ + details_text(data)
}

/// What a `DeclJobErr` does: the declaration leaves the pending table and,
/// if it was there, `JobFailed` is announced with its template id and the
/// reason; the client is `Ready`.
pub open spec fn job_err_done(o: PoolClient, n: PoolClient, data: Seq<u8>, r: Result<
    Reaction,
    Sv2Error,
>) -> bool {
    if decl_job_err_fault(data) is Some {
        r matches Err(e) && serialization_msg(e) == decl_job_err_fault(data) && n == o
    } else {
        let req = u32_at(data, 0);
        let x = r->Ok_0;
        &&& r is Ok && x.frame is None
        &&& if o.pending@.contains_key(req) {
            x.event matches Some(Event::JobFailed { tpl_id, reason }) && tpl_id
                == o.pending@[req].tpl_id && reason@ == rejection_reason(data)
        } else {
            x.event is None
        }
        &&& n.pending@ == o.pending@.remove(req)
        &&& n == (PoolClient { pending: n.pending, decl_state: DeclState::Ready, ..o })
    }
}

/// What an `IdentifyTxs` does: for a declaration in the pending table, the
/// listed transactions go back in a `ProvideTxs` frame and the client waits
/// in `AwaitTx`; for any other request id it is an `InvalidState` error.
pub open spec fn identify_done(o: PoolClient, n: PoolClient, data: Seq<u8>, r: Result<
    Reaction,
    Sv2Error,
>) -> bool {
    if identify_fault(data) is Some {
        r matches Err(e) && serialization_msg(e) == identify_fault(data) && n == o
    } else {
        let req = u32_at(data, 0);
        if !o.pending@.contains_key(req) {
            r matches Err(e) && e is InvalidState && n == o
        } else {
            let x = r->Ok_0;
            &&& r is Ok && x.event is None
            &&& x.frame matches Some(f) && f@ == frame_bytes(
                PROVIDE_TXS,
                DECL_EXT,
                provide_txs_payload(
                    req,
                    picked(txs_view(o.pending@[req].txs@), identify_positions(data)),
                ),
            )
            &&& n == (PoolClient { decl_state: DeclState::AwaitTx { req }, ..o })
        }
    }
}

/// What a `ProvideTxsOk` does: nothing, once the payload holds a request id.
pub open spec fn txs_ok_done(o: PoolClient, n: PoolClient, data: Seq<u8>, r: Result<
    Reaction,
    Sv2Error,
>) -> bool {
    if data.len() < 4 {
        r matches Err(e) && serialization_msg(e) == Some("too short"@) && n == o
    } else {
        r matches Ok(x) && is_quiet(x) && n == o
    }
}

impl PoolClient {
    /// The state's invariant: table entries are keyed by their own request
    /// id, a state that waits on a declaration has its entry, and a held
    /// token fits its one-byte length prefix.
    pub open spec fn wf(&self) -> bool {
        &&& forall|k: u32| #[trigger]
            self.pending@.contains_key(k) ==> self.pending@[k].req_id == k
        &&& (self.decl_state matches DeclState::Pending { req } ==> self.pending@.contains_key(
            req,
        ))
        &&& (self.decl_state matches DeclState::AwaitTx { req } ==> self.pending@.contains_key(
            req,
        ))
        &&& (self.token matches Some(t) ==> t@.len() <= 255)
    }

    /// A client with no session, whose short-hash salt is drawn at random
    /// once, for the life of the process.
    pub fn new(cfg: PoolConnConfig) -> (r: Self)
        ensures
            r.wf(),
            r.cfg == cfg,
            r.hs_state == Handshake::Init,
            r.decl_state == DeclState::NeedToken,
            r.token is None,
            r.req_seq == 0,
            r.pending@.is_empty(),
            r.blk_version == BLOCK_VERSION,
            r.blk_height == 0,
            r.coinbase_val == 0,
    {
        let hash_nonce: u64 = rand::random();
        PoolClient {
            cfg,
            hs_state: Handshake::Init,
            decl_state: DeclState::NeedToken,
            token: None,
            req_seq: 0,
            hash_nonce,
            pending: HashMap::new(),
            blk_version: BLOCK_VERSION,
            blk_height: 0,
            coinbase_val: 0,
        }
    }

    /// Advances the request counter and returns the new id.
    pub fn next_req(&mut self) -> (r: u32)
        ensures
            r == next_id(old(self).req_seq),
            *final(self) == (PoolClient { req_seq: r, ..*old(self) }),
    {
        self.req_seq = self.req_seq.wrapping_add(1);
        self.req_seq
    }

    /// Discards the session's entities: no declaration state but
    /// `NeedToken`, no token, no pending declaration.
    pub fn reset_session(&mut self)
        ensures
            final(self).wf(),
            final(self).decl_state == DeclState::NeedToken,
            final(self).token is None,
            final(self).pending@.is_empty(),
            final(self).hs_state == old(self).hs_state,
            final(self).req_seq == old(self).req_seq,
            final(self).hash_nonce == old(self).hash_nonce,
            final(self).blk_version == old(self).blk_version,
            final(self).blk_height == old(self).blk_height,
            final(self).coinbase_val == old(self).coinbase_val,
            final(self).cfg == old(self).cfg,
    {
        self.decl_state = DeclState::NeedToken;
        self.token = None;
        self.pending.clear();
    }

    /// Builds the frame that asks the pool for a token, and waits for it.
    pub fn request_token(&mut self) -> (r: Result<Vec<u8>, Sv2Error>)
        requires
            old(self).wf(),
        ensures
            final(self).wf(),
            r matches Ok(f) && f@ == token_request_frame(next_id(old(self).req_seq)),
            *final(self) == (PoolClient {
                req_seq: next_id(old(self).req_seq),
                decl_state: DeclState::AwaitToken { req: next_id(old(self).req_seq) },
                ..*old(self)
            }),
    {
        let rid = self.next_req();
        let msg = AllocToken::new(rid, "sv2-jdc", 8);
        proof {
            reveal_strlit("sv2-jdc");
            assert(vstd::string::is_ascii("sv2-jdc"));
            vstd::string::is_ascii_spec_bytes("sv2-jdc");
            assert(encode_utf8(msg.user@) =~= jdc_user());
        }
        let payload = match msg.serialize() {
            Ok(p) => p,
            Err(e) => {
                return Err(e);
            },
        };
        let frame = build_frame(ALLOC_TOKEN, DECL_EXT, payload.as_slice());
        self.decl_state = DeclState::AwaitToken { req: rid };
        Ok(frame)
    }

    /// Declares a job over `txs` when the client is `Ready` and holds a token;
    /// otherwise does nothing. The declaration is entered in the pending
    /// table before its frame is handed out.
    pub fn declare_job(&mut self, tpl_id: u64, outputs: Vec<CoinbaseOut>, txs: Vec<Vec<u8>>) -> (r:
        Result<Reaction, Sv2Error>)
        requires
            old(self).wf(),
        ensures
            final(self).wf(),
            declare_done(*old(self), *final(self), r, tpl_id, outputs@, txs@),
    {
        let tok = match &self.token {
            Some(t) => copy_range(t.as_slice(), 0, t.len()),
            None => {
                return Ok(Reaction { frame: None, event: None });
            },
        };
        if self.decl_state != DeclState::Ready {
            return Ok(Reaction { frame: None, event: None });
        }
        if self.pending.contains_key(&self.req_seq.wrapping_add(1)) {
            return Err(Sv2Error::InvalidState("request id still pending".to_owned()));
        }
        assert(tok@ =~= self.token->Some_0@);
        let rid = self.next_req();
        let nonce = self.hash_nonce;
        let ghost tv = txs_view(txs@);
        let mut txids: Vec<[u8; 32]> = Vec::new();
        let mut shorts: Vec<u64> = Vec::new();
        let mut i: usize = 0;
        while i < txs.len()
            invariant
                i <= txs@.len(),
                tv == txs_view(txs@),
                txids@.len() == i,
                shorts@.len() == i,
                forall|j: int| 0 <= j < i ==> #[trigger] txids@[j]@ == txid_of(tv[j]),
                forall|j: int|
                    0 <= j < i ==> #[trigger] shorts@[j] == short_hash_of(txid_of(tv[j]), nonce),
            decreases txs@.len() - i,
        {
            let id = calc_txid(txs[i].as_slice());
            let sh = calc_short_hash(&id, nonce);
            txids.push(id);
            shorts.push(sh);
            i = i + 1;
        }
        assert(shorts@ =~= short_hashes_of(tv, nonce));
        assert(ids_view(txids@) =~= tv.map_values(|t: Seq<u8>| txid_of(t)));
        let hash_list = calc_tx_list_hash(txs.as_slice());
        let script = if outputs.len() > 0 {
            let s = &outputs[0].script_pubkey;
            copy_range(s.as_slice(), 0, s.len())
        } else {
            let mut s: Vec<u8> = Vec::new();
            s.push(0x6a);
            s
        };
        assert(script@ =~= coinbase_script(outputs@));
        let tag = jdc_tag_bytes();
        let prefix = build_cb_prefix(self.blk_version, self.blk_height, tag.as_slice());
        let suffix = build_cb_suffix(self.coinbase_val, script.as_slice(), None);
        let job = DeclJob {
            req_id: rid,
            token: tok,
            version: self.blk_version,
            cb_prefix: prefix,
            cb_suffix: suffix,
            hash_nonce: nonce,
            short_hashes: shorts,
            tx_list_hash: hash_list,
            extra: Vec::new(),
        };
        let payload = match job.serialize() {
            Ok(p) => p,
            Err(e) => {
                return Err(e);
            },
        };
        let frame = build_frame(DECL_JOB, DECL_EXT, payload.as_slice());
        let tx_count = txs.len();
        let entry = PendingDecl {
            tpl_id,
            req_id: rid,
            txs,
            txids,
            nonce,
            sent_at: std::time::Instant::now(),
        };
        self.pending.insert(rid, entry);
        self.decl_state = DeclState::Pending { req: rid };
        assert(job.extra@ =~= Seq::<u8>::empty());
        Ok(Reaction { frame: Some(frame), event: Some(Event::JobSent { tpl_id, txs: tx_count }) })
    }

    /// Handles `AllocTokenOk`.
    pub fn on_token_ok(&mut self, data: &[u8]) -> (r: Result<Reaction, Sv2Error>)
        requires
            old(self).wf(),
        ensures
            final(self).wf(),
            token_ok_done(*old(self), *final(self), data@, r),
    {
        let msg = match AllocTokenOk::parse(data) {
            Ok(m) => m,
            Err(e) => {
                return Err(e);
            },
        };
        self.token = Some(msg.token);
        self.decl_state = DeclState::Ready;
        Ok(Reaction { frame: None, event: Some(Event::PoolUp) })
    }

    /// Handles `DeclJobOk`.
    pub fn on_job_ok(&mut self, data: &[u8]) -> (r: Result<Reaction, Sv2Error>)
        requires
            old(self).wf(),
        ensures
            final(self).wf(),
            job_ok_done(*old(self), *final(self), data@, r),
    {
        let msg = match DeclJobOk::parse(data) {
            Ok(m) => m,
            Err(e) => {
                return Err(e);
            },
        };
        if msg.new_token.len() > 0 {
            let fresh = copy_range(msg.new_token.as_slice(), 0, msg.new_token.len());
            assert(fresh@ =~= msg.new_token@);
            self.token = Some(fresh);
        }
        let event = match self.pending.remove(&msg.req_id) {
            Some(p) => Some(Event::JobOk { tpl_id: p.tpl_id, token: msg.new_token }),
            None => None,
        };
        self.decl_state = DeclState::Ready;
        Ok(Reaction { frame: None, event })
    }

    /// Handles `DeclJobErr`.
    pub fn on_job_err(&mut self, data: &[u8]) -> (r: Result<Reaction, Sv2Error>)
        requires
            old(self).wf(),
        ensures
            final(self).wf(),
            job_err_done(*old(self), *final(self), data@, r),
    {
        let msg = match DeclJobErr::parse(data) {
            Ok(m) => m,
            Err(e) => {
                return Err(e);
            },
        };
        let event = match self.pending.remove(&msg.req_id) {
            Some(p) => {
                let mut reason = msg.code.name().to_owned();
                reason.append(": ");
                reason.append(msg.details.as_str());
                Some(Event::JobFailed { tpl_id: p.tpl_id, reason })
            },
            None => None,
        };
        self.decl_state = DeclState::Ready;
        Ok(Reaction { frame: None, event })
    }

    /// Handles `IdentifyTxs`.
    pub fn on_identify_txs(&mut self, data: &[u8]) -> (r: Result<Reaction, Sv2Error>)
        requires
            old(self).wf(),
        ensures
            final(self).wf(),
            identify_done(*old(self), *final(self), data@, r),
    {
        let msg = match IdentifyTxs::parse(data) {
            Ok(m) => m,
            Err(e) => {
                return Err(e);
            },
        };
        let p = match self.pending.get(&msg.req_id) {
            Some(p) => p,
            None => {
                return Err(Sv2Error::InvalidState("no pending declaration for request".to_owned()));
            },
        };
        let ghost all = txs_view(p.txs@);
        let ghost ps = msg.positions@;
        let mut txs: Vec<Vec<u8>> = Vec::new();
        let mut i: usize = 0;
        while i < msg.positions.len()
            invariant
                i <= ps.len(),
                ps == msg.positions@,
                all == txs_view(p.txs@),
                txs_view(txs@) == picked(all, ps.subrange(0, i as int)),
            decreases ps.len() - i,
        {
            let pos = msg.positions[i] as usize;
            proof {
                assert(ps.subrange(0, i + 1).drop_last() =~= ps.subrange(0, i as int));
            }
            if pos < p.txs.len() {
                let t = &p.txs[pos];
                let c = copy_range(t.as_slice(), 0, t.len());
                let ghost before = txs@;
                txs.push(c);
                proof {
                    assert(c@ == all[pos as int]);
                    assert(txs_view(txs@) =~= txs_view(before).push(c@));
                    assert(picked(all, ps.subrange(0, i + 1)) =~= picked(all, ps.subrange(0, i as int)).push(all[pos as int]));
                }
            } else {
                assert(picked(all, ps.subrange(0, i + 1)) =~= picked(all, ps.subrange(0, i as int)));
            }
            i = i + 1;
        }
        assert(ps.subrange(0, ps.len() as int) =~= ps);
        let resp = ProvideTxs { req_id: msg.req_id, txs };
        let payload = match resp.serialize() {
            Ok(b) => b,
            Err(e) => {
                return Err(e);
            },
        };
        let frame = build_frame(PROVIDE_TXS, DECL_EXT, payload.as_slice());
        self.decl_state = DeclState::AwaitTx { req: msg.req_id };
        Ok(Reaction { frame: Some(frame), event: None })
    }

    /// Handles `ProvideTxsOk`.
    pub fn on_txs_ok(&mut self, data: &[u8]) -> (r: Result<Reaction, Sv2Error>)
        requires
            old(self).wf(),
        ensures
            final(self).wf(),
            txs_ok_done(*old(self), *final(self), data@, r),
    {
        match ProvideTxsOk::parse(data) {
            Ok(_) => Ok(Reaction { frame: None, event: None }),
            Err(e) => Err(e),
        }
    }

    /// Dispatches one decrypted message by its type. Protocol messages are
    /// refused before the handshake is done; unknown types are ignored.
    pub fn handle_msg(&mut self, mtype: u8, data: &[u8]) -> (r: Result<Reaction, Sv2Error>)
        requires
            old(self).wf(),
        ensures
            final(self).wf(),
            msg_done(*old(self), *final(self), mtype, data@, r),
    {
        if self.hs_state != Handshake::Done {
            return Err(Sv2Error::InvalidState("handshake not done".to_owned()));
        }
        match mtype {
            ALLOC_TOKEN_OK => self.on_token_ok(data),
            DECL_JOB_OK => self.on_job_ok(data),
            DECL_JOB_ERR => self.on_job_err(data),
            IDENTIFY_TXS => self.on_identify_txs(data),
            PROVIDE_TXS_OK => self.on_txs_ok(data),
            _ => Ok(Reaction { frame: None, event: None }),
        }
    }

    /// Acts on an event from the bus: declares jobs, follows templates, and
    /// stops on `Shutdown`, which comes back as the `Shutdown` error.
    pub fn handle_event(&mut self, ev: Event) -> (r: Result<Reaction, Sv2Error>)
        requires
            old(self).wf(),
        ensures
            final(self).wf(),
            match ev {
                Event::DeclareJob { tpl_id, outputs, txs } => declare_done(
                    *old(self),
                    *final(self),
                    r,
                    tpl_id,
                    outputs@,
                    txs@,
                ),
                Event::NewTemplate { height, fees, .. } => r matches Ok(x) && is_quiet(x)
                    && *final(self) == (PoolClient {
                    blk_height: height,
                    coinbase_val: coinbase_value(fees),
                    ..*old(self)
                }),
                Event::Shutdown => r matches Err(Sv2Error::Shutdown) && *final(self) == *old(self),
                _ => r matches Ok(x) && is_quiet(x) && *final(self) == *old(self),
            },
    {
        match ev {
            Event::DeclareJob { tpl_id, outputs, txs } => self.declare_job(tpl_id, outputs, txs),
            Event::NewTemplate { height, fees, .. } => {
                self.blk_height = height;
                self.coinbase_val = fees.wrapping_add(SUBSIDY);
                Ok(Reaction { frame: None, event: None })
            },
            Event::Shutdown => Err(Sv2Error::Shutdown),
            _ => Ok(Reaction { frame: None, event: None }),
        }
    }

    /// The TCP connection is up.
    pub fn on_connected(&mut self)
        ensures
            *final(self) == (PoolClient { hs_state: Handshake::Connected, ..*old(self) }),
    {
        self.hs_state = Handshake::Connected;
    }

    /// The TCP connection could not be made: the handshake starts over on the
    /// next attempt, and `PoolDown` is announced.
    pub fn on_connect_failed(&mut self) -> (r: Event)
        ensures
            *final(self) == (PoolClient { hs_state: Handshake::Init, ..*old(self) }),
            r == Event::PoolDown,
    {
        self.hs_state = Handshake::Init;
        Event::PoolDown
    }

    /// The first handshake message is written.
    pub fn on_handshake_sent(&mut self)
        ensures
            *final(self) == (PoolClient { hs_state: Handshake::Sent, ..*old(self) }),
    {
        self.hs_state = Handshake::Sent;
    }

    /// The handshake failed: the next attempt starts over, and the failure is
    /// announced as `HandshakeErr` with the error's description.
    pub fn on_handshake_failed(&mut self, e: &Sv2Error) -> (r: Event)
        ensures
            *final(self) == (PoolClient { hs_state: Handshake::Init, ..*old(self) }),
            r matches Event::HandshakeErr(m) && m@ == error_text(*e),
    {
        self.hs_state = Handshake::Init;
        Event::HandshakeErr(e.message())
    }

    /// The handshake is done and a fresh session starts: it needs a token,
    /// holds none and has no pending declaration.
    pub fn begin_session(&mut self)
        ensures
            final(self).wf(),
            final(self).hs_state == Handshake::Done,
            final(self).decl_state == DeclState::NeedToken,
            final(self).token is None,
            final(self).pending@.is_empty(),
            final(self).req_seq == old(self).req_seq,
            final(self).hash_nonce == old(self).hash_nonce,
            final(self).blk_version == old(self).blk_version,
            final(self).blk_height == old(self).blk_height,
            final(self).coinbase_val == old(self).coinbase_val,
            final(self).cfg == old(self).cfg,
    {
        self.hs_state = Handshake::Done;
        self.reset_session();
    }

    /// The session ended: its entities are dropped and the handshake starts over.
    pub fn end_session(&mut self)
        ensures
            final(self).wf(),
            final(self).hs_state == Handshake::Init,
            final(self).decl_state == DeclState::NeedToken,
            final(self).token is None,
            final(self).pending@.is_empty(),
            final(self).req_seq == old(self).req_seq,
            final(self).hash_nonce == old(self).hash_nonce,
            final(self).blk_version == old(self).blk_version,
            final(self).blk_height == old(self).blk_height,
            final(self).coinbase_val == old(self).coinbase_val,
            final(self).cfg == old(self).cfg,
    {
        self.hs_state = Handshake::Init;
        self.reset_session();
    }

    /// Ends a session with its outcome: the session's entities are dropped;
    /// `Shutdown` stops the client, any other error is announced as an
    /// `Error` event before reconnecting.
    pub fn finish_session(&mut self, outcome: Result<(), Sv2Error>) -> (r: SessionEnd)
        ensures
            final(self).wf(),
            final(self).hs_state == Handshake::Init,
            final(self).decl_state == DeclState::NeedToken,
            final(self).token is None,
            final(self).pending@.is_empty(),
            final(self).req_seq == old(self).req_seq,
            final(self).hash_nonce == old(self).hash_nonce,
            final(self).blk_version == old(self).blk_version,
            final(self).blk_height == old(self).blk_height,
            final(self).coinbase_val == old(self).coinbase_val,
            final(self).cfg == old(self).cfg,
            match outcome {
                Ok(()) => r == SessionEnd::Reconnect(None),
                Err(Sv2Error::Shutdown) => r == SessionEnd::Stop,
                Err(e) => r matches SessionEnd::Reconnect(Some(Event::Error(m))) && m@
                    == error_text(e),
            },
    {
        self.end_session();
        match outcome {
            Ok(()) => SessionEnd::Reconnect(None),
            Err(Sv2Error::Shutdown) => SessionEnd::Stop,
            Err(e) => SessionEnd::Reconnect(Some(Event::Error(e.message()))),
        }
    }
}

/// What `handle_msg` does with a message of type `mtype` and payload `d`:
/// before the handshake is done it is an `InvalidState` error; after it, each
/// inbound type is handled as its own predicate says and any other type is
/// ignored.
pub open spec fn msg_done(
    o: PoolClient,
    n: PoolClient,
    mtype: u8,
    d: Seq<u8>,
    r: Result<Reaction, Sv2Error>,
) -> bool {
    if o.hs_state != Handshake::Done {
        r matches Err(e) && e is InvalidState && n == o
    } else {
        &&& mtype == ALLOC_TOKEN_OK ==> token_ok_done(o, n, d, r)
        &&& mtype == DECL_JOB_OK ==> job_ok_done(o, n, d, r)
        &&& mtype == DECL_JOB_ERR ==> job_err_done(o, n, d, r)
        &&& mtype == IDENTIFY_TXS ==> identify_done(o, n, d, r)
        &&& mtype == PROVIDE_TXS_OK ==> txs_ok_done(o, n, d, r)
        &&& !is_inbound_type(mtype) ==> (r matches Ok(x) && is_quiet(x) && n == o)
    }
}

/// One message as it was dispatched: its frame header, its payload after
/// decryption, and what handling it asked for.
#[derive(Debug, Clone)]
pub struct Dispatched {
    pub ext: u16,
    pub mtype: u8,
    pub plaintext: Vec<u8>,
    pub reaction: Reaction,
}

/// The messages `v` are the frames `fs`, in order and each once: same
/// header, and an empty payload stays empty. Dispatching them one after the
/// other, each as `handle_msg` does, leads from `o` to `n`.
pub open spec fn dispatched_all(
    o: PoolClient,
    n: PoolClient,
    fs: Seq<Seq<u8>>,
    v: Seq<Dispatched>,
) -> bool {
    &&& v.len() == fs.len()
    &&& forall|i: int|
        0 <= i < v.len() ==> fs[i] == frame_bytes(
            #[trigger] v[i].mtype,
            v[i].ext,
            fs[i].subrange(6, fs[i].len() as int),
        )
    &&& forall|i: int| 0 <= i < v.len() && fs[i].len() == 6 ==> (#[trigger] v[i].plaintext)@.len() == 0
    &&& exists|st: Seq<PoolClient>|
        {
            &&& st.len() == v.len() + 1
            &&& st[0] == o
            &&& st[v.len() as int] == n
            &&& forall|i: int|
                #![trigger v[i]]
                0 <= i < v.len() ==> msg_done(
                    st[i],
                    st[i + 1],
                    v[i].mtype,
                    v[i].plaintext@,
                    Ok(v[i].reaction),
                )
        }
}

/// A run over the frames `fs` that ended in error `e`: some prefix of the
/// frames was dispatched as `dispatched_all` says, leading from `o` to a
/// state `mid`, and the next frame's message, with its payload after
/// decryption (empty when the frame carries none), failed in `handle_msg`
/// with `e`, leaving `n`.
pub open spec fn failed_after(o: PoolClient, n: PoolClient, fs: Seq<Seq<u8>>, e: Sv2Error) -> bool {
    exists|k: int, v: Seq<Dispatched>, mid: PoolClient, p: Seq<u8>|
        {
            &&& 0 <= k < fs.len()
            &&& #[trigger] dispatched_all(o, mid, fs.take(k), v)
            &&& (fs[k].len() == 6 ==> p.len() == 0)
            &&& #[trigger] msg_done(mid, n, fs[k][2], p, Err(e))
        }
}

impl PoolClient {
    /// Takes every whole frame off `buf`, in order, and leaves the partial
    /// frame after them. Each frame's payload is decrypted (an empty payload
    /// is left as it is) and dispatched by `handle_msg`. A buffer without a
    /// whole frame changes nothing. A payload that does not decrypt ends the
    /// work with a `Framing` error; an error of `handle_msg` ends it too.
    pub fn process_data(
        &mut self,
        buf: &mut bytes::BytesMut,
        codec: &mut noise_sv2::NoiseCodec,
    ) -> (r: Result<Vec<Dispatched>, Sv2Error>)
        requires
            old(self).wf(),
        ensures
            final(self).wf(),
            buffered(*final(buf)) == split_frames(buffered(*old(buf))).1,
            !has_frame(buffered(*old(buf))) ==> (r matches Ok(v) && v@.len() == 0 && *final(self)
                == *old(self)),
            r matches Ok(v) ==> dispatched_all(
                *old(self),
                *final(self),
                split_frames(buffered(*old(buf))).0,
                v@,
            ),
            r matches Err(Sv2Error::Framing(_)) ==> exists|i: int|
                0 <= i < split_frames(buffered(*old(buf))).0.len()
                    && #[trigger] split_frames(buffered(*old(buf))).0[i].len() > 6,
            r is Err && !(r->Err_0 is Framing) ==> failed_after(
                *old(self),
                *final(self),
                split_frames(buffered(*old(buf))).0,
                r->Err_0,
            ),
    {
        let ghost fs = split_frames(buffered(*buf));
        let ghost o = *self;
        proof {
            if !has_frame(buffered(*buf)) {
                assert(fs.0.len() == 0);
            }
        }
        let frames = drain_frames(buf);
        let ghost left = buffered(*buf);
        let mut out: Vec<Dispatched> = Vec::new();
        let ghost mut st: Seq<PoolClient> = seq![*self];
        let mut i: usize = 0;
        while i < frames.len()
            invariant
                self.wf(),
                buffered(*buf) == left,
                left == fs.1,
                fs == split_frames(buffered(*old(buf))),
                o == *old(self),
                frames@.len() == fs.0.len(),
                forall|j: int|
                    0 <= j < frames@.len() ==> frame_bytes(
                        #[trigger] frames@[j].mtype,
                        frames@[j].ext,
                        frames@[j].payload@,
                    ) == fs.0[j],
                i <= frames@.len(),
                out@.len() == i,
                st.len() == i + 1,
                st[0] == o,
                st[i as int] == *self,
                forall|j: int|
                    0 <= j < i ==> fs.0[j] == frame_bytes(
                        #[trigger] out@[j].mtype,
                        out@[j].ext,
                        fs.0[j].subrange(6, fs.0[j].len() as int),
                    ),
                forall|j: int|
                    0 <= j < i && fs.0[j].len() == 6 ==> (#[trigger] out@[j].plaintext)@.len() == 0,
                forall|j: int|
                    #![trigger out@[j]]
                    0 <= j < i ==> msg_done(
                        st[j],
                        st[j + 1],
                        out@[j].mtype,
                        out@[j].plaintext@,
                        Ok(out@[j].reaction),
                    ),
            decreases frames@.len() - i,
        {
            let f = &frames[i];
            proof {
                let fb = fs.0[i as int];
                assert(fb == frame_bytes(f.mtype, f.ext, f.payload@));
                assert(fb.subrange(6, fb.len() as int) =~= f.payload@);
            }
            let mut payload = copy_range(f.payload.as_slice(), 0, f.payload.len());
            if payload.len() > 0 {
                if !decrypt_payload(codec, &mut payload) {
                    assert(fs.0[i as int].len() > 6);
                    return Err(Sv2Error::Framing("decrypt failed".to_owned()));
                }
            }
            let ghost before = *self;
            let reaction = match self.handle_msg(f.mtype, payload.as_slice()) {
                Ok(x) => x,
                Err(e) => {
                    proof {
                        let k = i as int;
                        let pre = fs.0.take(k);
                        assert(st.len() == out@.len() + 1 && st[0] == o && st[out@.len() as int]
                            == before);
                        assert forall|j: int| 0 <= j < out@.len() implies pre[j] == fs.0[j] by {}
                        assert(dispatched_all(o, before, pre, out@));
                        assert(fs.0[k][2] == f.mtype);
                        assert(fs.0[k].len() == 6 ==> payload@.len() == 0);
                        assert(msg_done(before, *self, fs.0[k][2], payload@, Err(e)));
                    }
                    return Err(e);
                },
            };
            let d = Dispatched { ext: f.ext, mtype: f.mtype, plaintext: payload, reaction };
            proof {
                st = st.push(*self);
            }
            out.push(d);
            i = i + 1;
        }
        assert(st.len() == out@.len() + 1 && st[0] == o && st[out@.len() as int] == *self);
        Ok(out)
    }
}

/// A job declared while the client is not `Ready` sends nothing, announces
/// nothing and leaves the pending table as it was.
pub proof fn lemma_declare_needs_ready(
    o: PoolClient,
    n: PoolClient,
    r: Result<Reaction, Sv2Error>,
    tpl_id: u64,
    outputs: Seq<CoinbaseOut>,
    txs: Seq<Vec<u8>>,
)
    requires
        declare_done(o, n, r, tpl_id, outputs, txs),
        o.decl_state != DeclState::Ready,
    ensures
        r matches Ok(x) && x.frame is None && x.event is None,
        n.pending@ == o.pending@,
        n.decl_state == o.decl_state,
{
}

/// A job declared while no token is held sends nothing.
pub proof fn lemma_declare_needs_token(
    o: PoolClient,
    n: PoolClient,
    r: Result<Reaction, Sv2Error>,
    tpl_id: u64,
    outputs: Seq<CoinbaseOut>,
    txs: Seq<Vec<u8>>,
)
    requires
        declare_done(o, n, r, tpl_id, outputs, txs),
        o.token is None,
    ensures
        r matches Ok(x) && x.frame is None,
        n.pending@ == o.pending@,
{
}

/// After an `AllocTokenOk` is accepted the client is `Ready` and holds a token.
pub proof fn lemma_token_grant_makes_ready(
    o: PoolClient,
    n: PoolClient,
    data: Seq<u8>,
    r: Result<Reaction, Sv2Error>,
)
    requires
        token_ok_done(o, n, data, r),
        r is Ok,
    ensures
        n.decl_state == DeclState::Ready,
        n.token is Some,
{
}

/// A `DeclJobOk` that carries a non-empty token replaces the held token with
/// it and removes its request from the pending table.
pub proof fn lemma_job_ok_replaces_token(
    o: PoolClient,
    n: PoolClient,
    data: Seq<u8>,
    r: Result<Reaction, Sv2Error>,
)
    requires
        job_ok_done(o, n, data, r),
        decl_job_ok_fault(data) is None,
        decl_job_ok_token(data).len() > 0,
    ensures
        n.token matches Some(t) && t@ == decl_job_ok_token(data),
        !n.pending@.contains_key(u32_at(data, 0)),
        n.decl_state == DeclState::Ready,
{
}

/// Length of the responder's handshake reply.
pub const HANDSHAKE_RESPONSE_LEN: usize = 234;

/// Checks the length of the responder's handshake reply: nothing read means
/// the pool closed, and fewer bytes than a whole reply are refused.
pub fn check_handshake_response(n: usize) -> (r: Result<(), Sv2Error>)
    ensures
        n >= HANDSHAKE_RESPONSE_LEN <==> r is Ok,
        n == 0 ==> (r matches Err(Sv2Error::NoiseHandshake(m)) && m@ == "closed"@),
        0 < n < HANDSHAKE_RESPONSE_LEN ==> (r matches Err(Sv2Error::NoiseHandshake(m)) && m@
            == "response too short"@),
{
    if n == 0 {
        return Err(Sv2Error::NoiseHandshake("closed".to_owned()));
    }
    if n < HANDSHAKE_RESPONSE_LEN {
        return Err(Sv2Error::NoiseHandshake("response too short".to_owned()));
    }
    Ok(())
}

} // verus!
