//! Payload codecs of the Job Declaration sub-protocol and the frame header.

use vstd::prelude::*;
use vstd::utf8::{decode_utf8, encode_utf8, valid_utf8};
use crate::error::{serialization, serialization_msg, Sv2Error};
use crate::wire::{
    copy_range, le_u16, le_u24, le_u32, le_u64, lemma_u16_read_back, lemma_u24_read_back,
    lemma_u32_read_back, lemma_u64_read_back, push_all, push_u16_le, push_u24_le, push_u32_le,
    push_u64_le, read_u16_le, read_u32_le, txs_view, u16_at, u24_at, u32_at, u64_at,
};

verus! {

/// Extension type of the Job Declaration sub-protocol.
pub const DECL_EXT: u16 = 0x0002;

/// Request for a mining-job token.
#[derive(Debug, Clone)]
pub struct AllocToken {
    pub req_id: u32,
    pub user: String,
    pub min_nonce2: u16,
}

/// The pool's grant of a token.
#[derive(Debug, Clone)]
pub struct AllocTokenOk {
    pub req_id: u32,
    pub token: Vec<u8>,
    pub max_cb_extra: u32,
    pub async_ok: bool,
    pub constraints: Vec<CbConstraint>,
}

/// An output script the pool requires in the coinbase.
#[derive(Debug, Clone)]
pub struct CbConstraint {
    pub script: Vec<u8>,
}

/// Why a payload of `AllocTokenOk` is refused, if it is.
pub open spec fn alloc_token_ok_fault(s: Seq<u8>) -> Option<Seq<char>> {
    if s.len() < 4 {
        Some("too short"@)
    } else if s.len() <= 4 {
        Some("truncated: missing token len"@)
    } else if 5 + s[4] > s.len() {
        Some("truncated token"@)
    } else if 9 + s[4] > s.len() {
        Some("truncated: missing max_cb_extra"@)
    } else if 9 + s[4] >= s.len() {
        Some("truncated: missing async flag"@)
    } else {
        None
    }
}

impl AllocTokenOk {
    /// Reads a grant: request id, token, coinbase room, async flag. The
    /// optional constraint list is not read.
    pub fn parse(data: &[u8]) -> (r: Result<Self, Sv2Error>)
        ensures
            match r {
                Ok(m) => {
                    let t = data@[4] as int;
                    &&& alloc_token_ok_fault(data@) is None
                    &&& m.req_id == u32_at(data@, 0)
                    &&& m.token@ == data@.subrange(5, 5 + t)
                    &&& m.max_cb_extra == u32_at(data@, 5 + t)
                    &&& m.async_ok == (data@[9 + t] != 0)
                    &&& m.constraints@.len() == 0
                },
                Err(e) => alloc_token_ok_fault(data@) is Some && serialization_msg(e)
                    == alloc_token_ok_fault(data@),
            },
    {
        if data.len() < 4 {
            return Err(serialization("too short"));
        }
        let mut pos: usize = 0;
        let req_id = read_u32_le(data, 0);
        pos = pos + 4;
        if pos >= data.len() {
            return Err(serialization("truncated: missing token len"));
        }
        let tlen = data[pos] as usize;
        pos = pos + 1;
        if pos + tlen > data.len() {
            return Err(serialization("truncated token"));
        }
        let token = copy_range(data, pos, pos + tlen);
        pos = pos + tlen;
        if pos + 4 > data.len() {
            return Err(serialization("truncated: missing max_cb_extra"));
        }
        let max_cb_extra = read_u32_le(data, pos);
        pos = pos + 4;
        if pos >= data.len() {
            return Err(serialization("truncated: missing async flag"));
        }
        let async_ok = data[pos] != 0;
        Ok(AllocTokenOk { req_id, token, max_cb_extra, async_ok, constraints: Vec::new() })
    }
}

/// The bytes of an `AllocToken` payload with the given user name bytes.
pub open spec fn alloc_token_bytes(req_id: u32, user: Seq<u8>, min_nonce2: u16) -> Seq<u8> {
    le_u32(req_id) + seq![user.len() as u8] + user + le_u16(min_nonce2)
}

impl AllocToken {
    /// A token request from `user`.
    pub fn new(req_id: u32, user: &str, min_nonce2: u16) -> (r: Self)
        ensures
            r.req_id == req_id,
            r.user@ == user@,
            r.min_nonce2 == min_nonce2,
    {
        AllocToken { req_id, user: user.to_owned(), min_nonce2 }
    }

    /// The UTF-8 bytes of the user name.
    pub open spec fn user_bytes(&self) -> Seq<u8> {
        encode_utf8(self.user@)
    }

    /// The payload; a user name longer than 255 bytes is refused.
    pub fn serialize(&self) -> (r: Result<Vec<u8>, Sv2Error>)
        ensures
            match r {
                Ok(b) => self.user_bytes().len() <= 255 && b@ == alloc_token_bytes(
                    self.req_id,
                    self.user_bytes(),
                    self.min_nonce2,
                ),
                Err(e) => self.user_bytes().len() > 255 && serialization_msg(e) == Some(
                    "user too long"@,
                ),
            },
    {
        let mut buf: Vec<u8> = Vec::new();
        push_u32_le(&mut buf, self.req_id);
        let ubytes = self.user.as_str().as_bytes();
        if ubytes.len() > 255 {
            return Err(serialization("user too long"));
        }
        buf.push(ubytes.len() as u8);
        push_all(&mut buf, ubytes);
        push_u16_le(&mut buf, self.min_nonce2);
        Ok(buf)
    }
}

/// A declared mining job.
#[derive(Debug, Clone)]
pub struct DeclJob {
    pub req_id: u32,
    pub token: Vec<u8>,
    pub version: u32,
    pub cb_prefix: Vec<u8>,
    pub cb_suffix: Vec<u8>,
    pub hash_nonce: u64,
    pub short_hashes: Vec<u64>,
    pub tx_list_hash: [u8; 32],
    pub extra: Vec<u8>,
}

/// The short hashes, eight little-endian bytes each, in order.
pub open spec fn u64s_bytes(s: Seq<u64>) -> Seq<u8>
    decreases s.len(),
{
    if s.len() == 0 {
        Seq::empty()
    } else {
        u64s_bytes(s.drop_last()) + le_u64(s.last())
    }
}

/// The bytes of a `DeclJob` payload built from its fields. Each
/// variable-length field is preceded by its length, cut to the width of the
/// length field.
pub open spec fn decl_job_payload(
    req_id: u32,
    token: Seq<u8>,
    version: u32,
    cb_prefix: Seq<u8>,
    cb_suffix: Seq<u8>,
    hash_nonce: u64,
    short_hashes: Seq<u64>,
    tx_list_hash: Seq<u8>,
    extra: Seq<u8>,
) -> Seq<u8> {
    le_u32(req_id) + seq![token.len() as u8] + token + le_u32(version) + le_u16(
        cb_prefix.len() as u16,
    ) + cb_prefix + le_u16(cb_suffix.len() as u16) + cb_suffix + le_u64(hash_nonce) + le_u16(
        short_hashes.len() as u16,
    ) + u64s_bytes(short_hashes) + tx_list_hash + le_u16(extra.len() as u16) + extra
}

/// The bytes of a `DeclJob` payload.
pub open spec fn decl_job_bytes(j: DeclJob) -> Seq<u8> {
    decl_job_payload(
        j.req_id,
        j.token@,
        j.version,
        j.cb_prefix@,
        j.cb_suffix@,
        j.hash_nonce,
        j.short_hashes@,
        j.tx_list_hash@,
        j.extra@,
    )
}

impl DeclJob {
    /// The payload; a token longer than 255 bytes is refused.
    pub fn serialize(&self) -> (r: Result<Vec<u8>, Sv2Error>)
        ensures
            match r {
                Ok(b) => self.token@.len() <= 255 && b@ == decl_job_bytes(*self),
                Err(e) => self.token@.len() > 255 && serialization_msg(e) == Some(
                    "token too long"@,
                ),
            },
    {
        let mut buf: Vec<u8> = Vec::new();
        push_u32_le(&mut buf, self.req_id);
        if self.token.len() > 255 {
            return Err(serialization("token too long"));
        }
        buf.push(self.token.len() as u8);
        push_all(&mut buf, self.token.as_slice());
        push_u32_le(&mut buf, self.version);
        push_u16_le(&mut buf, self.cb_prefix.len() as u16);
        push_all(&mut buf, self.cb_prefix.as_slice());
        push_u16_le(&mut buf, self.cb_suffix.len() as u16);
        push_all(&mut buf, self.cb_suffix.as_slice());
        push_u64_le(&mut buf, self.hash_nonce);
        push_u16_le(&mut buf, self.short_hashes.len() as u16);
        let ghost before = buf@;
        let mut i: usize = 0;
        while i < self.short_hashes.len()
            invariant
                i <= self.short_hashes@.len(),
                buf@ == before + u64s_bytes(self.short_hashes@.subrange(0, i as int)),
            decreases self.short_hashes@.len() - i,
        {
            push_u64_le(&mut buf, self.short_hashes[i]);
            proof {
                let t = self.short_hashes@.subrange(0, i + 1);
                assert(t.drop_last() =~= self.short_hashes@.subrange(0, i as int));
            }
            i = i + 1;
        }
        assert(self.short_hashes@.subrange(0, self.short_hashes@.len() as int)
            =~= self.short_hashes@);
        push_all(&mut buf, &self.tx_list_hash);
        push_u16_le(&mut buf, self.extra.len() as u16);
        push_all(&mut buf, self.extra.as_slice());
        assert(buf@ =~= decl_job_bytes(*self));
        Ok(buf)
    }
}

/// The pool's acceptance of a declared job, with an optional fresh token.
#[derive(Debug, Clone)]
pub struct DeclJobOk {
    pub req_id: u32,
    pub new_token: Vec<u8>,
}

/// Why a payload of `DeclJobOk` is refused, if it is.
pub open spec fn decl_job_ok_fault(s: Seq<u8>) -> Option<Seq<char>> {
    if s.len() < 4 {
        Some("too short"@)
    } else if s.len() >= 5 && s.len() < 5 + s[4] {
        Some("truncated token"@)
    } else {
        None
    }
}

/// The token a `DeclJobOk` payload carries; a payload that ends after the
/// request id carries none. A token that ends exactly where the payload
/// ends is kept: no byte after it is needed.
pub open spec fn decl_job_ok_token(s: Seq<u8>) -> Seq<u8> {
    if s.len() >= 5 {
        s.subrange(5, 5 + s[4] as int)
    } else {
        Seq::empty()
    }
}

impl DeclJobOk {
    /// Reads an acceptance: request id and optional fresh token. A token
    /// that runs past the end of the payload is refused.
    pub fn parse(data: &[u8]) -> (r: Result<Self, Sv2Error>)
        ensures
            match r {
                Ok(m) => decl_job_ok_fault(data@) is None && m.req_id == u32_at(data@, 0)
                    && m.new_token@ == decl_job_ok_token(data@),
                Err(e) => decl_job_ok_fault(data@) is Some && serialization_msg(e)
                    == decl_job_ok_fault(data@),
            },
    {
        if data.len() < 4 {
            return Err(serialization("too short"));
        }
        let req_id = read_u32_le(data, 0);
        let new_token = if data.len() > 4 {
            let tlen = data[4] as usize;
            if data.len() - 5 < tlen {
                return Err(serialization("truncated token"));
            }
            copy_range(data, 5, 5 + tlen)
        } else {
            Vec::new()
        };
        proof {
            if data@.len() < 5 {
                assert(new_token@ =~= decl_job_ok_token(data@));
            }
        }
        Ok(DeclJobOk { req_id, new_token })
    }
}

/// Why the pool refused a declaration.
#[derive(Debug, Clone, Copy, PartialEq, Eq, Structural)]
pub enum DeclErrCode {
    BadToken,
    BadParams,
    Stale,
    Unknown,
}

/// The reason code a byte stands for.
pub open spec fn err_code_of(v: u8) -> DeclErrCode {
    if v == 0x01 {
        DeclErrCode::BadToken
    } else if v == 0x02 {
        DeclErrCode::BadParams
    } else if v == 0x03 {
        DeclErrCode::Stale
    } else {
        DeclErrCode::Unknown
    }
}

impl From<u8> for DeclErrCode {
    fn from(v: u8) -> (r: Self) {
        match v {
            0x01 => DeclErrCode::BadToken,
            0x02 => DeclErrCode::BadParams,
            0x03 => DeclErrCode::Stale,
            _ => DeclErrCode::Unknown,
        }
    }
}

impl vstd::std_specs::convert::FromSpecImpl<u8> for DeclErrCode {
    open spec fn obeys_from_spec() -> bool {
        true
    }

    open spec fn from_spec(v: u8) -> DeclErrCode {
        err_code_of(v)
    }
}

/// The name of a reason code.
pub open spec fn err_code_name(c: DeclErrCode) -> Seq<char> {
    match c {
        DeclErrCode::BadToken => "BadToken"@,
        DeclErrCode::BadParams => "BadParams"@,
        DeclErrCode::Stale => "Stale"@,
        DeclErrCode::Unknown => "Unknown"@,
    }
}

impl DeclErrCode {
    /// The code's name, as shown in a rejection reason.
    pub fn name(&self) -> (r: &'static str)
        ensures
            r@ == err_code_name(*self),
    {
        match self {
            DeclErrCode::BadToken => "BadToken",
            DeclErrCode::BadParams => "BadParams",
            DeclErrCode::Stale => "Stale",
            DeclErrCode::Unknown => "Unknown",
        }
    }
}

/// The pool's rejection of a declared job.
#[derive(Debug, Clone)]
pub struct DeclJobErr {
    pub req_id: u32,
    pub code: DeclErrCode,
    pub details: String,
}

/// The text that `String::from_utf8_lossy` makes of some bytes.
pub uninterp spec fn lossy_text(b: Seq<u8>) -> Seq<char>;

/// Relies on `String::from_utf8_lossy`: the text of `b`, with each invalid
/// sequence replaced; it depends on `b` alone, and valid UTF-8 is decoded
/// as it is.
#[verifier::external_body]
fn utf8_lossy(b: &[u8]) -> (r: String)
    ensures
        r@ == lossy_text(b@),
        valid_utf8(b@) ==> r@ == decode_utf8(b@),
{
    String::from_utf8_lossy(b).into_owned()
}

/// Why a payload of `DeclJobErr` is refused, if it is.
pub open spec fn decl_job_err_fault(s: Seq<u8>) -> Option<Seq<char>> {
    if s.len() < 5 {
        Some("too short"@)
    } else if s.len() >= 6 && s.len() < 6 + s[5] {
        Some("truncated details"@)
    } else {
        None
    }
}

/// The details bytes of a `DeclJobErr` payload, if it carries any.
pub open spec fn decl_job_err_details(s: Seq<u8>) -> Option<Seq<u8>> {
    if s.len() >= 6 && s[5] > 0 {
        Some(s.subrange(6, 6 + s[5] as int))
    } else {
        None
    }
}

/// The details text of a `DeclJobErr` payload: valid UTF-8 decoded as it
/// is, anything else as `from_utf8_lossy` makes it; empty when there are no
/// details.
pub open spec fn details_text(s: Seq<u8>) -> Seq<char> {
    match decl_job_err_details(s) {
        Some(d) => if valid_utf8(d) {
            decode_utf8(d)
        } else {
            lossy_text(d)
        },
        None => Seq::<char>::empty(),
    }
}

impl DeclJobErr {
    /// Reads a rejection: request id, reason code and details. Details that
    /// run past the end of the payload are refused.
    pub fn parse(data: &[u8]) -> (r: Result<Self, Sv2Error>)
        ensures
            match r {
                Ok(m) => {
                    &&& decl_job_err_fault(data@) is None
                    &&& m.req_id == u32_at(data@, 0)
                    &&& m.code == err_code_of(data@[4])
                    &&& m.details@ == details_text(data@)
                },
                Err(e) => decl_job_err_fault(data@) is Some && serialization_msg(e)
                    == decl_job_err_fault(data@),
            },
    {
        if data.len() < 5 {
            return Err(serialization("too short"));
        }
        let req_id = read_u32_le(data, 0);
        let code = DeclErrCode::from(data[4]);
        let mut details = String::new();
        if data.len() > 5 {
            let dlen = data[5] as usize;
            if data.len() - 6 < dlen {
                return Err(serialization("truncated details"));
            }
            if dlen > 0 {
                let raw = copy_range(data, 6, 6 + dlen);
                details = utf8_lossy(raw.as_slice());
            }
        }
        Ok(DeclJobErr { req_id, code, details })
    }
}

/// The pool's request for transactions it lacks, by position.
#[derive(Debug, Clone)]
pub struct IdentifyTxs {
    pub req_id: u32,
    pub positions: Vec<u16>,
}

/// Why a payload of `IdentifyTxs` is refused, if it is.
pub open spec fn identify_fault(s: Seq<u8>) -> Option<Seq<char>> {
    if s.len() < 4 {
        Some("too short"@)
    } else if s.len() == 5 {
        Some("truncated count"@)
    } else if s.len() >= 6 && s.len() < 6 + 2 * u16_at(s, 4) {
        Some("truncated positions"@)
    } else {
        None
    }
}

/// The positions an `IdentifyTxs` payload lists, as many as its count says;
/// a payload that ends after the request id lists none.
pub open spec fn identify_positions(s: Seq<u8>) -> Seq<u16> {
    if s.len() >= 6 {
        Seq::new(u16_at(s, 4) as nat, |i: int| u16_at(s, 6 + 2 * i))
    } else {
        Seq::empty()
    }
}

impl IdentifyTxs {
    /// Reads the request id and the listed positions. A list shorter than
    /// its count is refused.
    pub fn parse(data: &[u8]) -> (r: Result<Self, Sv2Error>)
        ensures
            match r {
                Ok(m) => identify_fault(data@) is None && m.req_id == u32_at(data@, 0)
                    && m.positions@ == identify_positions(data@),
                Err(e) => identify_fault(data@) is Some && serialization_msg(e) == identify_fault(
                    data@,
                ),
            },
    {
        if data.len() < 4 {
            return Err(serialization("too short"));
        }
        let req_id = read_u32_le(data, 0);
        let mut positions: Vec<u16> = Vec::new();
        if data.len() > 4 {
            if data.len() < 6 {
                return Err(serialization("truncated count"));
            }
            let cnt = read_u16_le(data, 4) as usize;
            if (data.len() - 6) / 2 < cnt {
                return Err(serialization("truncated positions"));
            }
            let mut k: usize = 0;
            while k < cnt
                invariant
                    data@.len() >= 6 + 2 * cnt,
                    cnt == u16_at(data@, 4) as int,
                    k <= cnt,
                    positions@.len() == k,
                    forall|i: int|
                        0 <= i < k ==> #[trigger] positions@[i] == u16_at(data@, 6 + 2 * i),
                decreases cnt - k,
            {
                positions.push(read_u16_le(data, 6 + 2 * k));
                k = k + 1;
            }
        }
        assert(positions@ =~= identify_positions(data@));
        Ok(IdentifyTxs { req_id, positions })
    }
}

/// Raw transactions sent in answer to `IdentifyTxs`.
#[derive(Debug, Clone)]
pub struct ProvideTxs {
    pub req_id: u32,
    pub txs: Vec<Vec<u8>>,
}

/// The transactions, each preceded by its length in three little-endian bytes.
pub open spec fn txs_bytes(txs: Seq<Seq<u8>>) -> Seq<u8>
    decreases txs.len(),
{
    if txs.len() == 0 {
        Seq::empty()
    } else {
        txs_bytes(txs.drop_last()) + le_u24(txs.last().len() as u32) + txs.last()
    }
}

/// The bytes of a `ProvideTxs` payload.
pub open spec fn provide_txs_bytes(m: ProvideTxs) -> Seq<u8> {
    provide_txs_payload(m.req_id, txs_view(m.txs@))
}

/// The bytes of a `ProvideTxs` payload built from its fields.
pub open spec fn provide_txs_payload(req_id: u32, txs: Seq<Seq<u8>>) -> Seq<u8> {
    le_u32(req_id) + le_u16(txs.len() as u16) + txs_bytes(txs)
}

impl ProvideTxs {
    /// The payload; it is always produced.
    pub fn serialize(&self) -> (r: Result<Vec<u8>, Sv2Error>)
        ensures
            r matches Ok(b) && b@ == provide_txs_bytes(*self),
    {
        let mut buf: Vec<u8> = Vec::new();
        push_u32_le(&mut buf, self.req_id);
        push_u16_le(&mut buf, self.txs.len() as u16);
        let ghost before = buf@;
        let mut i: usize = 0;
        while i < self.txs.len()
            invariant
                i <= self.txs@.len(),
                buf@ == before + txs_bytes(txs_view(self.txs@.subrange(0, i as int))),
            decreases self.txs@.len() - i,
        {
            let tx = &self.txs[i];
            push_u24_le(&mut buf, tx.len() as u32);
            push_all(&mut buf, tx.as_slice());
            proof {
                let t = txs_view(self.txs@.subrange(0, i + 1));
                assert(t.drop_last() =~= txs_view(self.txs@.subrange(0, i as int)));
            }
            i = i + 1;
        }
        assert(self.txs@.subrange(0, self.txs@.len() as int) =~= self.txs@);
        Ok(buf)
    }
}

/// The pool's acknowledgement of uploaded transactions.
#[derive(Debug, Clone)]
pub struct ProvideTxsOk {
    pub req_id: u32,
}

impl ProvideTxsOk {
    /// Reads the request id.
    pub fn parse(data: &[u8]) -> (r: Result<Self, Sv2Error>)
        ensures
            match r {
                Ok(m) => data@.len() >= 4 && m.req_id == u32_at(data@, 0),
                Err(e) => data@.len() < 4 && serialization_msg(e) == Some("too short"@),
            },
    {
        if data.len() < 4 {
            return Err(serialization("too short"));
        }
        Ok(ProvideTxsOk { req_id: read_u32_le(data, 0) })
    }
}

/// A frame: extension type, message type, 24-bit payload length, payload.
pub open spec fn frame_bytes(mtype: u8, ext: u16, payload: Seq<u8>) -> Seq<u8> {
    le_u16(ext) + seq![mtype] + le_u24(payload.len() as u32) + payload
}

/// Prefixes a payload with its frame header.
pub fn build_frame(mtype: u8, ext: u16, payload: &[u8]) -> (r: Vec<u8>)
    ensures
        r@ == frame_bytes(mtype, ext, payload@),
        r@.len() == 6 + payload@.len(),
{
    let mut frame: Vec<u8> = Vec::new();
    push_u16_le(&mut frame, ext);
    frame.push(mtype);
    push_u24_le(&mut frame, payload.len() as u32);
    push_all(&mut frame, payload);
    frame
}

/// The fields of an `AllocToken` payload as values.
pub struct AllocTokenView {
    pub req_id: u32,
    pub user: Seq<u8>,
    pub min_nonce2: u16,
}

/// The fields of an `AllocToken` payload, read at the offsets its layout gives.
pub open spec fn alloc_token_read(s: Seq<u8>) -> AllocTokenView {
    let n = s[4] as int;
    AllocTokenView { req_id: u32_at(s, 0), user: s.subrange(5, 5 + n), min_nonce2: u16_at(s, 5 + n) }
}

/// Reading an encoded `AllocToken` back gives the values it was built from,
/// for every user name that fits its one-byte length.
pub proof fn lemma_alloc_token_round_trip(req_id: u32, user: Seq<u8>, min_nonce2: u16)
    requires
        user.len() <= 255,
    ensures
        alloc_token_read(alloc_token_bytes(req_id, user, min_nonce2)) == (AllocTokenView {
            req_id,
            user,
            min_nonce2,
        }),
{
    let s = alloc_token_bytes(req_id, user, min_nonce2);
    let n = user.len() as int;
    assert(s.subrange(0, 4) =~= le_u32(req_id));
    lemma_u32_read_back(req_id, s, 0);
    assert(s[4] == user.len() as u8);
    assert(s.subrange(5, 5 + n) =~= user);
    assert(s.subrange(5 + n, 7 + n) =~= le_u16(min_nonce2));
    lemma_u16_read_back(min_nonce2, s, 5 + n);
}

/// The transactions of a `ProvideTxs` body: `n` of them, each after its
/// 24-bit length.
pub open spec fn txs_read(s: Seq<u8>, n: nat) -> Seq<Seq<u8>>
    decreases n,
{
    if n == 0 {
        Seq::empty()
    } else {
        let l = u24_at(s, 0) as int;
        seq![s.subrange(3, 3 + l)] + txs_read(s.subrange(3 + l, s.len() as int), (n - 1) as nat)
    }
}

/// The encoding of one transaction in a `ProvideTxs` body.
pub open spec fn tx_entry_bytes(t: Seq<u8>) -> Seq<u8> {
    le_u24(t.len() as u32) + t
}

/// The encoded transactions are the first one's encoding, then the rest's.
proof fn lemma_txs_bytes_front(t: Seq<Seq<u8>>)
    requires
        t.len() > 0,
    ensures
        txs_bytes(t) == tx_entry_bytes(t[0]) + txs_bytes(t.drop_first()),
    decreases t.len(),
{
    if t.len() == 1 {
        assert(t.drop_last() =~= Seq::<Seq<u8>>::empty());
        assert(t.drop_first() =~= Seq::<Seq<u8>>::empty());
        assert(txs_bytes(t) =~= tx_entry_bytes(t[0]) + txs_bytes(t.drop_first()));
    } else {
        let init = t.drop_last();
        lemma_txs_bytes_front(init);
        assert(init.drop_first() =~= t.drop_first().drop_last());
        assert(t.drop_first().last() == t.last());
        assert(init[0] == t[0]);
        assert(txs_bytes(t) =~= tx_entry_bytes(t[0]) + txs_bytes(t.drop_first()));
    }
}

/// Reading back encoded transactions, whatever follows them, gives them.
proof fn lemma_txs_read_back(t: Seq<Seq<u8>>, rest: Seq<u8>)
    requires
        forall|i: int| 0 <= i < t.len() ==> (#[trigger] t[i]).len() < 0x100_0000,
    ensures
        txs_read(txs_bytes(t) + rest, t.len()) == t,
    decreases t.len(),
{
    if t.len() == 0 {
        assert(txs_read(txs_bytes(t) + rest, 0) =~= t);
    } else {
        lemma_txs_bytes_front(t);
        let t0 = t[0];
        let tail = t.drop_first();
        let s = txs_bytes(t) + rest;
        let l = t0.len() as int;
        assert(s =~= le_u24(t0.len() as u32) + t0 + (txs_bytes(tail) + rest));
        assert(s.subrange(0, 3) =~= le_u24(t0.len() as u32));
        lemma_u24_read_back(t0.len() as u32, s, 0);
        assert(s.subrange(3, 3 + l) =~= t0);
        assert(s.subrange(3 + l, s.len() as int) =~= txs_bytes(tail) + rest);
        lemma_txs_read_back(tail, rest);
        assert(txs_read(s, t.len()) =~= t);
    }
}

/// The fields of a `ProvideTxs` payload as values.
pub struct ProvideTxsView {
    pub req_id: u32,
    pub txs: Seq<Seq<u8>>,
}

/// The fields of a `ProvideTxs` payload, read at the offsets its layout gives.
pub open spec fn provide_txs_read(s: Seq<u8>) -> ProvideTxsView {
    ProvideTxsView {
        req_id: u32_at(s, 0),
        txs: txs_read(s.subrange(6, s.len() as int), u16_at(s, 4) as nat),
    }
}

/// Reading an encoded `ProvideTxs` back gives the values it was built from,
/// when the count fits 16 bits and each transaction's length fits 24.
pub proof fn lemma_provide_txs_round_trip(req_id: u32, txs: Seq<Seq<u8>>)
    requires
        txs.len() <= 0xffff,
        forall|i: int| 0 <= i < txs.len() ==> (#[trigger] txs[i]).len() < 0x100_0000,
    ensures
        provide_txs_read(provide_txs_payload(req_id, txs)) == (ProvideTxsView { req_id, txs }),
{
    let s = provide_txs_payload(req_id, txs);
    assert(s.subrange(0, 4) =~= le_u32(req_id));
    lemma_u32_read_back(req_id, s, 0);
    assert(s.subrange(4, 6) =~= le_u16(txs.len() as u16));
    lemma_u16_read_back(txs.len() as u16, s, 4);
    assert(s.subrange(6, s.len() as int) =~= txs_bytes(txs) + Seq::<u8>::empty());
    lemma_txs_read_back(txs, Seq::empty());
}

/// `n` little-endian `u64`s from the front of `s`.
pub open spec fn u64s_read(s: Seq<u8>, n: nat) -> Seq<u64>
    decreases n,
{
    if n == 0 {
        Seq::empty()
    } else {
        seq![u64_at(s, 0)] + u64s_read(s.subrange(8, s.len() as int), (n - 1) as nat)
    }
}

/// The encoded `u64`s are the first one's encoding, then the rest's.
proof fn lemma_u64s_bytes_front(v: Seq<u64>)
    requires
        v.len() > 0,
    ensures
        u64s_bytes(v) == le_u64(v[0]) + u64s_bytes(v.drop_first()),
    decreases v.len(),
{
    if v.len() == 1 {
        assert(v.drop_last() =~= Seq::<u64>::empty());
        assert(v.drop_first() =~= Seq::<u64>::empty());
        assert(u64s_bytes(v) =~= le_u64(v[0]) + u64s_bytes(v.drop_first()));
    } else {
        let init = v.drop_last();
        lemma_u64s_bytes_front(init);
        assert(init.drop_first() =~= v.drop_first().drop_last());
        assert(v.drop_first().last() == v.last());
        assert(u64s_bytes(v) =~= le_u64(v[0]) + u64s_bytes(v.drop_first()));
    }
}

/// Eight bytes per value.
proof fn lemma_u64s_bytes_len(v: Seq<u64>)
    ensures
        u64s_bytes(v).len() == 8 * v.len(),
    decreases v.len(),
{
    if v.len() > 0 {
        lemma_u64s_bytes_len(v.drop_last());
    }
}

/// Reading back encoded `u64`s, whatever follows them, gives them.
proof fn lemma_u64s_read_back(v: Seq<u64>, rest: Seq<u8>)
    ensures
        u64s_read(u64s_bytes(v) + rest, v.len()) == v,
    decreases v.len(),
{
    if v.len() == 0 {
        assert(u64s_read(u64s_bytes(v) + rest, 0) =~= v);
    } else {
        lemma_u64s_bytes_front(v);
        let tail = v.drop_first();
        let s = u64s_bytes(v) + rest;
        assert(s =~= le_u64(v[0]) + (u64s_bytes(tail) + rest));
        assert(s.subrange(0, 8) =~= le_u64(v[0]));
        lemma_u64_read_back(v[0], s, 0);
        assert(s.subrange(8, s.len() as int) =~= u64s_bytes(tail) + rest);
        lemma_u64s_read_back(tail, rest);
        assert(u64s_read(s, v.len()) =~= v);
    }
}

/// The fields of a `DeclJob` payload as values.
pub struct DeclJobView {
    pub req_id: u32,
    pub token: Seq<u8>,
    pub version: u32,
    pub cb_prefix: Seq<u8>,
    pub cb_suffix: Seq<u8>,
    pub hash_nonce: u64,
    pub short_hashes: Seq<u64>,
    pub tx_list_hash: Seq<u8>,
    pub extra: Seq<u8>,
}

/// The fields of a `DeclJob` payload, read at the offsets its layout gives.
pub open spec fn decl_job_read(s: Seq<u8>) -> DeclJobView {
    let t = s[4] as int;
    let p = 11 + t;
    let pl = u16_at(s, 9 + t) as int;
    let sl = u16_at(s, p + pl) as int;
    let a = p + pl + 2 + sl;
    let cnt = u16_at(s, a + 8) as int;
    let b = a + 10 + 8 * cnt;
    let el = u16_at(s, b + 32) as int;
    DeclJobView {
        req_id: u32_at(s, 0),
        token: s.subrange(5, 5 + t),
        version: u32_at(s, 5 + t),
        cb_prefix: s.subrange(p, p + pl),
        cb_suffix: s.subrange(p + pl + 2, a),
        hash_nonce: u64_at(s, a),
        short_hashes: u64s_read(s.subrange(a + 10, s.len() as int), cnt as nat),
        tx_list_hash: s.subrange(b, b + 32),
        extra: s.subrange(b + 34, b + 34 + el),
    }
}

/// Reading an encoded `DeclJob` back gives the values it was built from,
/// when each length fits its prefix and the list hash has 32 bytes.
#[verifier::rlimit(50)]
pub proof fn lemma_decl_job_round_trip(j: DeclJobView)
    requires
        j.token.len() <= 255,
        j.cb_prefix.len() <= 0xffff,
        j.cb_suffix.len() <= 0xffff,
        j.short_hashes.len() <= 0xffff,
        j.tx_list_hash.len() == 32,
        j.extra.len() <= 0xffff,
    ensures
        decl_job_read(
            decl_job_payload(
                j.req_id,
                j.token,
                j.version,
                j.cb_prefix,
                j.cb_suffix,
                j.hash_nonce,
                j.short_hashes,
                j.tx_list_hash,
                j.extra,
            ),
        ) == j,
{
    let s = decl_job_payload(
        j.req_id,
        j.token,
        j.version,
        j.cb_prefix,
        j.cb_suffix,
        j.hash_nonce,
        j.short_hashes,
        j.tx_list_hash,
        j.extra,
    );
    let t = j.token.len() as int;
    let pl = j.cb_prefix.len() as int;
    let sl = j.cb_suffix.len() as int;
    let cnt = j.short_hashes.len() as int;
    let el = j.extra.len() as int;
    let p = 11 + t;
    let a = p + pl + 2 + sl;
    let b = a + 10 + 8 * cnt;
    lemma_u64s_bytes_len(j.short_hashes);
    let hs = u64s_bytes(j.short_hashes);
    let tail = j.tx_list_hash + le_u16(el as u16) + j.extra;
    assert(s =~= le_u32(j.req_id) + seq![t as u8] + j.token + le_u32(j.version) + le_u16(
        pl as u16,
    ) + j.cb_prefix + le_u16(sl as u16) + j.cb_suffix + le_u64(j.hash_nonce) + le_u16(
        cnt as u16,
    ) + hs + tail);
    assert(s.len() == b + 34 + el);
    assert(s.subrange(0, 4) =~= le_u32(j.req_id));
    lemma_u32_read_back(j.req_id, s, 0);
    assert(s[4] == t);
    assert(s.subrange(5, 5 + t) =~= j.token);
    assert(s.subrange(5 + t, 9 + t) =~= le_u32(j.version));
    lemma_u32_read_back(j.version, s, 5 + t);
    assert(s.subrange(9 + t, 11 + t) =~= le_u16(pl as u16));
    lemma_u16_read_back(pl as u16, s, 9 + t);
    assert(s.subrange(p, p + pl) =~= j.cb_prefix);
    assert(s.subrange(p + pl, p + pl + 2) =~= le_u16(sl as u16));
    lemma_u16_read_back(sl as u16, s, p + pl);
    assert(s.subrange(p + pl + 2, a) =~= j.cb_suffix);
    assert(s.subrange(a, a + 8) =~= le_u64(j.hash_nonce));
    lemma_u64_read_back(j.hash_nonce, s, a);
    assert(s.subrange(a + 8, a + 10) =~= le_u16(cnt as u16));
    lemma_u16_read_back(cnt as u16, s, a + 8);
    assert(s.subrange(a + 10, s.len() as int) =~= hs + tail);
    lemma_u64s_read_back(j.short_hashes, tail);
    assert(s.subrange(b, b + 32) =~= j.tx_list_hash);
    assert(s.subrange(b + 32, b + 34) =~= le_u16(el as u16));
    lemma_u16_read_back(el as u16, s, b + 32);
    assert(s.subrange(b + 34, b + 34 + el) =~= j.extra);
    assert(decl_job_read(s) =~= j);
}

} // verus!
