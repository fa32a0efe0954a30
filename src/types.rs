//! Events carried on the bus, coinbase outputs and the dashboard counters.

use vstd::prelude::*;

verus! {

/// What the components tell each other on the bus.
#[derive(Debug, Clone)]
pub enum Event {
    NodeUp,
    NodeDown,
    NewTemplate { height: u64, txs: usize, fees: u64 },
    TemplateErr(String),
    PoolConnecting,
    PoolUp,
    PoolDown,
    Handshaking,
    HandshakeDone,
    HandshakeErr(String),
    JobSent { tpl_id: u64, txs: usize },
    JobOk { tpl_id: u64, token: Vec<u8> },
    JobFailed { tpl_id: u64, reason: String },
    DeclareJob { tpl_id: u64, outputs: Vec<CoinbaseOut>, txs: Vec<Vec<u8>> },
    Shutdown,
    Error(String),
}

/// A coinbase output: an amount in satoshis and its locking script.
#[derive(Debug, Clone)]
pub struct CoinbaseOut {
    pub value: u64,
    pub script_pubkey: Vec<u8>,
}

/// Where a declared job stands, as the dashboard shows it. `ts` counts
/// seconds since the Unix epoch.
#[derive(Debug, Clone)]
pub enum JobState {
    Pending,
    Sent { ts: u64 },
    Accepted { token: Vec<u8> },
    Rejected { reason: String },
}

/// Live counters of the dashboard.
#[derive(Debug, Clone, Default)]
pub struct Stats {
    pub node_up: bool,
    pub pool_up: bool,
    pub handshake_ok: bool,
    pub height: u64,
    pub templates: u64,
    pub declared: u64,
    pub accepted: u64,
    pub rejected: u64,
    pub fees: u64,
    pub uptime: u64,
}

/// `x + 1`, wrapping at the top of `u64`.
pub open spec fn bump(x: u64) -> u64 {
    if x == u64::MAX {
        0
    } else {
        (x + 1) as u64
    }
}

/// The counters after `ev`; events that the dashboard does not count leave
/// them as they are.
pub open spec fn stats_after(s: Stats, ev: Event) -> Stats {
    match ev {
        Event::NodeUp => Stats { node_up: true, ..s },
        Event::NodeDown => Stats { node_up: false, ..s },
        Event::NewTemplate { height, fees, .. } => Stats {
            height: height,
            templates: bump(s.templates),
            fees: ((s.fees + fees) % 0x1_0000_0000_0000_0000) as u64,
            ..s
        },
        Event::PoolUp => Stats { pool_up: true, ..s },
        Event::PoolDown => Stats { pool_up: false, handshake_ok: false, ..s },
        Event::HandshakeDone => Stats { handshake_ok: true, ..s },
        Event::JobSent { .. } => Stats { declared: bump(s.declared), ..s },
        Event::JobOk { .. } => Stats { accepted: bump(s.accepted), ..s },
        Event::JobFailed { .. } => Stats { rejected: bump(s.rejected), ..s },
        _ => s,
    }
}

impl Stats {
    /// All flags down and all counters at zero.
    pub fn new() -> (r: Self)
        ensures
            !r.node_up && !r.pool_up && !r.handshake_ok,
            r.height == 0 && r.templates == 0 && r.declared == 0,
            r.accepted == 0 && r.rejected == 0 && r.fees == 0 && r.uptime == 0,
    {
        Stats {
            node_up: false,
            pool_up: false,
            handshake_ok: false,
            height: 0,
            templates: 0,
            declared: 0,
            accepted: 0,
            rejected: 0,
            fees: 0,
            uptime: 0,
        }
    }

    /// Updates the counters for one event from the bus. Fees add up across
    /// templates.
    pub fn apply(&mut self, ev: &Event)
        ensures
            *final(self) == stats_after(*old(self), *ev),
    {
        match ev {
            Event::NodeUp => {
                self.node_up = true;
            },
            Event::NodeDown => {
                self.node_up = false;
            },
            Event::NewTemplate { height, fees, .. } => {
                self.height = *height;
                self.templates = self.templates.wrapping_add(1);
                self.fees = self.fees.wrapping_add(*fees);
            },
            Event::PoolUp => {
                self.pool_up = true;
            },
            Event::PoolDown => {
                self.pool_up = false;
                self.handshake_ok = false;
            },
            Event::HandshakeDone => {
                self.handshake_ok = true;
            },
            Event::JobSent { .. } => {
                self.declared = self.declared.wrapping_add(1);
            },
            Event::JobOk { .. } => {
                self.accepted = self.accepted.wrapping_add(1);
            },
            Event::JobFailed { .. } => {
                self.rejected = self.rejected.wrapping_add(1);
            },
            _ => {},
        }
    }
}

/// Most lines the dashboard's log keeps.
pub const LOG_CAPACITY: usize = 1000;

/// The dashboard's log: the latest lines, oldest first, at most
/// `LOG_CAPACITY` of them.
pub struct RollingLog {
    pub lines: Vec<String>,
}

/// The lines kept after `line` is added to `lines`.
pub open spec fn log_after(lines: Seq<String>, line: String) -> Seq<String> {
    let all = lines.push(line);
    if all.len() > LOG_CAPACITY {
        all.drop_first()
    } else {
        all
    }
}

impl RollingLog {
    pub fn new() -> (r: Self)
        ensures
            r.lines@.len() == 0,
    {
        RollingLog { lines: Vec::new() }
    }

    /// Adds a line, dropping the oldest once the log is over capacity.
    pub fn push(&mut self, line: String)
        ensures
            final(self).lines@ == log_after(old(self).lines@, line),
    {
        self.lines.push(line);
        if self.lines.len() > LOG_CAPACITY {
            self.lines.remove(0);
        }
    }
}

/// Hours, minutes and seconds of a duration given in seconds.
pub fn clock_parts(secs: u64) -> (r: (u64, u64, u64))
    ensures
        r.0 == secs / 3600,
        r.1 == (secs % 3600) / 60,
        r.2 == secs % 60,
        r.0 * 3600 + r.1 * 60 + r.2 == secs,
{
    let h = secs / 3600;
    let m = (secs % 3600) / 60;
    let s = secs % 60;
    assert(h * 3600 + m * 60 + s == secs) by (nonlinear_arith)
        requires
            h == secs / 3600,
            m == (secs % 3600) / 60,
            s == secs % 60,
    ;
    (h, m, s)
}

} // verus!
