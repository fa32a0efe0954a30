//! The error kinds of the client.

use vstd::prelude::*;
use vstd::string::StringExecFns;

verus! {

/// What went wrong; each kind carries a short description where one helps.
#[derive(Debug, Clone, PartialEq, Eq)]
pub enum Sv2Error {
    BitcoinRpc(String),
    PoolConnection(String),
    NoiseHandshake(String),
    Framing(String),
    Codec(String),
    Io(String),
    Config(String),
    ChannelSend,
    ChannelRecv,
    InvalidState(String),
    TemplateBuilding(String),
    Serialization(String),
    Shutdown,
}

/// The description carried by a serialization error, if `e` is one.
pub open spec fn serialization_msg(e: Sv2Error) -> Option<Seq<char>> {
    match e {
        Sv2Error::Serialization(m) => Some(m@),
        _ => None,
    }
}

/// Builds a serialization error with the given description.
pub fn serialization(msg: &str) -> (e: Sv2Error)
    ensures
        serialization_msg(e) == Some(msg@),
{
    Sv2Error::Serialization(msg.to_owned())
}

/// The one-line description of an error: a label for its kind, then what it
/// carries.
pub open spec fn error_text(e: Sv2Error) -> Seq<char> {
    match e {
        Sv2Error::BitcoinRpc(m) => "RPC: "@ + m@,
        Sv2Error::PoolConnection(m) => "Pool: "@ + m@,
        Sv2Error::NoiseHandshake(m) => "Noise: "@ + m@,
        Sv2Error::Framing(m) => "Frame: "@ + m@,
        Sv2Error::Codec(m) => "Codec: "@ + m@,
        Sv2Error::Io(m) => "IO: "@ + m@,
        Sv2Error::Config(m) => "Config: "@ + m@,
        Sv2Error::ChannelSend => "Send failed"@,
        Sv2Error::ChannelRecv => "Recv failed"@,
        Sv2Error::InvalidState(m) => "Bad state: "@ + m@,
        Sv2Error::TemplateBuilding(m) => "Template: "@ + m@,
        Sv2Error::Serialization(m) => "Serialize: "@ + m@,
        Sv2Error::Shutdown => "Shutdown"@,
    }
}

fn labelled(label: &str, m: &String) -> (r: String)
    ensures
        r@ == label@ + m@,
{
    let mut r = label.to_owned();
    r.append(m.as_str());
    r
}

impl Sv2Error {
    /// The error's description, as shown in logs and on the dashboard.
    pub fn message(&self) -> (r: String)
        ensures
            r@ == error_text(*self),
    {
        match self {
            Sv2Error::BitcoinRpc(m) => labelled("RPC: ", m),
            Sv2Error::PoolConnection(m) => labelled("Pool: ", m),
            Sv2Error::NoiseHandshake(m) => labelled("Noise: ", m),
            Sv2Error::Framing(m) => labelled("Frame: ", m),
            Sv2Error::Codec(m) => labelled("Codec: ", m),
            Sv2Error::Io(m) => labelled("IO: ", m),
            Sv2Error::Config(m) => labelled("Config: ", m),
            Sv2Error::ChannelSend => "Send failed".to_owned(),
            Sv2Error::ChannelRecv => "Recv failed".to_owned(),
            Sv2Error::InvalidState(m) => labelled("Bad state: ", m),
            Sv2Error::TemplateBuilding(m) => labelled("Template: ", m),
            Sv2Error::Serialization(m) => labelled("Serialize: ", m),
            Sv2Error::Shutdown => "Shutdown".to_owned(),
        }
    }
}

} // verus!
