//! Status updates a bus client consumes: the typed events decoded from
//! the gateway's retained status topics.

use vstd::prelude::*;

use crate::zone::ZoneId;
use crate::zone::ZoneAttribute;

verus! {

/// How the gateway reports its own liveness on the `connected` topic:
/// its last will leaves `0` behind, a normal run retains `2`.
#[derive(Copy, Clone, Debug, PartialEq, Eq, Structural)]
pub enum Connected {
    Offline,
    Online,
}

/// Metadata published for one source.
#[derive(Debug)]
pub enum SourceMeta {
    Name(String),
}

/// Metadata published for one zone.
#[derive(Debug)]
pub enum ZoneMeta {
    Name(String),
}

/// One decoded status event from the gateway.
#[derive(Debug)]
pub enum StatusUpdate {
    Connected(Connected),
    AvailableZones(Vec<ZoneId>),
    ZoneMeta(ZoneId, ZoneMeta),
    ZoneAttribute(ZoneId, ZoneAttribute),
    Error(),
}

/// A consumer of the gateway's status topics.
pub struct Client {
}

impl Client {
    /// A client with no subscriptions installed yet.
    pub fn new() -> (r: Self)
        ensures
            r == (Client {  }),
    {
        Client {  }
    }
}

} // verus!
