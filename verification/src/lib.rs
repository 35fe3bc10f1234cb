//! A service for a pool controller's bus: framing, decoding, journaling, gated
//! writes and the transport's reconnect logic.
//!
//! Sockets, serial ports, files, the environment and HTTP belong to the program
//! around the library.

use vstd::prelude::*;

use crate::config::Config;
use crate::text::owned;
use crate::transport::{from_url, Transport, TransportError};

pub mod api;
pub mod commands;
pub mod config;
pub mod framer;
pub mod journal;
pub mod messages;
pub mod registry;
pub mod state;
pub mod text;
pub mod time;
pub mod transport;
pub mod write;

verus! {

/// What to tell about the transport when the service starts.
#[derive(Debug, PartialEq, Eq)]
pub struct TransportNotice {
    /// Where the bus is, if a transport is configured.
    pub transport_url: Option<String>,
    /// In words.
    pub message: String,
}

/// What to tell about the transport: that it is configured, or that the service
/// idles.
pub fn log_transport_idle_state(config: &Config) -> (r: TransportNotice)
    ensures
        text::opt_text(r.transport_url) == config::usable_url(config@.transport_url),
        r.message@ == if r.transport_url is Some {
            "transport configured; bus Actor will own a persistent connection"@
        } else {
            "no transport_url configured; idling without bus connection"@
        },
{
    match config.transport() {
        Some(url) => TransportNotice {
            transport_url: Some(url),
            message: owned("transport configured; bus Actor will own a persistent connection"),
        },
        None => TransportNotice {
            transport_url: None,
            message: owned("no transport_url configured; idling without bus connection"),
        },
    }
}

/// What to do about the bus.
#[derive(Debug)]
pub enum BusPlan {
    /// No transport is configured.
    Idle,
    /// The transport that is configured cannot be made; the service runs without.
    Refused(TransportError),
    /// Run an actor on this transport.
    Spawn(Transport),
}

impl BusPlan {
    /// No actor is to be run.
    pub fn is_none(&self) -> (r: bool)
        ensures
            r == !(self is Spawn),
    {
        match self {
            BusPlan::Spawn(_) => false,
            _ => true,
        }
    }
}

/// Decides whether an actor is to be run, and on which transport.
pub fn spawn_bus_if_configured(config: &Config) -> (r: BusPlan)
    ensures
        match config::usable_url(config@.transport_url) {
            None => r is Idle,
            Some(url) => match transport::endpoint_of(url) {
                Ok(e) => r matches BusPlan::Spawn(t) && t@ == transport::transport_to(e),
                Err(f) => r matches BusPlan::Refused(e) && e@ == f,
            },
        },
{
    match config.transport() {
        None => BusPlan::Idle,
        Some(url) => match from_url(url.as_str()) {
            Ok(t) => BusPlan::Spawn(t),
            Err(e) => BusPlan::Refused(e),
        },
    }
}

} // verus!
