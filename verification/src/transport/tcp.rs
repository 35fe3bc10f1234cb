//! A TCP bridge. The connection itself belongs to the caller; what is kept here is where
//! it goes and whether it is open.

use vstd::prelude::*;

use crate::text;
use crate::text::{owned, push_decimal, push_str};
use crate::transport::{IoFaultKind, TransportError, TransportErrorView};

verus! {

/// A TCP bridge.
#[derive(Debug, PartialEq, Eq)]
pub struct TcpTransport {
    host: String,
    port: u16,
    connected: bool,
}

/// The mathematical content of a [`TcpTransport`].
#[verifier::ext_equal]
pub struct TcpView {
    pub host: Seq<char>,
    pub port: u16,
    pub connected: bool,
}

impl View for TcpTransport {
    type V = TcpView;

    closed spec fn view(&self) -> TcpView {
        TcpView { host: self.host@, port: self.port, connected: self.connected }
    }
}

impl TcpView {
    /// `host:port`.
    pub open spec fn address(self) -> Seq<char> {
        self.host + ":"@ + text::decimal_text(self.port as nat)
    }
}

impl TcpTransport {
    /// A closed transport.
    pub fn new(host: &str, port: u16) -> (r: Self)
        ensures
            r@ == (TcpView { host: host@, port, connected: false }),
    {
        TcpTransport { host: owned(host), port, connected: false }
    }

    /// The address of the bridge.
    pub fn addr(&self) -> (r: String)
        ensures
            r@ == self@.address(),
    {
        let mut s = self.host.clone();
        push_str(&mut s, ":");
        push_decimal(&mut s, self.port as u64);
        s
    }

    /// Notes that a connection was made.
    pub fn opened(&mut self)
        ensures
            final(self)@ == (TcpView { connected: true, ..old(self)@ }),
    {
        self.connected = true;
    }

    /// Notes that the connection is gone. Returns whether there was one; closing
    /// twice is fine.
    pub fn close(&mut self) -> (r: bool)
        ensures
            r == old(self)@.connected,
            final(self)@ == (TcpView { connected: false, ..old(self)@ }),
    {
        let was = self.connected;
        self.connected = false;
        was
    }

    /// Reading and writing need a connection.
    pub fn ready(&self) -> (r: Result<(), TransportError>)
        ensures
            match r {
                Ok(_) => self@.connected,
                Err(e) => !self@.connected && e@ == (TransportErrorView::Io {
                    kind: IoFaultKind::NotConnected,
                    message: "tcp transport not open"@,
                }),
            },
    {
        if self.connected {
            Ok(())
        } else {
            Err(TransportError::io(IoFaultKind::NotConnected, "tcp transport not open"))
        }
    }

    /// Name for logs.
    pub fn name(&self) -> (r: &'static str)
        ensures
            r@ == "tcp"@,
    {
        "tcp"
    }
}

/// A transport connects to the host and port it was made with.
pub proof fn law_address_is_host_and_port(host: &str, port: u16, t: TcpTransport, address: String)
    requires
        call_ensures(TcpTransport::new, (host, port), t),
        call_ensures(TcpTransport::addr, (&t,), address),
    ensures
        address@ == host@ + seq![':'] + text::decimal_text(port as nat),
        !t@.connected,
{
    reveal_strlit(":");
    assert(":"@ =~= seq![':']);
}

/// A transport is ready from when it was opened until it is closed, and keeps its
/// address.
pub proof fn law_ready_while_open(was: bool, r: Result<(), TransportError>)
    ensures
        forall|t: &mut TcpTransport| #[trigger]
            call_ensures(TcpTransport::opened, (t,), ()) ==> final(t)@.connected && final(t)@.host
                == (*t)@.host && final(t)@.port == (*t)@.port,
        forall|t: &mut TcpTransport| #[trigger]
            call_ensures(TcpTransport::close, (t,), was) ==> !final(t)@.connected && final(t)@.host
                == (*t)@.host && final(t)@.port == (*t)@.port && was == (*t)@.connected,
        forall|t: &TcpTransport| #[trigger]
            call_ensures(TcpTransport::ready, (t,), r) ==> (r is Ok <==> t@.connected) && (
            r matches Err(e) ==> e@ matches TransportErrorView::Io { kind, .. } && kind
                == IoFaultKind::NotConnected),
{
}

} // verus!
