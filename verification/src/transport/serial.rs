//! A serial port. The connection itself belongs to the caller; what is kept here is where
//! it goes and whether it is open.

use vstd::prelude::*;

use crate::text::owned;
use crate::transport::{IoFaultKind, TransportError, TransportErrorView};

verus! {

/// A serial port.
#[derive(Debug, PartialEq, Eq)]
pub struct SerialTransport {
    path: String,
    baud: u32,
    connected: bool,
}

/// The mathematical content of a [`SerialTransport`].
#[verifier::ext_equal]
pub struct SerialView {
    pub path: Seq<char>,
    pub baud: u32,
    pub connected: bool,
}

impl View for SerialTransport {
    type V = SerialView;

    closed spec fn view(&self) -> SerialView {
        SerialView { path: self.path@, baud: self.baud, connected: self.connected }
    }
}

impl SerialTransport {
    /// A closed transport.
    pub fn new(path: &str, baud: u32) -> (r: Self)
        ensures
            r@ == (SerialView { path: path@, baud, connected: false }),
    {
        SerialTransport { path: owned(path), baud, connected: false }
    }

    /// Device path.
    pub fn path(&self) -> (r: &str)
        ensures
            r@ == self@.path,
    {
        self.path.as_str()
    }

    /// Baud rate.
    pub fn baud(&self) -> (r: u32)
        ensures
            r == self@.baud,
    {
        self.baud
    }

    /// Notes that a connection was made.
    pub fn opened(&mut self)
        ensures
            final(self)@ == (SerialView { connected: true, ..old(self)@ }),
    {
        self.connected = true;
    }

    /// Notes that the connection is gone. Returns whether there was one; closing
    /// twice is fine.
    pub fn close(&mut self) -> (r: bool)
        ensures
            r == old(self)@.connected,
            final(self)@ == (SerialView { connected: false, ..old(self)@ }),
    {
        let was = self.connected;
        self.connected = false;
        was
    }

    /// Reading and writing need a connection.
    pub fn ready(&self) -> (r: Result<(), TransportError>)
        ensures
            match r {
                Ok(_) => self@.connected,
                Err(e) => !self@.connected && e@ == (TransportErrorView::Io {
                    kind: IoFaultKind::NotConnected,
                    message: "serial transport not open"@,
                }),
            },
    {
        if self.connected {
            Ok(())
        } else {
            Err(TransportError::io(IoFaultKind::NotConnected, "serial transport not open"))
        }
    }

    /// Name for logs.
    pub fn name(&self) -> (r: &'static str)
        ensures
            r@ == "serial"@,
    {
        "serial"
    }
}

/// A port is opened by the path and at the speed it was made with.
pub proof fn law_port_keeps_its_settings(path: &str, baud: u32, t: SerialTransport)
    requires
        call_ensures(SerialTransport::new, (path, baud), t),
    ensures
        forall|p: &str| #[trigger] call_ensures(SerialTransport::path, (&t,), p) ==> p@ == path@,
        forall|b: u32| #[trigger] call_ensures(SerialTransport::baud, (&t,), b) ==> b == baud,
        !t@.connected,
{
}

/// A port is ready from when it was opened until it is closed, and keeps its settings.
pub proof fn law_ready_while_open(was: bool, r: Result<(), TransportError>)
    ensures
        forall|t: &mut SerialTransport| #[trigger]
            call_ensures(SerialTransport::opened, (t,), ()) ==> final(t)@.connected
                && final(t)@.path == (*t)@.path && final(t)@.baud == (*t)@.baud,
        forall|t: &mut SerialTransport| #[trigger]
            call_ensures(SerialTransport::close, (t,), was) ==> !final(t)@.connected
                && final(t)@.path == (*t)@.path && final(t)@.baud == (*t)@.baud && was
                == (*t)@.connected,
        forall|t: &SerialTransport| #[trigger]
            call_ensures(SerialTransport::ready, (t,), r) ==> (r is Ok <==> t@.connected) && (
            r matches Err(e) ==> e@ matches TransportErrorView::Io { kind, .. } && kind
                == IoFaultKind::NotConnected),
{
}

} // verus!
