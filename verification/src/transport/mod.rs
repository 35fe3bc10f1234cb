//! Where the bus is, and how to reach it.

use vstd::prelude::*;

use crate::text;
use crate::text::{
    chars_of, find_char, from_index, is_all_digits, owned, parse_uint, push_chars, push_str,
    rfind_char, string_of, strip_prefix, trim, up_to,
};

pub mod actor;
pub mod backoff;
pub mod replay;
pub mod serial;
pub mod tcp;

pub use crate::transport::actor::{BusActor, BusActorConfig, BusStats};
pub use crate::transport::backoff::{Backoff, BackoffConfig};
pub use crate::transport::replay::{ReplayTransport, ReplayView};
pub use crate::transport::serial::{SerialTransport, SerialView};
pub use crate::transport::tcp::{TcpTransport, TcpView};

verus! {

/// What kind of I/O failure it was.
#[derive(Debug, Clone, Copy, PartialEq, Eq, Structural)]
pub enum IoFaultKind {
    /// There is no open connection.
    NotConnected,
    /// The peer reset the connection.
    ConnectionReset,
    /// The transport does not do this.
    Unsupported,
    /// Nobody is at the other end.
    BrokenPipe,
    /// Any other failure.
    Other,
}

/// An I/O failure.
#[derive(Debug, PartialEq, Eq)]
pub struct IoFault {
    /// What kind of failure it was.
    pub kind: IoFaultKind,
    /// What went wrong, in words.
    pub message: String,
}

/// Errors of a transport.
#[derive(Debug, PartialEq, Eq)]
pub enum TransportError {
    /// The URL names no transport.
    InvalidUrl(String),
    /// Connecting, reading or writing failed.
    Io(IoFault),
    /// The serial port was refused.
    Serial(String),
}

/// The mathematical content of a [`TransportError`].
#[verifier::ext_equal]
pub enum TransportErrorView {
    InvalidUrl(Seq<char>),
    Io { kind: IoFaultKind, message: Seq<char> },
    Serial(Seq<char>),
}

impl View for TransportError {
    type V = TransportErrorView;

    open spec fn view(&self) -> TransportErrorView {
        match self {
            TransportError::InvalidUrl(s) => TransportErrorView::InvalidUrl(s@),
            TransportError::Io(f) => TransportErrorView::Io { kind: f.kind, message: f.message@ },
            TransportError::Serial(s) => TransportErrorView::Serial(s@),
        }
    }
}

impl TransportErrorView {
    /// The text of [`TransportError::to_string`].
    pub open spec fn message(&self) -> Seq<char> {
        match self {
            TransportErrorView::InvalidUrl(s) => "invalid transport URL: "@ + *s,
            TransportErrorView::Io { kind, message } => "transport I/O: "@ + *message,
            TransportErrorView::Serial(s) => "serial config: "@ + *s,
        }
    }
}

impl TransportError {
    /// An I/O failure.
    pub fn io(kind: IoFaultKind, message: &str) -> (r: Self)
        ensures
            r@ == (TransportErrorView::Io { kind, message: message@ }),
    {
        TransportError::Io(IoFault { kind, message: owned(message) })
    }

    /// What went wrong, in words.
    pub fn to_string(&self) -> (r: String)
        ensures
            r@ == self@.message(),
    {
        match self {
            TransportError::InvalidUrl(t) => {
                let mut s = owned("invalid transport URL: ");
                push_str(&mut s, t.as_str());
                s
            },
            TransportError::Io(f) => {
                let mut s = owned("transport I/O: ");
                push_str(&mut s, f.message.as_str());
                s
            },
            TransportError::Serial(t) => {
                let mut s = owned("serial config: ");
                push_str(&mut s, t.as_str());
                s
            },
        }
    }
}

// ---------------------------------------------------------------------------
// Endpoints
// ---------------------------------------------------------------------------

/// Baud rate of a serial port that names none.
pub const DEFAULT_BAUD: u32 = 9600;

/// Where the bus is.
#[derive(Debug, PartialEq, Eq)]
pub enum TransportEndpoint {
    /// A TCP bridge: `tcp://host:port`.
    Tcp {
        /// Host name or address.
        host: String,
        /// Port.
        port: u16,
    },
    /// A serial device: `/dev/ttyUSB0` or `serial:/dev/ttyUSB0`.
    Serial {
        /// Device path.
        path: String,
        /// Baud rate.
        baud: u32,
    },
    /// A recording: `replay:path`.
    Replay {
        /// Path of a hexadecimal dump.
        path: String,
    },
}

/// The mathematical content of a [`TransportEndpoint`].
#[verifier::ext_equal]
pub enum EndpointView {
    Tcp { host: Seq<char>, port: u16 },
    Serial { path: Seq<char>, baud: u32 },
    Replay { path: Seq<char> },
}

impl View for TransportEndpoint {
    type V = EndpointView;

    open spec fn view(&self) -> EndpointView {
        match self {
            TransportEndpoint::Tcp { host, port } => EndpointView::Tcp {
                host: host@,
                port: *port,
            },
            TransportEndpoint::Serial { path, baud } => EndpointView::Serial {
                path: path@,
                baud: *baud,
            },
            TransportEndpoint::Replay { path } => EndpointView::Replay { path: path@ },
        }
    }
}

impl Clone for TransportEndpoint {
    fn clone(&self) -> (r: Self)
        ensures
            r@ == self@,
    {
        match self {
            TransportEndpoint::Tcp { host, port } => TransportEndpoint::Tcp {
                host: host.clone(),
                port: *port,
            },
            TransportEndpoint::Serial { path, baud } => TransportEndpoint::Serial {
                path: path.clone(),
                baud: *baud,
            },
            TransportEndpoint::Replay { path } => TransportEndpoint::Replay { path: path.clone() },
        }
    }
}

/// The view of what the parsers return.
pub open spec fn endpoint_result(r: Result<TransportEndpoint, TransportError>) -> Result<
    EndpointView,
    TransportErrorView,
> {
    match r {
        Ok(e) => Ok(e@),
        Err(e) => Err(e@),
    }
}

/// A URL that names no transport.
pub open spec fn invalid(message: Seq<char>) -> Result<EndpointView, TransportErrorView> {
    Err(TransportErrorView::InvalidUrl(message))
}

fn invalid_url(message: &str) -> (r: Result<TransportEndpoint, TransportError>)
    ensures
        endpoint_result(r) == invalid(message@),
{
    Err(TransportError::InvalidUrl(owned(message)))
}

fn invalid_url_with(message: &str, detail: &[char]) -> (r: Result<
    TransportEndpoint,
    TransportError,
>)
    ensures
        endpoint_result(r) == invalid(message@ + detail@),
{
    let mut s = owned(message);
    push_chars(&mut s, detail);
    Err(TransportError::InvalidUrl(s))
}

/// The endpoint of a host and the text of its port.
pub open spec fn host_and_port(host: Seq<char>, port: Seq<char>) -> Result<
    EndpointView,
    TransportErrorView,
> {
    if host.len() == 0 {
        invalid("tcp host is empty"@)
    } else {
        match text::uint_of(port, 10, u16::MAX as int) {
            Some(n) => Ok(EndpointView::Tcp { host, port: n as u16 }),
            None => invalid("invalid tcp port: "@ + port),
        }
    }
}

/// The endpoint of `host:port`, or of `[host]:port` for a host with colons.
pub open spec fn tcp_endpoint(rest: Seq<char>) -> Result<EndpointView, TransportErrorView> {
    let s = text::trim_of(rest);
    if s.len() > 0 && s[0] == '[' {
        let t = s.skip(1);
        let close = text::index_of(t, ']', 0);
        if close >= t.len() {
            invalid("unclosed IPv6 bracket"@)
        } else {
            let after = t.skip(close + 1);
            if after.len() > 0 && after[0] == ':' {
                host_and_port(t.take(close), after.skip(1))
            } else {
                invalid("tcp URL missing :port"@)
            }
        }
    } else {
        match text::last_index_of(s, ':', s.len() as int) {
            Some(i) => host_and_port(s.take(i), s.skip(i + 1)),
            None => invalid("tcp URL missing host:port"@),
        }
    }
}

fn with_host_and_port(host: &[char], port: &[char]) -> (r: Result<
    TransportEndpoint,
    TransportError,
>)
    ensures
        endpoint_result(r) == host_and_port(host@, port@),
{
    if host.len() == 0 {
        return invalid_url("tcp host is empty");
    }
    match parse_uint(port, 10, 65535) {
        Some(n) => Ok(TransportEndpoint::Tcp { host: string_of(host), port: n as u16 }),
        None => invalid_url_with("invalid tcp port: ", port),
    }
}

fn parse_tcp(rest: &[char]) -> (r: Result<TransportEndpoint, TransportError>)
    ensures
        endpoint_result(r) == tcp_endpoint(rest@),
{
    let s = trim(rest);
    if s.len() > 0 && s[0] == '[' {
        let t = from_index(s, 1);
        let close: usize = find_char(t, ']');
        if close >= t.len() {
            return invalid_url("unclosed IPv6 bracket");
        }
        let after = from_index(t, close + 1);
        if after.len() > 0 && after[0] == ':' {
            with_host_and_port(up_to(t, close), from_index(after, 1))
        } else {
            invalid_url("tcp URL missing :port")
        }
    } else {
        match rfind_char(s, ':') {
            Some(i) => with_host_and_port(up_to(s, i), from_index(s, i + 1)),
            None => invalid_url("tcp URL missing host:port"),
        }
    }
}

/// A serial endpoint, if it has a path.
pub open spec fn path_and_baud(path: Seq<char>, baud: u32) -> Result<
    EndpointView,
    TransportErrorView,
> {
    if path.len() == 0 {
        invalid("serial path is empty"@)
    } else {
        Ok(EndpointView::Serial { path, baud })
    }
}

/// The endpoint of a device path, with an optional `?baud=115200` or `,115200`.
pub open spec fn serial_endpoint(spec_text: Seq<char>) -> Result<
    EndpointView,
    TransportErrorView,
> {
    let s = text::trim_of(spec_text);
    let mark = text::index_of(s, '?', 0);
    if s.len() == 0 {
        invalid("serial path is empty"@)
    } else if mark < s.len() {
        let q = s.skip(mark + 1);
        let digits = match text::after_prefix(q, "baud="@) {
            Some(d) => d,
            None => q,
        };
        match text::uint_of(digits, 10, u32::MAX as int) {
            Some(n) => path_and_baud(s.take(mark), n as u32),
            None => invalid("bad baud in "@ + q),
        }
    } else {
        match text::last_index_of(s, ',', s.len() as int) {
            Some(i) => {
                let digits = s.skip(i + 1);
                if digits.len() > 0 && text::all_digits(digits) {
                    match text::uint_of(digits, 10, u32::MAX as int) {
                        Some(n) => path_and_baud(s.take(i), n as u32),
                        None => invalid("bad baud: "@ + digits),
                    }
                } else {
                    path_and_baud(s, DEFAULT_BAUD)
                }
            },
            None => path_and_baud(s, DEFAULT_BAUD),
        }
    }
}

fn with_path_and_baud(path: &[char], baud: u32) -> (r: Result<TransportEndpoint, TransportError>)
    ensures
        endpoint_result(r) == path_and_baud(path@, baud),
{
    if path.len() == 0 {
        return invalid_url("serial path is empty");
    }
    Ok(TransportEndpoint::Serial { path: string_of(path), baud })
}

fn parse_serial(spec_text: &[char]) -> (r: Result<TransportEndpoint, TransportError>)
    ensures
        endpoint_result(r) == serial_endpoint(spec_text@),
{
    let s = trim(spec_text);
    if s.len() == 0 {
        return invalid_url("serial path is empty");
    }
    let mark: usize = find_char(s, '?');
    if mark < s.len() {
        let q = from_index(s, mark + 1);
        let digits = match strip_prefix(q, "baud=") {
            Some(d) => d,
            None => q,
        };
        return match parse_uint(digits, 10, 4294967295) {
            Some(n) => with_path_and_baud(up_to(s, mark), n as u32),
            None => invalid_url_with("bad baud in ", q),
        };
    }
    match rfind_char(s, ',') {
        Some(i) => {
            let digits = from_index(s, i + 1);
            if digits.len() > 0 && is_all_digits(digits) {
                match parse_uint(digits, 10, 4294967295) {
                    Some(n) => with_path_and_baud(up_to(s, i), n as u32),
                    None => invalid_url_with("bad baud: ", digits),
                }
            } else {
                with_path_and_baud(s, DEFAULT_BAUD)
            }
        },
        None => with_path_and_baud(s, DEFAULT_BAUD),
    }
}

/// What follows the scheme of a recording.
pub open spec fn replay_rest(url: Seq<char>) -> Option<Seq<char>> {
    match text::after_prefix(url, "replay://"@) {
        Some(r) => Some(r),
        None => match text::after_prefix(url, "replay:"@) {
            Some(r) => Some(r),
            None => match text::after_prefix(url, "hexfile://"@) {
                Some(r) => Some(r),
                None => text::after_prefix(url, "hexfile:"@),
            },
        },
    }
}

/// What follows the scheme of a serial device.
pub open spec fn serial_rest(url: Seq<char>) -> Option<Seq<char>> {
    match text::after_prefix(url, "serial://"@) {
        Some(r) => Some(r),
        None => text::after_prefix(url, "serial:"@),
    }
}

/// The endpoint that a URL or a path names.
pub open spec fn endpoint_of(url: Seq<char>) -> Result<EndpointView, TransportErrorView> {
    let u = text::trim_of(url);
    if u.len() == 0 {
        invalid("empty transport URL"@)
    } else if text::after_prefix(u, "tcp://"@) is Some {
        tcp_endpoint(text::after_prefix(u, "tcp://"@)->0)
    } else if replay_rest(u) is Some {
        let path = text::trim_of(replay_rest(u)->0);
        if path.len() == 0 {
            invalid("replay path is empty"@)
        } else {
            Ok(EndpointView::Replay { path })
        }
    } else if serial_rest(u) is Some {
        serial_endpoint(serial_rest(u)->0)
    } else if u[0] == '/' || u[0] == '.' {
        serial_endpoint(u)
    } else {
        invalid("unsupported scheme (want tcp://, serial:, replay:, or /dev path): "@ + u)
    }
}

fn strip_replay<'a>(url: &'a [char]) -> (r: Option<&'a [char]>)
    ensures
        text::opt_view(r) == replay_rest(url@),
{
    match strip_prefix(url, "replay://") {
        Some(r) => Some(r),
        None => match strip_prefix(url, "replay:") {
            Some(r) => Some(r),
            None => match strip_prefix(url, "hexfile://") {
                Some(r) => Some(r),
                None => strip_prefix(url, "hexfile:"),
            },
        },
    }
}

fn strip_serial<'a>(url: &'a [char]) -> (r: Option<&'a [char]>)
    ensures
        text::opt_view(r) == serial_rest(url@),
{
    match strip_prefix(url, "serial://") {
        Some(r) => Some(r),
        None => strip_prefix(url, "serial:"),
    }
}

impl TransportEndpoint {
    /// Reads `tcp://host:port`, `serial:/dev/..`, a bare path, or `replay:..`.
    pub fn parse(url: &str) -> (r: Result<Self, TransportError>)
        ensures
            endpoint_result(r) == endpoint_of(url@),
    {
        let all = chars_of(url);
        let u = trim(all.as_slice());
        if u.len() == 0 {
            return invalid_url("empty transport URL");
        }
        match strip_prefix(u, "tcp://") {
            Some(rest) => {
                return parse_tcp(rest);
            },
            None => {},
        }
        match strip_replay(u) {
            Some(rest) => {
                let path = trim(rest);
                if path.len() == 0 {
                    return invalid_url("replay path is empty");
                }
                return Ok(TransportEndpoint::Replay { path: string_of(path) });
            },
            None => {},
        }
        match strip_serial(u) {
            Some(rest) => {
                return parse_serial(rest);
            },
            None => {},
        }
        if u[0] == '/' || u[0] == '.' {
            return parse_serial(u);
        }
        invalid_url_with(
            "unsupported scheme (want tcp://, serial:, replay:, or /dev path): ",
            u,
        )
    }
}

// ---------------------------------------------------------------------------
// Transports
// ---------------------------------------------------------------------------

/// A transport to the bus.
#[derive(Debug)]
pub enum Transport {
    /// A TCP bridge.
    Tcp(TcpTransport),
    /// A serial port.
    Serial(SerialTransport),
    /// A recording.
    Replay(ReplayTransport),
}

/// The mathematical content of a [`Transport`].
#[verifier::ext_equal]
pub enum TransportView {
    Tcp(TcpView),
    Serial(SerialView),
    Replay(ReplayView),
}

impl View for Transport {
    type V = TransportView;

    open spec fn view(&self) -> TransportView {
        match self {
            Transport::Tcp(t) => TransportView::Tcp(t@),
            Transport::Serial(t) => TransportView::Serial(t@),
            Transport::Replay(t) => TransportView::Replay(t@),
        }
    }
}

/// A closed transport to an endpoint.
pub open spec fn transport_to(e: EndpointView) -> TransportView {
    match e {
        EndpointView::Tcp { host, port } => TransportView::Tcp(
            TcpView { host, port, connected: false },
        ),
        EndpointView::Serial { path, baud } => TransportView::Serial(
            SerialView { path, baud, connected: false },
        ),
        EndpointView::Replay { path } => TransportView::Replay(
            ReplayView::fresh("replay:"@ + path, Some(path), Seq::empty()),
        ),
    }
}

impl Transport {
    /// Name for logs.
    pub fn name(&self) -> (r: &'static str)
        ensures
            r@ == match self {
                Transport::Tcp(_) => "tcp"@,
                Transport::Serial(_) => "serial"@,
                Transport::Replay(_) => "replay"@,
            },
    {
        match self {
            Transport::Tcp(t) => t.name(),
            Transport::Serial(t) => t.name(),
            Transport::Replay(t) => t.name(),
        }
    }
}

/// Makes the transport that a URL names.
pub fn from_url(url: &str) -> (r: Result<Transport, TransportError>)
    ensures
        match endpoint_of(url@) {
            Ok(e) => r matches Ok(t) && t@ == transport_to(e),
            Err(f) => r matches Err(e) && e@ == f,
        },
{
    match TransportEndpoint::parse(url) {
        Ok(TransportEndpoint::Tcp { host, port }) => Ok(
            Transport::Tcp(TcpTransport::new(host.as_str(), port)),
        ),
        Ok(TransportEndpoint::Serial { path, baud }) => Ok(
            Transport::Serial(SerialTransport::new(path.as_str(), baud)),
        ),
        Ok(TransportEndpoint::Replay { path }) => Ok(
            Transport::Replay(ReplayTransport::from_path(path.as_str())),
        ),
        Err(e) => Err(e),
    }
}

// ---------------------------------------------------------------------------
// Laws
// ---------------------------------------------------------------------------

/// The address of a TCP endpoint, behind its scheme, is a URL for that endpoint.
/// A host that begins with a bracket or with whitespace has no such URL.
pub proof fn law_tcp_url(host: Seq<char>, port: u16)
    requires
        host.len() > 0,
        host[0] != '[',
        !text::is_space(host[0]),
    ensures
        endpoint_of("tcp://"@ + (TcpView { host, port, connected: false }).address()) == Ok::<
            EndpointView,
            TransportErrorView,
        >(EndpointView::Tcp { host, port }),
{
    let digits = text::decimal_text(port as nat);
    let rest = host + ":"@ + digits;
    reveal_strlit("tcp://");
    reveal_strlit(":");
    text::lemma_decimal_text(port as nat);
    text::lemma_decimal_round_trip(port as nat, u16::MAX as int);
    let url = "tcp://"@ + rest;
    assert(text::is_digit(digits[digits.len() - 1]));
    assert(url.last() == digits.last());
    assert(rest.last() == digits.last());
    assert(url[0] == 't');
    text::lemma_trim_fixed(url);
    assert(url.take(6) =~= "tcp://"@);
    assert(url.skip(6) =~= rest);
    assert(rest[0] == host[0]);
    text::lemma_trim_fixed(rest);
    let i = host.len() as int;
    assert(rest[i] == ':');
    assert forall|k: int| i < k < rest.len() implies rest[k] != ':' by {
        assert(rest[k] == digits[k - i - 1]);
        assert(text::is_digit(digits[k - i - 1]));
    }
    text::lemma_last_index_of(rest, ':', rest.len() as int, i);
    assert(rest.take(i) =~= host);
    assert(rest.skip(i + 1) =~= digits);
}

/// A host in brackets may hold colons.
pub proof fn law_bracketed_tcp_url(host: Seq<char>, port: u16)
    requires
        host.len() > 0,
        !host.contains(']'),
    ensures
        endpoint_of("tcp://["@ + host + "]:"@ + text::decimal_text(port as nat)) == Ok::<
            EndpointView,
            TransportErrorView,
        >(EndpointView::Tcp { host, port }),
{
    let digits = text::decimal_text(port as nat);
    reveal_strlit("tcp://");
    reveal_strlit("tcp://[");
    reveal_strlit("]:");
    text::lemma_decimal_text(port as nat);
    text::lemma_decimal_round_trip(port as nat, u16::MAX as int);
    let url = "tcp://["@ + host + "]:"@ + digits;
    let rest = url.skip(6);
    let t = rest.skip(1);
    assert(text::is_digit(digits[digits.len() - 1]));
    assert(url.last() == digits.last());
    assert(url[0] == 't');
    text::lemma_trim_fixed(url);
    assert(url.take(6) =~= "tcp://"@);
    assert(rest[0] == '[');
    assert(rest.last() == digits.last());
    text::lemma_trim_fixed(rest);
    assert(t =~= host + "]:"@ + digits);
    text::lemma_index_of(t, ']', 0);
    assert(t[host.len() as int] == ']');
    let close = text::index_of(t, ']', 0);
    if close < host.len() {
        assert(host[close] == ']');
    }
    assert(close == host.len());
    assert(t.take(close) =~= host);
    let after = t.skip(close + 1);
    assert(after[0] == ':');
    assert(after.skip(1) =~= digits);
}

/// A bare device path names a serial port at 9600 baud.
pub proof fn law_bare_path_is_serial(path: Seq<char>)
    requires
        path.len() > 0,
        path[0] == '/',
        !text::is_space(path.last()),
        !path.contains('?'),
        !path.contains(','),
    ensures
        endpoint_of(path) == Ok::<EndpointView, TransportErrorView>(
            EndpointView::Serial { path, baud: 9600 },
        ),
{
    reveal_strlit("tcp://");
    reveal_strlit("replay://");
    reveal_strlit("replay:");
    reveal_strlit("hexfile://");
    reveal_strlit("hexfile:");
    reveal_strlit("serial://");
    reveal_strlit("serial:");
    text::lemma_trim_fixed(path);
    assert(text::after_prefix(path, "tcp://"@) is None) by {
        if path.len() >= 6 {
            assert(path.take(6)[0] == '/');
        }
    }
    assert(replay_rest(path) is None) by {
        if path.len() >= 7 {
            assert(path.take(7)[0] == '/');
        }
        if path.len() >= 8 {
            assert(path.take(8)[0] == '/');
        }
        if path.len() >= 9 {
            assert(path.take(9)[0] == '/');
        }
        if path.len() >= 10 {
            assert(path.take(10)[0] == '/');
        }
    }
    assert(serial_rest(path) is None) by {
        if path.len() >= 7 {
            assert(path.take(7)[0] == '/');
        }
        if path.len() >= 9 {
            assert(path.take(9)[0] == '/');
        }
    }
    text::lemma_index_of(path, '?', 0);
    let q = text::index_of(path, '?', 0);
    if q < path.len() {
        assert(path[q] == '?');
    }
    text::lemma_no_last_index(path, ',', path.len() as int);
}

/// The address of a TCP bridge is its host and its port with a colon between them.
pub proof fn law_tcp_address(host: Seq<char>, port: u16, connected: bool)
    ensures
        (TcpView { host, port, connected }).address() == host + seq![':'] + text::decimal_text(
            port as nat,
        ),
{
    reveal_strlit(":");
    assert((TcpView { host, port, connected }).address() =~= host + seq![':']
        + text::decimal_text(port as nat));
}

/// A path that is no path behind `//`, with nothing in it that has a meaning of its own.
pub open spec fn plain_path(path: Seq<char>) -> bool {
    &&& path.len() > 0 && path[0] == '/' && (path.len() > 1 ==> path[1] != '/')
    &&& !text::is_space(path.last())
    &&& !path.contains('?') && !path.contains(',')
}

/// A serial device may name its rate, behind `?baud=` or a comma; without one it is
/// 9600. The scheme may be written or left out.
pub proof fn law_serial_url(path: Seq<char>, baud: u32)
    requires
        plain_path(path),
    ensures
        ({
            let want = Ok::<EndpointView, TransportErrorView>(EndpointView::Serial { path, baud });
            let rate = text::decimal_text(baud as nat);
            &&& endpoint_of(path + "?baud="@ + rate) == want
            &&& endpoint_of("serial:"@ + (path + "?baud="@ + rate)) == want
            &&& endpoint_of(path + ","@ + rate) == want
            &&& endpoint_of("serial:"@ + (path + ","@ + rate)) == want
            &&& endpoint_of(path) == Ok::<EndpointView, TransportErrorView>(
                EndpointView::Serial { path, baud: 9600 },
            )
            &&& endpoint_of("serial:"@ + path) == Ok::<EndpointView, TransportErrorView>(
                EndpointView::Serial { path, baud: 9600 },
            )
        }),
{
    reveal_strlit("?baud=");
    reveal_strlit(",");
    let rate = text::decimal_text(baud as nat);
    text::lemma_decimal_text(baud as nat);
    assert(text::is_digit(rate[rate.len() - 1]));
    let asked = path + "?baud="@ + rate;
    let listed = path + ","@ + rate;
    assert(asked.last() == rate.last() && listed.last() == rate.last());
    assert(asked[0] == '/' && listed[0] == '/');
    assert(path.len() > 1 ==> asked[1] == path[1] && listed[1] == path[1]);
    assert(path.len() == 1 ==> asked[1] == '?' && listed[1] == ',');
    lemma_path_goes_to_serial(asked);
    lemma_path_goes_to_serial(listed);
    lemma_path_goes_to_serial(path);
    lemma_asked_rate(path, baud);
    lemma_listed_rate(path, baud);
    text::lemma_trim_fixed(path);
    text::lemma_index_of(path, '?', 0);
    let q = text::index_of(path, '?', 0);
    if q < path.len() {
        assert(path[q] == '?');
    }
    text::lemma_no_last_index(path, ',', path.len() as int);
}

/// What begins with a single slash is read as a serial device, with or without the
/// scheme.
proof fn lemma_path_goes_to_serial(s: Seq<char>)
    requires
        s.len() > 0 && s[0] == '/' && (s.len() > 1 ==> s[1] != '/'),
        !text::is_space(s.last()),
    ensures
        endpoint_of(s) == serial_endpoint(s),
        endpoint_of("serial:"@ + s) == serial_endpoint(s),
{
    reveal_strlit("tcp://");
    reveal_strlit("replay://");
    reveal_strlit("replay:");
    reveal_strlit("hexfile://");
    reveal_strlit("hexfile:");
    reveal_strlit("serial://");
    reveal_strlit("serial:");
    let url = "serial:"@ + s;
    text::lemma_trim_fixed(s);
    assert(url.last() == s.last() && url[0] == 's');
    text::lemma_trim_fixed(url);
    assert(url.skip(7) =~= s);
    assert(url.take(7) =~= "serial:"@);
    if url.len() >= 9 {
        assert(url.take(9)[8] == s[1]);
        assert("serial://"@[8] == '/');
    }
    lemma_other_start(s, '/');
    lemma_other_start(url, 's');
    assert(serial_rest(s) is None) by {
        if s.len() >= 7 {
            assert(s.take(7)[0] == '/');
        }
        if s.len() >= 9 {
            assert(s.take(9)[0] == '/');
        }
    }
}

/// What begins with another letter has neither the scheme of TCP nor of a recording.
proof fn lemma_other_start(s: Seq<char>, c: char)
    requires
        s.len() > 0 && s[0] == c,
        c != 't' && c != 'r' && c != 'h',
    ensures
        text::after_prefix(s, "tcp://"@) is None,
        replay_rest(s) is None,
{
    reveal_strlit("tcp://");
    reveal_strlit("replay://");
    reveal_strlit("replay:");
    reveal_strlit("hexfile://");
    reveal_strlit("hexfile:");
    if s.len() >= 6 {
        assert(s.take(6)[0] == c);
    }
    if s.len() >= 7 {
        assert(s.take(7)[0] == c);
    }
    if s.len() >= 8 {
        assert(s.take(8)[0] == c);
    }
    if s.len() >= 9 {
        assert(s.take(9)[0] == c);
    }
    if s.len() >= 10 {
        assert(s.take(10)[0] == c);
    }
}

proof fn lemma_asked_rate(path: Seq<char>, baud: u32)
    requires
        plain_path(path),
    ensures
        serial_endpoint(path + "?baud="@ + text::decimal_text(baud as nat)) == Ok::<
            EndpointView,
            TransportErrorView,
        >(EndpointView::Serial { path, baud }),
{
    reveal_strlit("?baud=");
    reveal_strlit("baud=");
    let rate = text::decimal_text(baud as nat);
    text::lemma_decimal_text(baud as nat);
    text::lemma_decimal_round_trip(baud as nat, u32::MAX as int);
    let s = path + "?baud="@ + rate;
    assert(text::is_digit(rate[rate.len() - 1]));
    assert(s.last() == rate.last() && s[0] == '/');
    text::lemma_trim_fixed(s);
    text::lemma_index_of(s, '?', 0);
    let mark = text::index_of(s, '?', 0);
    let n = path.len() as int;
    assert(s[n] == '?');
    if mark < n {
        assert(path[mark] == '?');
    }
    assert(mark == n);
    assert(s.take(mark) =~= path);
    let q = s.skip(mark + 1);
    assert(q =~= "baud="@ + rate);
    assert(q.take(5) =~= "baud="@);
    assert(q.skip(5) =~= rate);
}

proof fn lemma_listed_rate(path: Seq<char>, baud: u32)
    requires
        plain_path(path),
    ensures
        serial_endpoint(path + ","@ + text::decimal_text(baud as nat)) == Ok::<
            EndpointView,
            TransportErrorView,
        >(EndpointView::Serial { path, baud }),
{
    reveal_strlit(",");
    let rate = text::decimal_text(baud as nat);
    text::lemma_decimal_text(baud as nat);
    text::lemma_decimal_round_trip(baud as nat, u32::MAX as int);
    let s = path + ","@ + rate;
    assert(text::is_digit(rate[rate.len() - 1]));
    assert(s.last() == rate.last() && s[0] == '/');
    text::lemma_trim_fixed(s);
    text::lemma_index_of(s, '?', 0);
    let mark = text::index_of(s, '?', 0);
    let n = path.len() as int;
    assert(s[n] == ',');
    if mark < s.len() {
        if mark < n {
            assert(path[mark] == '?');
        } else if mark > n {
            assert(text::is_digit(rate[mark - n - 1]));
        }
    }
    assert forall|k: int| n < k < s.len() implies s[k] != ',' by {
        assert(text::is_digit(rate[k - n - 1]));
    }
    text::lemma_last_index_of(s, ',', s.len() as int, n);
    assert(s.take(n) =~= path);
    assert(s.skip(n + 1) =~= rate);
}

/// Behind `replay:` stands the path of a recording.
pub proof fn law_replay_url(path: Seq<char>)
    requires
        path.len() > 0,
        !text::is_space(path[0]) && !text::is_space(path.last()),
        path[0] != '/' || (path.len() > 1 && path[1] != '/'),
    ensures
        endpoint_of("replay:"@ + path) == Ok::<EndpointView, TransportErrorView>(
            EndpointView::Replay { path },
        ),
        endpoint_of("replay://"@ + path) == Ok::<EndpointView, TransportErrorView>(
            EndpointView::Replay { path },
        ),
{
    reveal_strlit("tcp://");
    reveal_strlit("replay://");
    reveal_strlit("replay:");
    let short = "replay:"@ + path;
    let long = "replay://"@ + path;
    text::lemma_trim_fixed(path);
    assert(short[0] == 'r' && long[0] == 'r' && short.last() == path.last() && long.last()
        == path.last());
    text::lemma_trim_fixed(short);
    text::lemma_trim_fixed(long);
    if short.len() >= 6 {
        assert(short.take(6)[0] == 'r');
    }
    assert(long.take(6)[0] == 'r');
    assert(long.take(9) =~= "replay://"@);
    assert(long.skip(9) =~= path);
    assert(short.take(7) =~= "replay:"@);
    assert(short.skip(7) =~= path);
    if short.len() >= 9 {
        assert(short.take(9)[7] == path[0]);
        assert(short.take(9)[8] == path[1]);
    }
}

/// A URL that is blank, or starts like no scheme and like no path, names no transport;
/// nor does a TCP URL without a port, or with one that is too large.
pub proof fn law_bad_urls_are_refused(url: Seq<char>, host: Seq<char>, port: nat)
    requires
        text::trim_of(url).len() == 0 || !"trhs/."@.contains(text::trim_of(url)[0]),
        host.len() > 0 && host[0] != '[' && !text::is_space(host[0]) && !text::is_space(host.last()),
        !host.contains(':'),
        port > 65535,
    ensures
        endpoint_of(url) is Err,
        endpoint_of("tcp://"@ + host) is Err,
        endpoint_of("tcp://"@ + (host + seq![':'] + text::decimal_text(port))) is Err,
{
    reveal_strlit("trhs/.");
    reveal_strlit("tcp://");
    reveal_strlit("serial:");
    reveal_strlit("serial://");
    let u = text::trim_of(url);
    if u.len() > 0 {
        let c = u[0];
        assert("trhs/."@[0] == 't' && "trhs/."@[1] == 'r' && "trhs/."@[2] == 'h' && "trhs/."@[3]
            == 's' && "trhs/."@[4] == '/' && "trhs/."@[5] == '.');
        assert(c != 't' && c != 'r' && c != 'h' && c != 's' && c != '/' && c != '.');
        lemma_other_start(u, c);
        if u.len() >= 7 {
            assert(u.take(7)[0] == c);
        }
        if u.len() >= 9 {
            assert(u.take(9)[0] == c);
        }
    }
    let bare = "tcp://"@ + host;
    assert(bare[0] == 't' && bare.last() == host.last());
    text::lemma_trim_fixed(bare);
    text::lemma_trim_fixed(host);
    assert(bare.take(6) =~= "tcp://"@);
    assert(bare.skip(6) =~= host);
    text::lemma_no_last_index(host, ':', host.len() as int);
    let digits = text::decimal_text(port);
    let rest = host + seq![':'] + digits;
    let full = "tcp://"@ + rest;
    text::lemma_decimal_text(port);
    assert(text::is_digit(digits[digits.len() - 1]) && text::is_digit(digits[0]));
    assert(full[0] == 't' && full.last() == digits.last() && rest.last() == digits.last()
        && rest[0] == host[0]);
    text::lemma_trim_fixed(full);
    text::lemma_trim_fixed(rest);
    assert(full.take(6) =~= "tcp://"@);
    assert(full.skip(6) =~= rest);
    let i = host.len() as int;
    assert(rest[i] == ':');
    assert forall|k: int| i < k < rest.len() implies rest[k] != ':' by {
        assert(rest[k] == digits[k - i - 1]);
        assert(text::is_digit(digits[k - i - 1]));
    }
    text::lemma_last_index_of(rest, ':', rest.len() as int, i);
    assert(rest.skip(i + 1) =~= digits);
}

/// A transport is made for the endpoint that the URL names, closed: a TCP bridge by
/// its host and port, a serial device by its path and rate, a recording by its path,
/// from its start.
pub proof fn law_transport_fits_the_endpoint(e: EndpointView)
    ensures
        match e {
            EndpointView::Tcp { host, port } => transport_to(e) matches TransportView::Tcp(t)
                && t.host == host && t.port == port && !t.connected,
            EndpointView::Serial { path, baud } => transport_to(e) matches TransportView::Serial(t)
                && t.path == path && t.baud == baud && !t.connected,
            EndpointView::Replay { path } => transport_to(e) matches TransportView::Replay(t)
                && t.path == Some(path) && !t.opened && t.pos == 0 && t.needs_load()
                && t.rewind_on_open && !t.write_allowed && t.disconnect_after_reads is None,
        },
{
}

/// What is stated of an endpoint is stated of its parts, each under its own name.
pub proof fn law_endpoint_shows_its_parts(e: TransportEndpoint)
    ensures
        e matches TransportEndpoint::Tcp { host, port } ==> e@ == (EndpointView::Tcp {
            host: host@,
            port,
        }),
        e matches TransportEndpoint::Serial { path, baud } ==> e@ == (EndpointView::Serial {
            path: path@,
            baud,
        }),
        e matches TransportEndpoint::Replay { path } ==> e@ == (EndpointView::Replay {
            path: path@,
        }),
{
}

/// A host in brackets must be closed, and a port must follow; a serial port must have
/// a path.
pub proof fn law_broken_urls_are_refused(host: Seq<char>, tail: Seq<char>, query: Seq<char>)
    requires
        host.len() > 0 && !host.contains(']') && !text::is_space(host.last()),
        tail.len() > 0 ==> tail[0] != ':' && !text::is_space(tail.last()),
        query.len() > 0 && !text::is_space(query.last()),
    ensures
        endpoint_of("tcp://["@ + host) is Err,
        endpoint_of("tcp://["@ + host + ("]"@ + tail)) is Err,
        endpoint_of("serial:"@ + ("?"@ + query)) is Err,
{
    reveal_strlit("tcp://");
    reveal_strlit("tcp://[");
    reveal_strlit("]");
    let open = "tcp://["@ + host;
    assert(open[0] == 't' && open.last() == host.last());
    text::lemma_trim_fixed(open);
    assert(open.take(6) =~= "tcp://"@);
    let rest = open.skip(6);
    assert(rest[0] == '[' && rest.last() == host.last());
    text::lemma_trim_fixed(rest);
    assert(rest.skip(1) =~= host);
    text::lemma_index_of(host, ']', 0);
    let none = text::index_of(host, ']', 0);
    if none < host.len() {
        assert(host[none] == ']');
    }
    let closed = open + ("]"@ + tail);
    assert(tail.len() > 0 ==> closed.last() == tail.last());
    assert(tail.len() == 0 ==> closed.last() == ']');
    assert(closed[0] == 't');
    text::lemma_trim_fixed(closed);
    assert(closed.take(6) =~= "tcp://"@);
    let inner = closed.skip(6);
    assert(inner[0] == '[' && inner.last() == closed.last());
    text::lemma_trim_fixed(inner);
    let t = inner.skip(1);
    assert(t =~= host + "]"@ + tail);
    text::lemma_index_of(t, ']', 0);
    let n = host.len() as int;
    assert(t[n] == ']');
    let close = text::index_of(t, ']', 0);
    if close < n {
        assert(host[close] == ']');
    }
    assert(close == n);
    assert(t.skip(close + 1) =~= tail);
    reveal_strlit("serial:");
    reveal_strlit("serial://");
    reveal_strlit("?");
    let ask = "?"@ + query;
    let url = "serial:"@ + ask;
    assert(url[0] == 's' && url.last() == query.last());
    text::lemma_trim_fixed(url);
    assert(ask[0] == '?' && ask.last() == query.last());
    text::lemma_trim_fixed(ask);
    assert(url.take(7) =~= "serial:"@);
    assert(url.skip(7) =~= ask);
    if url.len() >= 9 {
        assert(url.take(9)[7] == '?');
    }
    text::lemma_index_of(ask, '?', 0);
    assert(text::index_of(ask, '?', 0) == 0);
    assert(ask.take(0).len() == 0);
    lemma_other_start(url, 's');
}

} // verus!
