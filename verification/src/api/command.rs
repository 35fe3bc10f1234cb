//! The command request: circuit changes, heat changes, or framed bytes, through
//! the write gate.

use vstd::prelude::*;

use crate::commands;
use crate::commands::parse_circuit_id;
use crate::text;
use crate::text::{chars_of, owned, push_str, spells, string_of, to_lower, trim};
use crate::write::{GateErrorView, GateStep, GateView, StepView, WriteGate, WriteGateError};

verus! {

/// A circuit as the request names it.
#[derive(Debug, PartialEq, Eq)]
pub enum CircuitRef {
    /// By number.
    Number(u64),
    /// By name.
    Name(String),
    /// In some other way.
    Other,
}

/// The body of a command request.
#[derive(Debug, PartialEq, Eq)]
pub struct CommandRequest {
    /// `CircuitChange` or `HeatChange`; not needed with `hex`.
    pub kind: Option<String>,
    /// Framed bytes as hexadecimal text.
    pub hex: Option<String>,
    /// Circuit.
    pub circuit: Option<CircuitRef>,
    /// On or off.
    pub on: Option<bool>,
    /// On or off as a number.
    pub status: Option<u8>,
    /// Pool setpoint.
    pub pool_set: Option<u8>,
    /// Spa setpoint.
    pub spa_set: Option<u8>,
    /// Heat mode.
    pub mode: Option<u8>,
}

/// The mathematical content of a [`CircuitRef`].
#[verifier::ext_equal]
pub enum CircuitRefView {
    Number(u64),
    Name(Seq<char>),
    Other,
}

/// The mathematical content of a [`CommandRequest`].
#[verifier::ext_equal]
pub struct RequestView {
    pub kind: Option<Seq<char>>,
    pub hex: Option<Seq<char>>,
    pub circuit: Option<CircuitRefView>,
    pub on: Option<bool>,
    pub status: Option<u8>,
    pub pool_set: Option<u8>,
    pub spa_set: Option<u8>,
    pub mode: Option<u8>,
}

impl View for CircuitRef {
    type V = CircuitRefView;

    open spec fn view(&self) -> CircuitRefView {
        match self {
            CircuitRef::Number(n) => CircuitRefView::Number(*n),
            CircuitRef::Name(s) => CircuitRefView::Name(s@),
            CircuitRef::Other => CircuitRefView::Other,
        }
    }
}

impl View for CommandRequest {
    type V = RequestView;

    open spec fn view(&self) -> RequestView {
        RequestView {
            kind: text::opt_text(self.kind),
            hex: text::opt_text(self.hex),
            circuit: match self.circuit {
                Some(c) => Some(c@),
                None => None,
            },
            on: self.on,
            status: self.status,
            pool_set: self.pool_set,
            spa_set: self.spa_set,
            mode: self.mode,
        }
    }
}

/// The body of an error answer.
#[derive(Debug, PartialEq, Eq)]
pub struct CommandErrorBody {
    /// For programs.
    pub error: String,
    /// For people.
    pub message: String,
}

impl Default for CommandRequest {
    fn default() -> (r: Self)
        ensures
            r@ == (RequestView {
                kind: None,
                hex: None,
                circuit: None,
                on: None,
                status: None,
                pool_set: None,
                spa_set: None,
                mode: None,
            }),
    {
        CommandRequest {
            kind: None,
            hex: None,
            circuit: None,
            on: None,
            status: None,
            pool_set: None,
            spa_set: None,
            mode: None,
        }
    }
}

/// A request that the write gate does not let through.
pub open spec fn unsupported<T>(message: Seq<char>) -> Result<T, GateErrorView> {
    Err(GateErrorView::Unsupported(message))
}

fn refuse<T>(message: &str) -> (r: Result<T, WriteGateError>)
    ensures
        r matches Err(e) && e@ == GateErrorView::Unsupported(message@),
{
    Err(WriteGateError::Unsupported(owned(message)))
}

impl RequestView {
    /// The circuit that the request names.
    pub open spec fn named_circuit(self) -> Result<u8, GateErrorView> {
        match self.circuit {
            None => unsupported("CircuitChange requires circuit"@),
            Some(CircuitRefView::Number(n)) => if n > 255 {
                unsupported("circuit id out of range"@)
            } else {
                Ok(n as u8)
            },
            Some(CircuitRefView::Name(s)) => match commands::circuit_of(s) {
                Some(id) => Ok(id),
                None => Err(
                    GateErrorView::Command(commands::CommandErrorView::UnknownCircuit(s)),
                ),
            },
            Some(CircuitRefView::Other) => unsupported("circuit must be number or name string"@),
        }
    }

    /// On or off: `on` counts before `status`.
    pub open spec fn wanted_on(self) -> Result<bool, GateErrorView> {
        match self.on {
            Some(on) => Ok(on),
            None => match self.status {
                Some(s) => Ok(s != 0),
                None => unsupported("CircuitChange requires on or status"@),
            },
        }
    }

    /// The framed bytes of the request, if it has any.
    pub open spec fn framed(self) -> Option<Seq<char>> {
        match self.hex {
            Some(h) => if text::trim_of(h).len() == 0 {
                None
            } else {
                Some(text::trim_of(h))
            },
            None => None,
        }
    }

    /// The kind of the request: trimmed, in lowercase, empty if it has none.
    pub open spec fn plain_kind(self) -> Seq<char> {
        match self.kind {
            Some(k) => text::lower_of(text::trim_of(k)),
            None => Seq::empty(),
        }
    }
}

/// The kind of a request asks for a circuit change.
pub open spec fn is_circuit_kind(kind: Seq<char>) -> bool {
    kind == "circuitchange"@ || kind == "circuit"@ || kind == "0x86"@
}

/// The kind of a request asks for a heat change.
pub open spec fn is_heat_kind(kind: Seq<char>) -> bool {
    kind == "heatchange"@ || kind == "heat"@ || kind == "0x88"@
}

/// What a request comes to at a gate. Framed bytes count before the kind.
pub open spec fn dispatched(g: GateView, req: RequestView) -> Result<StepView, GateErrorView> {
    let kind = req.plain_kind();
    if req.framed() is Some {
        g.executed_hex(req.framed()->0)
    } else if is_circuit_kind(kind) {
        match req.named_circuit() {
            Err(e) => Err(e),
            Ok(circuit) => match req.wanted_on() {
                Err(e) => Err(e),
                Ok(on) => g.executed(
                    crate::write::PendingView {
                        command: commands::CMD_CIRCUIT_CHANGE,
                        data: commands::built_circuit_change(
                            circuit,
                            on,
                            commands::DEFAULT_WRITE_PROTOCOL,
                            commands::DEFAULT_WRITE_DST,
                            commands::DEFAULT_WRITE_SRC,
                        ).raw,
                    },
                ),
            },
        }
    } else if is_heat_kind(kind) {
        match (req.pool_set, req.spa_set) {
            (None, _) => unsupported("HeatChange requires poolSet"@),
            (Some(_), None) => unsupported("HeatChange requires spaSet"@),
            (Some(pool), Some(spa)) => g.executed(
                crate::write::PendingView {
                    command: commands::CMD_HEAT_CHANGE,
                    data: commands::built_heat_change(
                        pool,
                        spa,
                        match req.mode {
                            Some(m) => m,
                            None => 0,
                        },
                        commands::DEFAULT_WRITE_PROTOCOL,
                        commands::DEFAULT_WRITE_DST,
                        commands::DEFAULT_WRITE_SRC,
                    ).raw,
                },
            ),
        }
    } else if kind.len() == 0 {
        unsupported("provide type (CircuitChange|HeatChange) or hex"@)
    } else {
        unsupported(kind + " (only CircuitChange / HeatChange / hex)"@)
    }
}

/// The circuit that a request names.
fn resolve_circuit(req: &CommandRequest) -> (r: Result<u8, WriteGateError>)
    ensures
        match r {
            Ok(id) => req@.named_circuit() == Ok::<u8, GateErrorView>(id),
            Err(e) => req@.named_circuit() == Err::<u8, GateErrorView>(e@),
        },
{
    match &req.circuit {
        None => refuse("CircuitChange requires circuit"),
        Some(CircuitRef::Number(n)) => {
            if *n > 255 {
                refuse("circuit id out of range")
            } else {
                Ok(*n as u8)
            }
        },
        Some(CircuitRef::Name(s)) => match parse_circuit_id(s.as_str()) {
            Ok(id) => Ok(id),
            Err(e) => Err(WriteGateError::Command(e)),
        },
        Some(CircuitRef::Other) => refuse("circuit must be number or name string"),
    }
}

/// On or off.
fn resolve_on(req: &CommandRequest) -> (r: Result<bool, WriteGateError>)
    ensures
        match r {
            Ok(on) => req@.wanted_on() == Ok::<bool, GateErrorView>(on),
            Err(e) => req@.wanted_on() == Err::<bool, GateErrorView>(e@),
        },
{
    match req.on {
        Some(on) => Ok(on),
        None => match req.status {
            Some(s) => Ok(s != 0),
            None => refuse("CircuitChange requires on or status"),
        },
    }
}

fn framed_hex(req: &CommandRequest) -> (r: Option<String>)
    ensures
        text::opt_text(r) == req@.framed(),
{
    match &req.hex {
        Some(h) => {
            let c = chars_of(h.as_str());
            let t = trim(c.as_slice());
            if t.len() == 0 {
                None
            } else {
                Some(string_of(t))
            }
        },
        None => None,
    }
}

fn kind_of(req: &CommandRequest) -> (r: Vec<char>)
    ensures
        r@ == req@.plain_kind(),
{
    match &req.kind {
        Some(k) => {
            let c = chars_of(k.as_str());
            to_lower(trim(c.as_slice()))
        },
        None => {
            let none: Vec<char> = Vec::new();
            assert(none@ =~= req@.plain_kind());
            none
        },
    }
}

/// Puts a request to the write gate.
pub fn dispatch(gate: &mut WriteGate, req: CommandRequest) -> (r: Result<GateStep, WriteGateError>)
    ensures
        crate::write::gate_result(r) == dispatched(old(gate)@, req@),
        final(gate)@ == old(gate)@.after(dispatched(old(gate)@, req@)),
{
    match framed_hex(&req) {
        Some(hex) => {
            return gate.raw_hex(hex.as_str());
        },
        None => {},
    }
    let kind = kind_of(&req);
    let k = kind.as_slice();
    if spells(k, "circuitchange") || spells(k, "circuit") || spells(k, "0x86") {
        let circuit: u8 = match resolve_circuit(&req) {
            Ok(c) => c,
            Err(e) => return Err(e),
        };
        let on = match resolve_on(&req) {
            Ok(v) => v,
            Err(e) => return Err(e),
        };
        return gate.circuit_change(circuit, on);
    }
    if spells(k, "heatchange") || spells(k, "heat") || spells(k, "0x88") {
        let pool: u8 = match req.pool_set {
            Some(v) => v,
            None => return refuse("HeatChange requires poolSet"),
        };
        let spa: u8 = match req.spa_set {
            Some(v) => v,
            None => return refuse("HeatChange requires spaSet"),
        };
        let mode: u8 = match req.mode {
            Some(v) => v,
            None => 0,
        };
        return gate.heat_change(pool, spa, mode);
    }
    if kind.len() == 0 {
        return refuse("provide type (CircuitChange|HeatChange) or hex");
    }
    let mut s = string_of(k);
    push_str(&mut s, " (only CircuitChange / HeatChange / hex)");
    Err(WriteGateError::Unsupported(s))
}

/// Status code and name of an error.
pub open spec fn error_code(e: GateErrorView) -> (u16, Seq<char>) {
    match e {
        GateErrorView::Busy => (409, "busy"@),
        GateErrorView::Command(_) => (400, "bad_command"@),
        GateErrorView::Unsupported(_) => (400, "unsupported"@),
        GateErrorView::NoWriteHandle => (503, "no_write_handle"@),
        GateErrorView::Transport(_) => (502, "transport"@),
    }
}

/// Status code and body of an error answer.
pub fn map_err(e: WriteGateError) -> (r: (u16, CommandErrorBody))
    ensures
        r.0 == error_code(e@).0,
        r.1.error@ == error_code(e@).1,
        r.1.message@ == e@.message(),
{
    let message = e.to_string();
    let status: u16 = match &e {
        WriteGateError::Busy => 409,
        WriteGateError::Command(_) => 400,
        WriteGateError::Unsupported(_) => 400,
        WriteGateError::NoWriteHandle => 503,
        WriteGateError::Transport(_) => 502,
    };
    let error = match &e {
        WriteGateError::Busy => owned("busy"),
        WriteGateError::Command(_) => owned("bad_command"),
        WriteGateError::Unsupported(_) => owned("unsupported"),
        WriteGateError::NoWriteHandle => owned("no_write_handle"),
        WriteGateError::Transport(_) => owned("transport"),
    };
    (status, CommandErrorBody { error, message })
}

/// A request that is refused is answered with an error: 409 only when another write
/// is in flight, 503 only when there is nothing to send through. While a write is in
/// flight nothing gets through, and a request that a free gate would let through is
/// answered 409.
pub proof fn law_refusals(g: GateView, req: RequestView)
    ensures
        dispatched(g, req) matches Err(e) ==> {
            &&& error_code(e).0 == 409 <==> e == GateErrorView::Busy
            &&& error_code(e).0 == 409 ==> g.in_flight
            &&& error_code(e).0 == 503 ==> g.writes_enabled && !g.has_write_handle && !g.in_flight
            &&& error_code(e).0 != 502
        },
        g.in_flight ==> dispatched(g, req) is Err,
        g.in_flight && dispatched(GateView { in_flight: false, ..g }, req) is Ok ==> dispatched(
            g,
            req,
        ) == Err::<StepView, GateErrorView>(GateErrorView::Busy) && error_code(
            GateErrorView::Busy,
        ).0 == 409,
{
}

/// A circuit change or a heat change that names all it needs is, with writes
/// disabled and the write gate free, answered with the acknowledgement of a dry run.
pub proof fn law_dry_run_answers(g: GateView, req: RequestView)
    requires
        !g.in_flight,
        !g.writes_enabled,
        req.framed() is None,
        (is_circuit_kind(req.plain_kind()) && req.named_circuit() is Ok && req.wanted_on() is Ok)
            || (is_heat_kind(req.plain_kind()) && req.pool_set is Some && req.spa_set is Some),
    ensures
        dispatched(g, req) matches Ok(StepView::Done(r)) && r.dry_run && r.verdict
            == crate::write::WriteVerdict::Ack,
{
    reveal_strlit("circuitchange");
    reveal_strlit("circuit");
    reveal_strlit("0x86");
    reveal_strlit("heatchange");
    reveal_strlit("heat");
    reveal_strlit("0x88");
    assert("0x86"@[3] != "0x88"@[3]);
    assert("0x86"@[0] != "heat"@[0]);
    assert(!(is_circuit_kind(req.plain_kind()) && is_heat_kind(req.plain_kind())));
    match dispatched(g, req) {
        Ok(StepView::Done(r)) => {
            let p = crate::write::PendingView { command: r.command, data: Seq::<u8>::empty() };
            crate::write::law_dry_run_is_acknowledged(p, g.listen_window);
        },
        _ => {},
    }
}

/// A circuit change asks the write gate to send the circuit it names, by number or by
/// name, on or off; `on` counts before `status`, in which anything but 0 is on. What is
/// missing is told.
pub proof fn law_circuit_request(g: GateView, req: RequestView, circuit: u8, on: bool)
    requires
        req.hex is None,
        req.kind == Some("CircuitChange"@),
        ({
            ||| req.circuit == Some(CircuitRefView::Number(circuit as u64))
            ||| exists|name: Seq<char>|
                req.circuit == Some(CircuitRefView::Name(name)) && #[trigger] commands::circuit_of(
                    name,
                ) == Some(circuit)
        }),
        req.on == Some(on) || (req.on is None && req.status is Some && on == (req.status->0 != 0)),
    ensures
        exists|raw: Seq<u8>|
            #[trigger] raw.len() == 13 && raw.take(11) == seq![
                0xFFu8, 0x00, 0xFF, 0xA5, 0x07, 0x10, 0x20, 0x86, 2, circuit, if on {
                    1u8
                } else {
                    0u8
                },
            ] && dispatched(g, req) == g.executed(
                crate::write::PendingView { command: 0x86, data: raw },
            ),
{
    lemma_kinds();
    commands::law_circuit_change_on_the_wire(circuit, on, 0x07, 0x10, 0x20);
    let raw = commands::built_circuit_change(circuit, on, 0x07, 0x10, 0x20).raw;
    assert(raw.len() == 13);
    assert(req.named_circuit() == Ok::<u8, GateErrorView>(circuit));
    assert(req.wanted_on() == Ok::<bool, GateErrorView>(on));
}

/// A heat change asks the write gate to send the two setpoints and the mode, which is 0
/// if the request names none.
pub proof fn law_heat_request(g: GateView, req: RequestView, pool: u8, spa: u8)
    requires
        req.hex is None,
        req.kind == Some("HeatChange"@),
        req.pool_set == Some(pool),
        req.spa_set == Some(spa),
    ensures
        exists|raw: Seq<u8>|
            #[trigger] raw.len() == 15 && raw.take(13) == seq![
                0xFFu8, 0x00, 0xFF, 0xA5, 0x07, 0x10, 0x20, 0x88, 4, pool, spa, if req.mode is Some {
                    req.mode->0
                } else {
                    0u8
                }, 0,
            ] && dispatched(g, req) == g.executed(
                crate::write::PendingView { command: 0x88, data: raw },
            ),
{
    lemma_kinds();
    let mode = match req.mode {
        Some(m) => m,
        None => 0,
    };
    commands::law_heat_change_on_the_wire(pool, spa, mode, 0x07, 0x10, 0x20);
    let raw = commands::built_heat_change(pool, spa, mode, 0x07, 0x10, 0x20).raw;
    assert(raw.len() == 15);
}

/// The two kinds of request, as they are written and as they are compared.
proof fn lemma_kinds()
    ensures
        is_circuit_kind(text::lower_of(text::trim_of("CircuitChange"@))),
        is_heat_kind(text::lower_of(text::trim_of("HeatChange"@))),
        !is_circuit_kind(text::lower_of(text::trim_of("HeatChange"@))),
{
    reveal_strlit("CircuitChange");
    reveal_strlit("circuitchange");
    reveal_strlit("HeatChange");
    reveal_strlit("heatchange");
    reveal_strlit("circuit");
    reveal_strlit("0x86");
    text::lemma_trim_fixed("CircuitChange"@);
    text::lemma_trim_fixed("HeatChange"@);
    let c = text::lower_of("CircuitChange"@);
    let h = text::lower_of("HeatChange"@);
    assert(c =~= "circuitchange"@);
    assert(h =~= "heatchange"@);
    assert(h[0] == 'h');
    assert("circuitchange"@[0] == 'c' && "circuit"@[0] == 'c' && "0x86"@[0] == '0');
}

/// Framed bytes count before everything else in a request: they are put to the write
/// gate as they stand, without whitespace around them.
pub proof fn law_framed_bytes_count_first(g: GateView, req: RequestView, hex: Seq<char>)
    requires
        req.hex == Some(hex),
        text::trim_of(hex).len() > 0,
    ensures
        dispatched(g, req) == g.executed_hex(text::trim_of(hex)),
{
}

/// A request that lacks something is refused without touching the write gate: one
/// without a kind, one of an unknown kind, a circuit change without a circuit in range
/// or without on or off, a heat change without both setpoints.
pub proof fn law_incomplete_requests_are_refused(g: GateView, req: RequestView)
    requires
        req.framed() is None,
        ({
            let kind = req.plain_kind();
            ||| kind.len() == 0
            ||| !is_circuit_kind(kind) && !is_heat_kind(kind)
            ||| req.kind == Some("CircuitChange"@) && (req.circuit is None || req.circuit == Some(
                CircuitRefView::Other,
            ) || (req.circuit matches Some(CircuitRefView::Number(n)) && n > 255) || (
            req.circuit matches Some(CircuitRefView::Name(s)) && commands::circuit_of(s) is None)
                || (req.on is None && req.status is None))
            ||| req.kind == Some("HeatChange"@) && (req.pool_set is None || req.spa_set is None)
        }),
    ensures
        dispatched(g, req) is Err,
        error_code(dispatched(g, req)->Err_0).0 == 400,
        g.after(dispatched(g, req)) == g,
{
    lemma_kinds();
    reveal_strlit("circuitchange");
    reveal_strlit("circuit");
    reveal_strlit("0x86");
    reveal_strlit("heatchange");
    reveal_strlit("heat");
    reveal_strlit("0x88");
}

/// The status code of every error: 409 when busy, 400 for what is wrong with the
/// request, 503 without anything to send through, 502 when sending failed.
pub proof fn law_error_codes(e: GateErrorView)
    ensures
        match e {
            GateErrorView::Busy => error_code(e) == (409u16, "busy"@),
            GateErrorView::Command(_) => error_code(e) == (400u16, "bad_command"@),
            GateErrorView::Unsupported(_) => error_code(e) == (400u16, "unsupported"@),
            GateErrorView::NoWriteHandle => error_code(e) == (503u16, "no_write_handle"@),
            GateErrorView::Transport(_) => error_code(e) == (502u16, "transport"@),
        },
{
}

/// What is stated of a request is stated of its fields, each under its own name.
pub proof fn law_request_shows_its_fields(r: CommandRequest)
    ensures
        r@.on == r.on && r@.status == r.status && r@.pool_set == r.pool_set && r@.spa_set
            == r.spa_set && r@.mode == r.mode,
        r.kind matches Some(k) ==> r@.kind == Some(k@),
        r.hex matches Some(h) ==> r@.hex == Some(h@),
        r.circuit matches Some(c) ==> r@.circuit == Some(c@),
        r.kind is None ==> r@.kind is None,
        r.hex is None ==> r@.hex is None,
        r.circuit is None ==> r@.circuit is None,
{
}

/// Each error of the write gate is answered with its own status and code, and its
/// text.
pub proof fn law_errors_are_answered(e: WriteGateError, r: (u16, CommandErrorBody))
    requires
        call_ensures(map_err, (e,), r),
    ensures
        e is Busy ==> r.0 == 409 && r.1.error@ == "busy"@,
        e is Command ==> r.0 == 400 && r.1.error@ == "bad_command"@,
        e is Unsupported ==> r.0 == 400 && r.1.error@ == "unsupported"@,
        e is NoWriteHandle ==> r.0 == 503 && r.1.error@ == "no_write_handle"@,
        e is Transport ==> r.0 == 502 && r.1.error@ == "transport"@,
        forall|s: String| #[trigger]
            call_ensures(WriteGateError::to_string, (&e,), s) ==> r.1.message@ == s@,
{
}

} // verus!
