//! The owner of the bus: connects, reads, frames, and reconnects.
//!
//! The actor decides what to do next; the caller does it and reports back. One
//! connection serves any number of frames: it is given up only when it fails,
//! ends, or the actor is told to stop.

use vstd::prelude::*;

use crate::framer;
use crate::framer::{Frame, FrameView, Framer};
use crate::time::Duration;
use crate::transport::backoff::{Backoff, BackoffConfig, BackoffView};

verus! {

/// Settings of the actor.
#[derive(Debug, Clone, Copy, PartialEq, Eq, Structural)]
pub struct BusActorConfig {
    /// Delays between attempts to reconnect.
    pub backoff: BackoffConfig,
    /// Size of the read buffer.
    pub read_buf_size: usize,
    /// Reconnect at the end of the stream; otherwise the actor stops there.
    pub reconnect_on_eof: bool,
    /// Most reconnects, if there is a limit.
    pub max_reconnects: Option<u64>,
    /// Delays without jitter.
    pub deterministic_backoff: bool,
}

impl Default for BusActorConfig {
    fn default() -> (r: Self)
        ensures
            r.backoff.initial@ == 500 * 1_000_000,
            r.backoff.max@ == 30 * 1_000_000_000,
            r.backoff.multiplier == 2,
            r.backoff.jitter_pct == 25,
            r.read_buf_size == 512,
            r.reconnect_on_eof,
            r.max_reconnects is None,
            !r.deterministic_backoff,
    {
        BusActorConfig {
            backoff: BackoffConfig::default(),
            read_buf_size: 512,
            reconnect_on_eof: true,
            max_reconnects: None,
            deterministic_backoff: false,
        }
    }
}

impl BusActorConfig {
    /// Fast reconnects for tests.
    pub fn accelerated_for_tests() -> (r: Self)
        ensures
            r.backoff.initial@ == 1_000_000,
            r.backoff.max@ == 20 * 1_000_000,
            r.backoff.multiplier == 2,
            r.backoff.jitter_pct == 10,
            r.read_buf_size == 64,
            r.reconnect_on_eof,
            r.max_reconnects is None,
            r.deterministic_backoff,
    {
        BusActorConfig {
            backoff: BackoffConfig::accelerated_for_tests(),
            read_buf_size: 64,
            reconnect_on_eof: true,
            max_reconnects: None,
            deterministic_backoff: true,
        }
    }
}

/// Counts of the actor.
#[derive(Debug, Clone, Copy, PartialEq, Eq, Structural)]
pub struct BusStats {
    /// Connections made.
    pub connects: u64,
    /// Connections lost, or not made, and tried again.
    pub reconnects: u64,
    /// Frames found.
    pub frames: u64,
    /// Frames with a bad checksum; known once the actor has stopped.
    pub checksum_failures: u64,
    /// Bytes read.
    pub bytes_read: u64,
    /// The actor stopped because it had reconnected often enough.
    pub stopped_on_max_reconnects: bool,
}

impl Default for BusStats {
    fn default() -> (r: Self)
        ensures
            r == no_stats(),
    {
        BusStats {
            connects: 0,
            reconnects: 0,
            frames: 0,
            checksum_failures: 0,
            bytes_read: 0,
            stopped_on_max_reconnects: false,
        }
    }
}

/// Counts of an actor that has done nothing.
pub open spec fn no_stats() -> BusStats {
    BusStats {
        connects: 0,
        reconnects: 0,
        frames: 0,
        checksum_failures: 0,
        bytes_read: 0,
        stopped_on_max_reconnects: false,
    }
}

/// Counts to look at while the actor runs.
#[derive(Debug, Clone, Copy, PartialEq, Eq, Structural)]
pub struct BusCounters {
    /// Connections made.
    pub connects: u64,
    /// Reconnects.
    pub reconnects: u64,
    /// Frames found.
    pub frames: u64,
    /// Bytes read.
    pub bytes_read: u64,
    /// There is a connection.
    pub connected: bool,
}

impl Default for BusCounters {
    fn default() -> (r: Self)
        ensures
            r == (BusCounters {
                connects: 0,
                reconnects: 0,
                frames: 0,
                bytes_read: 0,
                connected: false,
            }),
    {
        BusCounters { connects: 0, reconnects: 0, frames: 0, bytes_read: 0, connected: false }
    }
}

impl BusCounters {
    /// The counts as [`BusStats`]; what is not counted here is left at nothing.
    pub fn snapshot(&self) -> (r: BusStats)
        ensures
            r == (BusStats {
                connects: self.connects,
                reconnects: self.reconnects,
                frames: self.frames,
                checksum_failures: 0,
                bytes_read: self.bytes_read,
                stopped_on_max_reconnects: false,
            }),
    {
        BusStats {
            connects: self.connects,
            reconnects: self.reconnects,
            frames: self.frames,
            checksum_failures: 0,
            bytes_read: self.bytes_read,
            stopped_on_max_reconnects: false,
        }
    }
}

/// What the actor waits for.
#[derive(Debug, Clone, Copy, PartialEq, Eq, Structural)]
pub enum Phase {
    /// To start, or for a delay to pass.
    Idle,
    /// A connection.
    Opening,
    /// Bytes.
    Reading,
    /// A frame to be taken.
    Delivering,
    /// Nothing: the actor is done.
    Stopped,
}

/// What happened. `shutdown` tells whether the actor has been told to stop.
#[derive(Debug)]
pub enum ActorEvent {
    /// The start, or the end of a delay.
    Ready { shutdown: bool },
    /// A connection was made.
    Opened,
    /// No connection was made.
    OpenFailed { shutdown: bool },
    /// Bytes came in; none mean the end of the stream.
    Bytes { data: Vec<u8>, shutdown: bool },
    /// The connection failed.
    ReadFailed { shutdown: bool },
    /// The actor was told to stop while it read.
    Shutdown,
    /// The frame was taken.
    Delivered,
    /// Nobody takes frames any more.
    ReceiverGone,
}

/// What to do next.
#[derive(Debug)]
pub enum ActorAction {
    /// Make a connection.
    Open,
    /// Read from the connection.
    Read,
    /// Hand this frame on.
    Deliver(Frame),
    /// Wait, after closing the connection where `close` says so.
    Wait {
        /// How long.
        delay: Duration,
        /// There is a connection to close.
        close: bool,
    },
    /// Close the connection; the actor is done.
    Stop(BusStats),
}

/// The mathematical content of an [`ActorEvent`].
#[verifier::ext_equal]
pub enum EventView {
    Ready { shutdown: bool },
    Opened,
    OpenFailed { shutdown: bool },
    Bytes { data: Seq<u8>, shutdown: bool },
    ReadFailed { shutdown: bool },
    Shutdown,
    Delivered,
    ReceiverGone,
}

impl View for ActorEvent {
    type V = EventView;

    open spec fn view(&self) -> EventView {
        match self {
            ActorEvent::Ready { shutdown } => EventView::Ready { shutdown: *shutdown },
            ActorEvent::Opened => EventView::Opened,
            ActorEvent::OpenFailed { shutdown } => EventView::OpenFailed { shutdown: *shutdown },
            ActorEvent::Bytes { data, shutdown } => EventView::Bytes {
                data: data@,
                shutdown: *shutdown,
            },
            ActorEvent::ReadFailed { shutdown } => EventView::ReadFailed { shutdown: *shutdown },
            ActorEvent::Shutdown => EventView::Shutdown,
            ActorEvent::Delivered => EventView::Delivered,
            ActorEvent::ReceiverGone => EventView::ReceiverGone,
        }
    }
}

/// The mathematical content of an [`ActorAction`], but for the length of a delay.
#[verifier::ext_equal]
pub enum ActionView {
    Open,
    Read,
    Deliver(FrameView),
    Wait { close: bool },
    Stop(BusStats),
}

impl View for ActorAction {
    type V = ActionView;

    open spec fn view(&self) -> ActionView {
        match self {
            ActorAction::Open => ActionView::Open,
            ActorAction::Read => ActionView::Read,
            ActorAction::Deliver(f) => ActionView::Deliver(f@),
            ActorAction::Wait { delay, close } => ActionView::Wait { close: *close },
            ActorAction::Stop(s) => ActionView::Stop(*s),
        }
    }
}

/// The mathematical content of a [`BusActor`].
#[verifier::ext_equal]
pub struct ActorView {
    pub config: BusActorConfig,
    pub phase: Phase,
    pub stats: BusStats,
    /// There is a connection.
    pub connected: bool,
    /// Bytes that the framer keeps.
    pub buffered: Seq<u8>,
    /// Frames with a bad checksum.
    pub failures: u64,
    pub backoff: BackoffView,
    /// Frames to hand on.
    pub queue: Seq<FrameView>,
}

impl ActorView {
    /// The events that the actor waits for.
    pub open spec fn expects(self, e: EventView) -> bool {
        match e {
            EventView::Ready { .. } => self.phase == Phase::Idle,
            EventView::Opened => self.phase == Phase::Opening,
            EventView::OpenFailed { .. } => self.phase == Phase::Opening,
            EventView::Bytes { .. } => self.phase == Phase::Reading,
            EventView::ReadFailed { .. } => self.phase == Phase::Reading,
            EventView::Shutdown => self.phase == Phase::Reading,
            EventView::Delivered => self.phase == Phase::Delivering,
            EventView::ReceiverGone => self.phase == Phase::Delivering,
        }
    }

    /// The counts have room for what an event may add to them.
    pub open spec fn has_room(self, e: EventView) -> bool {
        match e {
            EventView::Opened => self.stats.connects < u64::MAX,
            EventView::OpenFailed { .. } => self.stats.reconnects < u64::MAX,
            EventView::ReadFailed { .. } => self.stats.reconnects < u64::MAX,
            EventView::Bytes { data, .. } => if data.len() > 0 {
                self.stats.frames < u64::MAX && self.stats.bytes_read + data.len() <= u64::MAX
            } else {
                self.stats.reconnects < u64::MAX
            },
            EventView::Delivered => self.stats.frames < u64::MAX,
            _ => true,
        }
    }

    /// The actor is done.
    pub open spec fn stopped(self) -> (ActorView, ActionView) {
        let stats = BusStats { checksum_failures: self.failures, ..self.stats };
        (
            ActorView {
                phase: Phase::Stopped,
                connected: false,
                queue: Seq::empty(),
                stats,
                ..self
            },
            ActionView::Stop(stats),
        )
    }

    /// The actor has reconnected as often as it may.
    pub open spec fn at_limit(self) -> bool {
        self.config.max_reconnects matches Some(max) && self.stats.reconnects >= max
    }

    /// The actor tries again, unless it may not, or was told to stop.
    pub open spec fn retried(self, shutdown: bool) -> (ActorView, ActionView) {
        if self.at_limit() {
            ActorView {
                stats: BusStats { stopped_on_max_reconnects: true, ..self.stats },
                ..self
            }.stopped()
        } else {
            let counted = ActorView {
                stats: BusStats {
                    reconnects: (self.stats.reconnects + 1) as u64,
                    ..self.stats
                },
                ..self
            };
            if shutdown {
                counted.stopped()
            } else {
                (
                    ActorView {
                        phase: Phase::Idle,
                        connected: false,
                        queue: Seq::empty(),
                        backoff: self.backoff.advanced(),
                        ..counted
                    },
                    ActionView::Wait { close: self.connected },
                )
            }
        }
    }

    /// The actor hands on the next frame, or reads on if there is none.
    pub open spec fn handed_on(self) -> (ActorView, ActionView) {
        if self.queue.len() == 0 {
            (ActorView { phase: Phase::Reading, ..self }, ActionView::Read)
        } else {
            (
                ActorView {
                    phase: Phase::Delivering,
                    queue: self.queue.skip(1),
                    stats: BusStats { frames: (self.stats.frames + 1) as u64, ..self.stats },
                    ..self
                },
                ActionView::Deliver(self.queue[0]),
            )
        }
    }

    /// The actor after bytes went through the framer.
    pub open spec fn fed(self, data: Seq<u8>) -> ActorView {
        let drained = framer::drain_of(self.buffered + data);
        ActorView {
            stats: BusStats {
                bytes_read: (self.stats.bytes_read + data.len()) as u64,
                ..self.stats
            },
            buffered: drained.1,
            failures: ((self.failures + framer::bad_count(drained.0))
                % 0x1_0000_0000_0000_0000) as u64,
            queue: drained.0,
            ..self
        }
    }

    /// The actor after an event, and what it does next.
    pub open spec fn stepped(self, e: EventView) -> (ActorView, ActionView) {
        match e {
            EventView::Ready { shutdown } => if shutdown {
                self.stopped()
            } else {
                (ActorView { phase: Phase::Opening, ..self }, ActionView::Open)
            },
            EventView::Opened => (
                ActorView {
                    phase: Phase::Reading,
                    connected: true,
                    stats: BusStats { connects: (self.stats.connects + 1) as u64, ..self.stats },
                    backoff: BackoffView { attempt: 0, ..self.backoff },
                    buffered: Seq::empty(),
                    ..self
                },
                ActionView::Read,
            ),
            EventView::OpenFailed { shutdown } => self.retried(shutdown),
            EventView::Bytes { data, shutdown } => if data.len() > 0 {
                self.fed(data).handed_on()
            } else if self.config.reconnect_on_eof {
                self.retried(shutdown)
            } else {
                self.stopped()
            },
            EventView::ReadFailed { shutdown } => self.retried(shutdown),
            EventView::Shutdown => self.stopped(),
            EventView::Delivered => self.handed_on(),
            EventView::ReceiverGone => self.stopped(),
        }
    }

    /// An actor before its start.
    pub open spec fn fresh(config: BusActorConfig) -> ActorView {
        ActorView {
            config,
            phase: Phase::Idle,
            stats: no_stats(),
            connected: false,
            buffered: Seq::empty(),
            failures: 0,
            backoff: BackoffView {
                config: config.backoff,
                attempt: 0,
                deterministic: config.deterministic_backoff,
            },
            queue: Seq::empty(),
        }
    }
}

/// The owner of the bus.
#[derive(Debug)]
pub struct BusActor {
    config: BusActorConfig,
    phase: Phase,
    stats: BusStats,
    connected: bool,
    framer: Framer,
    backoff: Backoff,
    /// Frames to hand on, the next one last.
    queue: Vec<Frame>,
}

impl View for BusActor {
    type V = ActorView;

    closed spec fn view(&self) -> ActorView {
        ActorView {
            config: self.config,
            phase: self.phase,
            stats: self.stats,
            connected: self.connected,
            buffered: self.framer.buffered(),
            failures: self.framer.failures(),
            backoff: self.backoff@,
            queue: framer::frames_view(self.queue@).reverse(),
        }
    }
}

/// A list from its last item to its first.
fn reversed(frames: Vec<Frame>) -> (r: Vec<Frame>)
    ensures
        framer::frames_view(r@) == framer::frames_view(frames@).reverse(),
{
    let ghost all = framer::frames_view(frames@);
    let mut rest = frames;
    let mut out: Vec<Frame> = Vec::new();
    while rest.len() > 0
        invariant
            rest@.len() + out@.len() == all.len(),
            framer::frames_view(rest@) =~= all.take(rest@.len() as int),
            framer::frames_view(out@) =~= all.skip(rest@.len() as int).reverse(),
        decreases rest.len(),
    {
        let ghost n = rest@.len() as int;
        let ghost before = framer::frames_view(out@);
        assert(framer::frames_view(rest@)[n - 1] == all[n - 1]);
        match rest.pop() {
            Some(f) => {
                assert(f@ == all[n - 1]);
                out.push(f);
                assert(framer::frames_view(out@) =~= before.push(all[n - 1]));
                assert(all.skip(n - 1).reverse() =~= all.skip(n).reverse().push(all[n - 1]));
            },
            None => {},
        }
    }
    assert(all.skip(0) =~= all);
    out
}

impl BusActor {
    /// An actor before its start.
    pub fn new(config: BusActorConfig) -> (r: Self)
        ensures
            r@ == ActorView::fresh(config),
    {
        let r = BusActor {
            config,
            phase: Phase::Idle,
            stats: BusStats::default(),
            connected: false,
            framer: Framer::new(),
            backoff: if config.deterministic_backoff {
                Backoff::deterministic(config.backoff)
            } else {
                Backoff::new(config.backoff)
            },
            queue: Vec::new(),
        };
        assert(r@.queue =~= Seq::<FrameView>::empty());
        r
    }

    /// Counts to look at while the actor runs.
    pub fn counters(&self) -> (r: BusCounters)
        ensures
            r == (BusCounters {
                connects: self@.stats.connects,
                reconnects: self@.stats.reconnects,
                frames: self@.stats.frames,
                bytes_read: self@.stats.bytes_read,
                connected: self@.connected,
            }),
    {
        BusCounters {
            connects: self.stats.connects,
            reconnects: self.stats.reconnects,
            frames: self.stats.frames,
            bytes_read: self.stats.bytes_read,
            connected: self.connected,
        }
    }

    /// Size of the buffer to read into: at least one byte.
    pub fn read_size(&self) -> (r: usize)
        ensures
            r == if self@.config.read_buf_size < 1 {
                1
            } else {
                self@.config.read_buf_size
            },
    {
        if self.config.read_buf_size < 1 {
            1
        } else {
            self.config.read_buf_size
        }
    }

    /// Takes in what happened and tells what to do next. The first event is
    /// [`ActorEvent::Ready`].
    pub fn run(&mut self, event: ActorEvent) -> (r: ActorAction)
        requires
            old(self)@.expects(event@),
            old(self)@.has_room(event@),
        ensures
            (final(self)@, r@) == old(self)@.stepped(event@),
            r matches ActorAction::Wait { delay, .. } ==> old(self)@.backoff.allows(delay),
    {
        match event {
            ActorEvent::Ready { shutdown } => {
                if shutdown {
                    self.stop()
                } else {
                    self.phase = Phase::Opening;
                    ActorAction::Open
                }
            },
            ActorEvent::Opened => {
                self.stats.connects = self.stats.connects + 1;
                self.connected = true;
                self.backoff.reset();
                self.framer.reset();
                self.phase = Phase::Reading;
                ActorAction::Read
            },
            ActorEvent::OpenFailed { shutdown } => self.retry(shutdown),
            ActorEvent::Bytes { data, shutdown } => self.read_session(data, shutdown),
            ActorEvent::ReadFailed { shutdown } => self.retry(shutdown),
            ActorEvent::Shutdown => self.stop(),
            ActorEvent::Delivered => self.hand_on(),
            ActorEvent::ReceiverGone => self.stop(),
        }
    }

    /// What bytes from the connection lead to.
    fn read_session(&mut self, data: Vec<u8>, shutdown: bool) -> (r: ActorAction)
        requires
            old(self)@.has_room(EventView::Bytes { data: data@, shutdown }),
        ensures
            (final(self)@, r@) == old(self)@.stepped(EventView::Bytes { data: data@, shutdown }),
            r matches ActorAction::Wait { delay, .. } ==> old(self)@.backoff.allows(delay),
    {
        if data.len() == 0 {
            if self.config.reconnect_on_eof {
                return self.retry(shutdown);
            }
            return self.stop();
        }
        let ghost start = self@;
        self.stats.bytes_read = self.stats.bytes_read + data.len() as u64;
        let frames = self.framer.feed(data.as_slice());
        let ghost found = framer::frames_view(frames@);
        self.queue = reversed(frames);
        assert(self@.queue =~= found);
        assert(self@ == start.fed(data@));
        self.hand_on()
    }

    /// Hands on the next frame, or reads on.
    fn hand_on(&mut self) -> (r: ActorAction)
        requires
            old(self)@.stats.frames < u64::MAX,
        ensures
            (final(self)@, r@) == old(self)@.handed_on(),
            !(r is Wait),
    {
        let ghost before = self@.queue;
        match self.queue.pop() {
            Some(frame) => {
                self.stats.frames = self.stats.frames + 1;
                self.phase = Phase::Delivering;
                assert(before[0] == frame@);
                assert(self@.queue =~= before.skip(1));
                ActorAction::Deliver(frame)
            },
            None => {
                self.phase = Phase::Reading;
                ActorAction::Read
            },
        }
    }

    /// Tells whether the actor has reconnected as often as it may.
    fn hit_max_reconnects(&self) -> (r: bool)
        ensures
            r == self@.at_limit(),
    {
        match self.config.max_reconnects {
            Some(max) => self.stats.reconnects >= max,
            None => false,
        }
    }

    /// Tries again, unless the actor may not, or was told to stop.
    fn retry(&mut self, shutdown: bool) -> (r: ActorAction)
        requires
            old(self)@.stats.reconnects < u64::MAX,
        ensures
            (final(self)@, r@) == old(self)@.retried(shutdown),
            r matches ActorAction::Wait { delay, .. } ==> old(self)@.backoff.allows(delay),
    {
        if self.hit_max_reconnects() {
            self.stats.stopped_on_max_reconnects = true;
            return self.stop();
        }
        self.stats.reconnects = self.stats.reconnects + 1;
        if shutdown {
            return self.stop();
        }
        let close = self.connected;
        let delay = self.backoff.next_delay();
        self.connected = false;
        self.queue = Vec::new();
        self.phase = Phase::Idle;
        assert(self@.queue =~= Seq::<FrameView>::empty());
        ActorAction::Wait { delay, close }
    }

    /// The actor is done.
    fn stop(&mut self) -> (r: ActorAction)
        ensures
            (final(self)@, r@) == old(self)@.stopped(),
            !(r is Wait),
    {
        self.connected = false;
        self.queue = Vec::new();
        self.phase = Phase::Stopped;
        self.stats.checksum_failures = self.framer.checksum_failures();
        assert(self@.queue =~= Seq::<FrameView>::empty());
        ActorAction::Stop(self.stats)
    }
}

// ---------------------------------------------------------------------------
// Laws
// ---------------------------------------------------------------------------

impl ActorView {
    /// What holds of the actor at all times. There is a connection just while it
    /// reads and hands on frames; every connection but the first follows a
    /// reconnect; and the limit on reconnects is kept.
    pub open spec fn wf(self) -> bool {
        &&& self.connected <==> (self.phase == Phase::Reading || self.phase == Phase::Delivering)
        &&& self.stats.connects <= self.stats.reconnects + 1
        &&& (self.phase == Phase::Idle || self.phase == Phase::Opening) ==> self.stats.connects
            <= self.stats.reconnects
        &&& self.config.max_reconnects matches Some(max) ==> self.stats.reconnects <= max
        &&& self.stats.stopped_on_max_reconnects ==> self.phase == Phase::Stopped
            && self.config.max_reconnects == Some(self.stats.reconnects)
        &&& self.phase != Phase::Delivering ==> self.queue.len() == 0
        &&& self.backoff.config == self.config.backoff
    }
}

/// A new actor is in order, and stays so whatever happens.
pub proof fn law_actor_stays_in_order(config: BusActorConfig, v: ActorView, e: EventView)
    requires
        v.wf(),
        v.expects(e),
        v.has_room(e),
    ensures
        ActorView::fresh(config).wf(),
        v.stepped(e).0.wf(),
        v.stepped(e).0.config == v.config,
{
}

/// The connection is not given up for a frame: while bytes come in and frames are
/// taken, the actor only reads and hands on.
pub proof fn law_connection_outlives_frames(v: ActorView, e: EventView)
    requires
        v.wf(),
        v.expects(e),
        v.has_room(e),
        e == EventView::Delivered || (e matches EventView::Bytes { data, .. } && data.len() > 0),
    ensures
        v.stepped(e).0.connected,
        v.stepped(e).0.stats.connects == v.stats.connects,
        v.stepped(e).0.stats.reconnects == v.stats.reconnects,
        v.stepped(e).1 is Read || v.stepped(e).1 is Deliver,
{
}

/// A connection is only made when there is none, and a frame is only read or
/// handed on when there is one.
pub proof fn law_actions_fit_the_connection(v: ActorView, e: EventView)
    requires
        v.wf(),
        v.expects(e),
        v.has_room(e),
    ensures
        v.stepped(e).1 is Open ==> !v.connected && !v.stepped(e).0.connected,
        v.stepped(e).1 is Read ==> v.stepped(e).0.connected,
        v.stepped(e).1 is Deliver ==> v.connected && v.stepped(e).0.connected,
        v.stepped(e).1 is Stop ==> !v.stepped(e).0.connected && v.stepped(e).0.phase
            == Phase::Stopped,
        v.stepped(e).1 matches ActionView::Wait { close } ==> close == v.connected
            && !v.stepped(e).0.connected,
{
}

/// Told to stop, the actor stops: at its start, after a delay, while it reads, and
/// after a connection failed, ended or could not be made.
pub proof fn law_shutdown_stops(v: ActorView)
    ensures
        v.stepped(EventView::Ready { shutdown: true }).1 is Stop,
        v.stepped(EventView::OpenFailed { shutdown: true }).1 is Stop,
        v.stepped(EventView::ReadFailed { shutdown: true }).1 is Stop,
        v.stepped(EventView::Bytes { data: Seq::empty(), shutdown: true }).1 is Stop,
        v.stepped(EventView::Shutdown).1 is Stop,
        v.stepped(EventView::ReceiverGone).1 is Stop,
{
}

/// A connection that was made starts the delays over, and the framer without old
/// bytes.
pub proof fn law_connecting_starts_over(v: ActorView)
    ensures
        v.stepped(EventView::Opened).0.backoff.attempt == 0,
        v.stepped(EventView::Opened).0.buffered == Seq::<u8>::empty(),
        v.stepped(EventView::Opened).0.failures == v.failures,
{
}

/// The frames that are handed on, each taken, from a step on, until the actor reads
/// again; and the actor then.
pub open spec fn deliveries(step: (ActorView, ActionView)) -> (Seq<FrameView>, ActorView)
    decreases step.0.queue.len() + if step.1 is Deliver {
        1nat
    } else {
        0nat
    },
{
    match step.1 {
        ActionView::Deliver(f) => {
            let later = deliveries(step.0.stepped(EventView::Delivered));
            (seq![f] + later.0, later.1)
        },
        _ => (Seq::empty(), step.0),
    }
}

/// All frames in the queue are handed on, in order, and counted.
proof fn lemma_deliveries(v: ActorView)
    requires
        v.stats.frames + v.queue.len() <= u64::MAX,
    ensures
        deliveries(v.handed_on()).0 == v.queue,
        deliveries(v.handed_on()).1 == (ActorView {
            phase: Phase::Reading,
            queue: Seq::empty(),
            stats: BusStats { frames: (v.stats.frames + v.queue.len()) as u64, ..v.stats },
            ..v
        }),
    decreases v.queue.len(),
{
    if v.queue.len() == 0 {
        assert(v.queue =~= Seq::<FrameView>::empty());
    } else {
        let v1 = v.handed_on().0;
        lemma_deliveries(v1);
        assert(seq![v.queue[0]] + v.queue.skip(1) =~= v.queue);
    }
}

/// The actor after chunks of bytes came in on one connection, all frames taken.
pub open spec fn after_chunks(v: ActorView, chunks: Seq<Seq<u8>>) -> ActorView
    decreases chunks.len(),
{
    if chunks.len() == 0 {
        v
    } else {
        let before = after_chunks(v, chunks.drop_last());
        deliveries(
            before.stepped(EventView::Bytes { data: chunks.last(), shutdown: false }),
        ).1
    }
}

/// The frames that were handed on meanwhile.
pub open spec fn session_frames(v: ActorView, chunks: Seq<Seq<u8>>) -> Seq<FrameView>
    decreases chunks.len(),
{
    if chunks.len() == 0 {
        Seq::empty()
    } else {
        let before = after_chunks(v, chunks.drop_last());
        session_frames(v, chunks.drop_last()) + deliveries(
            before.stepped(EventView::Bytes { data: chunks.last(), shutdown: false }),
        ).0
    }
}

/// On one connection the actor hands on the frames in the bytes that came in, in
/// order, each once, however the bytes were cut into reads; and counts the frames
/// and the bytes.
pub proof fn law_session_hands_on_all_frames(v: ActorView, chunks: Seq<Seq<u8>>)
    requires
        v.phase == Phase::Opening,
        v.queue.len() == 0,
        forall|i: int| 0 <= i < chunks.len() ==> (#[trigger] chunks[i]).len() > 0,
        v.stats.frames + framer::drain_of(framer::chunks_joined(chunks)).0.len() <= u64::MAX,
        v.stats.bytes_read + framer::chunks_joined(chunks).len() <= u64::MAX,
        v.stats.connects < u64::MAX,
    ensures
        ({
            let open = v.stepped(EventView::Opened).0;
            let end = after_chunks(open, chunks);
            let all = framer::drain_of(framer::chunks_joined(chunks));
            &&& session_frames(open, chunks) == all.0
            &&& end.buffered == all.1
            &&& end.phase == Phase::Reading && end.connected && end.queue.len() == 0
            &&& end.stats.frames == v.stats.frames + all.0.len()
            &&& end.stats.bytes_read == v.stats.bytes_read + framer::chunks_joined(chunks).len()
            &&& end.stats.connects == v.stats.connects + 1
            &&& end.stats.reconnects == v.stats.reconnects
            &&& end.config == open.config
        }),
    decreases chunks.len(),
{
    let open = v.stepped(EventView::Opened).0;
    framer::law_any_chunks(chunks);
    if chunks.len() > 0 {
        let fewer = chunks.drop_last();
        let last = chunks.last();
        assert forall|i: int| 0 <= i < fewer.len() implies (#[trigger] fewer[i]).len() > 0 by {
            assert(fewer[i] == chunks[i]);
        }
        framer::law_any_chunks(fewer);
        framer::law_chunking(framer::chunks_joined(fewer), last);
        law_session_hands_on_all_frames(v, fewer);
        let before = after_chunks(open, fewer);
        assert(chunks[chunks.len() - 1].len() > 0);
        lemma_deliveries(before.fed(last));
    }
}

/// A connection that ends, fails or cannot be made is made again: unless the actor
/// was told to stop, may not reconnect any more, or is to stop at the end of the
/// stream, it counts one more reconnect, gives up what connection there is, and waits
/// for its turn to connect.
pub proof fn law_lost_connection_is_made_again(v: ActorView, e: EventView)
    requires
        v.stats.reconnects < u64::MAX,
        v.config.max_reconnects is None || v.stats.reconnects < v.config.max_reconnects->0,
        ({
            ||| e == (EventView::OpenFailed { shutdown: false })
            ||| e == (EventView::ReadFailed { shutdown: false })
            ||| e == (EventView::Bytes { data: Seq::empty(), shutdown: false })
                && v.config.reconnect_on_eof
        }),
    ensures
        ({
            let next = v.stepped(e).0;
            &&& v.stepped(e).1 == (ActionView::Wait { close: v.connected })
            &&& next.phase == Phase::Idle && !next.connected && next.queue.len() == 0
            &&& next.stats.reconnects == v.stats.reconnects + 1
            &&& next.stats.connects == v.stats.connects && next.stats.frames == v.stats.frames
                && next.stats.bytes_read == v.stats.bytes_read
            &&& !v.stats.stopped_on_max_reconnects ==> !next.stats.stopped_on_max_reconnects
            &&& next.config == v.config
            &&& next.backoff.config == v.backoff.config && next.backoff.deterministic
                == v.backoff.deterministic
            &&& v.backoff.attempt < u32::MAX ==> next.backoff.attempt == v.backoff.attempt + 1
            &&& next.stepped(EventView::Ready { shutdown: false }).1 is Open
            &&& next.stepped(EventView::Ready { shutdown: false }).0.phase == Phase::Opening
        }),
{
}

/// The actor stops only when it was told to, when nobody takes its frames, at the
/// limit of its reconnects, or at the end of a stream that is not to be opened again.
pub proof fn law_actor_stops_only_for_a_reason(v: ActorView, e: EventView)
    requires
        v.stepped(e).1 is Stop,
    ensures
        ({
            ||| e == EventView::Shutdown
            ||| e == EventView::ReceiverGone
            ||| e matches EventView::Ready { shutdown } && shutdown
            ||| e matches EventView::OpenFailed { shutdown } && shutdown
            ||| e matches EventView::ReadFailed { shutdown } && shutdown
            ||| e matches EventView::Bytes { data, shutdown } && data.len() == 0 && (shutdown
                || !v.config.reconnect_on_eof)
            ||| v.config.max_reconnects matches Some(max) && v.stats.reconnects >= max && (
            e is OpenFailed || e is ReadFailed || (e matches EventView::Bytes { data, .. }
                && data.len() == 0))
        }),
{
}

/// How an actor that stops accounts for itself: it tells the counts it had, one more
/// reconnect if it lost a connection and was told to stop before it could make
/// another, the frames with a bad checksum, and whether it stopped at the limit of its
/// reconnects.
pub proof fn law_stopped_actor_tells_its_counts(v: ActorView, e: EventView)
    requires
        v.wf(),
        v.expects(e),
        v.has_room(e),
        v.stepped(e).1 is Stop,
    ensures
        ({
            let s = v.stepped(e).1->Stop_0;
            let lost = e is OpenFailed || e is ReadFailed || (e is Bytes
                && v.config.reconnect_on_eof);
            let at_limit = v.config.max_reconnects is Some && v.stats.reconnects
                >= v.config.max_reconnects->0;
            &&& v.stepped(e).0.stats == s && v.stepped(e).0.phase == Phase::Stopped
                && !v.stepped(e).0.connected
            &&& s.connects == v.stats.connects && s.frames == v.stats.frames && s.bytes_read
                == v.stats.bytes_read
            &&& s.checksum_failures == v.failures
            &&& s.stopped_on_max_reconnects == (lost && at_limit)
            &&& s.reconnects == v.stats.reconnects + if lost && !at_limit {
                1int
            } else {
                0int
            }
        }),
{
}

/// Ready, and not told to stop, the actor connects; connected, it counts the
/// connection and reads.
pub proof fn law_actor_connects_and_reads(v: ActorView)
    requires
        v.stats.connects < u64::MAX,
    ensures
        v.stepped(EventView::Ready { shutdown: false }).1 is Open,
        v.stepped(EventView::Ready { shutdown: false }).0 == (ActorView {
            phase: Phase::Opening,
            ..v
        }),
        ({
            let open = v.stepped(EventView::Opened).0;
            &&& v.stepped(EventView::Opened).1 is Read
            &&& open.phase == Phase::Reading && open.connected
            &&& open.stats == (BusStats { connects: (v.stats.connects + 1) as u64, ..v.stats })
            &&& open.config == v.config && open.backoff.config == v.backoff.config
        }),
{
}

/// Bytes that complete no frame are counted and kept, and the actor reads on; a frame
/// that is handed on is the first that waits, and is counted.
pub proof fn law_bytes_are_read_and_frames_handed_on(v: ActorView, data: Seq<u8>, shutdown: bool)
    requires
        data.len() > 0,
        v.stats.bytes_read + data.len() <= u64::MAX,
        v.stats.frames < u64::MAX,
    ensures
        ({
            let e = EventView::Bytes { data, shutdown };
            let next = v.stepped(e).0;
            let found = framer::drain_of(v.buffered + data);
            &&& next.stats.bytes_read == v.stats.bytes_read + data.len()
            &&& next.buffered == found.1
            &&& v.failures + framer::bad_count(found.0) <= u64::MAX ==> next.failures == v.failures
                + framer::bad_count(found.0)
            &&& next.backoff == v.backoff && next.config == v.config
            &&& found.0.len() == 0 ==> v.stepped(e).1 is Read && next.phase == Phase::Reading
                && next.stats.frames == v.stats.frames
            &&& found.0.len() > 0 ==> v.stepped(e).1 == ActionView::Deliver(found.0[0])
                && next.queue == found.0.skip(1) && next.phase == Phase::Delivering
                && next.stats.frames == v.stats.frames + 1
        }),
        ({
            let next = v.stepped(EventView::Delivered).0;
            &&& v.queue.len() == 0 ==> v.stepped(EventView::Delivered).1 is Read && next.phase
                == Phase::Reading && next.stats.frames == v.stats.frames
            &&& v.queue.len() > 0 ==> v.stepped(EventView::Delivered).1 == ActionView::Deliver(
                v.queue[0],
            ) && next.queue == v.queue.skip(1) && next.stats.frames == v.stats.frames + 1
        }),
{
}

/// A new actor has done nothing, keeps its settings, and waits to start.
pub proof fn law_new_actor_has_done_nothing(config: BusActorConfig)
    ensures
        ({
            let v = ActorView::fresh(config);
            &&& v.config == config && v.backoff.config == config.backoff && v.backoff.deterministic
                == config.deterministic_backoff && v.backoff.attempt == 0
            &&& v.stats.connects == 0 && v.stats.reconnects == 0 && v.stats.frames == 0
                && v.stats.bytes_read == 0 && v.stats.checksum_failures == 0
                && !v.stats.stopped_on_max_reconnects
            &&& v.phase == Phase::Idle && !v.connected && v.failures == 0
            &&& v.buffered.len() == 0 && v.queue.len() == 0
        }),
{
}

/// By default the actor reconnects for ever, at the end of a stream too, and waits
/// between half a second and half a minute, doubling each time.
pub proof fn law_default_actor_reconnects(c: BusActorConfig)
    requires
        call_ensures(BusActorConfig::default, (), c),
    ensures
        c.reconnect_on_eof && c.max_reconnects is None && !c.deterministic_backoff,
        c.read_buf_size == 512,
        c.backoff.initial.millis() == 500 && c.backoff.max.millis() == 30_000,
        c.backoff.multiplier == 2 && c.backoff.jitter_pct == 25,
{
}

/// Running the actor loses no connection for good: whatever the event that ends a
/// connection, it waits and opens again, unless there is a reason to stop.
pub proof fn law_run_reconnects(event: ActorEvent, r: ActorAction)
    requires
        event@ == (EventView::OpenFailed { shutdown: false }) || event@ == (EventView::ReadFailed {
            shutdown: false,
        }) || event@ == (EventView::Bytes { data: Seq::empty(), shutdown: false }),
    ensures
        forall|actor: &mut BusActor| #[trigger]
            call_ensures(BusActor::run, (actor, event), r) && (*actor)@.stats.reconnects < u64::MAX
                && (*actor)@.config.max_reconnects is None && (*actor)@.config.reconnect_on_eof ==> {
                &&& r matches ActorAction::Wait { delay, close } && close == (*actor)@.connected
                    && (*actor)@.backoff.allows(delay)
                &&& final(actor)@.phase == Phase::Idle && !final(actor)@.connected
                &&& final(actor)@.stats.reconnects == (*actor)@.stats.reconnects + 1
            },
{
}

/// The counters are those of the actor, each under its own name, and so is what is
/// told of them.
pub proof fn law_counters_are_the_counts(actor: BusActor, c: BusCounters, s: BusStats, n: usize)
    requires
        call_ensures(BusActor::counters, (&actor,), c),
        call_ensures(BusCounters::snapshot, (&c,), s),
        call_ensures(BusActor::read_size, (&actor,), n),
    ensures
        c.connects == actor@.stats.connects && c.reconnects == actor@.stats.reconnects,
        c.frames == actor@.stats.frames && c.bytes_read == actor@.stats.bytes_read,
        c.connected == actor@.connected,
        s.connects == c.connects && s.reconnects == c.reconnects && s.frames == c.frames
            && s.bytes_read == c.bytes_read && s.checksum_failures == 0,
        n >= 1 && (actor@.config.read_buf_size >= 1 ==> n == actor@.config.read_buf_size),
{
}

/// The actor does stop at the limit of its reconnects, and at the end of a stream that
/// is not to be opened again.
pub proof fn law_actor_stops_at_its_limit(v: ActorView, e: EventView, shutdown: bool)
    requires
        e is OpenFailed || e is ReadFailed || e == (EventView::Bytes {
            data: Seq::empty(),
            shutdown,
        }),
    ensures
        v.config.max_reconnects is Some && v.stats.reconnects >= v.config.max_reconnects->0
            ==> v.stepped(e).1 is Stop,
        e is Bytes && !v.config.reconnect_on_eof ==> v.stepped(e).1 is Stop
            && v.stepped(e).0.stats.reconnects == v.stats.reconnects,
{
}

} // verus!
