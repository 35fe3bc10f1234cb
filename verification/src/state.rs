//! Latest status and a ring of recent frames.

use std::collections::VecDeque;

use vstd::prelude::*;

use crate::framer;
use crate::framer::{copy_bytes, kind_name, Frame, FrameKind};
use crate::messages::{
    hex_encode, DecodedMessage, MessageView, SystemStatus, SystemStatusView, TempStatus,
    TempStatusView,
};
use crate::registry::{DecodeOutcome, MessageParser, MessageRegistry, OutcomeView};
use crate::text;
use crate::text::{clone_opt_text, owned};

verus! {

/// Default capacity of the ring of recent frames.
pub const DEFAULT_FRAME_RING: usize = 128;

/// Latest decoded status plus a ring of recent frames.
#[derive(Debug)]
pub struct BusState {
    /// Most recent system status, if any.
    pub system_status: Option<SystemStatus>,
    /// Most recent temperatures and setpoints, if any.
    pub temp_status: Option<TempStatus>,
    /// Recent frames.
    pub ring: FrameRing,
    /// Frames applied, those in quarantine too.
    pub frames_seen: u64,
    /// Frames held aside for their checksum.
    pub quarantined: u64,
}

/// Recent frames, as many as there is room for.
#[derive(Debug)]
pub struct FrameRing {
    frames: VecDeque<FrameEntry>,
    cap: usize,
}

/// The mathematical content of a [`BusState`].
#[verifier::ext_equal]
pub struct StateView {
    pub system_status: Option<SystemStatusView>,
    pub temp_status: Option<TempStatusView>,
    /// Newest last.
    pub ring: Seq<EntryView>,
    pub ring_cap: int,
    pub frames_seen: int,
    pub quarantined: int,
}

/// One record of the ring: a decoded message, or a frame in quarantine.
#[derive(Debug)]
pub struct FrameEntry {
    /// `"A5"` or `"IntelliChlor"`.
    pub kind: String,
    /// Outcome of the checksum test.
    pub checksum_ok: bool,
    /// True when the frame was not applied to the status.
    pub quarantined: bool,
    /// Why the frame is in quarantine.
    pub reason: Option<String>,
    /// The decoded message.
    pub message: Option<DecodedMessage>,
    /// Raw bytes as hexadecimal text.
    pub raw: String,
}

/// The mathematical content of a [`FrameEntry`].
#[verifier::ext_equal]
pub struct EntryView {
    pub kind: Seq<char>,
    pub checksum_ok: bool,
    pub quarantined: bool,
    pub reason: Option<Seq<char>>,
    pub message: Option<MessageView>,
    pub raw: Seq<char>,
}

impl View for FrameEntry {
    type V = EntryView;

    open spec fn view(&self) -> EntryView {
        EntryView {
            kind: self.kind@,
            checksum_ok: self.checksum_ok,
            quarantined: self.quarantined,
            reason: text::opt_text(self.reason),
            message: match self.message {
                Some(m) => Some(m@),
                None => None,
            },
            raw: self.raw@,
        }
    }
}

impl Clone for FrameEntry {
    fn clone(&self) -> (r: Self)
        ensures
            r@ == self@,
    {
        FrameEntry {
            kind: self.kind.clone(),
            checksum_ok: self.checksum_ok,
            quarantined: self.quarantined,
            reason: clone_opt_text(&self.reason),
            message: match &self.message {
                Some(m) => Some(m.clone()),
                None => None,
            },
            raw: self.raw.clone(),
        }
    }
}

/// The record of one outcome.
pub open spec fn entry_of(outcome: OutcomeView, kind: FrameKind, checksum_ok: bool) -> EntryView {
    match outcome {
        OutcomeView::Decoded(m) => EntryView {
            kind: framer::kind_text(kind),
            checksum_ok,
            quarantined: false,
            reason: None,
            message: Some(m),
            raw: m.header().raw,
        },
        OutcomeView::Quarantined { reason, kind: held, raw_hex } => EntryView {
            kind: framer::kind_text(held),
            checksum_ok: false,
            quarantined: true,
            reason: Some(reason),
            message: None,
            raw: raw_hex,
        },
    }
}

/// A ring after one more record: a full ring loses its oldest.
pub open spec fn ring_push(ring: Seq<EntryView>, cap: int, entry: EntryView) -> Seq<EntryView> {
    if ring.len() >= cap {
        ring.skip(1).push(entry)
    } else {
        ring.push(entry)
    }
}

/// The last records of a ring, newest first, at most `limit` of them.
pub open spec fn newest_of(ring: Seq<EntryView>, limit: int) -> Seq<EntryView> {
    let n = if limit < ring.len() {
        limit
    } else {
        ring.len() as int
    };
    Seq::new(n as nat, |i: int| ring[ring.len() - 1 - i])
}

impl StateView {
    /// The state after one more outcome.
    pub open spec fn applied(
        self,
        outcome: OutcomeView,
        kind: FrameKind,
        checksum_ok: bool,
    ) -> StateView {
        StateView {
            system_status: match outcome {
                OutcomeView::Decoded(MessageView::SystemStatus(s)) => Some(s),
                _ => self.system_status,
            },
            temp_status: match outcome {
                OutcomeView::Decoded(MessageView::TempStatus(t)) => Some(t),
                _ => self.temp_status,
            },
            ring: ring_push(self.ring, self.ring_cap, entry_of(outcome, kind, checksum_ok)),
            ring_cap: self.ring_cap,
            frames_seen: self.frames_seen + 1,
            quarantined: self.quarantined + if outcome is Quarantined {
                1int
            } else {
                0int
            },
        }
    }

    /// The records newest first, at most `limit` of them.
    pub open spec fn newest(self, limit: int) -> Seq<EntryView> {
        newest_of(self.ring, limit)
    }

    /// The ring has room for one record, and holds no more than it has room for.
    pub open spec fn wf(self) -> bool {
        1 <= self.ring_cap && self.ring.len() <= self.ring_cap
    }

    /// A state that has seen nothing.
    pub open spec fn fresh(cap: int) -> StateView {
        StateView {
            system_status: None,
            temp_status: None,
            ring: Seq::empty(),
            ring_cap: if cap < 1 {
                1
            } else {
                cap
            },
            frames_seen: 0,
            quarantined: 0,
        }
    }
}

/// The body of the status request.
#[derive(Debug)]
pub struct StatusResponse {
    /// Latest system status.
    pub system_status: Option<SystemStatus>,
    /// Latest temperatures and setpoints.
    pub temp_status: Option<TempStatus>,
    /// Frames processed since start.
    pub frames_seen: u64,
    /// Frames held aside.
    pub quarantined: u64,
}

/// The body of the frames request.
#[derive(Debug)]
pub struct FramesResponse {
    /// Number of records.
    pub count: usize,
    /// Records, newest first.
    pub frames: Vec<FrameEntry>,
}

/// The view of an optional status.
pub open spec fn opt_status(s: Option<SystemStatus>) -> Option<SystemStatusView> {
    match s {
        Some(m) => Some(m@),
        None => None,
    }
}

/// The view of optional temperatures.
pub open spec fn opt_temps(s: Option<TempStatus>) -> Option<TempStatusView> {
    match s {
        Some(m) => Some(m@),
        None => None,
    }
}

/// Views of a list of records.
pub open spec fn entries_view(v: Seq<FrameEntry>) -> Seq<EntryView> {
    Seq::new(v.len(), |i: int| v[i]@)
}

impl View for BusState {
    type V = StateView;

    open spec fn view(&self) -> StateView {
        StateView {
            system_status: opt_status(self.system_status),
            temp_status: opt_temps(self.temp_status),
            ring: self.ring.entries(),
            ring_cap: self.ring.cap(),
            frames_seen: self.frames_seen as int,
            quarantined: self.quarantined as int,
        }
    }
}

/// A copy of an optional status.
fn clone_status(s: &Option<SystemStatus>) -> (r: Option<SystemStatus>)
    ensures
        opt_status(r) == opt_status(*s),
{
    match s {
        Some(m) => Some(m.clone()),
        None => None,
    }
}

/// A copy of optional temperatures.
fn clone_temps(s: &Option<TempStatus>) -> (r: Option<TempStatus>)
    ensures
        opt_temps(r) == opt_temps(*s),
{
    match s {
        Some(m) => Some(m.clone()),
        None => None,
    }
}

impl Clone for StatusResponse {
    fn clone(&self) -> (r: Self)
        ensures
            opt_status(r.system_status) == opt_status(self.system_status),
            opt_temps(r.temp_status) == opt_temps(self.temp_status),
            r.frames_seen == self.frames_seen,
            r.quarantined == self.quarantined,
    {
        StatusResponse {
            system_status: clone_status(&self.system_status),
            temp_status: clone_temps(&self.temp_status),
            frames_seen: self.frames_seen,
            quarantined: self.quarantined,
        }
    }
}

impl Clone for FramesResponse {
    fn clone(&self) -> (r: Self)
        ensures
            r.count == self.count,
            entries_view(r.frames@) == entries_view(self.frames@),
    {
        let mut frames: Vec<FrameEntry> = Vec::new();
        let mut i: usize = 0;
        while i < self.frames.len()
            invariant
                i <= self.frames@.len(),
                frames@.len() == i,
                forall|k: int| 0 <= k < i ==> (#[trigger] frames@[k])@ == self.frames@[k]@,
            decreases self.frames.len() - i,
        {
            frames.push(self.frames[i].clone());
            i = i + 1;
        }
        assert(entries_view(frames@) =~= entries_view(self.frames@));
        FramesResponse { count: self.count, frames }
    }
}

impl Clone for FrameRing {
    fn clone(&self) -> (r: Self)
        ensures
            r.entries() == self.entries(),
            r.cap() == self.cap(),
    {
        let mut frames: VecDeque<FrameEntry> = VecDeque::new();
        let mut i: usize = 0;
        while i < self.frames.len()
            invariant
                i <= self.frames@.len(),
                frames@.len() == i,
                forall|k: int| 0 <= k < i ==> (#[trigger] frames@[k])@ == self.frames@[k]@,
            decreases self.frames@.len() - i,
        {
            frames.push_back(self.frames[i].clone());
            i = i + 1;
        }
        assert(entries_view(frames@) =~= entries_view(self.frames@));
        FrameRing { frames, cap: self.cap }
    }
}

impl FrameRing {
    /// The records, newest last.
    pub closed spec fn entries(&self) -> Seq<EntryView> {
        entries_view(self.frames@)
    }

    /// How many records there is room for.
    pub closed spec fn cap(&self) -> int {
        self.cap as int
    }

    /// An empty ring with room for at least one record.
    pub fn with_capacity(cap: usize) -> (r: Self)
        ensures
            r.entries() == Seq::<EntryView>::empty(),
            r.cap() == if cap < 1 {
                1
            } else {
                cap
            },
    {
        let r = FrameRing {
            frames: VecDeque::new(),
            cap: if cap < 1 {
                1
            } else {
                cap
            },
        };
        assert(r.entries() =~= Seq::<EntryView>::empty());
        r
    }

    /// Adds a record; a full ring loses its oldest.
    pub fn push(&mut self, entry: FrameEntry)
        requires
            1 <= old(self).cap(),
        ensures
            final(self).entries() == ring_push(old(self).entries(), old(self).cap(), entry@),
            final(self).cap() == old(self).cap(),
    {
        let ghost start = self.entries();
        let ghost added = entry@;
        if self.frames.len() >= self.cap {
            let _ = self.frames.pop_front();
        }
        self.frames.push_back(entry);
        assert(self.entries() =~= ring_push(start, self.cap(), added));
    }

    /// The most recent records, newest first, at most `limit` of them.
    pub fn newest(&self, limit: usize) -> (r: Vec<FrameEntry>)
        ensures
            entries_view(r@) == newest_of(self.entries(), limit as int),
    {
        let n: usize = if limit < self.frames.len() {
            limit
        } else {
            self.frames.len()
        };
        let mut frames: Vec<FrameEntry> = Vec::new();
        let mut i: usize = 0;
        while i < n
            invariant
                i <= n <= self.frames@.len(),
                frames@.len() == i,
                forall|k: int|
                    0 <= k < i ==> (#[trigger] frames@[k])@ == self.frames@[self.frames@.len() - 1
                        - k]@,
            decreases n - i,
        {
            frames.push(self.frames[self.frames.len() - 1 - i].clone());
            i = i + 1;
        }
        assert(entries_view(frames@) =~= newest_of(self.entries(), limit as int));
        frames
    }
}

impl Clone for BusState {
    fn clone(&self) -> (r: Self)
        ensures
            r@ == self@,
    {
        BusState {
            system_status: clone_status(&self.system_status),
            temp_status: clone_temps(&self.temp_status),
            ring: self.ring.clone(),
            frames_seen: self.frames_seen,
            quarantined: self.quarantined,
        }
    }
}

impl Default for BusState {
    fn default() -> (r: Self)
        ensures
            r@ == StateView::fresh(DEFAULT_FRAME_RING as int),
    {
        BusState::with_capacity(DEFAULT_FRAME_RING)
    }
}

impl BusState {
    /// An empty state with a fixed ring capacity, at least one.
    pub fn with_capacity(ring_cap: usize) -> (r: Self)
        ensures
            r@ == StateView::fresh(ring_cap as int),
            r@.wf(),
    {
        BusState {
            system_status: None,
            temp_status: None,
            ring: FrameRing::with_capacity(ring_cap),
            frames_seen: 0,
            quarantined: 0,
        }
    }

    /// Applies one outcome: updates the status and pushes the ring. A frame in
    /// quarantine leaves the status as it is.
    pub fn apply(&mut self, outcome: DecodeOutcome, kind: FrameKind, checksum_ok: bool)
        requires
            old(self)@.wf(),
            old(self)@.frames_seen < u64::MAX,
            outcome is Quarantined ==> old(self)@.quarantined < u64::MAX,
        ensures
            final(self)@ == old(self)@.applied(outcome@, kind, checksum_ok),
            final(self)@.wf(),
    {
        self.frames_seen = self.frames_seen + 1;
        let entry = match outcome {
            DecodeOutcome::Decoded(message) => {
                match &message {
                    DecodedMessage::SystemStatus(s) => {
                        self.system_status = Some(s.clone());
                    },
                    DecodedMessage::TempStatus(t) => {
                        self.temp_status = Some(t.clone());
                    },
                    DecodedMessage::Unknown(_) => {},
                }
                FrameEntry::from_decoded(kind, checksum_ok, message)
            },
            DecodeOutcome::Quarantined { reason, kind: held, raw_hex } => {
                self.quarantined = self.quarantined + 1;
                FrameEntry {
                    kind: kind_name(held),
                    checksum_ok: false,
                    quarantined: true,
                    reason: Some(owned(reason)),
                    message: None,
                    raw: raw_hex,
                }
            },
        };
        assert(entry@ == entry_of(outcome@, kind, checksum_ok));
        self.ring.push(entry);
    }

    /// What the status request answers.
    pub fn status_response(&self) -> (r: StatusResponse)
        ensures
            opt_status(r.system_status) == self@.system_status,
            opt_temps(r.temp_status) == self@.temp_status,
            r.frames_seen == self@.frames_seen,
            r.quarantined == self@.quarantined,
    {
        StatusResponse {
            system_status: clone_status(&self.system_status),
            temp_status: clone_temps(&self.temp_status),
            frames_seen: self.frames_seen,
            quarantined: self.quarantined,
        }
    }

    /// The most recent records, newest first.
    pub fn recent_frames(&self, limit: usize) -> (r: FramesResponse)
        ensures
            entries_view(r.frames@) == self@.newest(limit as int),
            r.count == r.frames@.len(),
    {
        let frames = self.ring.newest(limit);
        FramesResponse { count: frames.len(), frames }
    }
}

impl FrameEntry {
    fn from_decoded(kind: FrameKind, checksum_ok: bool, message: DecodedMessage) -> (r: Self)
        ensures
            r@ == entry_of(OutcomeView::Decoded(message@), kind, checksum_ok),
    {
        let raw = owned(message.raw_hex());
        FrameEntry {
            kind: kind_name(kind),
            checksum_ok,
            quarantined: false,
            reason: None,
            message: Some(message),
            raw,
        }
    }
}

/// Decodes one frame and applies it.
pub fn decode_and_apply<P: MessageParser>(
    state: &mut BusState,
    registry: &MessageRegistry<P>,
    frame: &Frame,
)
    requires
        old(state)@.wf(),
        old(state)@.frames_seen < u64::MAX,
        registry.decoded_frame(frame@) is Quarantined ==> old(state)@.quarantined < u64::MAX,
    ensures
        final(state)@.wf(),
        final(state)@ == old(state)@.applied(
            registry.decoded_frame(frame@),
            frame@.kind,
            frame@.checksum_ok,
        ),
{
    let outcome = registry.decode_frame(frame);
    state.apply(outcome, frame.kind, frame.checksum_ok);
}

/// Applies framed bytes as an A5 frame with a good checksum.
pub fn apply_raw_a5_for_test<P: MessageParser>(
    state: &mut BusState,
    registry: &MessageRegistry<P>,
    raw: &[u8],
)
    requires
        old(state)@.wf(),
        old(state)@.frames_seen < u64::MAX,
    ensures
        final(state)@.wf(),
        final(state)@ == old(state)@.applied(
            OutcomeView::Decoded(registry.decoded_a5(raw@)),
            FrameKind::A5,
            true,
        ),
{
    let frame = Frame { kind: FrameKind::A5, raw: copy_bytes(raw), checksum_ok: true };
    decode_and_apply(state, registry, &frame);
}

/// Hexadecimal text of raw bytes.
pub fn raw_hex_or_empty(raw: &[u8]) -> (r: String)
    ensures
        r@ == text::hex_text(raw@),
{
    hex_encode(raw)
}

// ---------------------------------------------------------------------------
// Laws
// ---------------------------------------------------------------------------

/// An outcome with the frame it came from.
pub struct Arrival {
    pub outcome: OutcomeView,
    pub kind: FrameKind,
    pub checksum_ok: bool,
}

/// The record of an arrival.
pub open spec fn arrival_entry(a: Arrival) -> EntryView {
    entry_of(a.outcome, a.kind, a.checksum_ok)
}

/// The state after some arrivals, in order.
pub open spec fn after_all(s: StateView, arrivals: Seq<Arrival>) -> StateView
    decreases arrivals.len(),
{
    if arrivals.len() == 0 {
        s
    } else {
        let a = arrivals.last();
        after_all(s, arrivals.drop_last()).applied(a.outcome, a.kind, a.checksum_ok)
    }
}

/// From an empty state, the ring holds the newest records, in the order of their
/// arrival, as many as it has room for; and every frame is counted.
pub proof fn law_ring_holds_newest(cap: int, arrivals: Seq<Arrival>)
    ensures
        ({
            let s = after_all(StateView::fresh(cap), arrivals);
            let all = Seq::new(arrivals.len(), |i: int| arrival_entry(arrivals[i]));
            &&& s.ring_cap == StateView::fresh(cap).ring_cap
            &&& s.wf()
            &&& s.frames_seen == arrivals.len()
            &&& s.ring == if all.len() > s.ring_cap {
                all.skip(all.len() - s.ring_cap)
            } else {
                all
            }
        }),
    decreases arrivals.len(),
{
    let s = after_all(StateView::fresh(cap), arrivals);
    let all = Seq::new(arrivals.len(), |i: int| arrival_entry(arrivals[i]));
    if arrivals.len() == 0 {
        assert(s.ring =~= all);
    } else {
        let shorter = arrivals.drop_last();
        law_ring_holds_newest(cap, shorter);
        let before = after_all(StateView::fresh(cap), shorter);
        let prev = Seq::new(shorter.len(), |i: int| arrival_entry(shorter[i]));
        assert(all =~= prev.push(arrival_entry(arrivals.last())));
        if all.len() > s.ring_cap {
            assert(s.ring =~= all.skip(all.len() - s.ring_cap));
        } else {
            assert(s.ring =~= all);
        }
    }
}

/// Frames in quarantine are counted and recorded, and change nothing else: the
/// status stays what the other frames made it.
pub proof fn law_quarantine_leaves_status(s: StateView, a: Arrival)
    requires
        a.outcome is Quarantined,
    ensures
        s.applied(a.outcome, a.kind, a.checksum_ok).system_status == s.system_status,
        s.applied(a.outcome, a.kind, a.checksum_ok).temp_status == s.temp_status,
        s.applied(a.outcome, a.kind, a.checksum_ok).quarantined == s.quarantined + 1,
        s.applied(a.outcome, a.kind, a.checksum_ok).ring.last().quarantined,
        s.applied(a.outcome, a.kind, a.checksum_ok).ring.last().message is None,
{
}

/// The newest record is the first that is handed out.
pub proof fn law_newest_first(s: StateView, a: Arrival, limit: int)
    requires
        limit >= 1,
    ensures
        s.applied(a.outcome, a.kind, a.checksum_ok).newest(limit).len() >= 1,
        s.applied(a.outcome, a.kind, a.checksum_ok).newest(limit)[0] == arrival_entry(a),
{
}

/// A status that was decoded is the status from then on; the other one stays as it
/// is, and no other outcome changes either. Every outcome is counted, and those in
/// quarantine once more.
pub proof fn law_decoded_status_is_taken_over(s: StateView, a: Arrival)
    ensures
        ({
            let t = s.applied(a.outcome, a.kind, a.checksum_ok);
            &&& match a.outcome {
                OutcomeView::Decoded(MessageView::SystemStatus(m)) => t.system_status == Some(m)
                    && t.temp_status == s.temp_status,
                OutcomeView::Decoded(MessageView::TempStatus(m)) => t.temp_status == Some(m)
                    && t.system_status == s.system_status,
                _ => t.system_status == s.system_status && t.temp_status == s.temp_status,
            }
            &&& t.frames_seen == s.frames_seen + 1 && t.ring_cap == s.ring_cap
            &&& a.outcome is Quarantined ==> t.quarantined == s.quarantined + 1
            &&& a.outcome is Decoded ==> t.quarantined == s.quarantined
        }),
{
}

/// After any arrivals, the status is that of the last arrival that told one.
pub proof fn law_status_is_the_latest(s: StateView, arrivals: Seq<Arrival>, i: int)
    requires
        0 <= i < arrivals.len(),
    ensures
        (arrivals[i].outcome matches OutcomeView::Decoded(MessageView::SystemStatus(m)) && (
        forall|k: int|
            i < k < arrivals.len() ==> !((#[trigger] arrivals[k]).outcome matches
                OutcomeView::Decoded(MessageView::SystemStatus(_))))) ==> after_all(
            s,
            arrivals,
        ).system_status == Some(arrivals[i].outcome->Decoded_0->SystemStatus_0),
        (arrivals[i].outcome matches OutcomeView::Decoded(MessageView::TempStatus(m)) && (
        forall|k: int|
            i < k < arrivals.len() ==> !((#[trigger] arrivals[k]).outcome matches
                OutcomeView::Decoded(MessageView::TempStatus(_))))) ==> after_all(
            s,
            arrivals,
        ).temp_status == Some(arrivals[i].outcome->Decoded_0->TempStatus_0),
    decreases arrivals.len(),
{
    let shorter = arrivals.drop_last();
    if i < arrivals.len() - 1 {
        law_status_is_the_latest(s, shorter, i);
        assert(shorter[i] == arrivals[i]);
        assert(forall|k: int| 0 <= k < shorter.len() ==> shorter[k] == arrivals[k]);
        assert(arrivals[arrivals.len() - 1] == arrivals.last());
    }
}

/// A record tells its frame: the family, the outcome of the checksum test, the raw
/// bytes, and either the message or the reason why there is none.
pub proof fn law_record_tells_the_frame(
    message: MessageView,
    reason: Seq<char>,
    raw_hex: Seq<char>,
    kind: FrameKind,
    held: FrameKind,
    checksum_ok: bool,
)
    ensures
        ({
            let e = entry_of(OutcomeView::Decoded(message), kind, checksum_ok);
            &&& e.message == Some(message) && e.raw == message.header().raw && e.checksum_ok
                == checksum_ok && !e.quarantined && e.reason is None
            &&& kind == FrameKind::A5 ==> e.kind == "A5"@
            &&& kind == FrameKind::IntelliChlor ==> e.kind == "IntelliChlor"@
        }),
        ({
            let e = entry_of(
                OutcomeView::Quarantined { reason, kind: held, raw_hex },
                kind,
                checksum_ok,
            );
            &&& e.message is None && e.raw == raw_hex && !e.checksum_ok && e.quarantined && e.reason
                == Some(reason)
            &&& held == FrameKind::A5 ==> e.kind == "A5"@
            &&& held == FrameKind::IntelliChlor ==> e.kind == "IntelliChlor"@
        }),
{
}

/// From an empty state, what is handed out are the records of the last arrivals,
/// newest first: as many as were asked for, are held, and came in.
pub proof fn law_newest_are_the_last_arrivals(
    cap: int,
    arrivals: Seq<Arrival>,
    limit: int,
    i: int,
)
    requires
        cap >= 1,
        0 <= limit,
    ensures
        ({
            let out = after_all(StateView::fresh(cap), arrivals).newest(limit);
            &&& out.len() <= limit && out.len() <= cap && out.len() <= arrivals.len()
            &&& out.len() == limit || out.len() == cap || out.len() == arrivals.len()
            &&& 0 <= i < out.len() ==> out[i] == arrival_entry(arrivals[arrivals.len() - 1 - i])
        }),
{
    law_ring_holds_newest(cap, arrivals);
}

/// The answer to a status request tells the state as it is.
pub proof fn law_status_answer_is_the_state(state: BusState, r: StatusResponse)
    requires
        call_ensures(BusState::status_response, (&state,), r),
    ensures
        r.frames_seen == state.frames_seen && r.quarantined == state.quarantined,
        r.system_status is Some <==> state.system_status is Some,
        r.temp_status is Some <==> state.temp_status is Some,
        r.system_status matches Some(s) ==> state.system_status matches Some(t) && s@ == t@,
        r.temp_status matches Some(s) ==> state.temp_status matches Some(t) && s@ == t@,
{
}

/// Applying an outcome counts the frame, counts it again if it is set aside, and
/// takes a decoded status over, whatever was known before.
pub proof fn law_apply_takes_the_outcome_over(
    outcome: DecodeOutcome,
    kind: FrameKind,
    checksum_ok: bool,
)
    ensures
        forall|state: &mut BusState| #[trigger]
            call_ensures(BusState::apply, (state, outcome, kind, checksum_ok), ()) ==> {
                let before = (*state)@;
                let after = final(state)@;
                &&& after.frames_seen == before.frames_seen + 1
                &&& after.quarantined == before.quarantined + if outcome is Quarantined {
                    1int
                } else {
                    0
                }
                &&& after.system_status == match outcome@ {
                    OutcomeView::Decoded(MessageView::SystemStatus(m)) => Some(m),
                    _ => before.system_status,
                }
                &&& after.temp_status == match outcome@ {
                    OutcomeView::Decoded(MessageView::TempStatus(m)) => Some(m),
                    _ => before.temp_status,
                }
                &&& before.ring_cap >= 1 && before.ring.len() < before.ring_cap ==> after.ring.len()
                    == before.ring.len() + 1 && after.ring.drop_last() == before.ring
            },
{
}

/// A request for records gets those of the newest frames, the newest first, and is
/// told their number.
pub proof fn law_frames_answer_is_the_newest(
    state: BusState,
    limit: usize,
    r: FramesResponse,
    i: int,
)
    requires
        call_ensures(BusState::recent_frames, (&state, limit), r),
    ensures
        r.count == r.frames@.len(),
        r.count == limit || r.count == state@.ring.len(),
        r.count <= limit && r.count <= state@.ring.len(),
        0 <= i < r.frames@.len() ==> r.frames@[i]@ == state@.ring[state@.ring.len() - 1 - i],
{
    let told = entries_view(r.frames@);
    assert(told == newest_of(state@.ring, limit as int));
    assert(told.len() == r.frames@.len());
    if 0 <= i < r.frames@.len() {
        assert(told[i] == r.frames@[i]@);
    }
}

/// A new state knows nothing, and its ring holds as many records as it was made for,
/// at least one.
pub proof fn law_new_state_is_empty(cap: usize, state: BusState)
    requires
        call_ensures(BusState::with_capacity, (cap,), state),
    ensures
        state@.ring.len() == 0 && state@.frames_seen == 0 && state@.quarantined == 0,
        state@.system_status is None && state@.temp_status is None,
        cap >= 1 ==> state@.ring_cap == cap,
        cap == 0 ==> state@.ring_cap == 1,
{
}

} // verus!
