//! The status and the frames request.

use vstd::prelude::*;

use crate::state;
use crate::state::{BusState, FramesResponse, StatusResponse};

verus! {

/// Records that the frames request returns when it names no number.
pub const DEFAULT_LIMIT: usize = 32;

/// Most records that the frames request returns.
pub const MAX_LIMIT: usize = 128;

/// Parameters of the frames request.
#[derive(Debug, Clone, Copy, PartialEq, Eq, Structural)]
pub struct FramesQuery {
    /// Most records to return, newest first.
    pub limit: usize,
}

impl Default for FramesQuery {
    fn default() -> (r: Self)
        ensures
            r.limit == DEFAULT_LIMIT,
    {
        FramesQuery { limit: DEFAULT_LIMIT }
    }
}

/// The number of records that a request gets at most: from one to [`MAX_LIMIT`].
pub open spec fn held_limit(limit: usize) -> usize {
    if limit < 1 {
        1
    } else if limit > MAX_LIMIT {
        MAX_LIMIT
    } else {
        limit
    }
}

/// Status code and body of the status request.
pub fn get_status(bus: &BusState) -> (r: (u16, StatusResponse))
    ensures
        r.0 == 200,
        state::opt_status(r.1.system_status) == bus@.system_status,
        state::opt_temps(r.1.temp_status) == bus@.temp_status,
        r.1.frames_seen == bus@.frames_seen,
        r.1.quarantined == bus@.quarantined,
{
    (200, bus.status_response())
}

/// Status code and body of the frames request.
pub fn get_frames(bus: &BusState, q: FramesQuery) -> (r: (u16, FramesResponse))
    ensures
        r.0 == 200,
        state::entries_view(r.1.frames@) == bus@.newest(held_limit(q.limit) as int),
        r.1.count == r.1.frames@.len(),
{
    let limit: usize = if q.limit < 1 {
        1
    } else if q.limit > MAX_LIMIT {
        MAX_LIMIT
    } else {
        q.limit
    };
    (200, bus.recent_frames(limit))
}

/// A request gets as many records as it asks for, but at least one and at most 128.
pub proof fn law_limit_is_held(limit: usize)
    ensures
        1 <= held_limit(limit) <= 128,
        1 <= limit <= 128 ==> held_limit(limit) == limit,
        limit < 1 ==> held_limit(limit) == 1,
        limit > 128 ==> held_limit(limit) == 128,
{
}

/// The two status requests succeed and tell the state; a request for frames gets at
/// least one and at most a hundred and twenty-eight, by default thirty-two.
pub proof fn law_status_requests(
    bus: BusState,
    s: (u16, StatusResponse),
    q: FramesQuery,
    f: (u16, FramesResponse),
    d: FramesQuery,
)
    requires
        call_ensures(FramesQuery::default, (), d),
        call_ensures(get_status, (&bus,), s),
        call_ensures(get_frames, (&bus, q), f),
    ensures
        s.0 == 200 && f.0 == 200,
        d.limit == 32,
        s.1.frames_seen == bus@.frames_seen && s.1.quarantined == bus@.quarantined,
        s.1.system_status is Some <==> bus@.system_status is Some,
        s.1.system_status matches Some(m) ==> bus@.system_status == Some(m@),
        s.1.temp_status is Some <==> bus@.temp_status is Some,
        s.1.temp_status matches Some(m) ==> bus@.temp_status == Some(m@),
        f.1.count == f.1.frames@.len(),
        1 <= q.limit <= 128 && q.limit <= bus@.ring.len() ==> f.1.count == q.limit,
        q.limit == 0 && bus@.ring.len() >= 1 ==> f.1.count == 1,
        q.limit > 128 && bus@.ring.len() >= 128 ==> f.1.count == 128,
        q.limit >= 1 && bus@.ring.len() < q.limit && bus@.ring.len() <= 128 ==> f.1.count
            == bus@.ring.len(),
{
    assert(state::entries_view(f.1.frames@).len() == f.1.frames@.len());
}

} // verus!
