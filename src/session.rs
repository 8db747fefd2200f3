//! The room a session joins, its join payload, and the heartbeat schedule.
use vstd::prelude::*;

use crate::frame::{encode, encoded, OP_HEARTBEAT};

verus! {

/// Heartbeat period of the current protocol revision, in seconds.
pub const HEARTBEAT_PERIOD_SECS: u64 = 10;

/// Heartbeat period of earlier protocol revisions, in seconds.
pub const LEGACY_HEARTBEAT_PERIOD_SECS: u64 = 30;

/// A live room, named by its numeric id.
#[derive(Debug, Clone, Copy, PartialEq, Eq, Structural)]
pub struct Room {
    roomid: i32,
}

impl Room {
    pub fn new(roomid: i32) -> (r: Room)
        ensures
            r.id() == roomid,
    {
        Room { roomid }
    }

    pub closed spec fn id(&self) -> i32 {
        self.roomid
    }

    /// The id of the room.
    pub fn roomid(&self) -> (r: i32)
        ensures
            r == self.id(),
    {
        self.roomid
    }

    /// The payload of the frame that joins this room.
    pub fn join_obj(&self) -> (r: Obj)
        ensures
            r.uid == 0,
            r.roomid == self.id(),
            r.protover == 2,
            r.platform@ == "web"@,
            r.clientver@ == "1.5.15"@,
    {
        Obj::new(self.roomid)
    }
}

/// The payload of the join frame, sent as JSON.
#[derive(Debug)]
pub struct Obj {
    pub uid: i32,
    pub roomid: i32,
    pub protover: i32,
    pub platform: String,
    pub clientver: String,
}

impl Obj {
    /// The join payload of the web client for room `roomid`.
    pub fn new(roomid: i32) -> (r: Obj)
        ensures
            r.uid == 0,
            r.roomid == roomid,
            r.protover == 2,
            r.platform@ == "web"@,
            r.clientver@ == "1.5.15"@,
    {
        Obj {
            uid: 0,
            roomid,
            protover: 2,
            platform: String::from_str("web"),
            clientver: String::from_str("1.5.15"),
        }
    }
}

/// The body of every heartbeat frame: the ASCII text `[object Object]`.
pub open spec fn heartbeat_body() -> Seq<u8> {
    seq![
        91u8, 111, 98, 106, 101, 99, 116, 32, 79, 98, 106, 101, 99, 116, 93,
    ]
}

/// What the heartbeat task does next.
#[derive(Debug, PartialEq, Eq)]
pub enum HeartbeatAction {
    /// Write these bytes to the transport, then sleep one period.
    Send(Vec<u8>),
    /// Stop: the session is being torn down.
    Finish,
}

/// The decisions of the heartbeat task of one session.
#[derive(Debug)]
pub struct Heartbeat {
    frame: Vec<u8>,
    period_secs: u64,
    stopped: bool,
}

/// What the heartbeat task's state is: the frame it sends, its period, and
/// whether it has stopped.
pub struct HeartbeatView {
    pub frame: Seq<u8>,
    pub period_secs: u64,
    pub stopped: bool,
}

impl View for Heartbeat {
    type V = HeartbeatView;

    closed spec fn view(&self) -> HeartbeatView {
        HeartbeatView { frame: self.frame@, period_secs: self.period_secs, stopped: self.stopped }
    }
}

/// The state after one cycle in which the stop flag read `stop_raised`.
pub open spec fn after_cycle(h: HeartbeatView, stop_raised: bool) -> HeartbeatView {
    HeartbeatView { stopped: h.stopped || stop_raised, ..h }
}

/// Whether the cycle sends a frame: only while no stop was ever seen.
pub open spec fn cycle_sends(h: HeartbeatView, stop_raised: bool) -> bool {
    !after_cycle(h, stop_raised).stopped
}

/// Whether each of the cycles in which the stop flag reads `flags`, run
/// from `h`, sends a frame.
pub open spec fn sends(h: HeartbeatView, flags: Seq<bool>) -> Seq<bool>
    decreases flags.len(),
{
    if flags.len() == 0 {
        Seq::empty()
    } else {
        seq![cycle_sends(h, flags[0])] + sends(after_cycle(h, flags[0]), flags.drop_first())
    }
}

fn copy_bytes(b: &Vec<u8>) -> (r: Vec<u8>)
    ensures
        r@ == b@,
{
    let mut out: Vec<u8> = Vec::new();
    let mut i: usize = 0;
    while i < b.len()
        invariant
            i <= b@.len(),
            out@ == b@.subrange(0, i as int),
        decreases b@.len() - i,
    {
        out.push(b[i]);
        i = i + 1;
        assert(out@ =~= b@.subrange(0, i as int));
    }
    assert(b@.subrange(0, i as int) =~= b@);
    out
}

impl Heartbeat {
    /// A running heartbeat that sends the heartbeat frame every
    /// `period_secs` seconds.
    pub fn new(period_secs: u64) -> (r: Heartbeat)
        ensures
            r@.frame == encoded(heartbeat_body(), OP_HEARTBEAT),
            r@.period_secs == period_secs,
            !r@.stopped,
    {
        let body: Vec<u8> = vec![
            91u8, 111, 98, 106, 101, 99, 116, 32, 79, 98, 106, 101, 99, 116, 93,
        ];
        assert(body@ =~= heartbeat_body());
        // A fifteen-byte body is far below `MAX_BODY_LEN`: `encode` cannot refuse it.
        let frame = match encode(body, OP_HEARTBEAT) {
            Ok(f) => f,
            Err(_) => Vec::new(),
        };
        Heartbeat { frame, period_secs, stopped: false }
    }

    /// Seconds to sleep between two cycles.
    pub fn period_secs(&self) -> (r: u64)
        ensures
            r == self@.period_secs,
    {
        self.period_secs
    }

    /// Whether the heartbeat has stopped for good.
    pub fn is_stopped(&self) -> (r: bool)
        ensures
            r == self@.stopped,
    {
        self.stopped
    }

    /// Stops the heartbeat: every later cycle finishes.
    pub fn stop(&mut self)
        ensures
            final(self)@ == (HeartbeatView { stopped: true, ..old(self)@ }),
    {
        self.stopped = true;
    }

    /// One cycle, given the stop flag as read before the send: once a raised
    /// flag has been seen the heartbeat finishes, now and in every later
    /// cycle; until then it hands out the heartbeat frame.
    pub fn next(&mut self, stop_raised: bool) -> (r: HeartbeatAction)
        ensures
            final(self)@ == after_cycle(old(self)@, stop_raised),
            cycle_sends(old(self)@, stop_raised) ==> (r matches HeartbeatAction::Send(b) && b@
                == old(self)@.frame),
            !cycle_sends(old(self)@, stop_raised) ==> r == HeartbeatAction::Finish,
    {
        if stop_raised {
            self.stopped = true;
        }
        if self.stopped {
            HeartbeatAction::Finish
        } else {
            HeartbeatAction::Send(copy_bytes(&self.frame))
        }
    }
}

/// After teardown no heartbeat is sent: once the stop flag has been seen
/// raised in some cycle, that cycle and every later one send nothing,
/// whatever the flag reads afterwards.
pub proof fn lemma_no_heartbeat_after_stop(h: HeartbeatView, flags: Seq<bool>, k: int)
    requires
        0 <= k < flags.len(),
        flags[k],
    ensures
        sends(h, flags).len() == flags.len(),
        forall|j: int| k <= j < flags.len() ==> !(#[trigger] sends(h, flags)[j]),
    decreases flags.len(),
{
    lemma_sends_len(h, flags);
    if k == 0 {
        lemma_stopped_sends_nothing(after_cycle(h, flags[0]), flags.drop_first());
        assert forall|j: int| k <= j < flags.len() implies !(#[trigger] sends(h, flags)[j]) by {
            if j > 0 {
                assert(sends(h, flags)[j] == sends(after_cycle(h, flags[0]), flags.drop_first())[j
                    - 1]);
            }
        }
    } else {
        let rest = flags.drop_first();
        assert(rest[k - 1] == flags[k]);
        lemma_no_heartbeat_after_stop(after_cycle(h, flags[0]), rest, k - 1);
        assert forall|j: int| k <= j < flags.len() implies !(#[trigger] sends(h, flags)[j]) by {
            assert(sends(h, flags)[j] == sends(after_cycle(h, flags[0]), rest)[j - 1]);
        }
    }
}

proof fn lemma_sends_len(h: HeartbeatView, flags: Seq<bool>)
    ensures
        sends(h, flags).len() == flags.len(),
    decreases flags.len(),
{
    if flags.len() > 0 {
        lemma_sends_len(after_cycle(h, flags[0]), flags.drop_first());
    }
}

proof fn lemma_stopped_sends_nothing(h: HeartbeatView, flags: Seq<bool>)
    requires
        h.stopped,
    ensures
        sends(h, flags).len() == flags.len(),
        forall|j: int| 0 <= j < flags.len() ==> !(#[trigger] sends(h, flags)[j]),
    decreases flags.len(),
{
    lemma_sends_len(h, flags);
    if flags.len() > 0 {
        lemma_stopped_sends_nothing(after_cycle(h, flags[0]), flags.drop_first());
        assert forall|j: int| 0 <= j < flags.len() implies !(#[trigger] sends(h, flags)[j]) by {
            if j > 0 {
                assert(sends(h, flags)[j] == sends(after_cycle(h, flags[0]), flags.drop_first())[j
                    - 1]);
            }
        }
    }
}

} // verus!
