//! The control channel: the integer codes of the message envelope, the line
//! framing of a message, and the decisions of the inbound-drain loop.
use vstd::prelude::*;

verus! {

/// Kind of a control message.
#[derive(Clone, Copy, Debug, PartialEq, Eq, Structural)]
pub enum MsgType {
    /// Periodic keepalive, without radio information.
    Update,
    /// Full registration, with radio information.
    Sync,
}

/// Side of a client.
#[derive(Clone, Copy, Debug, PartialEq, Eq, Structural)]
pub enum Coalition {
    Blue,
    Red,
}

pub open spec fn msg_type_code(t: MsgType) -> u64 {
    match t {
        MsgType::Update => 1,
        MsgType::Sync => 2,
    }
}

pub open spec fn coalition_code(c: Coalition) -> u64 {
    match c {
        Coalition::Red => 1,
        Coalition::Blue => 2,
    }
}

impl MsgType {
    /// The integer that stands for this kind on the wire.
    pub fn serialize(&self) -> (r: u64)
        ensures
            r == msg_type_code(*self),
    {
        match self {
            MsgType::Update => 1,
            MsgType::Sync => 2,
        }
    }

    /// The kind that `value` stands for; `None` for an unknown value.
    pub fn deserialize(value: u64) -> (r: Option<MsgType>)
        ensures
            r matches Some(t) ==> msg_type_code(t) == value,
            r is None <==> value != 1 && value != 2,
    {
        if value == 1 {
            Some(MsgType::Update)
        } else if value == 2 {
            Some(MsgType::Sync)
        } else {
            None
        }
    }
}

impl Coalition {
    /// The integer that stands for this side on the wire.
    pub fn serialize(&self) -> (r: u64)
        ensures
            r == coalition_code(*self),
    {
        match self {
            Coalition::Red => 1,
            Coalition::Blue => 2,
        }
    }

    /// The side that `value` stands for; `None` for an unknown value.
    pub fn deserialize(value: u64) -> (r: Option<Coalition>)
        ensures
            r matches Some(c) ==> coalition_code(c) == value,
            r is None <==> value != 1 && value != 2,
    {
        if value == 1 {
            Some(Coalition::Red)
        } else if value == 2 {
            Some(Coalition::Blue)
        } else {
            None
        }
    }
}

/// Each kind and each side is read back from its code, and distinct values
/// have distinct codes.
pub proof fn lemma_codes_round_trip(t: MsgType, u: MsgType, c: Coalition, d: Coalition)
    ensures
        msg_type_code(t) == 1 || msg_type_code(t) == 2,
        coalition_code(c) == 1 || coalition_code(c) == 2,
        msg_type_code(t) == msg_type_code(u) ==> t == u,
        coalition_code(c) == coalition_code(d) ==> c == d,
{
}

/// One message line: the serialized message and a single newline.
pub fn frame_line(json: &[u8]) -> (r: Vec<u8>)
    ensures
        r@ == json@.push(10u8),
{
    let mut r: Vec<u8> = Vec::new();
    let mut i: usize = 0;
    while i < json.len()
        invariant
            i <= json@.len(),
            r@ == json@.subrange(0, i as int),
        decreases json@.len() - i,
    {
        r.push(json[i]);
        i = i + 1;
        proof {
            assert(r@ =~= json@.subrange(0, i as int));
        }
    }
    r.push(10u8);
    proof {
        assert(r@ =~= json@.push(10u8));
    }
    r
}

/// What one read of the control socket gave.
#[derive(Clone, Copy, Debug, PartialEq, Eq, Structural)]
pub enum ReadOutcome {
    /// A line of this many bytes (0: the peer closed the connection).
    Data(usize),
    /// No line within the read timeout.
    TimedOut,
    /// Any other error.
    Failed,
}

/// What the drain loop does after a read.
#[derive(Clone, Copy, Debug, PartialEq, Eq, Structural)]
pub struct DrainStep {
    /// The read failed in an unexpected way and is to be logged.
    pub report: bool,
    /// The loop ends.
    pub exit: bool,
}

/// The drain loop ends when the peer has closed the connection or a stop
/// has been requested; an unexpected error is reported, and a timeout or a
/// received line is passed over.
pub fn drain_step(outcome: ReadOutcome, stop_requested: bool) -> (r: DrainStep)
    ensures
        r.report <==> outcome == ReadOutcome::Failed,
        r.exit <==> (outcome == ReadOutcome::Data(0) || stop_requested),
{
    match outcome {
        ReadOutcome::Data(n) => DrainStep { report: false, exit: n == 0 || stop_requested },
        ReadOutcome::TimedOut => DrainStep { report: false, exit: stop_requested },
        ReadOutcome::Failed => DrainStep { report: true, exit: stop_requested },
    }
}

} // verus!
