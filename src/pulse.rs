//! Timing of an ultrasonic echo pulse and its conversion to a distance.
use vstd::prelude::*;

verus! {

/// Speed of sound at standard conditions, in metres per second.
pub const SOUND_SPEED: u64 = 343;

/// Distance in micrometres covered one way by a pulse whose round trip took
/// `round_trip_ns` nanoseconds: `ns * 1e-9 * 0.5 * 343 * 1e6`.
pub open spec fn distance_of(round_trip_ns: int) -> int {
    round_trip_ns * 343 / 2000
}

/// Converts a round-trip time in nanoseconds to a one-way distance in
/// micrometres, rounding down.
pub fn distance_from_round_trip(round_trip_ns: u64) -> (r: u64)
    ensures
        r == distance_of(round_trip_ns as int),
{
    assert((round_trip_ns as int) * 343 <= 0xffff_ffff_ffff_ffff * 343int) by (nonlinear_arith)
        requires
            round_trip_ns <= 0xffff_ffff_ffff_ffff,
    ;
    let wide: u128 = (round_trip_ns as u128) * (SOUND_SPEED as u128) / 2000;
    assert(wide <= round_trip_ns) by (nonlinear_arith)
        requires
            wide == (round_trip_ns as int) * 343 / 2000,
    ;
    wide as u64
}

/// Kind of transition seen on the echo line.
#[derive(Clone, Copy, Debug, PartialEq, Eq, Structural)]
pub enum Edge {
    Rising,
    Falling,
}

/// One transition of the echo line, with its kernel timestamp.
#[derive(Clone, Copy, Debug, PartialEq, Eq, Structural)]
pub struct EdgeEvent {
    pub kind: Edge,
    pub timestamp_ns: u64,
}

/// Where a measurement cycle stands once the trigger pulse was sent.
#[derive(Clone, Copy, Debug, PartialEq, Eq, Structural)]
pub enum PulseState {
    /// Listening for the echo's rising edge.
    AwaitingRise,
    /// The echo rose at `rise_ns`; waiting for it to fall.
    Timing { rise_ns: u64 },
}

/// A measurement cycle that could not complete.
#[derive(Clone, Copy, Debug, PartialEq, Eq, Structural)]
pub enum EchoError {
    /// The event stream ended before a rise and a fall were both seen.
    StreamExhausted,
}

/// Next state, and the distance measured if the cycle completes, after `e`.
///
/// A falling edge before any rise is ignored; a second rise restarts the
/// timing; a fall stamped before the rise it would close is ignored.
pub open spec fn step_spec(s: PulseState, e: EdgeEvent) -> (PulseState, Option<int>) {
    match s {
        PulseState::AwaitingRise => match e.kind {
            Edge::Rising => (PulseState::Timing { rise_ns: e.timestamp_ns }, None),
            Edge::Falling => (PulseState::AwaitingRise, None),
        },
        PulseState::Timing { rise_ns } => match e.kind {
            Edge::Rising => (PulseState::Timing { rise_ns: e.timestamp_ns }, None),
            Edge::Falling => if e.timestamp_ns >= rise_ns {
                (PulseState::AwaitingRise, Some(distance_of(e.timestamp_ns - rise_ns)))
            } else {
                (PulseState::Timing { rise_ns }, None)
            },
        },
    }
}

impl PulseState {
    /// Advances the cycle by one edge event. Returns the distance in
    /// micrometres when the event completes a rise-to-fall pair.
    pub fn on_edge(&mut self, e: EdgeEvent) -> (r: Option<u64>)
        ensures
            *final(self) == step_spec(*old(self), e).0,
            r matches Some(d) <==> step_spec(*old(self), e).1 matches Some(_),
            r matches Some(d) ==> step_spec(*old(self), e).1 == Some(d as int),
    {
        match *self {
            PulseState::AwaitingRise => {
                if let Edge::Rising = e.kind {
                    *self = PulseState::Timing { rise_ns: e.timestamp_ns };
                }
                None
            },
            PulseState::Timing { rise_ns } => {
                match e.kind {
                    Edge::Rising => {
                        *self = PulseState::Timing { rise_ns: e.timestamp_ns };
                        None
                    },
                    Edge::Falling => {
                        if e.timestamp_ns >= rise_ns {
                            *self = PulseState::AwaitingRise;
                            Some(distance_from_round_trip(e.timestamp_ns - rise_ns))
                        } else {
                            None
                        }
                    },
                }
            },
        }
    }
}

/// Outcome of feeding `events[i..]` to a cycle that stands at `s`.
pub open spec fn echo_from(events: Seq<EdgeEvent>, i: int, s: PulseState) -> Result<int, EchoError>
    decreases events.len() - i,
{
    if i < 0 || i >= events.len() {
        Err(EchoError::StreamExhausted)
    } else {
        let (next, out) = step_spec(s, events[i]);
        match out {
            Some(d) => Ok(d),
            None => echo_from(events, i + 1, next),
        }
    }
}

/// Runs one measurement cycle over the edge events seen after the trigger
/// pulse: the distance of the first completed rise-to-fall pair, or
/// `StreamExhausted` when the events end first.
pub fn measure_echo(events: &Vec<EdgeEvent>) -> (r: Result<u64, EchoError>)
    ensures
        r matches Ok(d) ==> echo_from(events@, 0, PulseState::AwaitingRise) == Ok::<int, EchoError>(d as int),
        r matches Err(e) ==> echo_from(events@, 0, PulseState::AwaitingRise) == Err::<int, EchoError>(e),
{
    let mut state = PulseState::AwaitingRise;
    let mut i: usize = 0;
    while i < events.len()
        invariant
            i <= events.len(),
            echo_from(events@, 0, PulseState::AwaitingRise) == echo_from(events@, i as int, state),
        decreases events.len() - i,
    {
        let prev = state;
        let out = state.on_edge(events[i]);
        if let Some(d) = out {
            return Ok(d);
        }
        assert(echo_from(events@, i as int, prev) == echo_from(events@, i + 1, state));
        i = i + 1;
    }
    Err(EchoError::StreamExhausted)
}

} // verus!
