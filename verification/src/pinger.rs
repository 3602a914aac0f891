//! What a probe reports, and the state that it stands for.

use crate::address::HostAddress;
use crate::ping_state::{GeneralPingState, TimeTaken};
use vstd::prelude::*;

verus! {

/// The longest time, in milliseconds, that an answer to a probe is waited
/// for.
pub const MAX_RTT_MILLIS: u64 = 250;

/// What became of the probe of one address.
#[derive(Debug, Clone, Copy, PartialEq, Eq)]
pub enum PingResult {
    /// No answer came within the time allowed.
    Idle { addr: HostAddress },
    /// An answer came after the time `rtt`.
    Receive { addr: HostAddress, rtt: TimeTaken },
}

/// The state that a probe's result stands for. A probe without an answer
/// took the whole time allowed, a quarter of a second.
pub open spec fn state_of(result: PingResult) -> (HostAddress, GeneralPingState) {
    match result {
        PingResult::Idle { addr } => (
            addr,
            GeneralPingState {
                is_up: false,
                is_tested: true,
                time_taken: TimeTaken { secs: 0, subsec_nanos: 250_000_000 },
            },
        ),
        PingResult::Receive { addr, rtt } => (
            addr,
            GeneralPingState { is_up: true, is_tested: true, time_taken: rtt },
        ),
    }
}

/// The address that was probed and the state that the result stands for.
///
/// An address that did not answer in time was tested and is down: that is a
/// result, not an error. The time it took is then the whole time allowed.
pub fn ping_result_state(result: PingResult) -> (r: (HostAddress, GeneralPingState))
    ensures
        r == state_of(result),
{
    match result {
        PingResult::Idle { addr } => (
            addr,
            GeneralPingState {
                is_up: false,
                is_tested: true,
                time_taken: TimeTaken::from_millis(MAX_RTT_MILLIS),
            },
        ),
        PingResult::Receive { addr, rtt } => (
            addr,
            GeneralPingState { is_up: true, is_tested: true, time_taken: rtt },
        ),
    }
}

} // verus!
