//! The switch of the trace.
use vstd::prelude::*;

verus! {

/// Whether the trace is kept at all.
pub const ENABLE_TRACE: bool = false;

/// Whether the trace is kept. The position of the switch does not show outside of this module, so
/// whatever is proved of the trace elsewhere is proved for both positions.
pub closed spec fn trace_is_on() -> bool {
    ENABLE_TRACE
}

/// Reads the switch.
pub fn is_trace_on() -> (on: bool)
    ensures
        on == trace_is_on(),
{
    ENABLE_TRACE
}

/// The trace is kept exactly if the switch says so.
pub proof fn law_switch_decides()
    ensures
        trace_is_on() == ENABLE_TRACE,
{
}

} // verus!
