//! A verified core for a synthetic memory-pressure generator.
//!
//! The library parses a human-readable size string into an exact byte count,
//! builds and initializes a buffer of that size, and drives the state machine
//! of the perpetual background task that keeps the buffer hot. The embedding
//! program supplies what a verified library cannot: the thread that runs the
//! task, the lock shared with it, and the pauses between its passes.

use vstd::prelude::*;

pub mod keeper;
pub mod parse;

verus! {

/// The single entry point: parse `memory` as `<digits><unit>` and return the
/// exact byte count it denotes, or the human-readable line describing why it
/// was rejected.
///
/// The caller that wants the bytes actually held passes the count on to
/// [`keeper::allocate_and_hold`] and drives [`keeper::keeper_step`] from its
/// own thread; a byte count above [`parse::WARNING_THRESHOLD_BYTES`] should
/// first draw the advisory warning on the diagnostic channel (see
/// [`parse::exceeds_warning_threshold`]).
pub fn allocate_memory(memory: &str) -> (r: Result<usize, String>)
    ensures
        parse::spec_parse(memory@) is Ok ==> r is Ok && r->Ok_0 == parse::spec_parse(
            memory@,
        )->Ok_0,
        parse::spec_parse(memory@) is Err ==> r is Err && r->Err_0@ == parse::error_text(
            memory@,
            parse::spec_parse(memory@)->Err_0,
        ),
{
    match parse::parse_memory_string(memory) {
        Ok(bytes) => Ok(bytes),
        Err(e) => Err(parse::parse_error_message(memory, e)),
    }
}

} // verus!
