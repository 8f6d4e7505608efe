//! The pressure keeper: builds the buffer that is to be held hot and drives
//! the state machine of the perpetual background task that mutates it.
//!
//! The library cannot spawn the task itself; the embedding program owns the
//! thread, the lock and the pauses, and calls [`keeper_step`] in a loop. Every
//! decision and every byte written is specified and verified here.

use vstd::prelude::*;

verus! {

/// The value the buffer is initialized with at index `i`.
pub open spec fn init_byte(i: int) -> u8 {
    (i % 256) as u8
}

/// Add one to a byte, wrapping 255 back to 0.
pub open spec fn inc_byte(b: u8) -> u8 {
    if b == 255 {
        0
    } else {
        (b + 1) as u8
    }
}

/// Subtract one from a byte, wrapping 0 back to 255.
pub open spec fn dec_byte(b: u8) -> u8 {
    if b == 0 {
        255
    } else {
        (b - 1) as u8
    }
}

/// A full increment pass over a buffer, as a value.
pub open spec fn inc_seq(s: Seq<u8>) -> Seq<u8> {
    Seq::new(s.len(), |i: int| inc_byte(s[i]))
}

/// A full decrement pass over a buffer, as a value.
pub open spec fn dec_seq(s: Seq<u8>) -> Seq<u8> {
    Seq::new(s.len(), |i: int| dec_byte(s[i]))
}

/// Bytes handled per window of a pass; a cache-locality choice only, the
/// contract of a pass is identical to a byte-by-byte traversal.
pub const WINDOW_SIZE: usize = 4096;

/// Milliseconds the background task pauses after each pass.
pub const PAUSE_MILLISECONDS: u64 = 100;

/// Allocate a buffer of exactly `byte_count` bytes and initialize every byte
/// to its index modulo 256. If the host cannot satisfy the allocation the
/// process aborts; a partially satisfied pressure request is meaningless.
pub fn allocate_and_hold(byte_count: usize) -> (buffer: Vec<u8>)
    ensures
        buffer@.len() == byte_count,
        forall|i: int| 0 <= i < byte_count ==> buffer@[i] == init_byte(i),
{
    let mut buffer: Vec<u8> = Vec::with_capacity(byte_count);
    let mut i: usize = 0;
    while i < byte_count
        invariant
            i <= byte_count,
            buffer@.len() == i,
            forall|j: int| 0 <= j < i ==> buffer@[j] == init_byte(j),
        decreases byte_count - i,
    {
        buffer.push((i % 256) as u8);
        i = i + 1;
    }
    buffer
}

/// One full increment pass: every byte gains one, wrapping at 256. The walk
/// is windowed for locality; the result is the same as a byte-by-byte pass.
pub fn increment_pass(data: &mut Vec<u8>)
    ensures
        final(data)@ == inc_seq(old(data)@),
{
    let len = data.len();
    let mut window_start: usize = 0;
    while window_start < len
        invariant
            len == old(data)@.len(),
            data@.len() == len,
            window_start <= len,
            forall|j: int| 0 <= j < window_start ==> data@[j] == inc_byte(old(data)@[j]),
            forall|j: int| window_start <= j < len ==> data@[j] == old(data)@[j],
        decreases len - window_start,
    {
        let window_end = if len - window_start < WINDOW_SIZE {
            len
        } else {
            window_start + WINDOW_SIZE
        };
        let mut i = window_start;
        while i < window_end
            invariant
                len == old(data)@.len(),
                data@.len() == len,
                window_start <= i <= window_end <= len,
                forall|j: int| 0 <= j < i ==> data@[j] == inc_byte(old(data)@[j]),
                forall|j: int| i <= j < len ==> data@[j] == old(data)@[j],
            decreases window_end - i,
        {
            let b = data[i];
            data[i] = if b == 255 {
                0
            } else {
                b + 1
            };
            i = i + 1;
        }
        window_start = window_end;
    }
    assert(data@ =~= inc_seq(old(data)@));
}

/// One full decrement pass: every byte loses one, wrapping at 0. Same
/// windowed walk as the increment pass.
pub fn decrement_pass(data: &mut Vec<u8>)
    ensures
        final(data)@ == dec_seq(old(data)@),
{
    let len = data.len();
    let mut window_start: usize = 0;
    while window_start < len
        invariant
            len == old(data)@.len(),
            data@.len() == len,
            window_start <= len,
            forall|j: int| 0 <= j < window_start ==> data@[j] == dec_byte(old(data)@[j]),
            forall|j: int| window_start <= j < len ==> data@[j] == old(data)@[j],
        decreases len - window_start,
    {
        let window_end = if len - window_start < WINDOW_SIZE {
            len
        } else {
            window_start + WINDOW_SIZE
        };
        let mut i = window_start;
        while i < window_end
            invariant
                len == old(data)@.len(),
                data@.len() == len,
                window_start <= i <= window_end <= len,
                forall|j: int| 0 <= j < i ==> data@[j] == dec_byte(old(data)@[j]),
                forall|j: int| i <= j < len ==> data@[j] == old(data)@[j],
            decreases window_end - i,
        {
            let b = data[i];
            data[i] = if b == 0 {
                255
            } else {
                b - 1
            };
            i = i + 1;
        }
        window_start = window_end;
    }
    assert(data@ =~= dec_seq(old(data)@));
}

/// Where the background task stands in its perpetual cycle.
#[derive(Clone, Copy, Debug, PartialEq, Eq, Structural)]
pub enum KeeperPhase {
    Incrementing,
    WaitingAfterIncrement,
    Decrementing,
    WaitingAfterDecrement,
}

/// What the driver of the task must do after a step.
#[derive(Clone, Copy, Debug, PartialEq, Eq, Structural)]
pub enum KeeperAction {
    /// The buffer was mutated under exclusive access; go on at once.
    Mutated,
    /// Suspend the task for this many milliseconds, without holding the lock.
    Sleep(u64),
}

/// The cyclic successor of each phase; there is no terminal phase.
pub open spec fn next_phase(p: KeeperPhase) -> KeeperPhase {
    match p {
        KeeperPhase::Incrementing => KeeperPhase::WaitingAfterIncrement,
        KeeperPhase::WaitingAfterIncrement => KeeperPhase::Decrementing,
        KeeperPhase::Decrementing => KeeperPhase::WaitingAfterDecrement,
        KeeperPhase::WaitingAfterDecrement => KeeperPhase::Incrementing,
    }
}

/// What one step in a given phase does to the buffer.
pub open spec fn phase_effect(p: KeeperPhase, s: Seq<u8>) -> Seq<u8> {
    match p {
        KeeperPhase::Incrementing => inc_seq(s),
        KeeperPhase::Decrementing => dec_seq(s),
        _ => s,
    }
}

/// What the driver is told to do after a step in a given phase.
pub open spec fn phase_action(p: KeeperPhase) -> KeeperAction {
    match p {
        KeeperPhase::Incrementing => KeeperAction::Mutated,
        KeeperPhase::Decrementing => KeeperAction::Mutated,
        _ => KeeperAction::Sleep(PAUSE_MILLISECONDS),
    }
}

/// One step of the background task's state machine: perform the phase's whole
/// pass (if any) under the exclusive access the caller already holds, and say
/// what comes next. Driving this forever from `KeeperPhase::Incrementing`
/// yields increment pass, pause, decrement pass, pause, without end.
pub fn keeper_step(phase: KeeperPhase, data: &mut Vec<u8>) -> (r: (KeeperPhase, KeeperAction))
    ensures
        final(data)@ == phase_effect(phase, old(data)@),
        r.0 == next_phase(phase),
        r.1 == phase_action(phase),
{
    match phase {
        KeeperPhase::Incrementing => {
            increment_pass(data);
            (KeeperPhase::WaitingAfterIncrement, KeeperAction::Mutated)
        },
        KeeperPhase::WaitingAfterIncrement => (
            KeeperPhase::Decrementing,
            KeeperAction::Sleep(PAUSE_MILLISECONDS),
        ),
        KeeperPhase::Decrementing => {
            decrement_pass(data);
            (KeeperPhase::WaitingAfterDecrement, KeeperAction::Mutated)
        },
        KeeperPhase::WaitingAfterDecrement => (
            KeeperPhase::Incrementing,
            KeeperAction::Sleep(PAUSE_MILLISECONDS),
        ),
    }
}

/// Decrementing a byte undoes incrementing it.
pub proof fn lemma_inc_dec_inverse(b: u8)
    ensures
        dec_byte(inc_byte(b)) == b,
{
}

/// One full increment pass followed by one full decrement pass restores every
/// byte of the buffer to its value before the cycle began.
pub proof fn lemma_cycle_restores(s: Seq<u8>)
    ensures
        dec_seq(inc_seq(s)) == s,
{
    assert(dec_seq(inc_seq(s)) =~= s);
}

/// A whole cycle of the state machine, started at `Incrementing`, returns
/// both the buffer and the phase to where they began.
pub proof fn lemma_full_cycle(s: Seq<u8>)
    ensures
        phase_effect(
            KeeperPhase::WaitingAfterDecrement,
            phase_effect(
                KeeperPhase::Decrementing,
                phase_effect(
                    KeeperPhase::WaitingAfterIncrement,
                    phase_effect(KeeperPhase::Incrementing, s),
                ),
            ),
        ) == s,
        next_phase(next_phase(next_phase(next_phase(KeeperPhase::Incrementing))))
            == KeeperPhase::Incrementing,
{
    lemma_cycle_restores(s);
}

} // verus!
