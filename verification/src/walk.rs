//! The walk along a frame-pointer chain, as a state machine.
//!
//! On x86_64 a function that keeps a frame pointer begins by pushing the
//! frame pointer of its caller and pointing the register at that slot. The
//! word at the frame pointer is therefore the frame pointer of the caller,
//! and the word eight bytes above it is the address the function returns to.
//!
//! The walker holds the current frame pointer and the number of frames it may
//! still yield, and nothing else. One move takes it from one state to the
//! next and says what it wants done: a word read, a frame handed out, or
//! nothing more.

use vstd::prelude::*;
use crate::frame::{FrameAddress, RegisterSnapshot};
use crate::memory::read_outcome;

verus! {

/// Why a walk ended.
#[derive(Clone, Copy, Debug, PartialEq, Eq, Structural)]
pub enum StopReason {
    /// The frame pointer became null: the outermost frame was passed.
    EndOfStack,
    /// The frame limit was reached.
    FrameLimit,
    /// The frame pointer is not a multiple of eight: the chain is corrupted.
    /// Such a frame pointer is never read through.
    CorruptedStack,
    /// A frame slot could not be read, or would lie beyond the end of the
    /// address space.
    ReadFault,
}

/// What the walker is told when it is asked for its next action.
#[derive(Clone, Copy, Debug, PartialEq, Eq, Structural)]
pub enum WalkEvent {
    /// Nothing: the walker is free to go on.
    Resume,
    /// The word that the requested read found.
    Word(u64),
    /// The requested read failed.
    Fault,
}

/// What the walker wants done next.
#[derive(Clone, Copy, Debug, PartialEq, Eq, Structural)]
pub enum WalkAction {
    /// Read the word at this address and report it with the next event.
    Read(u64),
    /// Hand this frame to the consumer.
    Yield(FrameAddress),
    /// The walk is over.
    Stop(StopReason),
}

/// Where a walk stands. `budget` counts the return addresses it may still
/// yield.
#[derive(Clone, Copy, Debug, PartialEq, Eq, Structural)]
pub enum WalkState {
    /// Nothing yielded yet.
    Start { instruction_pointer: u64, frame_pointer: u64, budget: u64 },
    /// About to look at the frame at `frame_pointer`.
    AtFrame { frame_pointer: u64, budget: u64 },
    /// Waiting for the return-address slot of the frame.
    AwaitReturn { frame_pointer: u64, budget: u64 },
    /// The frame's return address was yielded; its link is still to be read.
    Yielded { frame_pointer: u64, budget: u64 },
    /// Waiting for the saved frame pointer of the frame.
    AwaitLink { frame_pointer: u64, budget: u64 },
    /// Over.
    Done(StopReason),
}

/// Both slots of the frame at `frame_pointer` have addresses that can be
/// asked for: the frame pointer is not null, is aligned, and the slot eight
/// bytes above it exists.
pub open spec fn frame_readable(frame_pointer: u64) -> bool {
    frame_pointer != 0 && frame_pointer % 8 == 0 && frame_pointer <= u64::MAX - 8
}

/// The states in which a frame is being read always hold a readable frame and
/// room for it in the budget.
pub open spec fn state_ok(state: WalkState) -> bool {
    match state {
        WalkState::AwaitReturn { frame_pointer, budget } => frame_readable(frame_pointer)
            && budget > 0,
        WalkState::Yielded { frame_pointer, budget } => frame_readable(frame_pointer) && budget
            > 0,
        WalkState::AwaitLink { frame_pointer, budget } => frame_readable(frame_pointer) && budget
            > 0,
        _ => true,
    }
}

/// The first thing to do about the frame at `frame_pointer`: stop, or ask for
/// its return-address slot.
pub open spec fn enter_frame(frame_pointer: u64, budget: u64) -> (WalkState, WalkAction) {
    if frame_pointer == 0 {
        (WalkState::Done(StopReason::EndOfStack), WalkAction::Stop(StopReason::EndOfStack))
    } else if budget == 0 {
        (WalkState::Done(StopReason::FrameLimit), WalkAction::Stop(StopReason::FrameLimit))
    } else if frame_pointer % 8 != 0 {
        (WalkState::Done(StopReason::CorruptedStack), WalkAction::Stop(StopReason::CorruptedStack))
    } else if frame_pointer > u64::MAX - 8 {
        (WalkState::Done(StopReason::ReadFault), WalkAction::Stop(StopReason::ReadFault))
    } else {
        (
            WalkState::AwaitReturn { frame_pointer, budget },
            WalkAction::Read((frame_pointer + 8) as u64),
        )
    }
}

/// One move of the walker: the state it goes to and what it asks for.
///
/// A read result is taken only by a state that waits for one; a waiting state
/// that is merely resumed asks for the same read again.
pub open spec fn transition(state: WalkState, event: WalkEvent) -> (WalkState, WalkAction) {
    match state {
        WalkState::Start { instruction_pointer, frame_pointer, budget } => (
            WalkState::AtFrame { frame_pointer, budget },
            WalkAction::Yield(FrameAddress::InstructionPointer(instruction_pointer)),
        ),
        WalkState::AtFrame { frame_pointer, budget } => enter_frame(frame_pointer, budget),
        WalkState::AwaitReturn { frame_pointer, budget } => match event {
            WalkEvent::Resume => (state, WalkAction::Read((frame_pointer + 8) as u64)),
            WalkEvent::Word(word) => (
                WalkState::Yielded { frame_pointer, budget },
                WalkAction::Yield(FrameAddress::ReturnAddress(word)),
            ),
            WalkEvent::Fault => (
                WalkState::Done(StopReason::ReadFault),
                WalkAction::Stop(StopReason::ReadFault),
            ),
        },
        WalkState::Yielded { frame_pointer, budget } => (
            WalkState::AwaitLink { frame_pointer, budget },
            WalkAction::Read(frame_pointer),
        ),
        WalkState::AwaitLink { frame_pointer, budget } => match event {
            WalkEvent::Resume => (state, WalkAction::Read(frame_pointer)),
            WalkEvent::Word(word) => enter_frame(word, (budget - 1) as u64),
            WalkEvent::Fault => (
                WalkState::Done(StopReason::ReadFault),
                WalkAction::Stop(StopReason::ReadFault),
            ),
        },
        WalkState::Done(reason) => (state, WalkAction::Stop(reason)),
    }
}

/// The return addresses found by following the frame-pointer chain from
/// `frame_pointer` through `memory`, innermost first, at most `budget` of
/// them.
///
/// A frame contributes the word eight bytes above its frame pointer; the word
/// at the frame pointer leads to the next frame. The chain ends at a null or
/// misaligned frame pointer, at a slot that `memory` does not hold, and when
/// the budget is used up.
pub open spec fn return_addresses(frame_pointer: u64, memory: Map<u64, u64>, budget: nat) -> Seq<
    FrameAddress,
>
    decreases budget,
{
    if budget == 0 || !frame_readable(frame_pointer) || !memory.contains_key(
        (frame_pointer + 8) as u64,
    ) {
        Seq::empty()
    } else {
        seq![FrameAddress::ReturnAddress(memory[(frame_pointer + 8) as u64])] + outer_frames(
            frame_pointer,
            memory,
            budget,
        )
    }
}

/// The return addresses of the frames outside the one at `frame_pointer`.
pub open spec fn outer_frames(frame_pointer: u64, memory: Map<u64, u64>, budget: nat) -> Seq<
    FrameAddress,
>
    decreases budget, 0nat,
    when budget > 0
{
    if memory.contains_key(frame_pointer) {
        return_addresses(memory[frame_pointer], memory, (budget - 1) as nat)
    } else {
        Seq::empty()
    }
}

/// The whole walk from `registers` through `memory`: the instruction pointer,
/// then the return addresses of the chain.
pub open spec fn walk(registers: RegisterSnapshot, memory: Map<u64, u64>, limit: u64) -> Seq<
    FrameAddress,
> {
    seq![FrameAddress::InstructionPointer(registers.instruction_pointer)] + return_addresses(
        registers.frame_pointer,
        memory,
        limit as nat,
    )
}

/// Why following the chain from `frame_pointer` through `memory` ends.
pub open spec fn chain_end(frame_pointer: u64, memory: Map<u64, u64>, budget: nat) -> StopReason
    decreases budget,
{
    if frame_pointer == 0 {
        StopReason::EndOfStack
    } else if budget == 0 {
        StopReason::FrameLimit
    } else if frame_pointer % 8 != 0 {
        StopReason::CorruptedStack
    } else if frame_pointer > u64::MAX - 8 || !memory.contains_key((frame_pointer + 8) as u64)
        || !memory.contains_key(frame_pointer) {
        StopReason::ReadFault
    } else {
        chain_end(memory[frame_pointer], memory, (budget - 1) as nat)
    }
}

/// The frames still to come from `state` when reads are answered from
/// `memory`.
pub open spec fn remaining(state: WalkState, memory: Map<u64, u64>) -> Seq<FrameAddress> {
    match state {
        WalkState::Start { instruction_pointer, frame_pointer, budget } => seq![
            FrameAddress::InstructionPointer(instruction_pointer),
        ] + return_addresses(frame_pointer, memory, budget as nat),
        WalkState::AtFrame { frame_pointer, budget } => return_addresses(
            frame_pointer,
            memory,
            budget as nat,
        ),
        WalkState::AwaitReturn { frame_pointer, budget } => return_addresses(
            frame_pointer,
            memory,
            budget as nat,
        ),
        WalkState::Yielded { frame_pointer, budget } => outer_frames(
            frame_pointer,
            memory,
            budget as nat,
        ),
        WalkState::AwaitLink { frame_pointer, budget } => outer_frames(
            frame_pointer,
            memory,
            budget as nat,
        ),
        WalkState::Done(_) => Seq::empty(),
    }
}

/// Why the walk from `state` ends when reads are answered from `memory`.
pub open spec fn final_stop(state: WalkState, memory: Map<u64, u64>) -> StopReason {
    match state {
        WalkState::Start { instruction_pointer, frame_pointer, budget } => chain_end(
            frame_pointer,
            memory,
            budget as nat,
        ),
        WalkState::AtFrame { frame_pointer, budget } => chain_end(
            frame_pointer,
            memory,
            budget as nat,
        ),
        WalkState::AwaitReturn { frame_pointer, budget } => chain_end(
            frame_pointer,
            memory,
            budget as nat,
        ),
        WalkState::Yielded { frame_pointer, budget } => if memory.contains_key(frame_pointer) {
            chain_end(memory[frame_pointer], memory, (budget - 1) as nat)
        } else {
            StopReason::ReadFault
        },
        WalkState::AwaitLink { frame_pointer, budget } => if memory.contains_key(frame_pointer) {
            chain_end(memory[frame_pointer], memory, (budget - 1) as nat)
        } else {
            StopReason::ReadFault
        },
        WalkState::Done(reason) => reason,
    }
}

/// The event that answers `action` from `memory`: the outcome of the read it
/// asks for, and nothing where it asks for none.
pub open spec fn answer(action: WalkAction, memory: Map<u64, u64>) -> WalkEvent {
    match action {
        WalkAction::Read(address) => match read_outcome(memory, address) {
            Ok(word) => WalkEvent::Word(word),
            Err(_) => WalkEvent::Fault,
        },
        _ => WalkEvent::Resume,
    }
}

/// The address of the read that `state` waits for, if it waits for one.
pub open spec fn awaited_read(state: WalkState) -> Option<u64> {
    match state {
        WalkState::AwaitReturn { frame_pointer, budget } => Some((frame_pointer + 8) as u64),
        WalkState::AwaitLink { frame_pointer, budget } => Some(frame_pointer),
        _ => None,
    }
}

/// `event` may be given to `state` in a walk through `memory`: where it
/// brings a read result, `state` waits for a read and that is what `memory`
/// answers to it.
pub open spec fn answers(event: WalkEvent, state: WalkState, memory: Map<u64, u64>) -> bool {
    event is Resume || (awaited_read(state) matches Some(address) && event == answer(
        WalkAction::Read(address),
        memory,
    ))
}

/// A bound on the moves from `state` to the next frame or the end.
pub open spec fn moves_left(state: WalkState, event: WalkEvent) -> nat {
    match state {
        WalkState::Start { .. } => 1,
        WalkState::AtFrame { .. } => 3,
        WalkState::AwaitReturn { .. } => if event is Resume {
            2
        } else {
            1
        },
        WalkState::Yielded { .. } => 6,
        WalkState::AwaitLink { .. } => if event is Resume {
            5
        } else {
            4
        },
        WalkState::Done(_) => 1,
    }
}

} // verus!
