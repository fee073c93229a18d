//! Unwinders and the walks they begin.

use vstd::prelude::*;
use crate::frame::{FrameAddress, RegisterSnapshot};
use crate::framehop_walk::{framehop_walk, unwind_by_framehop};
use crate::memory::StackImage;
use crate::walk::{
    answers, chain_end, enter_frame, final_stop, moves_left, outer_frames, remaining,
    return_addresses, state_ok, transition, walk, StopReason, WalkAction, WalkEvent, WalkState,
};

verus! {

/// How many return addresses a walk yields at most, unless told otherwise.
/// The bound keeps a walk finite on a frame-pointer chain that loops.
pub const DEFAULT_MAX_FRAMES: u64 = 1_048_576;

/// Settings of an unwinder.
#[derive(Clone, Copy, Debug)]
pub struct UnwindBuilderX86_64 {
    max_frames: u64,
}

impl UnwindBuilderX86_64 {
    /// The frame limit that the built unwinder will have.
    pub closed spec fn frame_limit(self) -> u64 {
        self.max_frames
    }

    /// A builder with the default frame limit.
    pub fn new() -> (builder: Self)
        ensures
            builder.frame_limit() == DEFAULT_MAX_FRAMES,
    {
        UnwindBuilderX86_64 { max_frames: DEFAULT_MAX_FRAMES }
    }

    /// The same builder with the frame limit set to `max_frames`.
    pub fn max_frames(self, max_frames: u64) -> (builder: Self)
        ensures
            builder.frame_limit() == max_frames,
    {
        UnwindBuilderX86_64 { max_frames }
    }

    /// The unwinder with these settings.
    pub fn build(self) -> (unwinder: StackUnwinderX86_64)
        ensures
            unwinder.frame_limit() == self.frame_limit(),
    {
        StackUnwinderX86_64 { max_frames: self.max_frames }
    }
}

impl Default for UnwindBuilderX86_64 {
    fn default() -> (builder: Self)
        ensures
            builder.frame_limit() == DEFAULT_MAX_FRAMES,
    {
        UnwindBuilderX86_64 { max_frames: DEFAULT_MAX_FRAMES }
    }
}

/// Walks frame-pointer chains on x86_64.
#[derive(Debug)]
pub struct StackUnwinderX86_64 {
    max_frames: u64,
}

impl StackUnwinderX86_64 {
    /// The number of return addresses that one walk yields at most.
    pub closed spec fn frame_limit(self) -> u64 {
        self.max_frames
    }

    /// Begins a walk from `registers`. Nothing is read yet.
    pub fn unwind(&mut self, registers: RegisterSnapshot) -> (frames: UnwindIterator)
        ensures
            *final(self) == *old(self),
            frames@ == (WalkState::Start {
                instruction_pointer: registers.instruction_pointer,
                frame_pointer: registers.frame_pointer,
                budget: old(self).frame_limit(),
            }),
    {
        self.begin(registers)
    }

    fn begin(&self, registers: RegisterSnapshot) -> (frames: UnwindIterator)
        ensures
            frames@ == (WalkState::Start {
                instruction_pointer: registers.instruction_pointer,
                frame_pointer: registers.frame_pointer,
                budget: self.frame_limit(),
            }),
    {
        UnwindIterator {
            state: WalkState::Start {
                instruction_pointer: registers.instruction_pointer,
                frame_pointer: registers.frame_pointer,
                budget: self.max_frames,
            },
        }
    }

    /// Walks from `registers` through `memory` to the end and returns every
    /// frame, innermost first, with the reason the walk ended.
    pub fn unwind_all(&self, registers: RegisterSnapshot, memory: &StackImage) -> (found: (
        Vec<FrameAddress>,
        StopReason,
    ))
        ensures
            found.0@ == walk(registers, memory@, self.frame_limit()),
            found.1 == chain_end(registers.frame_pointer, memory@, self.frame_limit() as nat),
    {
        let mut frames = self.begin(registers);
        let mut found: Vec<FrameAddress> = Vec::new();
        loop
            invariant
                found@ + remaining(frames@, memory@) == walk(
                    registers,
                    memory@,
                    self.frame_limit(),
                ),
                final_stop(frames@, memory@) == chain_end(
                    registers.frame_pointer,
                    memory@,
                    self.frame_limit() as nat,
                ),
            decreases remaining(frames@, memory@).len(),
        {
            match frames.advance(memory) {
                Ok(frame) => {
                    found.push(frame);
                },
                Err(reason) => {
                    return (found, reason);
                },
            }
        }
    }

    /// Walks from `registers` through `memory` as the `framehop` crate
    /// unwinds it, and returns every frame, innermost first.
    pub fn unwind_all_by_framehop(&self, registers: RegisterSnapshot, memory: &StackImage) -> (frames:
        Vec<FrameAddress>)
        ensures
            frames@ == framehop_walk(registers, memory@, self.frame_limit()),
    {
        unwind_by_framehop(registers, memory, self.max_frames)
    }
}

/// A walk in progress. It is single-pass: a fresh walk needs a fresh register
/// snapshot.
///
/// The walker itself reads nothing. It says which word it needs and is told
/// what the read found, so that the same steps serve live memory and a copy
/// of it.
#[derive(Debug)]
pub struct UnwindIterator {
    state: WalkState,
}

impl View for UnwindIterator {
    type V = WalkState;

    closed spec fn view(&self) -> WalkState {
        self.state
    }
}

impl UnwindIterator {
    #[verifier::type_invariant]
    spec fn well_formed(self) -> bool {
        state_ok(self.state)
    }

    /// Makes one move: takes `event`, changes state and says what to do next.
    ///
    /// Every read it asks for is of an aligned address.
    pub fn step(&mut self, event: WalkEvent) -> (action: WalkAction)
        ensures
            (final(self)@, action) == transition(old(self)@, event),
            state_ok(old(self)@),
            state_ok(final(self)@),
            action matches WalkAction::Read(address) ==> address % 8 == 0,
    {
        proof {
            use_type_invariant(&*self);
        }
        let (next, action) = match self.state {
            WalkState::Start { instruction_pointer, frame_pointer, budget } => (
                WalkState::AtFrame { frame_pointer, budget },
                WalkAction::Yield(FrameAddress::InstructionPointer(instruction_pointer)),
            ),
            WalkState::AtFrame { frame_pointer, budget } => Self::enter(frame_pointer, budget),
            WalkState::AwaitReturn { frame_pointer, budget } => match event {
                WalkEvent::Resume => (self.state, WalkAction::Read(frame_pointer + 8)),
                WalkEvent::Word(word) => (
                    WalkState::Yielded { frame_pointer, budget },
                    WalkAction::Yield(FrameAddress::ReturnAddress(word)),
                ),
                WalkEvent::Fault => (
                    WalkState::Done(StopReason::ReadFault),
                    WalkAction::Stop(StopReason::ReadFault),
                ),
            },
            WalkState::Yielded { frame_pointer, budget } => (
                WalkState::AwaitLink { frame_pointer, budget },
                WalkAction::Read(frame_pointer),
            ),
            WalkState::AwaitLink { frame_pointer, budget } => match event {
                WalkEvent::Resume => (self.state, WalkAction::Read(frame_pointer)),
                WalkEvent::Word(word) => Self::enter(word, budget - 1),
                WalkEvent::Fault => (
                    WalkState::Done(StopReason::ReadFault),
                    WalkAction::Stop(StopReason::ReadFault),
                ),
            },
            WalkState::Done(reason) => (self.state, WalkAction::Stop(reason)),
        };
        self.state = next;
        action
    }

    fn enter(frame_pointer: u64, budget: u64) -> (moved: (WalkState, WalkAction))
        ensures
            moved == enter_frame(frame_pointer, budget),
            state_ok(moved.0),
            moved.1 matches WalkAction::Read(address) ==> address % 8 == 0,
    {
        if frame_pointer == 0 {
            (WalkState::Done(StopReason::EndOfStack), WalkAction::Stop(StopReason::EndOfStack))
        } else if budget == 0 {
            (WalkState::Done(StopReason::FrameLimit), WalkAction::Stop(StopReason::FrameLimit))
        } else if frame_pointer % 8 != 0 {
            (
                WalkState::Done(StopReason::CorruptedStack),
                WalkAction::Stop(StopReason::CorruptedStack),
            )
        } else if frame_pointer > u64::MAX - 8 {
            (WalkState::Done(StopReason::ReadFault), WalkAction::Stop(StopReason::ReadFault))
        } else {
            (WalkState::AwaitReturn { frame_pointer, budget }, WalkAction::Read(frame_pointer + 8))
        }
    }

    /// The next frame of the walk through `memory`, or the reason why the
    /// walk is over.
    pub fn advance(&mut self, memory: &StackImage) -> (frame: Result<FrameAddress, StopReason>)
        ensures
            match frame {
                Ok(f) => {
                    &&& remaining(old(self)@, memory@).len() > 0
                    &&& f == remaining(old(self)@, memory@)[0]
                    &&& remaining(final(self)@, memory@) == remaining(old(self)@, memory@).skip(1)
                },
                Err(reason) => {
                    &&& remaining(old(self)@, memory@).len() == 0
                    &&& reason == final_stop(old(self)@, memory@)
                    &&& final(self)@ == WalkState::Done(reason)
                },
            },
            final_stop(final(self)@, memory@) == final_stop(old(self)@, memory@),
    {
        let mut event = WalkEvent::Resume;
        loop
            invariant
                remaining(self@, memory@) == remaining(old(self)@, memory@),
                final_stop(self@, memory@) == final_stop(old(self)@, memory@),
                answers(event, self@, memory@),
            decreases moves_left(self@, event),
        {
            proof {
                use_type_invariant(&*self);
                reveal_with_fuel(return_addresses, 2);
                reveal_with_fuel(chain_end, 2);
            }
            let ghost before = self@;
            match self.step(event) {
                WalkAction::Read(address) => {
                    event =
                    match memory.read_word(address) {
                        Ok(word) => WalkEvent::Word(word),
                        Err(_) => WalkEvent::Fault,
                    };
                },
                WalkAction::Yield(frame) => {
                    proof {
                        let rest = remaining(before, memory@);
                        match before {
                            WalkState::Start { instruction_pointer, frame_pointer, budget } => {
                                assert(rest.skip(1) =~= return_addresses(
                                    frame_pointer,
                                    memory@,
                                    budget as nat,
                                ));
                            },
                            WalkState::AwaitReturn { frame_pointer, budget } => {
                                assert(rest.skip(1) =~= outer_frames(
                                    frame_pointer,
                                    memory@,
                                    budget as nat,
                                ));
                            },
                            _ => {},
                        }
                    }
                    return Ok(frame);
                },
                WalkAction::Stop(reason) => {
                    return Err(reason);
                },
            }
        }
    }

    /// The next frame of the walk through `memory`, or `None` when the walk
    /// is over.
    pub fn next(&mut self, memory: &StackImage) -> (frame: Option<FrameAddress>)
        ensures
            match frame {
                Some(f) => {
                    &&& remaining(old(self)@, memory@).len() > 0
                    &&& f == remaining(old(self)@, memory@)[0]
                    &&& remaining(final(self)@, memory@) == remaining(old(self)@, memory@).skip(1)
                },
                None => {
                    &&& remaining(old(self)@, memory@).len() == 0
                    &&& final(self)@ == WalkState::Done(final_stop(old(self)@, memory@))
                },
            },
            final_stop(final(self)@, memory@) == final_stop(old(self)@, memory@),
    {
        match self.advance(memory) {
            Ok(frame) => Some(frame),
            Err(_) => None,
        }
    }

    /// Why the walk ended, once it has.
    pub fn stop_reason(&self) -> (reason: Option<StopReason>)
        ensures
            reason == match self@ {
                WalkState::Done(r) => Some(r),
                _ => None,
            },
    {
        match self.state {
            WalkState::Done(r) => Some(r),
            _ => None,
        }
    }
}

} // verus!
