//! The walk through a copy of the stack as the `framehop` crate unwinds it.
//!
//! `framehop` knows nothing of the code here, so it unwinds every frame by
//! its rule for frames with a frame pointer. That rule is stricter than the
//! plain walk of [`crate::walk`]: it follows the stack pointer too and gives
//! up where a frame does not lie above it, it reads the link of a frame
//! before its return address and yields nothing where either cannot be
//! read, and it takes a null return address for the end of the stack.
//!
//! What `framehop` finds for one frame is taken on trust. Going from frame to
//! frame, and no further than the frame limit, is done and verified here.

use vstd::prelude::*;
use framehop::x86_64::{CacheX86_64, UnwindRegsX86_64, UnwinderX86_64};
use framehop::Unwinder;
use crate::frame::{FrameAddress, RegisterSnapshot};
use crate::memory::StackImage;

verus! {

/// What `framehop` finds when it unwinds one frame with no module known to
/// it: the return address and the stack pointer and frame pointer of the
/// caller, or nothing.
///
/// The frame is the innermost one if `first`, and is known by `address`; the
/// registers are those of the frame; reads are answered from `memory`.
pub uninterp spec fn framehop_frame(
    first: bool,
    address: u64,
    stack_pointer: u64,
    frame_pointer: u64,
    memory: Map<u64, u64>,
) -> Option<(u64, u64, u64)>;

/// A frame with the registers that lead on from it.
#[derive(Clone, Copy, Debug, PartialEq, Eq, Structural)]
pub struct Activation {
    pub frame: FrameAddress,
    pub stack_pointer: u64,
    pub frame_pointer: u64,
}

impl Activation {
    /// Whether the frame can be unwound from: a return address that is null
    /// is the address of no frame.
    pub open spec fn usable(self) -> bool {
        self.frame is InstructionPointer || self.frame.spec_address() != 0
    }
}

/// `Unwinder::unwind_frame` of `framehop`, on a fresh `UnwinderX86_64` with
/// a fresh cache, with reads answered by `memory`.
///
/// The claim is that the outcome depends on the frame, the two registers
/// and the words of `memory` alone, and is what [`framehop_frame`] names.
/// An error and the end of the stack both come out as `None`.
#[verifier::external_body]
fn unwind_frame(frame: FrameAddress, stack_pointer: u64, frame_pointer: u64, memory: &StackImage)
    -> (found: Option<(u64, u64, u64)>)
    requires
        frame is InstructionPointer || frame.spec_address() != 0,
    ensures
        found == framehop_frame(
            frame is InstructionPointer,
            frame.spec_address(),
            stack_pointer,
            frame_pointer,
            memory@,
        ),
{
    let address = match frame {
        FrameAddress::InstructionPointer(a) => framehop::FrameAddress::from_instruction_pointer(a),
        FrameAddress::ReturnAddress(a) => framehop::FrameAddress::from_return_address(a).unwrap(),
    };
    let unwinder: UnwinderX86_64<Vec<u8>> = UnwinderX86_64::new();
    let mut cache = CacheX86_64::<_>::new();
    let mut regs = UnwindRegsX86_64::new(address.address(), stack_pointer, frame_pointer);
    let mut read = |at: u64| memory.read_word(at).map_err(|_| ());
    let found = unwinder.unwind_frame(address, &mut regs, &mut cache, &mut read);
    found.ok().flatten().map(|return_address| (return_address, regs.sp(), regs.bp()))
}

/// The caller that an unwound frame leads to: the frame of the return
/// address with the registers found, and none where nothing was found or the
/// return address is null.
pub open spec fn caller(found: Option<(u64, u64, u64)>) -> Option<Activation> {
    match found {
        Some((return_address, stack_pointer, frame_pointer)) => if return_address == 0 {
            None
        } else {
            Some(
                Activation {
                    frame: FrameAddress::ReturnAddress(return_address),
                    stack_pointer,
                    frame_pointer,
                },
            )
        },
        None => None,
    }
}

/// The caller that an unwound frame leads to.
pub fn caller_of(found: Option<(u64, u64, u64)>) -> (next: Option<Activation>)
    ensures
        next == caller(found),
        next matches Some(activation) ==> activation.usable(),
{
    match found {
        Some((return_address, stack_pointer, frame_pointer)) => if return_address == 0 {
            None
        } else {
            Some(
                Activation {
                    frame: FrameAddress::ReturnAddress(return_address),
                    stack_pointer,
                    frame_pointer,
                },
            )
        },
        None => None,
    }
}

/// The caller of `from`, as `framehop` finds it in `memory`.
pub open spec fn caller_in(from: Activation, memory: Map<u64, u64>) -> Option<Activation> {
    caller(
        framehop_frame(
            from.frame is InstructionPointer,
            from.frame.spec_address(),
            from.stack_pointer,
            from.frame_pointer,
            memory,
        ),
    )
}

/// The return addresses of the frames outside `from`, innermost first, at
/// most `budget` of them.
pub open spec fn callers(from: Activation, memory: Map<u64, u64>, budget: nat) -> Seq<FrameAddress>
    decreases budget,
{
    if budget == 0 || !from.usable() {
        Seq::empty()
    } else {
        match caller_in(from, memory) {
            Some(next) => seq![next.frame] + callers(next, memory, (budget - 1) as nat),
            None => Seq::empty(),
        }
    }
}

/// The innermost frame of a walk from `registers`.
pub open spec fn innermost(registers: RegisterSnapshot) -> Activation {
    Activation {
        frame: FrameAddress::InstructionPointer(registers.instruction_pointer),
        stack_pointer: registers.stack_pointer,
        frame_pointer: registers.frame_pointer,
    }
}

/// The whole walk from `registers` through `memory` as `framehop` unwinds
/// it: the instruction pointer, then at most `limit` return addresses.
pub open spec fn framehop_walk(registers: RegisterSnapshot, memory: Map<u64, u64>, limit: u64)
    -> Seq<FrameAddress> {
    seq![FrameAddress::InstructionPointer(registers.instruction_pointer)] + callers(
        innermost(registers),
        memory,
        limit as nat,
    )
}

/// Walks from `registers` through `memory` as `framehop` unwinds it and
/// returns every frame, innermost first, at most `limit` return addresses
/// among them.
pub fn unwind_by_framehop(registers: RegisterSnapshot, memory: &StackImage, limit: u64) -> (frames:
    Vec<FrameAddress>)
    ensures
        frames@ == framehop_walk(registers, memory@, limit),
{
    let mut frames: Vec<FrameAddress> = Vec::new();
    frames.push(FrameAddress::InstructionPointer(registers.instruction_pointer));
    let mut at = Activation {
        frame: FrameAddress::InstructionPointer(registers.instruction_pointer),
        stack_pointer: registers.stack_pointer,
        frame_pointer: registers.frame_pointer,
    };
    let mut left: u64 = limit;
    while left > 0
        invariant
            at.usable(),
            frames@ + callers(at, memory@, left as nat) == framehop_walk(
                registers,
                memory@,
                limit,
            ),
        decreases left,
    {
        let ghost before = frames@;
        let ghost rest = callers(at, memory@, left as nat);
        let found = unwind_frame(at.frame, at.stack_pointer, at.frame_pointer, memory);
        match caller_of(found) {
            Some(next) => {
                frames.push(next.frame);
                left -= 1;
                proof {
                    assert(frames@ + callers(next, memory@, left as nat) =~= before + rest);
                }
                at = next;
            },
            None => {
                proof {
                    assert(before + rest =~= before);
                }
                return frames;
            },
        }
    }
    proof {
        assert(frames@ + callers(at, memory@, 0) =~= frames@);
    }
    frames
}

/// A walk by `framehop` begins with the instruction pointer, continues with
/// return addresses that are not null, and holds at most `limit` of those.
pub proof fn lemma_framehop_walk_tags(registers: RegisterSnapshot, memory: Map<u64, u64>, limit: u64)
    ensures
        framehop_walk(registers, memory, limit)[0] == FrameAddress::InstructionPointer(
            registers.instruction_pointer,
        ),
        1 <= framehop_walk(registers, memory, limit).len() <= limit + 1,
        forall|i: int|
            1 <= i < framehop_walk(registers, memory, limit).len() ==> {
                let frame = #[trigger] framehop_walk(registers, memory, limit)[i];
                frame is ReturnAddress && frame.spec_address() != 0
            },
{
    let rest = callers(innermost(registers), memory, limit as nat);
    lemma_callers_shape(innermost(registers), memory, limit as nat);
    assert forall|i: int| 1 <= i < framehop_walk(registers, memory, limit).len() implies {
        let frame = #[trigger] framehop_walk(registers, memory, limit)[i];
        frame is ReturnAddress && frame.spec_address() != 0
    } by {
        assert(framehop_walk(registers, memory, limit)[i] == rest[i - 1]);
    }
}

proof fn lemma_callers_shape(from: Activation, memory: Map<u64, u64>, budget: nat)
    ensures
        callers(from, memory, budget).len() <= budget,
        forall|i: int|
            0 <= i < callers(from, memory, budget).len() ==> {
                let frame = #[trigger] callers(from, memory, budget)[i];
                frame is ReturnAddress && frame.spec_address() != 0
            },
    decreases budget,
{
    let all = callers(from, memory, budget);
    if all.len() > 0 {
        let next = caller_in(from, memory)->Some_0;
        let rest = callers(next, memory, (budget - 1) as nat);
        lemma_callers_shape(next, memory, (budget - 1) as nat);
        assert forall|i: int| 0 <= i < all.len() implies {
            let frame = #[trigger] all[i];
            frame is ReturnAddress && frame.spec_address() != 0
        } by {
            if i > 0 {
                assert(all[i] == rest[i - 1]);
            }
        }
    }
}

} // verus!
