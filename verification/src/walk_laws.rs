//! What holds of every walk along a frame-pointer chain: how it begins, how
//! its frames are tagged, where their addresses come from, how long it is
//! at least and at most, and that one move of the walker keeps to it.

use vstd::prelude::*;
use crate::frame::{FrameAddress, RegisterSnapshot};
use crate::walk::{
    answers, awaited_read, frame_readable, outer_frames, remaining, return_addresses, state_ok,
    transition, walk, WalkAction, WalkEvent, WalkState,
};

verus! {

/// `depth` frames are linked from `frame_pointer`: each has a readable
/// return-address slot, and each but the last has a readable link to the
/// next.
pub open spec fn linked_frames(frame_pointer: u64, memory: Map<u64, u64>, depth: nat) -> bool
    decreases depth,
{
    depth == 0 || (frame_readable(frame_pointer) && memory.contains_key((frame_pointer + 8) as u64)
        && (depth == 1 || (memory.contains_key(frame_pointer) && linked_frames(
        memory[frame_pointer],
        memory,
        (depth - 1) as nat,
    ))))
}

/// A walk always begins with the instruction pointer of the snapshot it
/// started from.
pub proof fn lemma_walk_starts_at_instruction_pointer(
    registers: RegisterSnapshot,
    memory: Map<u64, u64>,
    limit: u64,
)
    ensures
        walk(registers, memory, limit).len() >= 1,
        walk(registers, memory, limit)[0] == FrameAddress::InstructionPointer(
            registers.instruction_pointer,
        ),
{
}

/// A chain yields return addresses only, never more than its budget, and each
/// is a word that `memory` holds.
pub proof fn lemma_return_addresses_shape(frame_pointer: u64, memory: Map<u64, u64>, budget: nat)
    ensures
        return_addresses(frame_pointer, memory, budget).len() <= budget,
        forall|i: int|
            0 <= i < return_addresses(frame_pointer, memory, budget).len() ==> {
                let frame = #[trigger] return_addresses(frame_pointer, memory, budget)[i];
                &&& frame is ReturnAddress
                &&& exists|slot: u64|
                    memory.contains_key(slot) && slot % 8 == 0 && memory[slot]
                        == frame.spec_address()
            },
    decreases budget,
{
    let all = return_addresses(frame_pointer, memory, budget);
    if all.len() > 0 {
        let slot = (frame_pointer + 8) as u64;
        let rest = outer_frames(frame_pointer, memory, budget);
        if memory.contains_key(frame_pointer) {
            lemma_return_addresses_shape(memory[frame_pointer], memory, (budget - 1) as nat);
        }
        assert forall|i: int| 0 <= i < all.len() implies {
            let frame = #[trigger] all[i];
            &&& frame is ReturnAddress
            &&& exists|s: u64|
                memory.contains_key(s) && s % 8 == 0 && memory[s] == frame.spec_address()
        } by {
            if i == 0 {
                assert(memory.contains_key(slot) && slot % 8 == 0 && memory[slot]
                    == all[0].spec_address());
            } else {
                assert(all[i] == rest[i - 1]);
            }
        }
    }
}

/// The tags of a walk: the instruction pointer comes first and once only,
/// everything after it is a return address, and the walk holds at most
/// `limit` of those. Walks from equal inputs are the same walk, so two walks
/// from one call site agree in length and in tags.
pub proof fn lemma_walk_tags(registers: RegisterSnapshot, memory: Map<u64, u64>, limit: u64)
    ensures
        walk(registers, memory, limit)[0] is InstructionPointer,
        forall|i: int|
            1 <= i < walk(registers, memory, limit).len() ==> (#[trigger] walk(
                registers,
                memory,
                limit,
            )[i]) is ReturnAddress,
        1 <= walk(registers, memory, limit).len() <= limit + 1,
{
    let chain = return_addresses(registers.frame_pointer, memory, limit as nat);
    lemma_return_addresses_shape(registers.frame_pointer, memory, limit as nat);
    assert forall|i: int| 1 <= i < walk(registers, memory, limit).len() implies (#[trigger] walk(
        registers,
        memory,
        limit,
    )[i]) is ReturnAddress by {
        assert(walk(registers, memory, limit)[i] == chain[i - 1]);
    }
}

/// Every frame after the first holds a word that was stored in an aligned
/// slot of `memory`: the walk makes no address up.
pub proof fn lemma_walk_reports_stored_words(
    registers: RegisterSnapshot,
    memory: Map<u64, u64>,
    limit: u64,
    i: int,
)
    requires
        1 <= i < walk(registers, memory, limit).len(),
    ensures
        exists|slot: u64|
            memory.contains_key(slot) && slot % 8 == 0 && memory[slot] == walk(
                registers,
                memory,
                limit,
            )[i].spec_address(),
{
    let chain = return_addresses(registers.frame_pointer, memory, limit as nat);
    lemma_return_addresses_shape(registers.frame_pointer, memory, limit as nat);
    assert(walk(registers, memory, limit)[i] == chain[i - 1]);
}

/// A chain of `depth` linked frames yields a return address for each of
/// them, as far as the budget goes.
pub proof fn lemma_linked_frames_are_found(
    frame_pointer: u64,
    memory: Map<u64, u64>,
    budget: nat,
    depth: nat,
)
    requires
        linked_frames(frame_pointer, memory, depth),
    ensures
        depth <= budget ==> return_addresses(frame_pointer, memory, budget).len() >= depth,
        budget <= depth ==> return_addresses(frame_pointer, memory, budget).len() >= budget,
    decreases depth,
{
    if depth > 1 && budget > 0 {
        lemma_linked_frames_are_found(
            memory[frame_pointer],
            memory,
            (budget - 1) as nat,
            (depth - 1) as nat,
        );
    }
}

/// A stack that is `depth` calls deep gives a walk of at least `depth`
/// frames, unless the frame limit cuts it shorter than that: the walk holds
/// the instruction pointer and one frame for each linked frame that the
/// limit admits.
pub proof fn lemma_walk_covers_call_depth(
    registers: RegisterSnapshot,
    memory: Map<u64, u64>,
    limit: u64,
    depth: nat,
)
    requires
        linked_frames(registers.frame_pointer, memory, depth),
        depth <= limit + 1,
    ensures
        walk(registers, memory, limit).len() >= depth,
        depth <= limit ==> walk(registers, memory, limit).len() >= depth + 1,
{
    lemma_linked_frames_are_found(registers.frame_pointer, memory, limit as nat, depth);
}

/// The frame pointer of the frame that is `n` links away from the frame at
/// `frame_pointer`.
pub open spec fn nth_frame(frame_pointer: u64, memory: Map<u64, u64>, n: nat) -> u64
    decreases n,
{
    if n == 0 {
        frame_pointer
    } else {
        nth_frame(memory[frame_pointer], memory, (n - 1) as nat)
    }
}

/// The return address that the frame `n` links away from the frame at
/// `frame_pointer` holds.
pub open spec fn nth_return(frame_pointer: u64, memory: Map<u64, u64>, n: nat) -> FrameAddress {
    FrameAddress::ReturnAddress(memory[(nth_frame(frame_pointer, memory, n) + 8) as u64])
}

/// Whether `frame` is looked up at an address from `low` up to `high`, the
/// bounds of a stretch of code.
pub open spec fn lies_within(frame: FrameAddress, low: u64, high: u64) -> bool {
    low <= frame.spec_address_for_lookup() < high
}

/// How many of `frames` lie within the code from `low` up to `high`.
pub open spec fn count_within(frames: Seq<FrameAddress>, low: u64, high: u64) -> nat
    decreases frames.len(),
{
    if frames.len() == 0 {
        0
    } else {
        count_within(frames.drop_last(), low, high) + if lies_within(frames.last(), low, high) {
            1nat
        } else {
            0nat
        }
    }
}

/// Each return address of a chain is the one that its own frame holds: the
/// return address at position `i` is read from the frame `i` links away, and
/// that frame and its return slot are readable.
pub proof fn lemma_return_address_is_read_from_its_frame(
    frame_pointer: u64,
    memory: Map<u64, u64>,
    budget: nat,
    i: nat,
)
    requires
        i < return_addresses(frame_pointer, memory, budget).len(),
    ensures
        return_addresses(frame_pointer, memory, budget)[i as int] == nth_return(
            frame_pointer,
            memory,
            i,
        ),
        frame_readable(nth_frame(frame_pointer, memory, i)),
        memory.contains_key((nth_frame(frame_pointer, memory, i) + 8) as u64),
    decreases i,
{
    if i > 0 {
        let rest = outer_frames(frame_pointer, memory, budget);
        assert(return_addresses(frame_pointer, memory, budget)[i as int] == rest[i - 1]);
        lemma_return_address_is_read_from_its_frame(
            memory[frame_pointer],
            memory,
            (budget - 1) as nat,
            (i - 1) as nat,
        );
    }
}

/// Along a chain that rises, where every link leads to a higher address as
/// on a stack that grows downwards, no frame is met twice.
pub proof fn lemma_rising_chain_meets_no_frame_twice(
    frame_pointer: u64,
    memory: Map<u64, u64>,
    i: nat,
    j: nat,
)
    requires
        i < j,
        forall|k: nat|
            i <= k < j ==> nth_frame(frame_pointer, memory, k) < #[trigger] nth_frame(
                frame_pointer,
                memory,
                k + 1,
            ),
    ensures
        nth_frame(frame_pointer, memory, i) < nth_frame(frame_pointer, memory, j),
    decreases j - i,
{
    if i + 1 < j {
        lemma_rising_chain_meets_no_frame_twice(frame_pointer, memory, i, (j - 1) as nat);
    }
    assert(nth_frame(frame_pointer, memory, (j - 1) as nat) < nth_frame(
        frame_pointer,
        memory,
        (j - 1) as nat + 1,
    ));
}

/// Frames that lie within a stretch of code are counted among the first
/// `most` only, where none beyond them lies within it.
pub proof fn lemma_count_within_bound(frames: Seq<FrameAddress>, low: u64, high: u64, most: nat)
    requires
        forall|i: int| most <= i < frames.len() ==> !lies_within(#[trigger] frames[i], low, high),
    ensures
        count_within(frames, low, high) <= most,
        count_within(frames, low, high) <= frames.len(),
    decreases frames.len(),
{
    if frames.len() > 0 {
        let front = frames.drop_last();
        assert forall|i: int| most <= i < front.len() implies !lies_within(
            #[trigger] front[i],
            low,
            high,
        ) by {
            assert(front[i] == frames[i]);
        }
        lemma_count_within_bound(front, low, high, most);
        if frames.len() > most {
            assert(!lies_within(frames[frames.len() - 1], low, high));
        }
    }
}

/// A walk reports no more frames within a stretch of code than the stack
/// holds: where only the first `inner` frames of the chain may return into
/// the code from `low` up to `high`, at most `inner` frames of the walk and
/// its instruction pointer lie within it. A lower frame limit or a walk cut
/// short can lower the count and never raises it.
pub proof fn lemma_frames_within_code_are_bounded(
    registers: RegisterSnapshot,
    memory: Map<u64, u64>,
    limit: u64,
    low: u64,
    high: u64,
    inner: nat,
)
    requires
        forall|n: nat|
            inner <= n ==> !lies_within(
                #[trigger] nth_return(registers.frame_pointer, memory, n),
                low,
                high,
            ),
    ensures
        count_within(walk(registers, memory, limit), low, high) <= inner + 1,
{
    let all = walk(registers, memory, limit);
    let chain = return_addresses(registers.frame_pointer, memory, limit as nat);
    assert forall|i: int| inner + 1 <= i < all.len() implies !lies_within(
        #[trigger] all[i],
        low,
        high,
    ) by {
        assert(all[i] == chain[i - 1]);
        lemma_return_address_is_read_from_its_frame(
            registers.frame_pointer,
            memory,
            limit as nat,
            (i - 1) as nat,
        );
        assert(!lies_within(
            nth_return(registers.frame_pointer, memory, (i - 1) as nat),
            low,
            high,
        ));
    }
    lemma_count_within_bound(all, low, high, inner + 1);
}

/// The frame-pointer chains from `frame_pointer` through `first` and through
/// `second` run over the same frames: the two memories hold the same links
/// as far as the walk follows them.
pub open spec fn same_links(
    frame_pointer: u64,
    first: Map<u64, u64>,
    second: Map<u64, u64>,
    budget: nat,
) -> bool
    decreases budget,
{
    budget == 0 || !frame_readable(frame_pointer) || !first.contains_key(
        (frame_pointer + 8) as u64,
    ) || !first.contains_key(frame_pointer) || (first[frame_pointer] == second[frame_pointer]
        && same_links(first[frame_pointer], first, second, (budget - 1) as nat))
}

/// The length of a chain depends on its links only, not on the code
/// addresses stored beside them.
pub proof fn lemma_chain_length_depends_on_links(
    frame_pointer: u64,
    first: Map<u64, u64>,
    second: Map<u64, u64>,
    budget: nat,
)
    requires
        first.dom() == second.dom(),
        same_links(frame_pointer, first, second, budget),
    ensures
        return_addresses(frame_pointer, first, budget).len() == return_addresses(
            frame_pointer,
            second,
            budget,
        ).len(),
    decreases budget,
{
    let slot = (frame_pointer + 8) as u64;
    assert(first.contains_key(slot) == second.contains_key(slot));
    assert(first.contains_key(frame_pointer) == second.contains_key(frame_pointer));
    if budget > 0 && frame_readable(frame_pointer) && first.contains_key(slot)
        && first.contains_key(frame_pointer) {
        lemma_chain_length_depends_on_links(
            first[frame_pointer],
            first,
            second,
            (budget - 1) as nat,
        );
    }
}

/// Two walks over the same frames have the same length and the same tags,
/// frame by frame, wherever the code was loaded: the instruction pointers
/// and the return addresses themselves may differ.
pub proof fn lemma_walk_shape_depends_on_links(
    first_registers: RegisterSnapshot,
    second_registers: RegisterSnapshot,
    first: Map<u64, u64>,
    second: Map<u64, u64>,
    limit: u64,
)
    requires
        first_registers.frame_pointer == second_registers.frame_pointer,
        first.dom() == second.dom(),
        same_links(first_registers.frame_pointer, first, second, limit as nat),
    ensures
        walk(first_registers, first, limit).len() == walk(second_registers, second, limit).len(),
        forall|i: int|
            0 <= i < walk(first_registers, first, limit).len() ==> ((#[trigger] walk(
                first_registers,
                first,
                limit,
            )[i]) is ReturnAddress) == (walk(second_registers, second, limit)[i]
                is ReturnAddress),
{
    lemma_chain_length_depends_on_links(first_registers.frame_pointer, first, second, limit as nat);
    lemma_walk_tags(first_registers, first, limit);
    lemma_walk_tags(second_registers, second, limit);
}

/// One move of the walker keeps to the walk, whenever a read result it is
/// given is what `memory` answers to the read it waits for. A frame it yields
/// is the next frame of the walk, a read it asks for is aligned and leaves
/// the walk as it was, and it stops only when no frame is left.
pub proof fn lemma_step_follows_walk(state: WalkState, event: WalkEvent, memory: Map<u64, u64>)
    requires
        state_ok(state),
        answers(event, state, memory),
    ensures
        ({
            let (next, action) = transition(state, event);
            &&& state_ok(next)
            &&& match action {
                WalkAction::Yield(frame) => remaining(state, memory) == seq![frame] + remaining(
                    next,
                    memory,
                ),
                WalkAction::Read(address) => {
                    &&& address % 8 == 0
                    &&& awaited_read(next) == Some(address)
                    &&& remaining(next, memory) == remaining(state, memory)
                },
                WalkAction::Stop(_) => remaining(state, memory).len() == 0 && remaining(
                    next,
                    memory,
                ).len() == 0,
            }
        }),
{
    reveal_with_fuel(return_addresses, 2);
    let (next, action) = transition(state, event);
    match action {
        WalkAction::Yield(frame) => {
            assert(remaining(state, memory) =~= seq![frame] + remaining(next, memory));
        },
        _ => {},
    }
}

} // verus!
