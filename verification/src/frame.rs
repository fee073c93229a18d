use vstd::prelude::*;

verus! {

/// The three registers a walk starts from, as they were at the call site.
#[derive(Clone, Copy, Debug, PartialEq, Eq, Structural)]
pub struct RegisterSnapshot {
    pub instruction_pointer: u64,
    pub stack_pointer: u64,
    pub frame_pointer: u64,
}

impl RegisterSnapshot {
    pub fn new(instruction_pointer: u64, stack_pointer: u64, frame_pointer: u64) -> (snapshot: Self)
        ensures
            snapshot == (RegisterSnapshot { instruction_pointer, stack_pointer, frame_pointer }),
    {
        RegisterSnapshot { instruction_pointer, stack_pointer, frame_pointer }
    }
}

/// An absolute code address of one stack frame.
///
/// The innermost frame is known by its instruction pointer. Every outer frame
/// is known by the address its callee returns to, which is the instruction
/// after the call.
#[derive(Clone, Copy, Debug, PartialEq, Eq, Structural)]
pub enum FrameAddress {
    InstructionPointer(u64),
    ReturnAddress(u64),
}

impl FrameAddress {
    /// The address as it was captured.
    pub open spec fn spec_address(self) -> u64 {
        match self {
            FrameAddress::InstructionPointer(a) => a,
            FrameAddress::ReturnAddress(a) => a,
        }
    }

    /// The address to look symbols up by: one byte back for a return address,
    /// so that it falls inside the call instruction, and never below zero.
    pub open spec fn spec_address_for_lookup(self) -> u64 {
        match self {
            FrameAddress::InstructionPointer(a) => a,
            FrameAddress::ReturnAddress(a) => if a == 0 {
                0
            } else {
                (a - 1) as u64
            },
        }
    }

    #[verifier::when_used_as_spec(spec_address)]
    pub fn address(self) -> (a: u64)
        ensures
            a == self.spec_address(),
    {
        match self {
            FrameAddress::InstructionPointer(a) => a,
            FrameAddress::ReturnAddress(a) => a,
        }
    }

    #[verifier::when_used_as_spec(spec_address_for_lookup)]
    pub fn address_for_lookup(self) -> (a: u64)
        ensures
            a == self.spec_address_for_lookup(),
    {
        match self {
            FrameAddress::InstructionPointer(a) => a,
            FrameAddress::ReturnAddress(a) => if a == 0 {
                0
            } else {
                a - 1
            },
        }
    }

    pub fn is_return_address(self) -> (b: bool)
        ensures
            b == (self is ReturnAddress),
    {
        match self {
            FrameAddress::InstructionPointer(_) => false,
            FrameAddress::ReturnAddress(_) => true,
        }
    }
}

} // verus!
