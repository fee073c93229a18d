use hopframe::frame::{FrameAddress, RegisterSnapshot};
use hopframe::memory::{AddressSpace, MappedRange, ReadFault, StackImage};
use hopframe::unwinder::{UnwindBuilderX86_64, DEFAULT_MAX_FRAMES};
use hopframe::walk::{StopReason, WalkAction, WalkEvent};
use std::collections::HashMap;

/// A stack of `depth` frames from `base` upwards, each 32 bytes long. Frame
/// `i` returns to `returns[i]`; the outermost frame links to null.
fn stack_of(base: u64, returns: &[u64]) -> StackImage {
    let mut words = Vec::new();
    for (i, ra) in returns.iter().enumerate() {
        let next = if i + 1 < returns.len() { base + 32 * (i as u64 + 1) } else { 0 };
        words.push(next);
        words.push(*ra);
        words.push(0xDEAD_0000 + i as u64);
        words.push(0xBEEF_0000 + i as u64);
    }
    StackImage::new(base, words).unwrap()
}

#[test]
fn builder_starts_with_default_limit() {
    let unwinder = UnwindBuilderX86_64::new().build();
    let image = stack_of(0x7000, &[0x401234]);
    let (frames, why) = unwinder.unwind_all(RegisterSnapshot::new(0x400100, 0x6ff0, 0x7000), &image);
    assert_eq!(
        frames,
        vec![FrameAddress::InstructionPointer(0x400100), FrameAddress::ReturnAddress(0x401234)]
    );
    assert_eq!(why, StopReason::EndOfStack);
    assert_eq!(DEFAULT_MAX_FRAMES, 1_048_576);
}

#[test]
fn default_builder_behaves_like_new() {
    let image = stack_of(0x7000, &[1, 2, 3]);
    let regs = RegisterSnapshot::new(9, 0x6ff0, 0x7000);
    let a = UnwindBuilderX86_64::default().build().unwind_all(regs, &image);
    let b = UnwindBuilderX86_64::new().build().unwind_all(regs, &image);
    assert_eq!(a, b);
}

#[test]
fn first_frame_is_the_instruction_pointer() {
    let image = stack_of(0x1000, &[0xAAAA, 0xBBBB]);
    let regs = RegisterSnapshot::new(0x1234_5678, 0x0ff0, 0x1000);
    let mut unwinder = UnwindBuilderX86_64::new().build();
    let mut frames = unwinder.unwind(regs);
    assert_eq!(frames.next(&image), Some(FrameAddress::InstructionPointer(0x1234_5678)));
}

#[test]
fn first_frame_is_yielded_even_without_any_memory() {
    let image = StackImage::new(0, Vec::new()).unwrap();
    let unwinder = UnwindBuilderX86_64::new().build();
    let (frames, why) = unwinder.unwind_all(RegisterSnapshot::new(77, 0, 0), &image);
    assert_eq!(frames, vec![FrameAddress::InstructionPointer(77)]);
    assert_eq!(why, StopReason::EndOfStack);
}

#[test]
fn three_nested_functions_are_all_found() {
    // f1 calls f2 calls f3; f3 captures. Each function spans 0x100 bytes.
    let f1 = 0x40_1000u64..0x40_1100;
    let f2 = 0x40_2000u64..0x40_2100;
    let f3 = 0x40_3000u64..0x40_3100;
    let harness = 0x40_9000u64..0x40_9100;
    // Innermost frame first: f3 returns into f2, f2 into f1, f1 into the harness.
    let image = stack_of(0x7ffd_0000, &[0x40_2040, 0x40_1080, 0x40_9010]);
    let regs = RegisterSnapshot::new(0x40_3020, 0x7ffc_fff0, 0x7ffd_0000);
    let unwinder = UnwindBuilderX86_64::new().build();
    let (frames, why) = unwinder.unwind_all(regs, &image);
    assert_eq!(why, StopReason::EndOfStack);
    assert_eq!(frames.len(), 4);
    let lookups: Vec<u64> = frames.iter().map(|f| f.address_for_lookup()).collect();
    assert_eq!(lookups, vec![0x40_3020, 0x40_203f, 0x40_107f, 0x40_900f]);
    for function in [&f1, &f2, &f3, &harness] {
        assert!(lookups.iter().any(|a| function.contains(a)));
    }
}

#[test]
fn recursion_ten_deep_is_found_ten_times() {
    let recursive = 0x55_0000u64..0x55_0200;
    let mut returns = vec![0x55_0123u64; 10];
    returns.push(0x66_0000);
    let image = stack_of(0x7ffd_0000, &returns);
    let regs = RegisterSnapshot::new(0x55_0040, 0x7ffc_ff00, 0x7ffd_0000);
    let (frames, _) = UnwindBuilderX86_64::new().build().unwind_all(regs, &image);
    let hits = frames.iter().filter(|f| recursive.contains(&f.address_for_lookup())).count();
    assert_eq!(hits, 11);
    assert!(hits >= 10 / 2);
    assert_eq!(frames.len(), 12);
}

#[test]
fn no_more_frames_lie_in_a_function_than_the_stack_holds() {
    // Eleven activations of one function: ten return into it, the
    // outermost returns into its caller, and two more frames lie above.
    let recursive = 0x55_0000u64..0x55_0200;
    let mut returns = vec![0x55_0123u64; 10];
    returns.extend([0x66_0000, 0x66_1000, 0x66_2000]);
    let image = stack_of(0x7ffd_0000, &returns);
    let regs = RegisterSnapshot::new(0x55_0040, 0x7ffc_ff00, 0x7ffd_0000);
    for limit in 0..20u64 {
        let (frames, _) = UnwindBuilderX86_64::new().max_frames(limit).build().unwind_all(regs, &image);
        let hits = frames.iter().filter(|f| recursive.contains(&f.address_for_lookup())).count();
        assert!(hits <= 11);
        assert_eq!(hits as u64, 1 + limit.min(10));
    }
}

#[test]
fn frame_limit_may_cut_a_walk_below_the_call_depth() {
    let image = stack_of(0x8000, &[0x10, 0x20, 0x30]);
    let regs = RegisterSnapshot::new(1, 0x7ff0, 0x8000);
    // Three calls deep: a limit of two still gives three frames, a limit
    // of one gives two.
    let (frames, _) = UnwindBuilderX86_64::new().max_frames(2).build().unwind_all(regs, &image);
    assert_eq!(frames.len(), 3);
    let (frames, why) = UnwindBuilderX86_64::new().max_frames(1).build().unwind_all(regs, &image);
    assert_eq!(frames.len(), 2);
    assert_eq!(why, StopReason::FrameLimit);
}

#[test]
fn walk_is_at_least_as_long_as_the_call_depth() {
    for depth in 1..=20usize {
        let returns: Vec<u64> = (0..depth as u64).map(|i| 0x1000 + i).collect();
        let image = stack_of(0x8000, &returns);
        let regs = RegisterSnapshot::new(1, 0x7ff0, 0x8000);
        let (frames, _) = UnwindBuilderX86_64::new().build().unwind_all(regs, &image);
        assert_eq!(frames.len(), depth + 1);
        assert!(frames.len() >= depth);
    }
}

#[test]
fn two_walks_from_one_site_agree() {
    let image = stack_of(0x9000, &[0x10, 0x20, 0x30, 0x40]);
    let regs = RegisterSnapshot::new(0x5, 0x8ff0, 0x9000);
    let unwinder = UnwindBuilderX86_64::new().build();
    let (first, why_first) = unwinder.unwind_all(regs, &image);
    let (second, why_second) = unwinder.unwind_all(regs, &image);
    assert_eq!(first.len(), second.len());
    assert_eq!(first, second);
    assert_eq!(why_first, why_second);
    let tags: Vec<bool> = first.iter().map(|f| f.is_return_address()).collect();
    assert_eq!(tags, vec![false, true, true, true, true]);
}

#[test]
fn walk_ends_at_null_frame_pointer() {
    let image = stack_of(0x9000, &[0x10]);
    let regs = RegisterSnapshot::new(0x5, 0x8ff0, 0);
    let (frames, why) = UnwindBuilderX86_64::new().build().unwind_all(regs, &image);
    assert_eq!(frames, vec![FrameAddress::InstructionPointer(5)]);
    assert_eq!(why, StopReason::EndOfStack);
}

#[test]
fn walk_ends_where_the_return_slot_cannot_be_read() {
    // One frame whose link leads outside the image.
    let image = StackImage::new(0x9000, vec![0xF000, 0x10]).unwrap();
    let regs = RegisterSnapshot::new(0x5, 0x8ff0, 0x9000);
    let (frames, why) = UnwindBuilderX86_64::new().build().unwind_all(regs, &image);
    assert_eq!(
        frames,
        vec![FrameAddress::InstructionPointer(5), FrameAddress::ReturnAddress(0x10)]
    );
    assert_eq!(why, StopReason::ReadFault);
}

#[test]
fn walk_keeps_the_frame_whose_link_cannot_be_read() {
    // The frame pointer is eight bytes below the image: the return-address
    // slot is readable, the link is not.
    let image = StackImage::new(0x9008, vec![0x4242]).unwrap();
    let regs = RegisterSnapshot::new(0x5, 0x8ff0, 0x9000);
    let (frames, why) = UnwindBuilderX86_64::new().build().unwind_all(regs, &image);
    assert_eq!(
        frames,
        vec![FrameAddress::InstructionPointer(5), FrameAddress::ReturnAddress(0x4242)]
    );
    assert_eq!(why, StopReason::ReadFault);
}

#[test]
fn walk_ends_at_the_frame_limit() {
    let image = stack_of(0x9000, &[0x10, 0x20, 0x30, 0x40]);
    let regs = RegisterSnapshot::new(0x5, 0x8ff0, 0x9000);
    let (frames, why) = UnwindBuilderX86_64::new().max_frames(2).build().unwind_all(regs, &image);
    assert_eq!(
        frames,
        vec![
            FrameAddress::InstructionPointer(5),
            FrameAddress::ReturnAddress(0x10),
            FrameAddress::ReturnAddress(0x20),
        ]
    );
    assert_eq!(why, StopReason::FrameLimit);
}

#[test]
fn frame_limit_of_zero_leaves_the_instruction_pointer() {
    let image = stack_of(0x9000, &[0x10, 0x20]);
    let regs = RegisterSnapshot::new(0x5, 0x8ff0, 0x9000);
    let (frames, why) = UnwindBuilderX86_64::new().max_frames(0).build().unwind_all(regs, &image);
    assert_eq!(frames, vec![FrameAddress::InstructionPointer(5)]);
    assert_eq!(why, StopReason::FrameLimit);
}

#[test]
fn cyclic_chain_ends_at_the_frame_limit() {
    // A frame that links to itself.
    let image = StackImage::new(0x9000, vec![0x9000, 0x77]).unwrap();
    let regs = RegisterSnapshot::new(0x5, 0x8ff0, 0x9000);
    let (frames, why) = UnwindBuilderX86_64::new().max_frames(1000).build().unwind_all(regs, &image);
    assert_eq!(frames.len(), 1001);
    assert!(frames[1..].iter().all(|f| *f == FrameAddress::ReturnAddress(0x77)));
    assert_eq!(why, StopReason::FrameLimit);
}

#[test]
fn misaligned_frame_pointer_is_a_corrupted_stack() {
    let image = stack_of(0x9000, &[0x10, 0x20]);
    let regs = RegisterSnapshot::new(0x5, 0x8ff0, 0x9004);
    let (frames, why) = UnwindBuilderX86_64::new().build().unwind_all(regs, &image);
    assert_eq!(frames, vec![FrameAddress::InstructionPointer(5)]);
    assert_eq!(why, StopReason::CorruptedStack);
}

#[test]
fn misaligned_link_ends_the_walk_after_its_frame() {
    let image = StackImage::new(0x9000, vec![0x9011, 0x10]).unwrap();
    let regs = RegisterSnapshot::new(0x5, 0x8ff0, 0x9000);
    let (frames, why) = UnwindBuilderX86_64::new().build().unwind_all(regs, &image);
    assert_eq!(
        frames,
        vec![FrameAddress::InstructionPointer(5), FrameAddress::ReturnAddress(0x10)]
    );
    assert_eq!(why, StopReason::CorruptedStack);
}

#[test]
fn frame_pointer_at_the_top_of_the_address_space_is_a_read_fault() {
    let image = StackImage::new(0, Vec::new()).unwrap();
    let regs = RegisterSnapshot::new(0x5, 0, u64::MAX - 7);
    let (frames, why) = UnwindBuilderX86_64::new().build().unwind_all(regs, &image);
    assert_eq!(frames, vec![FrameAddress::InstructionPointer(5)]);
    assert_eq!(why, StopReason::ReadFault);
}

#[test]
fn zero_return_address_is_reported_not_skipped() {
    let image = stack_of(0x9000, &[0, 0x20]);
    let regs = RegisterSnapshot::new(0x5, 0x8ff0, 0x9000);
    let (frames, _) = UnwindBuilderX86_64::new().build().unwind_all(regs, &image);
    assert_eq!(
        frames,
        vec![
            FrameAddress::InstructionPointer(5),
            FrameAddress::ReturnAddress(0),
            FrameAddress::ReturnAddress(0x20),
        ]
    );
}

#[test]
fn next_returns_none_again_after_the_end() {
    let image = stack_of(0x9000, &[0x10]);
    let mut unwinder = UnwindBuilderX86_64::new().build();
    let mut frames = unwinder.unwind(RegisterSnapshot::new(1, 0x8ff0, 0x9000));
    assert_eq!(frames.stop_reason(), None);
    assert_eq!(frames.next(&image), Some(FrameAddress::InstructionPointer(1)));
    assert_eq!(frames.next(&image), Some(FrameAddress::ReturnAddress(0x10)));
    assert_eq!(frames.stop_reason(), None);
    assert_eq!(frames.next(&image), None);
    assert_eq!(frames.stop_reason(), Some(StopReason::EndOfStack));
    assert_eq!(frames.next(&image), None);
    assert_eq!(frames.advance(&image), Err(StopReason::EndOfStack));
}

#[test]
fn steps_ask_for_the_return_slot_then_the_link() {
    let mut unwinder = UnwindBuilderX86_64::new().build();
    let mut frames = unwinder.unwind(RegisterSnapshot::new(0x11, 0x8ff0, 0x9000));
    assert_eq!(
        frames.step(WalkEvent::Resume),
        WalkAction::Yield(FrameAddress::InstructionPointer(0x11))
    );
    assert_eq!(frames.step(WalkEvent::Resume), WalkAction::Read(0x9008));
    // Resuming without an answer asks again.
    assert_eq!(frames.step(WalkEvent::Resume), WalkAction::Read(0x9008));
    assert_eq!(
        frames.step(WalkEvent::Word(0xCAFE)),
        WalkAction::Yield(FrameAddress::ReturnAddress(0xCAFE))
    );
    assert_eq!(frames.step(WalkEvent::Resume), WalkAction::Read(0x9000));
    assert_eq!(frames.step(WalkEvent::Word(0xA000)), WalkAction::Read(0xA008));
    assert_eq!(frames.step(WalkEvent::Fault), WalkAction::Stop(StopReason::ReadFault));
    assert_eq!(frames.step(WalkEvent::Resume), WalkAction::Stop(StopReason::ReadFault));
    assert_eq!(frames.step(WalkEvent::Word(1)), WalkAction::Stop(StopReason::ReadFault));
}

#[test]
fn a_word_nobody_asked_for_is_ignored() {
    let mut unwinder = UnwindBuilderX86_64::new().build();
    let mut frames = unwinder.unwind(RegisterSnapshot::new(0x11, 0x8ff0, 0x9000));
    assert_eq!(
        frames.step(WalkEvent::Word(0x9999)),
        WalkAction::Yield(FrameAddress::InstructionPointer(0x11))
    );
    assert_eq!(frames.step(WalkEvent::Fault), WalkAction::Read(0x9008));
}

#[test]
fn link_that_ends_the_chain_stops_the_walk() {
    let mut unwinder = UnwindBuilderX86_64::new().build();
    let mut frames = unwinder.unwind(RegisterSnapshot::new(0x11, 0x8ff0, 0x9000));
    frames.step(WalkEvent::Resume);
    frames.step(WalkEvent::Resume);
    frames.step(WalkEvent::Word(0xCAFE));
    assert_eq!(frames.step(WalkEvent::Resume), WalkAction::Read(0x9000));
    assert_eq!(frames.step(WalkEvent::Word(0)), WalkAction::Stop(StopReason::EndOfStack));
}

/// Drives the walker with reads answered from `memory`, as a reader of live
/// memory would.
fn drive(registers: RegisterSnapshot, limit: u64, memory: &HashMap<u64, u64>) -> Vec<FrameAddress> {
    let mut unwinder = UnwindBuilderX86_64::new().max_frames(limit).build();
    let mut walker = unwinder.unwind(registers);
    let mut frames = Vec::new();
    let mut event = WalkEvent::Resume;
    loop {
        match walker.step(event) {
            WalkAction::Read(address) => {
                assert_eq!(address % 8, 0);
                event = match memory.get(&address) {
                    Some(word) => WalkEvent::Word(*word),
                    None => WalkEvent::Fault,
                };
            }
            WalkAction::Yield(frame) => {
                frames.push(frame);
                event = WalkEvent::Resume;
            }
            WalkAction::Stop(_) => return frames,
        }
    }
}

#[test]
fn stepping_with_a_reader_gives_the_walk_through_its_memory() {
    let returns = [0x10u64, 0x20, 0x30];
    let image = stack_of(0x9000, &returns);
    let mut memory = HashMap::new();
    for i in 0..12u64 {
        let address = 0x9000 + 8 * i;
        memory.insert(address, image.read_word(address).unwrap());
    }
    let regs = RegisterSnapshot::new(0x5, 0x8ff0, 0x9000);
    for limit in [0u64, 1, 2, 3, 4, 100] {
        let stepped = drive(regs, limit, &memory);
        let (walked, _) =
            UnwindBuilderX86_64::new().max_frames(limit).build().unwind_all(regs, &image);
        assert_eq!(stepped, walked);
    }
}

#[test]
fn lookup_address_of_a_return_address_is_one_byte_back() {
    assert_eq!(FrameAddress::ReturnAddress(0x401000).address(), 0x401000);
    assert_eq!(FrameAddress::ReturnAddress(0x401000).address_for_lookup(), 0x400fff);
    assert_eq!(FrameAddress::ReturnAddress(1).address_for_lookup(), 0);
    assert_eq!(FrameAddress::ReturnAddress(0).address_for_lookup(), 0);
    assert_eq!(FrameAddress::ReturnAddress(u64::MAX).address_for_lookup(), u64::MAX - 1);
}

#[test]
fn lookup_address_of_an_instruction_pointer_is_itself() {
    assert_eq!(FrameAddress::InstructionPointer(0x401000).address(), 0x401000);
    assert_eq!(FrameAddress::InstructionPointer(0x401000).address_for_lookup(), 0x401000);
    assert_eq!(FrameAddress::InstructionPointer(0).address_for_lookup(), 0);
    assert!(!FrameAddress::InstructionPointer(3).is_return_address());
    assert!(FrameAddress::ReturnAddress(3).is_return_address());
}

#[test]
fn image_answers_reads_inside_and_faults_outside() {
    let image = StackImage::new(0x1000, vec![11, 22, 33]).unwrap();
    assert_eq!(image.read_word(0x1000), Ok(11));
    assert_eq!(image.read_word(0x1008), Ok(22));
    assert_eq!(image.read_word(0x1010), Ok(33));
    assert_eq!(image.read_word(0x1018), Err(ReadFault::Unmapped));
    assert_eq!(image.read_word(0x0ff8), Err(ReadFault::Unmapped));
    assert_eq!(image.read_word(0), Err(ReadFault::Unmapped));
    assert_eq!(image.read_word(0x1004), Err(ReadFault::Misaligned));
    assert_eq!(image.read_word(0x1001), Err(ReadFault::Misaligned));
    assert_eq!(image.read_word(u64::MAX), Err(ReadFault::Misaligned));
    assert_eq!(image.read_word(u64::MAX - 7), Err(ReadFault::Unmapped));
}

#[test]
fn image_must_be_aligned_and_fit_the_address_space() {
    assert!(StackImage::new(0x1001, vec![1]).is_none());
    assert!(StackImage::new(0x1004, Vec::new()).is_none());
    assert!(StackImage::new(0x1000, Vec::new()).is_some());
    assert!(StackImage::new(u64::MAX - 7, vec![1]).is_some());
    assert!(StackImage::new(u64::MAX - 7, vec![1, 2]).is_none());
    assert!(StackImage::new(u64::MAX - 15, vec![1, 2]).is_some());
    let top = StackImage::new(u64::MAX - 7, vec![5]).unwrap();
    assert_eq!(top.read_word(u64::MAX - 7), Ok(5));
}

#[test]
fn relocated_code_changes_addresses_but_not_the_shape_of_the_walk() {
    let here = [0x40_1010u64, 0x40_2020, 0x40_3030, 0x40_4040];
    let slide = 0x5555_0000_0000u64;
    let there: Vec<u64> = here.iter().map(|a| a + slide).collect();
    let first = stack_of(0x7ffd_0000, &here);
    let second = stack_of(0x7ffd_0000, &there);
    let unwinder = UnwindBuilderX86_64::new().build();
    let (a, why_a) = unwinder.unwind_all(RegisterSnapshot::new(0x40_0001, 0x7ffc_fff0, 0x7ffd_0000), &first);
    let (b, why_b) =
        unwinder.unwind_all(RegisterSnapshot::new(0x40_0001 + slide, 0x7ffc_fff0, 0x7ffd_0000), &second);
    assert_eq!(a.len(), b.len());
    assert_eq!(why_a, why_b);
    for (x, y) in a.iter().zip(b.iter()) {
        assert_eq!(x.is_return_address(), y.is_return_address());
        assert_eq!(x.address() + slide, y.address());
    }
}

#[test]
fn address_space_tells_which_words_can_be_read() {
    let space = AddressSpace::new(vec![
        MappedRange { start: 0x1000, end: 0x2000, readable: true },
        MappedRange { start: 0x2000, end: 0x3000, readable: false },
        MappedRange { start: 0x5000, end: 0x5004, readable: true },
        MappedRange { start: u64::MAX - 0xfff, end: u64::MAX, readable: true },
    ]);
    assert!(space.can_read_word(0x1000));
    assert!(space.can_read_word(0x1ff8));
    assert!(!space.can_read_word(0x1ffc));
    assert!(!space.can_read_word(0x1004));
    assert!(!space.can_read_word(0x0ff8));
    assert!(!space.can_read_word(0x2000));
    assert!(!space.can_read_word(0x2ff8));
    assert!(!space.can_read_word(0x3000));
    assert!(!space.can_read_word(0x5000));
    assert!(!space.can_read_word(0));
    assert!(space.can_read_word(u64::MAX - 0xfff));
    assert!(space.can_read_word(u64::MAX - 15));
    assert!(!space.can_read_word(u64::MAX - 7));
    assert!(!AddressSpace::new(Vec::new()).can_read_word(0x1000));
}

#[test]
fn reader_that_knows_the_address_space_ends_the_walk_with_a_read_fault() {
    let image = stack_of(0x9000, &[0x10, 0x20]);
    let space = AddressSpace::new(vec![MappedRange { start: 0x9000, end: 0x9020, readable: true }]);
    let mut unwinder = UnwindBuilderX86_64::new().build();
    let mut walker = unwinder.unwind(RegisterSnapshot::new(0x5, 0x8ff0, 0x9000));
    let mut frames = Vec::new();
    let mut event = WalkEvent::Resume;
    let why = loop {
        match walker.step(event) {
            WalkAction::Read(address) => {
                event = if space.can_read_word(address) {
                    WalkEvent::Word(image.read_word(address).unwrap())
                } else {
                    WalkEvent::Fault
                };
            }
            WalkAction::Yield(frame) => {
                frames.push(frame);
                event = WalkEvent::Resume;
            }
            WalkAction::Stop(reason) => break reason,
        }
    };
    assert_eq!(
        frames,
        vec![FrameAddress::InstructionPointer(5), FrameAddress::ReturnAddress(0x10)]
    );
    assert_eq!(why, StopReason::ReadFault);
}
