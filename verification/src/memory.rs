use vstd::prelude::*;

verus! {

/// Why a word could not be read.
#[derive(Clone, Copy, Debug, PartialEq, Eq, Structural)]
pub enum ReadFault {
    /// The address is not a multiple of eight.
    Misaligned,
    /// Nothing readable lies at the address.
    Unmapped,
}

/// What reading the word at `address` gives in a memory that holds exactly
/// the words of `memory`.
pub open spec fn read_outcome(memory: Map<u64, u64>, address: u64) -> Result<u64, ReadFault> {
    if address % 8 != 0 {
        Err(ReadFault::Misaligned)
    } else if memory.contains_key(address) {
        Ok(memory[address])
    } else {
        Err(ReadFault::Unmapped)
    }
}

/// Whether `words` can be placed at `base`: the base is aligned and the last
/// word ends within the address space.
pub open spec fn placeable(base: u64, words: Seq<u64>) -> bool {
    base % 8 == 0 && base + 8 * words.len() <= 0x1_0000_0000_0000_0000
}

/// The memory that holds `words[i]` at `base + 8 * i` and nothing else.
pub open spec fn words_at(base: u64, words: Seq<u64>) -> Map<u64, u64> {
    Map::new(
        |a: u64| base <= a && a < base + 8 * words.len() && (a - base) % 8 == 0,
        |a: u64| words[(a - base) / 8],
    )
}

/// A copy of one contiguous stretch of memory, word by word.
///
/// It answers reads the way live memory would for the addresses it covers
/// and faults everywhere else.
pub struct StackImage {
    base: u64,
    words: Vec<u64>,
}

impl View for StackImage {
    type V = Map<u64, u64>;

    closed spec fn view(&self) -> Map<u64, u64> {
        words_at(self.base, self.words@)
    }
}

impl StackImage {
    #[verifier::type_invariant]
    spec fn well_formed(self) -> bool {
        placeable(self.base, self.words@)
    }

    /// The image of `words` laid out from `base` upwards, if they fit there.
    pub fn new(base: u64, words: Vec<u64>) -> (image: Option<StackImage>)
        ensures
            image is Some <==> placeable(base, words@),
            image matches Some(i) ==> i@ == words_at(base, words@),
    {
        if base % 8 != 0 {
            return None;
        }
        let room: u64 = (u64::MAX - base) / 8 + 1;
        if words.len() as u64 > room {
            return None;
        }
        Some(StackImage { base, words })
    }

    /// Reads the word at `address`.
    pub fn read_word(&self, address: u64) -> (word: Result<u64, ReadFault>)
        ensures
            word == read_outcome(self@, address),
    {
        proof {
            use_type_invariant(self);
        }
        if address % 8 != 0 {
            return Err(ReadFault::Misaligned);
        }
        if address < self.base {
            return Err(ReadFault::Unmapped);
        }
        let index: u64 = (address - self.base) / 8;
        if index >= self.words.len() as u64 {
            return Err(ReadFault::Unmapped);
        }
        Ok(self.words[index as usize])
    }
}

/// One mapped stretch of the address space, from `start` up to `end`, and
/// whether it may be read.
#[derive(Clone, Copy, Debug, PartialEq, Eq, Structural)]
pub struct MappedRange {
    pub start: u64,
    pub end: u64,
    pub readable: bool,
}

impl MappedRange {
    /// Whether the word at `address` lies within the range and may be read.
    pub open spec fn holds_word(self, address: u64) -> bool {
        self.readable && self.start <= address && address + 8 <= self.end
    }
}

/// Whether one of `ranges` holds the word at `address` readably.
pub open spec fn word_readable(ranges: Seq<MappedRange>, address: u64) -> bool {
    exists|i: int| 0 <= i < ranges.len() && (#[trigger] ranges[i]).holds_word(address)
}

/// What is known of the address space of a process: which stretches of it
/// can be read. It tells a reader of live memory which reads would fault.
#[derive(Debug)]
pub struct AddressSpace {
    ranges: Vec<MappedRange>,
}

impl View for AddressSpace {
    type V = Seq<MappedRange>;

    closed spec fn view(&self) -> Seq<MappedRange> {
        self.ranges@
    }
}

impl AddressSpace {
    /// The address space with the mappings `ranges`.
    pub fn new(ranges: Vec<MappedRange>) -> (space: Self)
        ensures
            space@ == ranges@,
    {
        AddressSpace { ranges }
    }

    /// Whether the word at `address` can be read: it is aligned and lies in
    /// one readable mapping.
    pub fn can_read_word(&self, address: u64) -> (can: bool)
        ensures
            can == (address % 8 == 0 && word_readable(self@, address)),
    {
        if address % 8 != 0 {
            return false;
        }
        let mut i: usize = 0;
        while i < self.ranges.len()
            invariant
                i <= self.ranges.len(),
                address % 8 == 0,
                forall|j: int| 0 <= j < i ==> !(#[trigger] self.ranges@[j]).holds_word(address),
            decreases self.ranges.len() - i,
        {
            let range = self.ranges[i];
            if range.readable && range.start <= address && address <= u64::MAX - 8 && address + 8
                <= range.end {
                assert(self.ranges@[i as int].holds_word(address));
                return true;
            }
            i += 1;
        }
        false
    }
}

} // verus!
