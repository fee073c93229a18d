//! The load bias of the executable, from the memory map of its process given
//! as records.

use vstd::prelude::*;
use crate::aslr::lowest::{is_lowest, lemma_lowest_push, Lowest};
use crate::aslr::proc_maps::path_matches;
use crate::error::Error;
use crate::paths::same_path_of;
use crate::text::chars_of;

verus! {

/// One mapped region of a process: where it starts, and the path of the file
/// behind it where a file is behind it.
#[derive(Debug)]
pub struct MemoryRegion {
    pub start: u64,
    pub path: Option<String>,
}

impl MemoryRegion {
    /// The start address of the region, if it maps the executable at `exe`.
    pub open spec fn start_for(self, exe: Seq<char>) -> Option<u64> {
        match self.path {
            Some(path) if path_matches(path@, exe) => Some(self.start),
            _ => None,
        }
    }

    /// The start address of the region, if it maps the executable whose path
    /// has the characters `exe`.
    pub fn start_if_maps(&self, exe: &Vec<char>) -> (start: Option<u64>)
        ensures
            start == self.start_for(exe@),
    {
        match &self.path {
            Some(path) => {
                let chars = chars_of(path.as_str());
                if same_path_of(&chars, exe) {
                    Some(self.start)
                } else {
                    None
                }
            },
            None => None,
        }
    }
}

/// For each region, its start address if it maps the executable at `exe`.
pub open spec fn starts(regions: Seq<MemoryRegion>, exe: Seq<char>) -> Seq<Option<u64>> {
    Seq::new(regions.len(), |i: int| regions[i].start_for(exe))
}

/// The load bias of the executable at `exe`: the lowest start address among
/// the regions that map it, and `NoMemoryMapping` where none does.
pub fn read_aslr_offset(exe: &str, regions: &Vec<MemoryRegion>) -> (offset: Result<u64, Error>)
    ensures
        match offset {
            Ok(start) => is_lowest(starts(regions@, exe@), Some(start)),
            Err(error) => error == Error::NoMemoryMapping && is_lowest(
                starts(regions@, exe@),
                None,
            ),
        },
{
    let exe_chars = chars_of(exe);
    let mut lowest = Lowest::new();
    let mut i: usize = 0;
    while i < regions.len()
        invariant
            i <= regions.len(),
            exe_chars@ == exe@,
            is_lowest(starts(regions@.take(i as int), exe@), lowest@),
        decreases regions.len() - i,
    {
        let ghost seen = starts(regions@.take(i as int), exe@);
        let ghost before = lowest@;
        let found = regions[i].start_if_maps(&exe_chars);
        if let Some(start) = found {
            lowest.take(start);
        }
        proof {
            lemma_lowest_push(seen, before, found);
            assert(starts(regions@.take(i + 1), exe@) =~= seen.push(found));
        }
        i += 1;
    }
    proof {
        assert(regions@.take(i as int) =~= regions@);
    }
    match lowest.get() {
        Some(start) => Ok(start),
        None => Err(Error::NoMemoryMapping),
    }
}

} // verus!
