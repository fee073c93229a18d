//! The lowest of the start addresses at which an image is mapped.

use vstd::prelude::*;

verus! {

/// The lower of the lowest start found so far and one more start.
pub open spec fn lower(lowest: Option<u64>, start: u64) -> Option<u64> {
    match lowest {
        Some(l) if l <= start => Some(l),
        _ => Some(start),
    }
}

/// `lowest` is the least of the starts in `candidates`, and `None` where
/// `candidates` holds no start.
pub open spec fn is_lowest(candidates: Seq<Option<u64>>, lowest: Option<u64>) -> bool {
    match lowest {
        Some(start) => {
            &&& candidates.contains(Some(start))
            &&& forall|j: int|
                0 <= j < candidates.len() ==> (#[trigger] candidates[j] matches Some(other)
                    ==> start <= other)
        },
        None => forall|j: int| 0 <= j < candidates.len() ==> (#[trigger] candidates[j]) is None,
    }
}

/// Taking one more candidate into account keeps the lowest start right.
pub proof fn lemma_lowest_push(candidates: Seq<Option<u64>>, lowest: Option<u64>, next: Option<u64>)
    requires
        is_lowest(candidates, lowest),
    ensures
        is_lowest(
            candidates.push(next),
            match next {
                Some(start) => lower(lowest, start),
                None => lowest,
            },
        ),
{
    let more = candidates.push(next);
    let after = match next {
        Some(start) => lower(lowest, start),
        None => lowest,
    };
    assert forall|j: int| 0 <= j < candidates.len() implies more[j] == candidates[j] by {}
    match after {
        Some(start) => {
            if next == Some(start) {
                assert(more[candidates.len() as int] == Some(start));
            } else {
                let j = choose|j: int| 0 <= j < candidates.len() && candidates[j] == Some(start);
                assert(more[j] == Some(start));
            }
        },
        None => {},
    }
}

/// A sequence of candidates has one lowest start only.
pub proof fn lemma_lowest_unique(candidates: Seq<Option<u64>>, a: Option<u64>, b: Option<u64>)
    requires
        is_lowest(candidates, a),
        is_lowest(candidates, b),
    ensures
        a == b,
{
    if let Some(x) = a {
        let i = choose|i: int| 0 <= i < candidates.len() && candidates[i] == Some(x);
        assert(candidates[i] is Some);
    }
    if let Some(y) = b {
        let j = choose|j: int| 0 <= j < candidates.len() && candidates[j] == Some(y);
        assert(candidates[j] is Some);
    }
}

/// The lowest start address seen so far.
#[derive(Clone, Copy, Debug)]
pub struct Lowest {
    start: Option<u64>,
}

impl View for Lowest {
    type V = Option<u64>;

    closed spec fn view(&self) -> Option<u64> {
        self.start
    }
}

impl Lowest {
    /// Nothing seen yet.
    pub fn new() -> (lowest: Self)
        ensures
            lowest@ is None,
    {
        Lowest { start: None }
    }

    /// Takes one more start address into account.
    pub fn take(&mut self, start: u64)
        ensures
            final(self)@ == lower(old(self)@, start),
    {
        let kept = match self.start {
            Some(l) if l <= start => l,
            _ => start,
        };
        self.start = Some(kept);
    }

    /// The lowest start address seen, if any was.
    pub fn get(&self) -> (start: Option<u64>)
        ensures
            start == self@,
    {
        self.start
    }
}

} // verus!
