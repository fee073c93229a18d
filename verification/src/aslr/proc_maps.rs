//! The load bias of the executable, from a memory-map listing in the text
//! form of Linux' `/proc/<pid>/maps`.
//!
//! A line of the listing names one mapping:
//!
//! ```text
//! 55b63ea4c000-55b63ea6e000 r-xp 00000000 fd:01 123456 /usr/bin/myapp
//! ```
//!
//! The fields are separated by white space. The first is the address range.
//! Where there is a sixth, the path of the file behind the mapping stands
//! from its beginning to the end of the line, white space included.

use vstd::prelude::*;
use vstd::string::StringExecFns;
use crate::error::Error;
use crate::aslr::lowest::{is_lowest, lemma_lowest_push, lemma_lowest_unique, lower, Lowest};
use crate::paths::{lemma_only_the_empty_path_is_empty, same_path, same_path_of};
use crate::text::{
    chars_of, copy_between, find, first_at, lemma_first_at_lower_bound, lemma_first_at_within,
    parse_hex, parse_hex_between, Mark,
};

verus! {

/// Where field `n` of `line` begins, counting from zero; the length of
/// `line` where it has no such field.
pub open spec fn field_start(line: Seq<char>, n: nat) -> int
    decreases n,
{
    if n == 0 {
        first_at(line, 0, Mark::Ink)
    } else {
        first_at(line, first_at(line, field_start(line, (n - 1) as nat), Mark::Space), Mark::Ink)
    }
}

/// Where field `n` of `line` ends.
pub open spec fn field_end(line: Seq<char>, n: nat) -> int {
    first_at(line, field_start(line, n), Mark::Space)
}

/// Whether `line` has a field `n`.
pub open spec fn has_field(line: Seq<char>, n: nat) -> bool {
    field_start(line, n) < line.len()
}

/// Field `n` of `line`.
pub open spec fn field(line: Seq<char>, n: nat) -> Seq<char> {
    line.subrange(field_start(line, n), field_end(line, n))
}

/// The path that `line` names: what stands from the beginning of its sixth
/// field to its end. A path may hold white space, so it is not cut at any.
pub open spec fn line_path(line: Seq<char>) -> Seq<char> {
    line.subrange(field_start(line, 5), line.len() as int)
}

/// The text of the start address in an address range: what stands before
/// the first `-`.
pub open spec fn range_start(range: Seq<char>) -> Seq<char> {
    range.take(first_at(range, 0, Mark::Dash))
}

/// Whether the path named by a mapping is the path of the executable.
pub open spec fn path_matches(mapped: Seq<char>, exe: Seq<char>) -> bool {
    same_path(mapped, exe)
}

/// What one line of the listing says about the executable at `exe`.
#[derive(Clone, Copy, Debug, PartialEq, Eq, Structural)]
pub enum LineOutcome {
    /// The line has no field at all.
    Malformed,
    /// The line maps the executable, but its start address cannot be read.
    InvalidAddress,
    /// The line maps something else.
    Unrelated,
    /// The line maps the executable from this address.
    Start(u64),
}

impl LineOutcome {
    /// Whether the listing is unusable because of this line.
    pub open spec fn is_fault(self) -> bool {
        self is Malformed || self is InvalidAddress
    }

    /// The start address that the line gives for the executable, if any.
    pub open spec fn start(self) -> Option<u64> {
        match self {
            LineOutcome::Start(start) => Some(start),
            _ => None,
        }
    }
}

/// What `line` says about the executable at `exe`.
pub open spec fn line_outcome(line: Seq<char>, exe: Seq<char>) -> LineOutcome {
    if !has_field(line, 0) {
        LineOutcome::Malformed
    } else if !(has_field(line, 5) && path_matches(line_path(line), exe)) {
        LineOutcome::Unrelated
    } else {
        match parse_hex(range_start(field(line, 0))) {
            Some(start) => LineOutcome::Start(start),
            None => LineOutcome::InvalidAddress,
        }
    }
}

/// Line `i` is the first of `lines` that makes the listing unusable.
pub open spec fn first_fault_at(lines: Seq<Seq<char>>, exe: Seq<char>, i: int) -> bool {
    &&& 0 <= i < lines.len()
    &&& line_outcome(lines[i], exe).is_fault()
    &&& forall|j: int| 0 <= j < i ==> !(#[trigger] line_outcome(lines[j], exe)).is_fault()
}

/// No line of `lines` makes the listing unusable.
pub open spec fn faultless(lines: Seq<Seq<char>>, exe: Seq<char>) -> bool {
    forall|j: int| 0 <= j < lines.len() ==> !(#[trigger] line_outcome(lines[j], exe)).is_fault()
}

/// For each line of `lines`, the start address that it gives for the
/// executable, if any.
pub open spec fn starts(lines: Seq<Seq<char>>, exe: Seq<char>) -> Seq<Option<u64>> {
    Seq::new(lines.len(), |i: int| line_outcome(lines[i], exe).start())
}

/// `error` is the memory-map error that says `message`.
pub open spec fn is_map_error(error: Error, message: Seq<char>) -> bool {
    error matches Error::MemoryMapError(text) && text@ == message
}

/// `error` reports the fault that `outcome` is.
pub open spec fn reports(error: Error, outcome: LineOutcome) -> bool {
    match outcome {
        LineOutcome::Malformed => is_map_error(error, "malformed maps line"@),
        LineOutcome::InvalidAddress => is_map_error(error, "invalid addr"@),
        _ => false,
    }
}

/// `result` is what the listing `lines` gives for the executable at `exe`.
///
/// The first unusable line decides, if there is one. Otherwise the result is
/// the lowest start address among the mappings of the executable, and
/// `NoMemoryMapping` where the executable is not mapped at all.
pub open spec fn resolves(lines: Seq<Seq<char>>, exe: Seq<char>, result: Result<u64, Error>) -> bool {
    match result {
        Ok(start) => faultless(lines, exe) && is_lowest(starts(lines, exe), Some(start)),
        Err(Error::NoMemoryMapping) => faultless(lines, exe) && is_lowest(
            starts(lines, exe),
            None,
        ),
        Err(error) => exists|i: int| #[trigger]
            first_fault_at(lines, exe, i) && reports(error, line_outcome(lines[i], exe)),
    }
}

/// The bounds of field `n` of `line`.
pub fn field_bounds(line: &Vec<char>, n: usize) -> (bounds: (usize, usize))
    ensures
        bounds.0 == field_start(line@, n as nat),
        bounds.1 == field_end(line@, n as nat),
        bounds.0 <= bounds.1 <= line.len(),
{
    let mut from: usize = find(line, 0, Mark::Ink);
    let mut to: usize = find(line, from, Mark::Space);
    let mut k: usize = 0;
    while k < n
        invariant
            k <= n,
            from == field_start(line@, k as nat),
            to == field_end(line@, k as nat),
            from <= to <= line.len(),
        decreases n - k,
    {
        from = find(line, to, Mark::Ink);
        to = find(line, from, Mark::Space);
        k += 1;
    }
    (from, to)
}

/// Reads what `line` says about the executable at `exe`.
pub fn read_line(line: &str, exe: &str) -> (outcome: LineOutcome)
    ensures
        outcome == line_outcome(line@, exe@),
{
    let chars = chars_of(line);
    let exe_chars = chars_of(exe);
    outcome_of(&chars, &exe_chars)
}

fn outcome_of(line: &Vec<char>, exe: &Vec<char>) -> (outcome: LineOutcome)
    ensures
        outcome == line_outcome(line@, exe@),
{
    let (from, to) = field_bounds(line, 0);
    if from >= line.len() {
        return LineOutcome::Malformed;
    }
    let (path_from, _) = field_bounds(line, 5);
    if path_from >= line.len() {
        return LineOutcome::Unrelated;
    }
    let mapped = copy_between(line, path_from, line.len());
    if !same_path_of(&mapped, exe) {
        return LineOutcome::Unrelated;
    }
    let dash = find(line, from, Mark::Dash);
    let until: usize = if dash < to {
        dash
    } else {
        to
    };
    proof {
        lemma_first_at_within(line@, from as int, to as int, Mark::Dash);
        assert(range_start(field(line@, 0)) =~= line@.subrange(from as int, until as int));
    }
    match parse_hex_between(line, from, until) {
        Some(start) => LineOutcome::Start(start),
        None => LineOutcome::InvalidAddress,
    }
}

/// A scan of a memory-map listing for the mappings of one executable, fed
/// line by line.
#[derive(Debug)]
pub struct MapsScan {
    exe: Vec<char>,
    lowest: Lowest,
}

impl MapsScan {
    /// The path of the executable that the scan looks for.
    pub closed spec fn exe(&self) -> Seq<char> {
        self.exe@
    }

    /// The lowest start address of the executable in the lines fed so far.
    pub closed spec fn lowest(&self) -> Option<u64> {
        self.lowest@
    }

    /// A scan for the executable at `exe` that has seen no line yet.
    pub fn new(exe: &str) -> (scan: Self)
        ensures
            scan.exe() == exe@,
            scan.lowest() is None,
    {
        MapsScan { exe: chars_of(exe), lowest: Lowest::new() }
    }

    /// Takes the next line of the listing into account. An unusable line is
    /// reported and leaves the scan as it was.
    pub fn feed(&mut self, line: &str) -> (fed: Result<(), Error>)
        ensures
            final(self).exe() == old(self).exe(),
            match line_outcome(line@, old(self).exe()) {
                LineOutcome::Start(start) => fed is Ok && final(self).lowest() == lower(
                    old(self).lowest(),
                    start,
                ),
                LineOutcome::Unrelated => fed is Ok && final(self).lowest() == old(self).lowest(),
                fault => fed matches Err(error) && reports(error, fault) && final(self).lowest()
                    == old(self).lowest(),
            },
    {
        let chars = chars_of(line);
        match outcome_of(&chars, &self.exe) {
            LineOutcome::Malformed => Err(Error::MemoryMapError("malformed maps line".to_owned())),
            LineOutcome::InvalidAddress => Err(Error::MemoryMapError("invalid addr".to_owned())),
            LineOutcome::Unrelated => Ok(()),
            LineOutcome::Start(start) => {
                self.lowest.take(start);
                Ok(())
            },
        }
    }

    /// Ends the scan: the lowest start address seen, or `NoMemoryMapping`
    /// where no line mapped the executable.
    pub fn finish(self) -> (found: Result<u64, Error>)
        ensures
            match self.lowest() {
                Some(start) => found == Ok::<u64, Error>(start),
                None => found == Err::<u64, Error>(Error::NoMemoryMapping),
            },
    {
        match self.lowest.get() {
            Some(start) => Ok(start),
            None => Err(Error::NoMemoryMapping),
        }
    }
}

/// The load bias of the executable at `exe`, from the lines of a memory-map
/// listing of its process.
pub fn read_aslr_offset(exe: &str, lines: &Vec<String>) -> (offset: Result<u64, Error>)
    ensures
        resolves(lines.deep_view(), exe@, offset),
{
    let mut scan = MapsScan::new(exe);
    let mut i: usize = 0;
    while i < lines.len()
        invariant
            i <= lines.len(),
            scan.exe() == exe@,
            faultless(lines.deep_view().take(i as int), exe@),
            is_lowest(starts(lines.deep_view().take(i as int), exe@), scan.lowest()),
        decreases lines.len() - i,
    {
        let ghost all = lines.deep_view();
        let ghost seen = all.take(i as int);
        let ghost more = all.take(i + 1);
        let ghost before = scan.lowest();
        proof {
            assert(all[i as int] == lines[i as int]@);
        }
        match scan.feed(lines[i].as_str()) {
            Ok(()) => {
                proof {
                    let outcome = line_outcome(all[i as int], exe@);
                    lemma_lowest_push(starts(seen, exe@), before, outcome.start());
                    assert(starts(more, exe@) =~= starts(seen, exe@).push(outcome.start()));
                    assert forall|j: int| 0 <= j < more.len() implies !(#[trigger] line_outcome(
                        more[j],
                        exe@,
                    )).is_fault() by {
                        if j < i {
                            assert(more[j] == seen[j]);
                        }
                    }
                }
            },
            Err(error) => {
                proof {
                    assert forall|j: int| 0 <= j < i implies !(#[trigger] line_outcome(
                        all[j],
                        exe@,
                    )).is_fault() by {
                        assert(all[j] == seen[j]);
                    }
                    assert(first_fault_at(all, exe@, i as int));
                }
                return Err(error);
            },
        }
        i += 1;
    }
    proof {
        assert(lines.deep_view().take(i as int) =~= lines.deep_view());
    }
    scan.finish()
}

/// Two results agree: they are the same address, or errors of one kind that
/// say the same.
pub open spec fn same_result(a: Result<u64, Error>, b: Result<u64, Error>) -> bool {
    match (a, b) {
        (Ok(x), Ok(y)) => x == y,
        (Err(Error::NoMemoryMapping), Err(Error::NoMemoryMapping)) => true,
        (Err(Error::MemoryMapError(m)), Err(Error::MemoryMapError(n))) => m@ == n@,
        _ => false,
    }
}

/// A listing gives one result only: resolving the same listing twice, for
/// the same executable, gives the same offset or the same error.
pub proof fn lemma_resolution_is_unique(
    lines: Seq<Seq<char>>,
    exe: Seq<char>,
    first: Result<u64, Error>,
    second: Result<u64, Error>,
)
    requires
        resolves(lines, exe, first),
        resolves(lines, exe, second),
    ensures
        same_result(first, second),
{
    if faultless(lines, exe) {
        let a = match first {
            Ok(start) => Some(start),
            _ => None,
        };
        let b = match second {
            Ok(start) => Some(start),
            _ => None,
        };
        assert(is_lowest(starts(lines, exe), a) && is_lowest(starts(lines, exe), b)) by {
            if !(first is Ok) && !(first matches Err(Error::NoMemoryMapping)) {
                let i = choose|i: int| #[trigger]
                    first_fault_at(lines, exe, i) && reports(
                        first->Err_0,
                        line_outcome(lines[i], exe),
                    );
                assert(line_outcome(lines[i], exe).is_fault());
            }
            if !(second is Ok) && !(second matches Err(Error::NoMemoryMapping)) {
                let i = choose|i: int| #[trigger]
                    first_fault_at(lines, exe, i) && reports(
                        second->Err_0,
                        line_outcome(lines[i], exe),
                    );
                assert(line_outcome(lines[i], exe).is_fault());
            }
        }
        lemma_lowest_unique(starts(lines, exe), a, b);
    } else {
        let i = choose|i: int| #[trigger]
            first_fault_at(lines, exe, i) && reports(first->Err_0, line_outcome(lines[i], exe));
        let j = choose|j: int| #[trigger]
            first_fault_at(lines, exe, j) && reports(second->Err_0, line_outcome(lines[j], exe));
        if i < j {
            assert(!line_outcome(lines[i], exe).is_fault());
        }
        if j < i {
            assert(!line_outcome(lines[j], exe).is_fault());
        }
    }
}

/// What a result says about the listing it resolves: an offset where no line
/// is unusable and some line maps the executable, `NoMemoryMapping` where no
/// line is unusable and none maps it, and a memory-map error where a line is
/// unusable.
pub proof fn lemma_resolution_cases(
    lines: Seq<Seq<char>>,
    exe: Seq<char>,
    result: Result<u64, Error>,
)
    requires
        resolves(lines, exe, result),
    ensures
        result is Ok <==> faultless(lines, exe) && exists|j: int|
            0 <= j < lines.len() && (#[trigger] line_outcome(lines[j], exe)) is Start,
        result matches Err(Error::NoMemoryMapping) <==> faultless(lines, exe) && forall|j: int|
            0 <= j < lines.len() ==> !((#[trigger] line_outcome(lines[j], exe)) is Start),
        result matches Err(Error::MemoryMapError(_)) <==> !faultless(lines, exe),
{
    let all = starts(lines, exe);
    match result {
        Ok(start) => {
            let j = choose|j: int| 0 <= j < all.len() && all[j] == Some(start);
            assert(line_outcome(lines[j], exe) is Start);
        },
        Err(Error::NoMemoryMapping) => {
            assert forall|j: int| 0 <= j < lines.len() implies !((#[trigger] line_outcome(
                lines[j],
                exe,
            )) is Start) by {
                assert(all[j] is None);
            }
        },
        Err(error) => {
            let i = choose|i: int| #[trigger]
                first_fault_at(lines, exe, i) && reports(error, line_outcome(lines[i], exe));
            assert(line_outcome(lines[i], exe).is_fault());
        },
    }
}

/// No line maps the executable whose path is empty: the path of a line is
/// never empty. So the empty text can stand for a path that no listing can
/// name.
pub proof fn lemma_empty_path_is_never_mapped(line: Seq<char>)
    ensures
        line_outcome(line, Seq::empty()) is Malformed || line_outcome(line, Seq::empty())
            is Unrelated,
{
    if has_field(line, 5) {
        let from = field_start(line, 5);
        lemma_field_bounds(line, 5);
        lemma_first_at_lower_bound(line, from, Mark::Space);
        assert(line_path(line).len() > 0);
        lemma_only_the_empty_path_is_empty(line_path(line));
    }
}

/// A field lies within its line, and where the line has the field, it
/// begins with a character that is no white space.
pub proof fn lemma_field_bounds(line: Seq<char>, n: nat)
    ensures
        0 <= field_start(line, n) <= field_end(line, n) <= line.len(),
        has_field(line, n) ==> Mark::Ink.fits(line[field_start(line, n)]) && field_start(line, n)
            < field_end(line, n),
    decreases n,
{
    if n == 0 {
        lemma_first_at_lower_bound(line, 0, Mark::Ink);
    } else {
        lemma_field_bounds(line, (n - 1) as nat);
        let gap = first_at(line, field_start(line, (n - 1) as nat), Mark::Space);
        lemma_first_at_lower_bound(line, field_start(line, (n - 1) as nat), Mark::Space);
        lemma_first_at_lower_bound(line, gap, Mark::Ink);
    }
    lemma_first_at_lower_bound(line, field_start(line, n), Mark::Space);
}

/// The error for an executable whose path could not be resolved.
pub fn executable_path_unavailable(cause: &str) -> (error: Error)
    ensures
        error matches Error::ExecutablePathError(text) && text@ == "readlink failed: "@ + cause@,
{
    Error::ExecutablePathError(String::from_str("readlink failed: ").concat(cause))
}

/// The error for a listing that could not be opened.
pub fn listing_unavailable(cause: &str) -> (error: Error)
    ensures
        error matches Error::MemoryMapError(text) && text@ == "open maps: "@ + cause@,
{
    Error::MemoryMapError(String::from_str("open maps: ").concat(cause))
}

/// The error for a listing that broke off while it was read.
pub fn listing_unreadable(cause: &str) -> (error: Error)
    ensures
        error matches Error::MemoryMapError(text) && text@ == "read maps: "@ + cause@,
{
    Error::MemoryMapError(String::from_str("read maps: ").concat(cause))
}

} // verus!
