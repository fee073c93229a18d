//! Settings for loading the symbol table that addresses are looked up in.

use std::path::Path;
use vstd::prelude::*;

verus! {

/// `std::path::Path`, carried through as it is. Nothing here looks inside a
/// path.
#[verifier::external_type_specification]
#[verifier::external_body]
pub struct ExPath(Path);

/// Says which binary a symbol table is to be loaded for.
#[derive(Clone, Copy, Debug)]
pub struct SymbolMapBuilder<'a> {
    binary_path: Option<&'a Path>,
}

impl<'a> SymbolMapBuilder<'a> {
    /// The binary that was chosen, if one was. Without a choice, the symbol
    /// table is that of the running executable.
    pub closed spec fn chosen(self) -> Option<&'a Path> {
        self.binary_path
    }

    /// A builder with no binary chosen.
    pub fn new() -> (builder: Self)
        ensures
            builder.chosen() is None,
    {
        SymbolMapBuilder { binary_path: None }
    }

    /// The same builder with the binary at `binary_path` chosen.
    pub fn with_binary_path(self, binary_path: &'a Path) -> (builder: Self)
        ensures
            builder.chosen() == Some(binary_path),
    {
        SymbolMapBuilder { binary_path: Some(binary_path) }
    }

    /// The binary that was chosen, if one was.
    pub fn binary_path(&self) -> (path: Option<&'a Path>)
        ensures
            path == self.chosen(),
    {
        self.binary_path
    }
}

} // verus!
