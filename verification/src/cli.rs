//! The command line's one option: the file to read the records from.

use std::path::PathBuf;
use vstd::prelude::*;

verus! {

/// Makes `std::path::PathBuf` known to the verifier as an opaque type. A path is only
/// carried through; nothing is claimed of what it holds.
#[verifier::external_type_specification]
#[verifier::external_body]
pub struct ExPathBuf(PathBuf);

/// The parsed command line.
#[derive(Debug)]
pub struct Opt {
    /// Input file
    pub input: PathBuf,
}

impl Opt {
    /// The path of the input file, as it was given.
    pub fn get_input_file(self) -> (path: PathBuf)
        ensures
            path == self.input,
    {
        self.input
    }
}

} // verus!
