//! What can be wrong with an index as such.

use vstd::prelude::*;
use vstd::string::StringExecFns;

verus! {

/// A fault of an index.
#[derive(Debug)]
pub enum IndexError {
    /// The index names the carried path more than once.
    DuplicatePath(String),
}

impl IndexError {
    /// The error in words.
    pub open spec fn spec_message(self) -> Seq<char> {
        match self {
            IndexError::DuplicatePath(path) => "Duplicate path found in index: "@ + path@,
        }
    }

    /// The error in words, for people to read.
    pub fn message(&self) -> (r: String)
        ensures
            r@ == self.spec_message(),
    {
        match self {
            IndexError::DuplicatePath(path) => String::from_str(
                "Duplicate path found in index: ",
            ).concat(path.as_str()),
        }
    }
}

} // verus!
