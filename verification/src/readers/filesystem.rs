//! Reading from a plain directory.

use vstd::prelude::*;
use vstd::string::StringExecFns;
use crate::readers::FilesystemError;
use crate::readers::FilesystemResult;

verus! {

/// The text of the file at `path`, from what reading the file gave. An error
/// of the platform gets the path.
pub fn read_to_string(path: &str, outcome: FilesystemResult<String>) -> (r: FilesystemResult<
    String,
>)
    ensures
        match outcome {
            Ok(text) => r == Ok::<String, FilesystemError>(text),
            Err(e) => r is Err && r->Err_0@ == e@.with_path(path@),
        },
{
    match outcome {
        Ok(text) => Ok(text),
        Err(e) => Err(e.with_path(String::from_str(path))),
    }
}

/// The bytes of the file at `path`, from what reading the file gave. An
/// error of the platform gets the path.
pub fn read(path: &str, outcome: FilesystemResult<Vec<u8>>) -> (r: FilesystemResult<Vec<u8>>)
    ensures
        match outcome {
            Ok(bytes) => r == Ok::<Vec<u8>, FilesystemError>(bytes),
            Err(e) => r is Err && r->Err_0@ == e@.with_path(path@),
        },
{
    match outcome {
        Ok(bytes) => Ok(bytes),
        Err(e) => Err(e.with_path(String::from_str(path))),
    }
}

} // verus!
