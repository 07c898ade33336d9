//! Reading a file from the web.

use vstd::prelude::*;
use vstd::string::StringExecFns;
use crate::readers::bytes_result_view;
use crate::readers::decoded;
use crate::readers::text_of;
use crate::readers::text_result_view;
use crate::readers::FilesystemError;
use crate::readers::FilesystemErrorView;
use crate::readers::FilesystemResult;

verus! {

/// What was fetched, with the bytes and the message as sequences.
pub open spec fn fetched_view(fetched: Result<Vec<u8>, String>) -> Result<Seq<u8>, Seq<char>> {
    match fetched {
        Ok(bytes) => Ok(bytes@),
        Err(reason) => Err(reason@),
    }
}

/// What reading the resource at `url` gives, from what fetching it gave:
/// the bytes as they came, or a fetch error that carries the URL and the
/// reason for which the transport failed.
pub open spec fn remote_read(url: Seq<char>, fetched: Result<Seq<u8>, Seq<char>>) -> Result<
    Seq<u8>,
    FilesystemErrorView,
> {
    match fetched {
        Ok(bytes) => Ok(bytes),
        Err(reason) => Err(FilesystemErrorView::FetchError(url, reason)),
    }
}

/// What reading the same resource as text gives.
pub open spec fn remote_read_to_string(
    url: Seq<char>,
    fetched: Result<Seq<u8>, Seq<char>>,
) -> Result<Seq<char>, FilesystemErrorView> {
    match remote_read(url, fetched) {
        Ok(bytes) => decoded(url, bytes),
        Err(e) => Err(e),
    }
}

/// The bytes of the resource at `url`, from what fetching it gave.
pub fn read(url: &str, fetched: Result<Vec<u8>, String>) -> (r: FilesystemResult<Vec<u8>>)
    ensures
        bytes_result_view(r) == remote_read(url@, fetched_view(fetched)),
{
    match fetched {
        Ok(binary) => Ok(binary),
        Err(reason) => Err(FilesystemError::FetchError(String::from_str(url), reason)),
    }
}

/// The text of the resource at `url`, from what fetching it gave. Bytes
/// that are no UTF-8 are an error that carries the URL.
pub fn read_to_string(url: &str, fetched: Result<Vec<u8>, String>) -> (r: FilesystemResult<String>)
    ensures
        text_result_view(r) == remote_read_to_string(url@, fetched_view(fetched)),
{
    match read(url, fetched) {
        Ok(bytes) => text_of(url, bytes),
        Err(e) => Err(e),
    }
}

} // verus!
