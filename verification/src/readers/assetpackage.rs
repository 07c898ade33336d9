//! Reading a file out of a package: a run of bytes of the package file.

use vstd::prelude::*;
use vstd::string::StringExecFns;
use crate::config::index::AssetPackIndex;
use crate::config::index::AssetPackIndexView;
use crate::readers::bytes_result_view;
use crate::readers::decoded;
use crate::readers::text_of;
use crate::readers::text_result_view;
use crate::readers::FilesystemError;
use crate::readers::FilesystemErrorView;
use crate::readers::FilesystemResult;

verus! {

/// The bytes that a read of `length` bytes at `offset` gets from a file with
/// the content `blob`: those from `offset` on, as far as the file goes, and
/// no more than `length`.
pub open spec fn available(blob: Seq<u8>, offset: nat, length: nat) -> Seq<u8> {
    if offset >= blob.len() {
        Seq::empty()
    } else if offset + length >= blob.len() {
        blob.subrange(offset as int, blob.len() as int)
    } else {
        blob.subrange(offset as int, (offset + length) as int)
    }
}

/// What reading the file with the virtual path `path` out of its package
/// gives, from what the read of the package gave: an error of the platform
/// gets the path, bytes that fall short of the file's size are an
/// unexpected end of file, and else the file is the first bytes that were
/// read, as many as its size.
pub open spec fn package_read(
    path: Seq<char>,
    index: AssetPackIndexView,
    outcome: Result<Seq<u8>, FilesystemErrorView>,
) -> Result<Seq<u8>, FilesystemErrorView> {
    match outcome {
        Err(e) => Err(e.with_path(path)),
        Ok(bytes) => if bytes.len() < index.file_size {
            Err(FilesystemErrorView::UnexpectedEof(path))
        } else {
            Ok(bytes.take(index.file_size as int))
        },
    }
}

/// What reading the same file as text gives.
pub open spec fn package_read_to_string(
    path: Seq<char>,
    index: AssetPackIndexView,
    outcome: Result<Seq<u8>, FilesystemErrorView>,
) -> Result<Seq<char>, FilesystemErrorView> {
    match package_read(path, index, outcome) {
        Ok(bytes) => decoded(path, bytes),
        Err(e) => Err(e),
    }
}

/// The path of the package file that holds the file: the package's name
/// directly behind the root.
pub fn package_path(root: &str, index: &AssetPackIndex) -> (r: String)
    ensures
        r@ == root@ + index@.package,
{
    String::from_str(root).concat(index.package.as_str())
}

/// The bytes of the file with the virtual path `path`, from what came of
/// reading `index.file_size` bytes of its package at `index.starting_index`.
/// The file is returned whole or not at all: where the package ends before
/// the file does, the result is an unexpected end of file.
pub fn read(path: &str, index: &AssetPackIndex, outcome: FilesystemResult<Vec<u8>>) -> (r:
    FilesystemResult<Vec<u8>>)
    ensures
        bytes_result_view(r) == package_read(path@, index@, bytes_result_view(outcome)),
        r is Ok ==> r->Ok_0@.len() == index.file_size,
{
    let mut bytes = match outcome {
        Ok(bytes) => bytes,
        Err(e) => {
            return Err(e.with_path(String::from_str(path)));
        },
    };
    if (bytes.len() as u64) < index.file_size {
        return Err(FilesystemError::UnexpectedEof(String::from_str(path)));
    }
    bytes.truncate(index.file_size as usize);
    Ok(bytes)
}

/// The text of the file with the virtual path `path`, from what came of
/// reading its bytes out of its package. Bytes that are no UTF-8 are an
/// error that carries the path.
pub fn read_to_string(path: &str, index: &AssetPackIndex, outcome: FilesystemResult<Vec<u8>>) -> (r:
    FilesystemResult<String>)
    ensures
        text_result_view(r) == package_read_to_string(path@, index@, bytes_result_view(outcome)),
{
    match read(path, index, outcome) {
        Ok(buffer) => text_of(path, buffer),
        Err(e) => Err(e),
    }
}

/// The number of bytes of a file with the content `blob` that lie at
/// `offset` or behind it.
pub open spec fn remaining(blob: Seq<u8>, offset: nat) -> nat {
    if offset >= blob.len() {
        0
    } else {
        (blob.len() - offset) as nat
    }
}

/// A file is read whole or not at all. A file that is longer than what
/// remains of its package from its offset on is an unexpected end of file,
/// never a shorter run of bytes. Any other file is read back exactly: the
/// bytes of the package from its offset on, as many as its size.
pub proof fn lemma_read_whole_or_not_at_all(
    path: Seq<char>,
    index: AssetPackIndexView,
    blob: Seq<u8>,
)
    ensures
        package_read(
            path,
            index,
            Ok(available(blob, index.starting_index as nat, index.file_size as nat)),
        ) == if index.file_size > remaining(blob, index.starting_index as nat) {
            Err::<Seq<u8>, _>(FilesystemErrorView::UnexpectedEof(path))
        } else if index.file_size == 0 {
            Ok(Seq::empty())
        } else {
            Ok(
                blob.subrange(
                    index.starting_index as int,
                    index.starting_index + index.file_size,
                ),
            )
        },
{
    let got = available(blob, index.starting_index as nat, index.file_size as nat);
    if index.file_size <= remaining(blob, index.starting_index as nat) {
        if index.file_size == 0 {
            assert(got.take(0) =~= Seq::<u8>::empty());
        } else {
            assert(got.take(index.file_size as int) =~= blob.subrange(
                index.starting_index as int,
                index.starting_index + index.file_size,
            ));
        }
    }
}

} // verus!
