//! Read-only access to a virtual file tree that is backed by a plain
//! directory, by one concatenated package file addressed by byte ranges, or
//! by resources fetched from the web.
//!
//! The crate performs no input or output itself. Every operation that needs
//! the outside world is split in two: a function that says what has to be
//! read, listed or fetched, and a function that takes what came back and
//! turns it into the result. The caller runs the platform calls in between.

pub mod config;
pub mod packager;
pub mod readers;
pub mod text;

pub use crate::config::FilesystemConfig;
pub use crate::config::FilesystemType;
pub use crate::readers::FilesystemError;
pub use crate::readers::FilesystemResult;

use vstd::prelude::*;
use vstd::string::StringExecFns;
use crate::config::assetmap::build;
use crate::config::assetmap::distinct_paths;
use crate::config::assetmap::lemma_build;
use crate::config::assetmap::lemma_map_of_entries;
use crate::config::assetmap::map_of;
use crate::packager::concatenated;
use crate::packager::lemma_packed_files_read_back;
use crate::packager::packed;
use crate::packager::PackagerView;
use crate::readers::assetpackage::available;
use crate::config::index::IndexType;
use crate::config::index::IndexTypeView;
use crate::config::FilesystemConfigView;
use crate::readers::assetpackage::package_read;
use crate::readers::aura::remote_read;
use crate::readers::bytes_result_view;
use crate::readers::decoded;
use crate::readers::text_result_view;
use crate::readers::unspecified_path;
use crate::readers::FilesystemErrorView;

verus! {

/// What has to be read to serve a virtual path.
#[derive(Debug, PartialEq)]
pub enum ReadRequest {
    /// The whole file at this path.
    File { path: String },
    /// `length` bytes of the file at `file`, from the byte at `offset` on.
    PackageRange { file: String, offset: u64, length: u64 },
    /// The resource at this URL.
    Fetch { url: String },
}

/// The mathematical value of a [`ReadRequest`].
pub enum ReadRequestView {
    File { path: Seq<char> },
    PackageRange { file: Seq<char>, offset: u64, length: u64 },
    Fetch { url: Seq<char> },
}

impl View for ReadRequest {
    type V = ReadRequestView;

    open spec fn view(&self) -> ReadRequestView {
        match self {
            ReadRequest::File { path } => ReadRequestView::File { path: path@ },
            ReadRequest::PackageRange { file, offset, length } => ReadRequestView::PackageRange {
                file: file@,
                offset: *offset,
                length: *length,
            },
            ReadRequest::Fetch { url } => ReadRequestView::Fetch { url: url@ },
        }
    }
}

/// Why a request could not be served.
#[derive(Debug)]
pub enum Failure {
    /// The platform failed. The error is the one made from the platform's
    /// own, the file it concerns not yet set.
    Io(FilesystemError),
    /// The transport failed, for the given reason.
    Transport(String),
}

/// The mathematical value of a [`Failure`].
pub enum FailureView {
    Io(FilesystemErrorView),
    Transport(Seq<char>),
}

impl View for Failure {
    type V = FailureView;

    open spec fn view(&self) -> FailureView {
        match self {
            Failure::Io(e) => FailureView::Io(e@),
            Failure::Transport(reason) => FailureView::Transport(reason@),
        }
    }
}

/// The value of what a read or a fetch gave.
pub open spec fn outcome_view(outcome: Result<Vec<u8>, Failure>) -> Result<Seq<u8>, FailureView> {
    match outcome {
        Ok(bytes) => Ok(bytes@),
        Err(failure) => Err(failure@),
    }
}

/// An outcome as the outcome of a read of the platform. A failure of the
/// transport counts as a failure of the platform with the same reason.
pub open spec fn as_read(outcome: Result<Seq<u8>, FailureView>) -> Result<
    Seq<u8>,
    FilesystemErrorView,
> {
    match outcome {
        Ok(bytes) => Ok(bytes),
        Err(FailureView::Io(e)) => Err(e),
        Err(FailureView::Transport(reason)) => Err(
            FilesystemErrorView::Generic(unspecified_path(), reason),
        ),
    }
}

/// An outcome as the outcome of a fetch. A failure of the platform counts as
/// a failure of the transport, with the error in words as the reason.
pub open spec fn as_fetch(outcome: Result<Seq<u8>, FailureView>) -> Result<Seq<u8>, Seq<char>> {
    match outcome {
        Ok(bytes) => Ok(bytes),
        Err(FailureView::Io(e)) => Err(e.message()),
        Err(FailureView::Transport(reason)) => Err(reason),
    }
}

/// What has to be read to serve `path`. In a plain directory it is the file
/// at the path behind the root, whatever the path. In an indexed root it is
/// what the index holds under the path: a run of bytes of the package file
/// behind the root, or a resource on the web. A path that the index does not
/// hold is not found.
pub open spec fn request_for(config: FilesystemConfigView, path: Seq<char>) -> Result<
    ReadRequestView,
    FilesystemErrorView,
> {
    match config.index {
        None => Ok(ReadRequestView::File { path: config.root + path }),
        Some(map) => if !map.dom().contains(path) {
            Err(FilesystemErrorView::NotFound(path))
        } else {
            match map[path] {
                IndexTypeView::AssetPack(pack) => Ok(
                    ReadRequestView::PackageRange {
                        file: config.root + pack.package,
                        offset: pack.starting_index,
                        length: pack.file_size,
                    },
                ),
                IndexTypeView::Aura(aura) => Ok(ReadRequestView::Fetch { url: aura.url }),
            }
        },
    }
}

/// The bytes of the file at `path`, from what serving [`request_for`] gave.
pub open spec fn read_of(
    config: FilesystemConfigView,
    path: Seq<char>,
    outcome: Result<Seq<u8>, FailureView>,
) -> Result<Seq<u8>, FilesystemErrorView> {
    match config.index {
        None => match as_read(outcome) {
            Ok(bytes) => Ok(bytes),
            Err(e) => Err(e.with_path(config.root + path)),
        },
        Some(map) => if !map.dom().contains(path) {
            Err(FilesystemErrorView::NotFound(path))
        } else {
            match map[path] {
                IndexTypeView::AssetPack(pack) => package_read(path, pack, as_read(outcome)),
                IndexTypeView::Aura(aura) => remote_read(aura.url, as_fetch(outcome)),
            }
        },
    }
}

/// The text of the file at `path`, from what serving [`request_for`] gave:
/// the bytes of [`read_of`], decoded as UTF-8. Bytes that are no UTF-8 are
/// an error that carries the place that was read: the path behind the root
/// in a plain directory, the virtual path for a file of a package, the URL
/// for a resource on the web.
pub open spec fn read_to_string_of(
    config: FilesystemConfigView,
    path: Seq<char>,
    outcome: Result<Seq<u8>, FailureView>,
) -> Result<Seq<char>, FilesystemErrorView> {
    match read_of(config, path, outcome) {
        Err(e) => Err(e),
        Ok(bytes) => match request_for(config, path) {
            Ok(ReadRequestView::File { path: place }) => decoded(place, bytes),
            Ok(ReadRequestView::Fetch { url }) => decoded(url, bytes),
            _ => decoded(path, bytes),
        },
    }
}

/// Says what has to be read to serve the virtual path `path`.
pub fn request(path: &str, config: &FilesystemConfig) -> (r: FilesystemResult<ReadRequest>)
    ensures
        match r {
            Ok(wanted) => request_for(config@, path@) == Ok::<_, FilesystemErrorView>(wanted@),
            Err(e) => request_for(config@, path@) == Err::<ReadRequestView, _>(e@),
        },
{
    match config.fs_type() {
        FilesystemType::Filesystem => Ok(ReadRequest::File { path: config.path(path) }),
        FilesystemType::Indexed => match config.get_index_for_file(path) {
            Ok(IndexType::AssetPack(pack)) => Ok(
                ReadRequest::PackageRange {
                    file: config.path(pack.package.as_str()),
                    offset: pack.starting_index,
                    length: pack.file_size,
                },
            ),
            Ok(IndexType::Aura(aura)) => Ok(ReadRequest::Fetch { url: aura.url }),
            Err(e) => Err(e),
        },
    }
}

/// An outcome as the outcome of a read of the platform.
fn read_outcome(outcome: Result<Vec<u8>, Failure>) -> (r: FilesystemResult<Vec<u8>>)
    ensures
        bytes_result_view(r) == as_read(outcome_view(outcome)),
{
    match outcome {
        Ok(bytes) => Ok(bytes),
        Err(Failure::Io(e)) => Err(e),
        Err(Failure::Transport(reason)) => Err(
            FilesystemError::Generic(String::from_str("[unspecified]"), reason),
        ),
    }
}

/// An outcome as the outcome of a fetch.
fn fetch_outcome(outcome: Result<Vec<u8>, Failure>) -> (r: Result<Vec<u8>, String>)
    ensures
        crate::readers::aura::fetched_view(r) == as_fetch(outcome_view(outcome)),
{
    match outcome {
        Ok(bytes) => Ok(bytes),
        Err(Failure::Io(e)) => Err(e.message()),
        Err(Failure::Transport(reason)) => Err(reason),
    }
}

/// The bytes of the file at the virtual path `path`, from what serving
/// [`request`] for the same path gave. Whether the path can be served at
/// all is decided first: a path that an index does not hold is not found,
/// whatever the outcome says.
pub fn read(path: &str, config: &FilesystemConfig, outcome: Result<Vec<u8>, Failure>) -> (r:
    FilesystemResult<Vec<u8>>)
    ensures
        bytes_result_view(r) == read_of(config@, path@, outcome_view(outcome)),
{
    match config.fs_type() {
        FilesystemType::Filesystem => readers::filesystem::read(
            config.path(path).as_str(),
            read_outcome(outcome),
        ),
        FilesystemType::Indexed => match config.get_index_for_file(path) {
            Ok(IndexType::AssetPack(asset_pack_index)) => readers::assetpackage::read(
                path,
                &asset_pack_index,
                read_outcome(outcome),
            ),
            Ok(IndexType::Aura(aura_index)) => readers::aura::read(
                aura_index.url.as_str(),
                fetch_outcome(outcome),
            ),
            Err(e) => Err(e),
        },
    }
}

/// The text of the file at the virtual path `path`, from what serving
/// [`request`] for the same path gave.
pub fn read_to_string(path: &str, config: &FilesystemConfig, outcome: Result<Vec<u8>, Failure>) -> (r:
    FilesystemResult<String>)
    ensures
        text_result_view(r) == read_to_string_of(config@, path@, outcome_view(outcome)),
{
    match config.fs_type() {
        FilesystemType::Filesystem => {
            let place = config.path(path);
            match readers::filesystem::read(place.as_str(), read_outcome(outcome)) {
                Ok(bytes) => readers::text_of(place.as_str(), bytes),
                Err(e) => Err(e),
            }
        },
        FilesystemType::Indexed => match config.get_index_for_file(path) {
            Ok(IndexType::AssetPack(asset_pack_index)) => readers::assetpackage::read_to_string(
                path,
                &asset_pack_index,
                read_outcome(outcome),
            ),
            Ok(IndexType::Aura(aura_index)) => readers::aura::read_to_string(
                aura_index.url.as_str(),
                fetch_outcome(outcome),
            ),
            Err(e) => Err(e),
        },
    }
}

/// A path that the index of an indexed root does not hold is not found,
/// whatever a read would have given. In a plain directory no path is refused
/// for want of an index entry: every path is passed on as the file at the
/// path behind the root.
pub proof fn lemma_resolution(
    config: FilesystemConfigView,
    path: Seq<char>,
    outcome: Result<Seq<u8>, FailureView>,
)
    ensures
        config.index matches Some(map) && !map.dom().contains(path) ==> request_for(config, path)
            == Err::<ReadRequestView, _>(FilesystemErrorView::NotFound(path)) && read_of(
            config,
            path,
            outcome,
        ) == Err::<Seq<u8>, _>(FilesystemErrorView::NotFound(path)),
        config.index is None ==> request_for(config, path) == Ok::<_, FilesystemErrorView>(
            ReadRequestView::File { path: config.root + path },
        ),
{
}

/// What was packed is read back: where files with different relative paths
/// were added to an empty package, the list of the package is a valid index,
/// and in a root with that index each of the files is served as the run of
/// bytes of the package at which it was put, which holds its content.
pub proof fn lemma_packed_file_is_served(
    root: Seq<char>,
    state: PackagerView,
    paths: Seq<Seq<char>>,
    contents: Seq<Seq<u8>>,
    i: int,
)
    requires
        state.current_size == 0,
        state.entries.len() == 0,
        paths.len() == contents.len(),
        concatenated(contents).len() <= u64::MAX,
        forall|a: int, b: int| 0 <= a < b < paths.len() ==> paths[a] != paths[b],
        0 <= i < paths.len(),
    ensures
        ({
            let entries = packed(state, paths, contents).entries;
            let config = FilesystemConfigView { root, index: Some(map_of(entries)) };
            let offset = concatenated(contents.take(i)).len() as u64;
            let length = contents[i].len() as u64;
            &&& build(entries) == Ok::<_, Seq<char>>(map_of(entries))
            &&& request_for(config, paths[i]) == Ok::<_, FilesystemErrorView>(
                ReadRequestView::PackageRange { file: root + state.package, offset, length },
            )
            &&& read_of(
                config,
                paths[i],
                Ok(available(concatenated(contents), offset as nat, length as nat)),
            ) == Ok::<_, FilesystemErrorView>(contents[i])
        }),
{
    let entries = packed(state, paths, contents).entries;
    assert forall|k: int| 0 <= k < paths.len() implies (#[trigger] entries[k]).path
        == paths[k] by {
        lemma_packed_files_read_back(state, paths, contents, k);
    }
    lemma_packed_files_read_back(state, paths, contents, i);
    assert(distinct_paths(entries));
    lemma_build(entries);
    lemma_map_of_entries(entries);
    assert(map_of(entries)[entries[i].path] == entries[i].index);
    assert(map_of(entries).dom().contains(entries[i].path)) by {
        assert(crate::config::assetmap::has_path(entries, entries[i].path));
    }
}

} // verus!
