//! The error type shared by every operation of the crate, and what the
//! crate makes of the answers of a backend.

pub mod assetpackage;
pub mod aura;
pub mod filesystem;

use vstd::prelude::*;
use vstd::string::StringExecFns;
use vstd::utf8::decode_utf8;
use vstd::utf8::valid_utf8;

verus! {

/// Any failure of a read, a lookup or a packaging step.
#[derive(Debug, PartialEq)]
pub enum FilesystemError {
    /// The file does not exist.
    NotFound(String),
    /// The caller may not read the file.
    PermissionDenied(String),
    /// The pipe that was read from was closed.
    BrokenPipe(String),
    /// A component of the path that should be a directory is not one.
    NotADirectory(String),
    /// The path names a directory where a file was expected.
    IsADirectory(String),
    /// The file ended before the announced number of bytes was read.
    UnexpectedEof(String),
    /// The file does not fit in memory.
    OutOfMemory(String),
    /// An index file could not be decoded; carries the decoder's message.
    DeserializationError(String),
    /// An index could not be encoded; carries the encoder's message.
    SerializationError(String),
    /// An index names the carried path more than once.
    DuplicatePathsInIndex(String),
    /// An index lookup was made on a plain directory.
    UnindexedFilesystem(String),
    /// A web resource could not be fetched; carries the URL and the reason.
    FetchError(String, String),
    /// A path resolves outside the directory it must stay in; carries the
    /// path and that directory.
    OutOfBounds(String, String),
    /// Any other failure; carries the path and the reason.
    Generic(String, String),
}

/// The mathematical value of a [`FilesystemError`].
pub enum FilesystemErrorView {
    NotFound(Seq<char>),
    PermissionDenied(Seq<char>),
    BrokenPipe(Seq<char>),
    NotADirectory(Seq<char>),
    IsADirectory(Seq<char>),
    UnexpectedEof(Seq<char>),
    OutOfMemory(Seq<char>),
    DeserializationError(Seq<char>),
    SerializationError(Seq<char>),
    DuplicatePathsInIndex(Seq<char>),
    UnindexedFilesystem(Seq<char>),
    FetchError(Seq<char>, Seq<char>),
    OutOfBounds(Seq<char>, Seq<char>),
    Generic(Seq<char>, Seq<char>),
}

impl View for FilesystemError {
    type V = FilesystemErrorView;

    open spec fn view(&self) -> FilesystemErrorView {
        match self {
            FilesystemError::NotFound(p) => FilesystemErrorView::NotFound(p@),
            FilesystemError::PermissionDenied(p) => FilesystemErrorView::PermissionDenied(p@),
            FilesystemError::BrokenPipe(p) => FilesystemErrorView::BrokenPipe(p@),
            FilesystemError::NotADirectory(p) => FilesystemErrorView::NotADirectory(p@),
            FilesystemError::IsADirectory(p) => FilesystemErrorView::IsADirectory(p@),
            FilesystemError::UnexpectedEof(p) => FilesystemErrorView::UnexpectedEof(p@),
            FilesystemError::OutOfMemory(p) => FilesystemErrorView::OutOfMemory(p@),
            FilesystemError::DeserializationError(m) => FilesystemErrorView::DeserializationError(
                m@,
            ),
            FilesystemError::SerializationError(m) => FilesystemErrorView::SerializationError(m@),
            FilesystemError::DuplicatePathsInIndex(p) => FilesystemErrorView::DuplicatePathsInIndex(
                p@,
            ),
            FilesystemError::UnindexedFilesystem(p) => FilesystemErrorView::UnindexedFilesystem(p@),
            FilesystemError::FetchError(u, m) => FilesystemErrorView::FetchError(u@, m@),
            FilesystemError::OutOfBounds(p, r) => FilesystemErrorView::OutOfBounds(p@, r@),
            FilesystemError::Generic(p, m) => FilesystemErrorView::Generic(p@, m@),
        }
    }
}

impl FilesystemErrorView {
    /// The same error about another file: the variants that stand for a
    /// failure of the platform take the new path, the others stay as they are.
    pub open spec fn with_path(self, path: Seq<char>) -> FilesystemErrorView {
        match self {
            FilesystemErrorView::NotFound(_) => FilesystemErrorView::NotFound(path),
            FilesystemErrorView::PermissionDenied(_) => FilesystemErrorView::PermissionDenied(path),
            FilesystemErrorView::BrokenPipe(_) => FilesystemErrorView::BrokenPipe(path),
            FilesystemErrorView::NotADirectory(_) => FilesystemErrorView::NotADirectory(path),
            FilesystemErrorView::IsADirectory(_) => FilesystemErrorView::IsADirectory(path),
            FilesystemErrorView::UnexpectedEof(_) => FilesystemErrorView::UnexpectedEof(path),
            FilesystemErrorView::OutOfMemory(_) => FilesystemErrorView::OutOfMemory(path),
            FilesystemErrorView::Generic(_, reason) => FilesystemErrorView::Generic(path, reason),
            other => other,
        }
    }
}

impl Clone for FilesystemError {
    fn clone(&self) -> (r: Self)
        ensures
            r@ == self@,
    {
        match self {
            FilesystemError::NotFound(p) => FilesystemError::NotFound(p.clone()),
            FilesystemError::PermissionDenied(p) => FilesystemError::PermissionDenied(p.clone()),
            FilesystemError::BrokenPipe(p) => FilesystemError::BrokenPipe(p.clone()),
            FilesystemError::NotADirectory(p) => FilesystemError::NotADirectory(p.clone()),
            FilesystemError::IsADirectory(p) => FilesystemError::IsADirectory(p.clone()),
            FilesystemError::UnexpectedEof(p) => FilesystemError::UnexpectedEof(p.clone()),
            FilesystemError::OutOfMemory(p) => FilesystemError::OutOfMemory(p.clone()),
            FilesystemError::DeserializationError(m) => FilesystemError::DeserializationError(
                m.clone(),
            ),
            FilesystemError::SerializationError(m) => FilesystemError::SerializationError(
                m.clone(),
            ),
            FilesystemError::DuplicatePathsInIndex(p) => FilesystemError::DuplicatePathsInIndex(
                p.clone(),
            ),
            FilesystemError::UnindexedFilesystem(p) => FilesystemError::UnindexedFilesystem(
                p.clone(),
            ),
            FilesystemError::FetchError(u, m) => FilesystemError::FetchError(u.clone(), m.clone()),
            FilesystemError::OutOfBounds(p, r) => FilesystemError::OutOfBounds(
                p.clone(),
                r.clone(),
            ),
            FilesystemError::Generic(p, m) => FilesystemError::Generic(p.clone(), m.clone()),
        }
    }
}

/// The kinds of failure of the platform that the crate tells apart.
#[derive(Debug, PartialEq, Eq, Clone, Copy)]
pub enum IoErrorKind {
    NotFound,
    PermissionDenied,
    BrokenPipe,
    NotADirectory,
    IsADirectory,
    UnexpectedEof,
    OutOfMemory,
    /// Every other kind.
    Other,
}

/// The path that an error of the platform carries until the file that it
/// concerns is set with [`FilesystemError::with_path`].
pub open spec fn unspecified_path() -> Seq<char> {
    "[unspecified]"@
}

/// The error that stands for a failure of the platform of the given kind
/// and with the given message, the file it concerns not yet known.
pub open spec fn platform_error(kind: IoErrorKind, message: Seq<char>) -> FilesystemErrorView {
    match kind {
        IoErrorKind::NotFound => FilesystemErrorView::NotFound(unspecified_path()),
        IoErrorKind::PermissionDenied => FilesystemErrorView::PermissionDenied(unspecified_path()),
        IoErrorKind::BrokenPipe => FilesystemErrorView::BrokenPipe(unspecified_path()),
        IoErrorKind::NotADirectory => FilesystemErrorView::NotADirectory(unspecified_path()),
        IoErrorKind::IsADirectory => FilesystemErrorView::IsADirectory(unspecified_path()),
        IoErrorKind::UnexpectedEof => FilesystemErrorView::UnexpectedEof(unspecified_path()),
        IoErrorKind::OutOfMemory => FilesystemErrorView::OutOfMemory(unspecified_path()),
        IoErrorKind::Other => FilesystemErrorView::Generic(unspecified_path(), message),
    }
}

/// `std::io::Error`, the error type of the platform.
#[verifier::external_type_specification]
#[verifier::external_body]
pub struct ExIoError(std::io::Error);

/// Reads the kind and the message of a `std::io::Error`, with
/// `std::io::Error::kind` and its `Display`. Nothing is claimed of either.
#[verifier::external_body]
fn io_error_parts(error: &std::io::Error) -> (IoErrorKind, String) {
    let kind = match error.kind() {
        std::io::ErrorKind::NotFound => IoErrorKind::NotFound,
        std::io::ErrorKind::PermissionDenied => IoErrorKind::PermissionDenied,
        std::io::ErrorKind::BrokenPipe => IoErrorKind::BrokenPipe,
        std::io::ErrorKind::NotADirectory => IoErrorKind::NotADirectory,
        std::io::ErrorKind::IsADirectory => IoErrorKind::IsADirectory,
        std::io::ErrorKind::UnexpectedEof => IoErrorKind::UnexpectedEof,
        std::io::ErrorKind::OutOfMemory => IoErrorKind::OutOfMemory,
        _ => IoErrorKind::Other,
    };
    (kind, error.to_string())
}

impl vstd::std_specs::convert::FromSpecImpl<std::io::Error> for FilesystemError {
    open spec fn obeys_from_spec() -> bool {
        false
    }

    open spec fn from_spec(value: std::io::Error) -> FilesystemError {
        arbitrary()
    }
}

impl From<std::io::Error> for FilesystemError {
    /// The error that stands for a failure of the platform. Which variant it
    /// is follows from the kind of the failure; the message is kept only
    /// where the kind is none of those that have a variant of their own. The
    /// path is not known here: it reads `[unspecified]` until
    /// [`FilesystemError::with_path`] sets it.
    fn from(value: std::io::Error) -> (r: FilesystemError)
        ensures
            exists|kind: IoErrorKind, message: Seq<char>| r@ == platform_error(kind, message),
    {
        let (kind, message) = io_error_parts(&value);
        FilesystemError::from_platform(kind, message)
    }
}

impl FilesystemErrorView {
    /// The error in words.
    pub open spec fn message(self) -> Seq<char> {
        match self {
            FilesystemErrorView::NotFound(path) => "Couldn't find file at \""@ + path + "\""@,
            FilesystemErrorView::PermissionDenied(path) => "You don't have permissions to read \""@
                + path + "\""@,
            FilesystemErrorView::BrokenPipe(path) => "Broken pipe while reading \""@ + path
                + "\""@,
            FilesystemErrorView::NotADirectory(path) => "The \"directory\" was not a directory \""@
                + path + "\""@,
            FilesystemErrorView::IsADirectory(path) => "The \"file\" was actually a directory \""@
                + path + "\""@,
            FilesystemErrorView::UnexpectedEof(path) => "Unexpected end of file in file \""@ + path
                + "\""@,
            FilesystemErrorView::OutOfMemory(path) => "Can't load this file (out of memory): \""@
                + path + "\""@,
            FilesystemErrorView::DeserializationError(message) =>
                "Couldn't deserialize. Obtained error: "@ + message,
            FilesystemErrorView::SerializationError(message) =>
                "Couldn't serialize. Obtained error: "@ + message,
            FilesystemErrorView::DuplicatePathsInIndex(path) =>
                "Duplicate path found in index file: "@ + path,
            FilesystemErrorView::UnindexedFilesystem(path) => "Couldn't obtain index for file at \""@
                + path + "\". Filesystem is unindexed"@,
            FilesystemErrorView::FetchError(url, reason) => "Couldn't fetch web resource at \""@
                + url + "\". Reason: "@ + reason,
            FilesystemErrorView::OutOfBounds(path, root) => "Can't access \""@ + path
                + "\". Resource outside directory \""@ + root + "\""@,
            FilesystemErrorView::Generic(path, reason) => "Couldn't read \""@ + path + "\"."@ + (
            if reason.len() == 0 {
                Seq::empty()
            } else {
                " Reason: "@ + reason
            }),
        }
    }
}

/// The three texts one after the other.
fn sentence(before: &str, subject: &str, after: &str) -> (r: String)
    ensures
        r@ == before@ + subject@ + after@,
{
    let mut out = String::from_str(before);
    out.append(subject);
    out.append(after);
    out
}

impl FilesystemError {
    /// The error in words, for people to read.
    pub fn message(&self) -> (r: String)
        ensures
            r@ == self@.message(),
    {
        match self {
            FilesystemError::NotFound(path) => sentence(
                "Couldn't find file at \"",
                path.as_str(),
                "\"",
            ),
            FilesystemError::PermissionDenied(path) => sentence(
                "You don't have permissions to read \"",
                path.as_str(),
                "\"",
            ),
            FilesystemError::BrokenPipe(path) => sentence(
                "Broken pipe while reading \"",
                path.as_str(),
                "\"",
            ),
            FilesystemError::NotADirectory(path) => sentence(
                "The \"directory\" was not a directory \"",
                path.as_str(),
                "\"",
            ),
            FilesystemError::IsADirectory(path) => sentence(
                "The \"file\" was actually a directory \"",
                path.as_str(),
                "\"",
            ),
            FilesystemError::UnexpectedEof(path) => sentence(
                "Unexpected end of file in file \"",
                path.as_str(),
                "\"",
            ),
            FilesystemError::OutOfMemory(path) => sentence(
                "Can't load this file (out of memory): \"",
                path.as_str(),
                "\"",
            ),
            FilesystemError::DeserializationError(message) => String::from_str(
                "Couldn't deserialize. Obtained error: ",
            ).concat(message.as_str()),
            FilesystemError::SerializationError(message) => String::from_str(
                "Couldn't serialize. Obtained error: ",
            ).concat(message.as_str()),
            FilesystemError::DuplicatePathsInIndex(path) => String::from_str(
                "Duplicate path found in index file: ",
            ).concat(path.as_str()),
            FilesystemError::UnindexedFilesystem(path) => sentence(
                "Couldn't obtain index for file at \"",
                path.as_str(),
                "\". Filesystem is unindexed",
            ),
            FilesystemError::FetchError(url, reason) => sentence(
                "Couldn't fetch web resource at \"",
                url.as_str(),
                "\". Reason: ",
            ).concat(reason.as_str()),
            FilesystemError::OutOfBounds(path, root) => {
                let mut out = sentence(
                    "Can't access \"",
                    path.as_str(),
                    "\". Resource outside directory \"",
                );
                out.append(root.as_str());
                out.append("\"");
                out
            },
            FilesystemError::Generic(path, reason) => {
                let mut out = sentence("Couldn't read \"", path.as_str(), "\".");
                if reason.as_str().is_empty() {
                    assert(out@ + Seq::<char>::empty() =~= out@);
                } else {
                    out.append(" Reason: ");
                    out.append(reason.as_str());
                    assert(out@ =~= "Couldn't read \""@ + path@ + "\"."@ + (" Reason: "@
                        + reason@));
                }
                out
            },
        }
    }

    /// The error that stands for a failure of the platform of the given kind
    /// and with the given message.
    pub fn from_platform(kind: IoErrorKind, message: String) -> (r: Self)
        ensures
            r@ == platform_error(kind, message@),
    {
        let path = String::from_str("[unspecified]");
        match kind {
            IoErrorKind::NotFound => FilesystemError::NotFound(path),
            IoErrorKind::PermissionDenied => FilesystemError::PermissionDenied(path),
            IoErrorKind::BrokenPipe => FilesystemError::BrokenPipe(path),
            IoErrorKind::NotADirectory => FilesystemError::NotADirectory(path),
            IoErrorKind::IsADirectory => FilesystemError::IsADirectory(path),
            IoErrorKind::UnexpectedEof => FilesystemError::UnexpectedEof(path),
            IoErrorKind::OutOfMemory => FilesystemError::OutOfMemory(path),
            IoErrorKind::Other => FilesystemError::Generic(path, message),
        }
    }

    /// Sets the path of an error that came from the platform, where the path
    /// was not known when the error was made. Errors of the crate's own
    /// rules keep what they carry.
    pub fn with_path(self, path: String) -> (r: Self)
        ensures
            r@ == self@.with_path(path@),
    {
        match self {
            FilesystemError::NotFound(_) => FilesystemError::NotFound(path),
            FilesystemError::PermissionDenied(_) => FilesystemError::PermissionDenied(path),
            FilesystemError::BrokenPipe(_) => FilesystemError::BrokenPipe(path),
            FilesystemError::NotADirectory(_) => FilesystemError::NotADirectory(path),
            FilesystemError::IsADirectory(_) => FilesystemError::IsADirectory(path),
            FilesystemError::UnexpectedEof(_) => FilesystemError::UnexpectedEof(path),
            FilesystemError::OutOfMemory(_) => FilesystemError::OutOfMemory(path),
            FilesystemError::Generic(_, value) => FilesystemError::Generic(path, value),
            other => other,
        }
    }
}

/// What an operation of the crate returns.
pub type FilesystemResult<T> = Result<T, FilesystemError>;

/// The message with which `String::from_utf8` refuses bytes that are no
/// UTF-8.
pub uninterp spec fn utf8_error_message(bytes: Seq<u8>) -> Seq<char>;

/// Decodes bytes with `String::from_utf8`. As its documentation says, the
/// call succeeds exactly on valid UTF-8, and the string then holds the
/// characters that the bytes encode. Of the error only its message is kept,
/// which is a function of the bytes.
#[verifier::external_body]
fn string_from_utf8(bytes: Vec<u8>) -> (r: Result<String, String>)
    ensures
        match r {
            Ok(text) => valid_utf8(bytes@) && text@ == decode_utf8(bytes@),
            Err(message) => !valid_utf8(bytes@) && message@ == utf8_error_message(bytes@),
        },
{
    match String::from_utf8(bytes) {
        Ok(text) => Ok(text),
        Err(e) => Err(e.to_string()),
    }
}

/// What decoding the bytes of the file at `path` as text gives: the
/// characters that the bytes encode where they are valid UTF-8, and else an
/// error that carries the path and the decoder's message.
pub open spec fn decoded(path: Seq<char>, bytes: Seq<u8>) -> Result<
    Seq<char>,
    FilesystemErrorView,
> {
    if valid_utf8(bytes) {
        Ok(decode_utf8(bytes))
    } else {
        Err(FilesystemErrorView::Generic(path, utf8_error_message(bytes)))
    }
}

/// The value of a result that holds bytes.
pub open spec fn bytes_result_view(r: FilesystemResult<Vec<u8>>) -> Result<
    Seq<u8>,
    FilesystemErrorView,
> {
    match r {
        Ok(bytes) => Ok(bytes@),
        Err(e) => Err(e@),
    }
}

/// The value of a result that holds a text.
pub open spec fn text_result_view(r: FilesystemResult<String>) -> Result<
    Seq<char>,
    FilesystemErrorView,
> {
    match r {
        Ok(text) => Ok(text@),
        Err(e) => Err(e@),
    }
}

/// Decodes the bytes of the file at `path` as UTF-8 text.
pub fn text_of(path: &str, bytes: Vec<u8>) -> (r: FilesystemResult<String>)
    ensures
        text_result_view(r) == decoded(path@, bytes@),
{
    match string_from_utf8(bytes) {
        Ok(text) => Ok(text),
        Err(message) => Err(FilesystemError::Generic(String::from_str(path), message)),
    }
}

} // verus!
