//! Building a package from a directory tree: which files go in, in which
//! order, and where each of them comes to lie.

use vstd::prelude::*;
use vstd::string::StrSliceExecFns;
use vstd::string::StringExecFns;
use crate::config::assetmap::has_path;
use crate::config::assetmap::AssetMap;
use crate::config::index::encode_index_file;
use crate::config::index::text_of_written;
use crate::config::index::AssetPackIndex;
use crate::config::index::AssetPackIndexView;
use crate::config::index::IndexEntryView;
use crate::config::index::IndexFile;
use crate::config::index::IndexType;
use crate::config::index::IndexTypeView;
use crate::config::json::json_text;
use crate::config::secure_path::in_bounds;
use crate::config::secure_path::relative;
use crate::config::secure_path::BoundChecker;
use crate::readers::assetpackage::available;
use crate::readers::assetpackage::package_read;
use crate::readers::text_result_view;
use crate::readers::FilesystemError;
use crate::readers::FilesystemErrorView;
use crate::readers::FilesystemResult;
use crate::text::strings_view;

verus! {

/// What the platform reported of one child of a directory.
#[derive(Debug)]
pub enum DirectoryEntry {
    /// A regular file, with its path.
    File(String),
    /// A directory, with what was found when it was listed in turn.
    Directory(Directory),
    /// Something that is neither a regular file nor a directory.
    Special,
    /// A child whose entry or kind could not be read.
    Unreadable,
}

/// What the platform reported when a directory was listed.
#[derive(Debug)]
pub enum Listing {
    /// The path does not name a directory.
    NotADirectory,
    /// The directory could not be listed.
    Failed(FilesystemError),
    /// The children of the directory, in the order in which they were read.
    Entries(Vec<DirectoryEntry>),
}

/// A directory that was asked about: its path and what came back.
#[derive(Debug)]
pub struct Directory {
    pub path: String,
    pub listing: Listing,
}

/// The regular files and the subdirectories that lie directly in a directory.
#[derive(Debug, PartialEq)]
pub struct FsObjectsList {
    pub files: Vec<String>,
    pub directories: Vec<String>,
}

/// The paths of the regular files among `entries`, in order.
pub open spec fn own_files(entries: Seq<DirectoryEntry>) -> Seq<Seq<char>>
    decreases entries.len(),
{
    if entries.len() == 0 {
        Seq::empty()
    } else {
        match entries.last() {
            DirectoryEntry::File(path) => own_files(entries.drop_last()).push(path@),
            _ => own_files(entries.drop_last()),
        }
    }
}

/// The paths of the directories among `entries`, in order.
pub open spec fn own_directories(entries: Seq<DirectoryEntry>) -> Seq<Seq<char>>
    decreases entries.len(),
{
    if entries.len() == 0 {
        Seq::empty()
    } else {
        match entries.last() {
            DirectoryEntry::Directory(dir) => own_directories(entries.drop_last()).push(dir.path@),
            _ => own_directories(entries.drop_last()),
        }
    }
}

/// The error with which a directory that could not be listed is refused, if
/// there is one.
pub open spec fn listing_error(dir: Directory) -> Option<FilesystemErrorView> {
    match dir.listing {
        Listing::NotADirectory => Some(FilesystemErrorView::IsADirectory(dir.path@)),
        Listing::Failed(e) => Some(e@.with_path(dir.path@)),
        Listing::Entries(_) => None,
    }
}

/// All regular files below `dir`: those that lie directly in it, then those
/// below each of its subdirectories, in the order of the listing. The first
/// directory on the way that could not be listed gives the error.
pub open spec fn files_under(dir: Directory) -> Result<Seq<Seq<char>>, FilesystemErrorView>
    decreases dir, 0nat,
{
    match dir.listing {
        Listing::NotADirectory => Err(FilesystemErrorView::IsADirectory(dir.path@)),
        Listing::Failed(e) => Err(e@.with_path(dir.path@)),
        Listing::Entries(entries) => match files_below(entries@, entries@.len()) {
            Ok(below) => Ok(own_files(entries@) + below),
            Err(e) => Err(e),
        },
    }
}

/// The regular files below the directories among the first `n` of `entries`.
pub open spec fn files_below(entries: Seq<DirectoryEntry>, n: nat) -> Result<
    Seq<Seq<char>>,
    FilesystemErrorView,
>
    decreases entries, n,
{
    if n == 0 || n > entries.len() {
        Ok(Seq::empty())
    } else {
        match files_below(entries, (n - 1) as nat) {
            Err(e) => Err(e),
            Ok(found) => match entries[n - 1] {
                DirectoryEntry::Directory(dir) => match files_under(dir) {
                    Ok(more) => Ok(found + more),
                    Err(e) => Err(e),
                },
                _ => Ok(found),
            },
        }
    }
}

/// Sorts the children of a listed directory into regular files and
/// directories, each in the order of the listing. Children of another kind
/// and children that could not be read are left out. A path that is no
/// directory, or a directory that could not be listed, is an error that
/// carries the directory's path.
pub fn scan_directory(directory: &Directory) -> (r: FilesystemResult<FsObjectsList>)
    ensures
        match r {
            Ok(list) => listing_error(*directory) is None && match directory.listing {
                Listing::Entries(entries) => strings_view(list.files@) == own_files(entries@)
                    && strings_view(list.directories@) == own_directories(entries@),
                _ => false,
            },
            Err(e) => listing_error(*directory) == Some(e@),
        },
{
    match &directory.listing {
        Listing::NotADirectory => Err(FilesystemError::IsADirectory(directory.path.clone())),
        Listing::Failed(e) => Err(e.clone().with_path(directory.path.clone())),
        Listing::Entries(entries) => {
            let mut files: Vec<String> = Vec::new();
            let mut directories: Vec<String> = Vec::new();
            let mut i: usize = 0;
            while i < entries.len()
                invariant
                    i <= entries.len(),
                    strings_view(files@) == own_files(entries@.take(i as int)),
                    strings_view(directories@) == own_directories(entries@.take(i as int)),
                decreases entries.len() - i,
            {
                proof {
                    assert(entries@.take(i + 1).drop_last() =~= entries@.take(i as int));
                }
                match &entries[i] {
                    DirectoryEntry::File(path) => {
                        files.push(path.clone());
                        assert(strings_view(files@) =~= own_files(entries@.take(i + 1)));
                    },
                    DirectoryEntry::Directory(dir) => {
                        directories.push(dir.path.clone());
                        assert(strings_view(directories@) =~= own_directories(
                            entries@.take(i + 1),
                        ));
                    },
                    _ => {},
                }
                i += 1;
            }
            assert(entries@.take(i as int) =~= entries@);
            Ok(FsObjectsList { files, directories })
        },
    }
}

/// Lists every regular file below a directory, depth first: the files that
/// lie directly in the directory come first, then the files below each
/// subdirectory in the order of the listing. The first directory on the way
/// that is no directory or could not be listed ends the scan with its error.
pub fn scan_directory_recursively(directory: &Directory) -> (r: FilesystemResult<Vec<String>>)
    ensures
        match r {
            Ok(files) => files_under(*directory) == Ok::<_, FilesystemErrorView>(
                strings_view(files@),
            ),
            Err(e) => files_under(*directory) == Err::<Seq<Seq<char>>, _>(e@),
        },
    decreases directory,
{
    let list = match scan_directory(directory) {
        Ok(list) => list,
        Err(e) => {
            return Err(e);
        },
    };
    let mut files = list.files;
    match &directory.listing {
        Listing::Entries(entries) => {
            let ghost own = strings_view(files@);
            let mut i: usize = 0;
            while i < entries.len()
                invariant
                    i <= entries.len(),
                    directory.listing == Listing::Entries(*entries),
                    match files_below(entries@, i as nat) {
                        Ok(found) => strings_view(files@) == own + found,
                        Err(_) => false,
                    },
                decreases entries.len() - i,
            {
                match &entries[i] {
                    DirectoryEntry::Directory(dir) => {
                        match scan_directory_recursively(dir) {
                            Ok(mut more) => {
                                let ghost before = strings_view(files@);
                                let ghost added = strings_view(more@);
                                files.append(&mut more);
                                assert(strings_view(files@) =~= before + added);
                                assert((own + files_below(entries@, i as nat)->Ok_0) + added
                                    =~= own + (files_below(entries@, i as nat)->Ok_0 + added));
                            },
                            Err(e) => {
                                assert(files_below(entries@, (i + 1) as nat) is Err);
                                proof {
                                    lemma_files_below_error(entries@, (i + 1) as nat, entries@.len());
                                }
                                return Err(e);
                            },
                        }
                    },
                    _ => {},
                }
                i += 1;
            }
            Ok(files)
        },
        _ => Ok(files),
    }
}

/// An error among the first `n` entries is the error of every longer run of
/// the same entries.
proof fn lemma_files_below_error(entries: Seq<DirectoryEntry>, n: nat, m: nat)
    requires
        n <= m <= entries.len(),
        files_below(entries, n) is Err,
    ensures
        files_below(entries, m) == files_below(entries, n),
    decreases m - n,
{
    if n < m {
        lemma_files_below_error(entries, n, (m - 1) as nat);
    }
}

/// The path of the file `name` in the directory `directory`: the name
/// alone where the directory is empty, and else the directory, a `/` unless
/// it ends in one, and the name.
pub open spec fn joined(directory: Seq<char>, name: Seq<char>) -> Seq<char> {
    if directory.len() == 0 {
        name
    } else if directory.last() == '/' {
        directory + name
    } else {
        directory + seq!['/'] + name
    }
}

/// The file name of the package with the given base name.
pub open spec fn package_name(base: Seq<char>) -> Seq<char> {
    base + seq!['.', 'o', 'a', 'p']
}

/// The file name of the index with the given base name.
pub open spec fn index_name(base: Seq<char>) -> Seq<char> {
    base + seq!['.', 'o', 'r', 'o', 'i']
}

/// The path of the file `name` in the directory `directory`.
pub fn join_path(directory: &str, name: &str) -> (r: String)
    ensures
        r@ == joined(directory@, name@),
{
    let n = directory.unicode_len();
    if n == 0 {
        return String::from_str(name);
    }
    let mut out = String::from_str(directory);
    if directory.get_char(n - 1) != '/' {
        proof {
            reveal_strlit("/");
            assert("/"@ =~= seq!['/']);
        }
        out.append("/");
    }
    out.append(name);
    out
}

/// What copying one file to the end of the package gave.
#[derive(Debug)]
pub enum CopyOutcome {
    /// The file was copied whole: this many bytes were added to the package.
    Copied(u64),
    /// The file could not be opened or read.
    SourceFailed(FilesystemError),
    /// The package could not be written.
    OutputFailed(FilesystemError),
}

/// A package that is being written: where it lies, how many bytes it holds
/// so far, and where each file that was added to it lies in it.
#[derive(Debug)]
pub struct Packager {
    package: String,
    path: String,
    index_path: String,
    current_size: u64,
    asset_map: AssetMap,
}

/// The mathematical value of a [`Packager`].
pub struct PackagerView {
    /// The file name of the package.
    pub package: Seq<char>,
    /// The path of the package.
    pub path: Seq<char>,
    /// The path of the index that goes with the package.
    pub index_path: Seq<char>,
    /// The number of bytes in the package, which is the offset at which the
    /// next file starts.
    pub current_size: u64,
    /// The files added so far, in the order in which they were added.
    pub entries: Seq<IndexEntryView>,
}

/// The entry under which a file of `length` bytes is recorded when it is
/// added to a package in the state `state`.
pub open spec fn entry_for(state: PackagerView, path: Seq<char>, length: u64) -> IndexEntryView {
    IndexEntryView {
        path,
        index: IndexTypeView::AssetPack(
            AssetPackIndexView {
                package: state.package,
                starting_index: state.current_size,
                file_size: length,
            },
        ),
    }
}

/// The state of a package after a file of `length` bytes with the relative
/// path `path` was added to it: the file starts where the package ended.
pub open spec fn appended(state: PackagerView, path: Seq<char>, length: u64) -> PackagerView {
    PackagerView {
        current_size: (state.current_size + length) as u64,
        entries: state.entries.push(entry_for(state, path, length)),
        ..state
    }
}

/// The entries are the files of the package `package`, each lying directly
/// behind the one before it, the first at offset zero and the last ending at
/// `end`.
pub open spec fn laid_out(entries: Seq<IndexEntryView>, package: Seq<char>, end: int) -> bool
    decreases entries.len(),
{
    if entries.len() == 0 {
        end == 0
    } else {
        match entries.last().index {
            IndexTypeView::AssetPack(pack) => pack.package == package && pack.starting_index
                + pack.file_size == end && laid_out(
                entries.drop_last(),
                package,
                pack.starting_index as int,
            ),
            IndexTypeView::Aura(_) => false,
        }
    }
}

/// In a package whose files are laid out without a gap, the first file
/// starts at offset zero, every other file starts where the file before it
/// ends, and no file reaches past the end of the package.
pub proof fn lemma_laid_out(entries: Seq<IndexEntryView>, package: Seq<char>, end: int, i: int)
    requires
        laid_out(entries, package, end),
        0 <= i < entries.len(),
    ensures
        entries[i].index is AssetPack,
        entries[i].index->AssetPack_0.package == package,
        entries[i].index->AssetPack_0.starting_index + entries[i].index->AssetPack_0.file_size
            <= end,
        i == 0 ==> entries[i].index->AssetPack_0.starting_index == 0,
        i > 0 ==> entries[i - 1].index is AssetPack
            && entries[i].index->AssetPack_0.starting_index == entries[i
            - 1].index->AssetPack_0.starting_index + entries[i - 1].index->AssetPack_0.file_size,
    decreases entries.len(),
{
    let last = entries.len() - 1;
    let front = entries.drop_last();
    let pack = entries.last().index->AssetPack_0;
    if i < last {
        lemma_laid_out(front, package, pack.starting_index as int, i);
    } else if i > 0 {
        lemma_laid_out(front, package, pack.starting_index as int, i - 1);
        lemma_laid_out_end(front, package, pack.starting_index as int);
    } else {
        reveal_with_fuel(laid_out, 2);
    }
}

/// A package that holds a file ends where its last file ends.
proof fn lemma_laid_out_end(entries: Seq<IndexEntryView>, package: Seq<char>, end: int)
    requires
        laid_out(entries, package, end),
        entries.len() > 0,
    ensures
        entries.last().index matches IndexTypeView::AssetPack(pack) && pack.starting_index
            + pack.file_size == end,
{
}

impl View for Packager {
    type V = PackagerView;

    closed spec fn view(&self) -> PackagerView {
        PackagerView {
            package: self.package@,
            path: self.path@,
            index_path: self.index_path@,
            current_size: self.current_size,
            entries: self.asset_map.listing(),
        }
    }
}

impl Packager {
    /// The files recorded so far fill the package without a gap, up to its
    /// current size.
    #[verifier::type_invariant]
    spec fn well_formed(self) -> bool {
        laid_out(self.asset_map.listing(), self.package@, self.current_size as int)
    }

    /// An empty package with the base name `name_no_extension` in the
    /// directory `output`. The package is the file `<name>.oap` there and
    /// its index the file `<name>.oroi`.
    pub fn new(output: &str, name_no_extension: &str) -> (r: Self)
        ensures
            r@ == (PackagerView {
                package: package_name(name_no_extension@),
                path: joined(output@, package_name(name_no_extension@)),
                index_path: joined(output@, index_name(name_no_extension@)),
                current_size: 0,
                entries: Seq::empty(),
            }),
    {
        proof {
            reveal_strlit(".oap");
            reveal_strlit(".oroi");
            assert(".oap"@ =~= seq!['.', 'o', 'a', 'p']);
            assert(".oroi"@ =~= seq!['.', 'o', 'r', 'o', 'i']);
        }
        let package = String::from_str(name_no_extension).concat(".oap");
        let index = String::from_str(name_no_extension).concat(".oroi");
        let path = join_path(output, package.as_str());
        let index_path = join_path(output, index.as_str());
        Packager { package, path, index_path, current_size: 0, asset_map: AssetMap::new() }
    }

    /// The path of the package file.
    pub fn path(&self) -> (r: String)
        ensures
            r@ == self@.path,
    {
        self.path.clone()
    }

    /// The path of the index file.
    pub fn index_path(&self) -> (r: String)
        ensures
            r@ == self@.index_path,
    {
        self.index_path.clone()
    }

    /// The number of bytes in the package so far.
    pub fn current_size(&self) -> (r: u64)
        ensures
            r == self@.current_size,
    {
        self.current_size
    }

    /// Adds one file to the package, from what resolving the path of the
    /// file to its canonical form gave and what copying the file to the end
    /// of the package gave.
    ///
    /// The file is recorded only if its canonical path lies within the root
    /// of `bound_checker`. It is recorded under its path relative to that
    /// root, from the offset at which the package ended, with the number of
    /// bytes that were copied. Nothing is recorded where the path could not
    /// be resolved or resolves outside the root, where the copy failed, or
    /// where another file has the relative path already. An error of the
    /// platform gets the path of the file that failed, the input file or the
    /// package.
    pub fn append_file(
        &mut self,
        bound_checker: &BoundChecker,
        input_file: &str,
        canonical: FilesystemResult<String>,
        outcome: CopyOutcome,
    ) -> (r: FilesystemResult<()>)
        requires
            outcome matches CopyOutcome::Copied(length) ==> old(self)@.current_size + length
                <= u64::MAX,
        ensures
            r is Err ==> final(self)@ == old(self)@,
            match canonical {
                Err(e) => r is Err && r->Err_0@ == e@.with_path(input_file@),
                Ok(resolved) => if !in_bounds(bound_checker@, resolved@) {
                    r is Err && r->Err_0@ == FilesystemErrorView::OutOfBounds(
                        resolved@,
                        bound_checker@,
                    )
                } else {
                    match outcome {
                        CopyOutcome::SourceFailed(e) => r is Err && r->Err_0@ == e@.with_path(
                            input_file@,
                        ),
                        CopyOutcome::OutputFailed(e) => r is Err && r->Err_0@ == e@.with_path(
                            old(self)@.path,
                        ),
                        CopyOutcome::Copied(length) => if has_path(
                            old(self)@.entries,
                            relative(bound_checker@, resolved@),
                        ) {
                            r is Err && r->Err_0@ == FilesystemErrorView::DuplicatePathsInIndex(
                                relative(bound_checker@, resolved@),
                            )
                        } else {
                            r is Ok && final(self)@ == appended(
                                old(self)@,
                                relative(bound_checker@, resolved@),
                                length,
                            )
                        },
                    }
                },
            },
    {
        // Files that resolve outside the root never reach the package.
        let relative_path = match bound_checker.get_relative_string(input_file, canonical) {
            Ok(relative_path) => relative_path,
            Err(e) => {
                return Err(e);
            },
        };
        let file_size = match outcome {
            CopyOutcome::Copied(length) => length,
            CopyOutcome::SourceFailed(e) => {
                return Err(e.with_path(String::from_str(input_file)));
            },
            CopyOutcome::OutputFailed(e) => {
                return Err(e.with_path(self.path.clone()));
            },
        };
        if self.asset_map.contains_key(relative_path.as_str()) {
            return Err(FilesystemError::DuplicatePathsInIndex(relative_path));
        }
        proof {
            use_type_invariant(&*self);
        }
        // The entry and the new size are set in one step.
        let mut taken = Packager {
            package: String::new(),
            path: String::new(),
            index_path: String::new(),
            current_size: 0,
            asset_map: AssetMap::new(),
        };
        std::mem::swap(self, &mut taken);
        let Packager { package, path, index_path, current_size, mut asset_map } = taken;
        let ghost before = asset_map.listing();
        let index_type = IndexType::AssetPack(
            AssetPackIndex { package: package.clone(), file_size, starting_index: current_size },
        );
        asset_map.insert(relative_path, index_type);
        assert(asset_map.listing().drop_last() =~= before);
        *self = Packager {
            package,
            path,
            index_path,
            current_size: current_size + file_size,
            asset_map,
        };
        Ok(())
    }

    /// The index of the files recorded so far. The files fill the package
    /// without a gap: each lies directly behind the one before it, and the
    /// last ends where the package ends.
    pub fn into_index(self) -> (r: AssetMap)
        ensures
            r.listing() == self@.entries,
            laid_out(r.listing(), self@.package, self@.current_size as int),
    {
        proof {
            use_type_invariant(&self);
        }
        self.asset_map
    }

    /// The index of the finished package as JSON text, to be written to the
    /// index file.
    pub fn index_text(self) -> (r: FilesystemResult<String>)
        ensures
            text_result_view(r) == text_of_written(json_text(encode_index_file(self@.entries))),
    {
        let index_file: IndexFile = IndexFile::from(self.asset_map);
        index_file.to_json_string()
    }
}

/// The content of a package: the contents of its files, one after the
/// other, with nothing between them.
pub open spec fn concatenated(contents: Seq<Seq<u8>>) -> Seq<u8>
    decreases contents.len(),
{
    if contents.len() == 0 {
        Seq::empty()
    } else {
        concatenated(contents.drop_last()) + contents.last()
    }
}

/// The state of a package after the files with the given relative paths and
/// contents were added to it in order.
pub open spec fn packed(state: PackagerView, paths: Seq<Seq<char>>, contents: Seq<Seq<u8>>) -> PackagerView
    decreases paths.len(),
{
    if paths.len() == 0 || contents.len() != paths.len() {
        state
    } else {
        appended(
            packed(state, paths.drop_last(), contents.drop_last()),
            paths.last(),
            contents.last().len() as u64,
        )
    }
}

/// In a package that was filled from empty, each file starts where the
/// files before it end and has the length of its content, and reading that
/// run of bytes out of the package gives the content of the file back.
pub proof fn lemma_packed_files_read_back(
    state: PackagerView,
    paths: Seq<Seq<char>>,
    contents: Seq<Seq<u8>>,
    i: int,
)
    requires
        state.current_size == 0,
        state.entries.len() == 0,
        paths.len() == contents.len(),
        concatenated(contents).len() <= u64::MAX,
        0 <= i < paths.len(),
    ensures
        packed(state, paths, contents).current_size == concatenated(contents).len(),
        packed(state, paths, contents).entries.len() == paths.len(),
        packed(state, paths, contents).entries[i].path == paths[i],
        packed(state, paths, contents).entries[i].index matches IndexTypeView::AssetPack(pack)
            && pack.package == state.package && pack.starting_index == concatenated(
            contents.take(i),
        ).len() && pack.file_size == contents[i].len() && package_read(
            paths[i],
            pack,
            Ok(available(concatenated(contents), pack.starting_index as nat, pack.file_size as nat)),
        ) == Ok::<_, FilesystemErrorView>(contents[i]),
    decreases paths.len(),
{
    let front_paths = paths.drop_last();
    let front = contents.drop_last();
    let last = paths.len() - 1;
    lemma_packed_size(state, front_paths, front);
    lemma_packed_size(state, paths, contents);
    assert(contents.take(last) =~= front);
    if i < last {
        lemma_packed_files_read_back(state, front_paths, front, i);
        assert(front.take(i) =~= contents.take(i));
        let pack = packed(state, paths, contents).entries[i].index->AssetPack_0;
        let start = pack.starting_index as nat;
        let length = pack.file_size as nat;
        lemma_concatenated_prefix(front, i);
        lemma_concatenated_prefix(contents, i);
        assert(start + length <= concatenated(front).len());
        assert(available(concatenated(contents), start, length) =~= available(
            concatenated(front),
            start,
            length,
        )) by {
            if length > 0 {
                assert(concatenated(contents).subrange(start as int, (start + length) as int)
                    =~= concatenated(front).subrange(start as int, (start + length) as int));
            }
        }
    } else {
        let whole = concatenated(contents);
        let start = concatenated(front).len();
        let length = contents[i].len();
        let got = available(whole, start, length);
        if length > 0 {
            assert(got =~= contents[i]);
        } else {
            assert(got.take(0) =~= contents[i]);
        }
        assert(got.take(length as int) =~= contents[i]);
    }
}

/// A package that was filled from empty is as long as the contents of its
/// files together, and holds one entry for each file.
proof fn lemma_packed_size(state: PackagerView, paths: Seq<Seq<char>>, contents: Seq<Seq<u8>>)
    requires
        state.current_size == 0,
        state.entries.len() == 0,
        paths.len() == contents.len(),
        concatenated(contents).len() <= u64::MAX,
    ensures
        packed(state, paths, contents).current_size == concatenated(contents).len(),
        packed(state, paths, contents).entries.len() == paths.len(),
        packed(state, paths, contents).package == state.package,
    decreases paths.len(),
{
    if paths.len() > 0 {
        lemma_packed_size(state, paths.drop_last(), contents.drop_last());
    }
}

/// The first files of a package end where the next one starts, inside the
/// package.
proof fn lemma_concatenated_prefix(contents: Seq<Seq<u8>>, i: int)
    requires
        0 <= i < contents.len(),
    ensures
        concatenated(contents.take(i)).len() + contents[i].len() <= concatenated(contents).len(),
        concatenated(contents.take(i + 1)) == concatenated(contents.take(i)) + contents[i],
    decreases contents.len(),
{
    assert(contents.take(i + 1).drop_last() =~= contents.take(i));
    if i == contents.len() - 1 {
        assert(contents.take(i + 1) =~= contents);
    } else {
        lemma_concatenated_prefix(contents.drop_last(), i);
        assert(contents.drop_last().take(i) =~= contents.take(i));
    }
}

} // verus!
