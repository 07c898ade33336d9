//! The configuration of a filesystem root: where the root lies and, where
//! the root is indexed, the index that says where each file is found.

pub mod assetmap;
pub mod index;
pub mod index_errors;
pub mod json;
pub mod secure_path;

use vstd::prelude::*;
use vstd::string::StrSliceExecFns;
use vstd::string::StringExecFns;
use crate::config::assetmap::build;
use crate::config::assetmap::AssetMap;
use crate::config::index::index_of_parsed;
use crate::config::index::IndexFile;
use crate::config::index::IndexType;
use crate::config::index::IndexTypeView;
use crate::config::json::json_parse;
use crate::readers::FilesystemError;
use crate::readers::FilesystemErrorView;
use crate::readers::FilesystemResult;
use crate::text::chars_of;
use crate::text::trim;
use crate::text::trimmed;

verus! {

/// The kind of a filesystem root.
#[derive(Debug, PartialEq, Eq, Clone, Copy)]
pub enum FilesystemType {
    /// A plain directory: every path is read directly below the root.
    Filesystem,
    /// A root with an index: every readable path is a key of the index.
    Indexed,
}

/// What was read of the index file of a root.
#[derive(Debug)]
pub struct IndexSource {
    /// The path of the index file.
    pub path: String,
    /// The text of the file, or the error of the platform that kept it from
    /// being read.
    pub contents: FilesystemResult<String>,
}

/// A filesystem root and, where the root is indexed, its index.
#[derive(Debug)]
pub struct FilesystemConfig {
    root: String,
    index: Option<AssetMap>,
}

/// The mathematical value of a [`FilesystemConfig`].
pub struct FilesystemConfigView {
    pub root: Seq<char>,
    pub index: Option<Map<Seq<char>, IndexTypeView>>,
}

impl View for FilesystemConfig {
    type V = FilesystemConfigView;

    closed spec fn view(&self) -> FilesystemConfigView {
        FilesystemConfigView {
            root: self.root@,
            index: match self.index {
                Some(map) => Some(map@),
                None => None,
            },
        }
    }
}

/// The root as the crate uses it: without white space at its ends, `./`
/// where nothing is left, and with one `/` added where it does not end in
/// one.
pub open spec fn usable_root(root: Seq<char>) -> Seq<char> {
    let kept = trim(root);
    if kept.len() == 0 {
        seq!['.', '/']
    } else if kept.last() == '/' {
        kept
    } else {
        kept.push('/')
    }
}

/// Whether a path names an index file: it ends in `.oroi`, and the file
/// name has at least one character before that.
pub open spec fn is_index_file(path: Seq<char>) -> bool {
    &&& path.len() >= 6
    &&& path.subrange(path.len() - 5, path.len() as int) == seq!['.', 'o', 'r', 'o', 'i']
    &&& path[path.len() - 6] != '/'
}

/// The first path of the list that names an index file. A child that could
/// not be read has no path and is passed over.
pub open spec fn first_index_file(children: Seq<Option<Seq<char>>>) -> Option<Seq<char>>
    decreases children.len(),
{
    if children.len() == 0 {
        None
    } else {
        match children[0] {
            Some(path) if is_index_file(path) => Some(path),
            _ => first_index_file(children.drop_first()),
        }
    }
}

/// The children of a listing, each with its path as a sequence of
/// characters.
pub open spec fn children_view(children: Seq<Option<String>>) -> Seq<Option<Seq<char>>> {
    children.map_values(
        |child: Option<String>|
            match child {
                Some(path) => Some(path@),
                None => None,
            },
    )
}

/// What looking a path up gives: its location in an indexed root that holds
/// it, a not-found error in an indexed root that does not, and an
/// unindexed-access error in a plain directory.
pub open spec fn lookup(config: FilesystemConfigView, path: Seq<char>) -> Result<
    IndexTypeView,
    FilesystemErrorView,
> {
    match config.index {
        Some(map) => if map.dom().contains(path) {
            Ok(map[path])
        } else {
            Err(FilesystemErrorView::NotFound(path))
        },
        None => Err(FilesystemErrorView::UnindexedFilesystem(path)),
    }
}

/// What loading the index of a root gives: nothing where the root has no
/// index file, the error that kept the file from being read or decoded, the
/// duplicate-path error of a list that names a path twice, and else the
/// validated mapping.
pub open spec fn load_index(
    index: Option<(Seq<char>, Result<Seq<char>, FilesystemErrorView>)>,
) -> Result<Option<Map<Seq<char>, IndexTypeView>>, FilesystemErrorView> {
    match index {
        None => Ok(None),
        Some((path, Err(e))) => Err(e.with_path(path)),
        Some((_, Ok(text))) => match index_of_parsed(json_parse(text)) {
            Err(e) => Err(e),
            Ok(entries) => match build(entries) {
                Err(repeated) => Err(FilesystemErrorView::DuplicatePathsInIndex(repeated)),
                Ok(map) => Ok(Some(map)),
            },
        },
    }
}

impl View for IndexSource {
    type V = (Seq<char>, Result<Seq<char>, FilesystemErrorView>);

    /// The path and what was read, as sequences of characters.
    open spec fn view(&self) -> (Seq<char>, Result<Seq<char>, FilesystemErrorView>) {
        (
            self.path@,
            match self.contents {
                Ok(text) => Ok(text@),
                Err(e) => Err(e@),
            },
        )
    }
}

/// The value of what [`FilesystemConfig::with_root`] is given.
pub open spec fn source_view(index: Option<IndexSource>) -> Option<
    (Seq<char>, Result<Seq<char>, FilesystemErrorView>),
> {
    match index {
        Some(source) => Some(source@),
        None => None,
    }
}

impl FilesystemConfig {
    /// The configuration of the root `./`, from what was read of its index
    /// file, if it has one.
    pub fn new(index: Option<IndexSource>) -> (r: FilesystemResult<Self>)
        ensures
            match r {
                Ok(config) => load_index(source_view(index)) == Ok::<_, FilesystemErrorView>(
                    config@.index,
                ) && config@.root == seq!['.', '/'],
                Err(e) => load_index(source_view(index)) == Err::<
                    Option<Map<Seq<char>, IndexTypeView>>,
                    _,
                >(e@),
            },
    {
        let r = Self::with_root("", index);
        proof {
            reveal_strlit("");
            assert(trim(""@) =~= Seq::<char>::empty());
        }
        r
    }

    /// The configuration of a root, from what was read of its index file, if
    /// it has one. With no index file the root is a plain directory. With one
    /// the root is indexed, unless the file could not be read, is no index,
    /// or names a path twice.
    pub fn with_root(root: &str, index: Option<IndexSource>) -> (r: FilesystemResult<Self>)
        ensures
            match r {
                Ok(config) => load_index(source_view(index)) == Ok::<_, FilesystemErrorView>(
                    config@.index,
                ) && config@.root == usable_root(root@),
                Err(e) => load_index(source_view(index)) == Err::<
                    Option<Map<Seq<char>, IndexTypeView>>,
                    _,
                >(e@),
            },
    {
        let root = Self::get_usable_root(root);
        match index {
            None => Ok(FilesystemConfig { root, index: None }),
            Some(source) => {
                let file = match IndexFile::from_file(source.path.as_str(), source.contents) {
                    Ok(file) => file,
                    Err(e) => {
                        return Err(e);
                    },
                };
                match AssetMap::try_from(file) {
                    Ok(map) => Ok(FilesystemConfig { root, index: Some(map) }),
                    Err(e) => Err(e),
                }
            },
        }
    }

    /// Whether the root is a plain directory or has an index.
    pub fn fs_type(&self) -> (r: FilesystemType)
        ensures
            r == (match self@.index {
                Some(_) => FilesystemType::Indexed,
                None => FilesystemType::Filesystem,
            }),
    {
        match self.index {
            Some(_) => FilesystemType::Indexed,
            None => FilesystemType::Filesystem,
        }
    }

    /// A copy of the root.
    pub fn root(&self) -> (r: String)
        ensures
            r@ == self@.root,
    {
        self.root.clone()
    }

    /// The root followed by `path`.
    pub fn path(&self, path: &str) -> (r: String)
        ensures
            r@ == self@.root + path@,
    {
        let c = self.root.clone();
        c.concat(path)
    }

    /// The location of a file in the index of the root. A path that the
    /// index does not hold is not found; a plain directory has no index to
    /// look in.
    pub fn get_index_for_file(&self, path: &str) -> (r: FilesystemResult<IndexType>)
        ensures
            match r {
                Ok(index) => lookup(self@, path@) == Ok::<_, FilesystemErrorView>(index@),
                Err(e) => lookup(self@, path@) == Err::<IndexTypeView, _>(e@),
            },
    {
        match &self.index {
            Some(asset_map) => match asset_map.get(path) {
                Some(index) => Ok(index.clone()),
                None => Err(FilesystemError::NotFound(path.to_owned())),
            },
            None => Err(FilesystemError::UnindexedFilesystem(path.to_owned())),
        }
    }

    /// Picks the index file of a root from the listing of the root: the
    /// first child, in the order of the listing, whose name ends in `.oroi`.
    /// A child that could not be read is `None` in the listing and is passed
    /// over. A root without such a child is a plain directory. A root that
    /// could not be listed is an error that carries the root and the message
    /// of the platform.
    pub fn autodetect_filesystem(root: &str, children: Result<Vec<Option<String>>, String>) -> (r:
        FilesystemResult<Option<String>>)
        ensures
            match children {
                Ok(paths) => match r {
                    Ok(Some(path)) => first_index_file(children_view(paths@)) == Some(path@),
                    Ok(None) => first_index_file(children_view(paths@)) is None,
                    Err(_) => false,
                },
                Err(message) => r is Err && r->Err_0@ == FilesystemErrorView::Generic(
                    root@,
                    message@,
                ),
            },
    {
        let paths = match children {
            Ok(paths) => paths,
            Err(message) => {
                return Err(FilesystemError::Generic(root.to_owned(), message));
            },
        };
        let ghost all = children_view(paths@);
        let mut i: usize = 0;
        assert(all.skip(0) =~= all);
        while i < paths.len()
            invariant
                i <= paths.len(),
                children == Ok::<Vec<Option<String>>, String>(paths),
                all == children_view(paths@),
                first_index_file(all) == first_index_file(all.skip(i as int)),
            decreases paths.len() - i,
        {
            proof {
                assert(all.skip(i as int)[0] == all[i as int]);
                assert(all.skip(i as int).drop_first() =~= all.skip(i + 1));
            }
            match &paths[i] {
                Some(path) => {
                    if Self::has_index_extension(path.as_str()) {
                        return Ok(Some(path.clone()));
                    }
                },
                None => {},
            }
            i += 1;
        }
        Ok(None)
    }

    /// Whether a path names an index file.
    pub fn has_index_extension(path: &str) -> (r: bool)
        ensures
            r == is_index_file(path@),
    {
        let chars = chars_of(path);
        let n = chars.len();
        if n < 6 {
            return false;
        }
        let ends = chars[n - 5] == '.' && chars[n - 4] == 'o' && chars[n - 3] == 'r' && chars[n
            - 2] == 'o' && chars[n - 1] == 'i';
        proof {
            let tail = path@.subrange(n - 5, n as int);
            let want = seq!['.', 'o', 'r', 'o', 'i'];
            if ends {
                assert(tail =~= want);
            } else {
                assert(tail[0] == path@[n - 5]);
                assert(tail[1] == path@[n - 4]);
                assert(tail[2] == path@[n - 3]);
                assert(tail[3] == path@[n - 2]);
                assert(tail[4] == path@[n - 1]);
            }
        }
        ends && chars[n - 6] != '/'
    }

    /// Makes a root usable: strips the white space at its ends, takes `./`
    /// where nothing is left, and adds a `/` where the root does not end in
    /// one.
    pub fn get_usable_root(root: &str) -> (r: String)
        ensures
            r@ == usable_root(root@),
    {
        let trimmed_root = trimmed(root);
        let n = trimmed_root.unicode_len();
        if n == 0 {
            proof {
                reveal_strlit("./");
                assert("./"@ =~= seq!['.', '/']);
            }
            return String::from_str("./");
        }
        if trimmed_root.get_char(n - 1) == '/' {
            String::from_str(trimmed_root)
        } else {
            let mut c = String::from_str(trimmed_root);
            proof {
                reveal_strlit("/");
                assert(trimmed_root@ + "/"@ =~= trimmed_root@.push('/'));
            }
            c.append("/");
            c
        }
    }
}

} // verus!
