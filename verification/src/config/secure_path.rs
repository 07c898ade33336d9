//! Keeping paths inside a root directory.
//!
//! A file that is read below a root must lie below it once every symbolic
//! link and every `..` has been resolved. The platform resolves a path to
//! its canonical form; this module decides, on canonical paths, whether one
//! lies within the other, and what the inner path is called relative to the
//! outer one.

use vstd::prelude::*;
use vstd::string::StrSliceExecFns;
use vstd::string::StringExecFns;
use crate::readers::FilesystemError;
use crate::readers::FilesystemErrorView;
use crate::readers::FilesystemResult;
use crate::text::chars_of;
use crate::text::strings_view;

verus! {

/// Reading a path from left to right: the components that are complete,
/// and the characters of the one that is not yet. A `/` ends a component;
/// where nothing stands between two of them, or before the first, there is
/// no component.
pub open spec fn split(path: Seq<char>) -> (Seq<Seq<char>>, Seq<char>)
    decreases path.len(),
{
    if path.len() == 0 {
        (Seq::empty(), Seq::empty())
    } else {
        let (done, current) = split(path.drop_last());
        if path.last() == '/' {
            (
                if current.len() > 0 {
                    done.push(current)
                } else {
                    done
                },
                Seq::empty(),
            )
        } else {
            (done, current.push(path.last()))
        }
    }
}

/// The components of a path: the runs of characters between its `/`.
pub open spec fn components(path: Seq<char>) -> Seq<Seq<char>> {
    let (done, current) = split(path);
    if current.len() > 0 {
        done.push(current)
    } else {
        done
    }
}

/// Whether the path with components `path` is the directory with components
/// `root` or lies below it: `root` is among the ancestors of `path`.
pub open spec fn is_within(root: Seq<Seq<char>>, path: Seq<Seq<char>>) -> bool {
    root.len() <= path.len() && path.take(root.len() as int) == root
}

/// Whether the canonical path `path` is the canonical directory `root` or
/// lies below it.
pub open spec fn in_bounds(root: Seq<char>, path: Seq<char>) -> bool {
    is_within(components(root), components(path))
}

/// The components written as one path, with a `/` between each two.
pub open spec fn join(parts: Seq<Seq<char>>) -> Seq<char>
    decreases parts.len(),
{
    if parts.len() == 0 {
        Seq::empty()
    } else if parts.len() == 1 {
        parts[0]
    } else {
        join(parts.drop_last()) + seq!['/'] + parts.last()
    }
}

/// What a path below `root` is called relative to `root`: its components
/// after those of `root`.
pub open spec fn relative(root: Seq<char>, path: Seq<char>) -> Seq<char> {
    join(components(path).skip(components(root).len() as int))
}

/// The components of a path.
pub fn split_path(path: &str) -> (r: Vec<String>)
    ensures
        strings_view(r@) == components(path@),
{
    let chars = chars_of(path);
    let n = chars.len();
    let mut parts: Vec<String> = Vec::new();
    let mut start: usize = 0;
    let mut i: usize = 0;
    assert(path@.take(0) =~= Seq::<char>::empty());
    assert(strings_view(parts@) =~= Seq::<Seq<char>>::empty());
    while i < n
        invariant
            start <= i <= n,
            n == path@.len(),
            chars@ == path@,
            split(path@.take(i as int)) == (
                strings_view(parts@),
                path@.subrange(start as int, i as int),
            ),
        decreases n - i,
    {
        proof {
            assert(path@.take(i + 1).drop_last() =~= path@.take(i as int));
            assert(path@.take(i + 1).last() == path@[i as int]);
        }
        if chars[i] == '/' {
            if start < i {
                let ghost before = strings_view(parts@);
                parts.push(String::from_str(path.substring_char(start, i)));
                assert(strings_view(parts@) =~= before.push(
                    path@.subrange(start as int, i as int),
                ));
            }
            start = i + 1;
            assert(path@.subrange(start as int, i + 1) =~= Seq::<char>::empty());
        } else {
            assert(path@.subrange(start as int, i + 1) =~= path@.subrange(
                start as int,
                i as int,
            ).push(path@[i as int]));
        }
        i += 1;
    }
    assert(path@.take(n as int) =~= path@);
    if start < n {
        let ghost before = strings_view(parts@);
        parts.push(String::from_str(path.substring_char(start, n)));
        assert(strings_view(parts@) =~= before.push(path@.subrange(start as int, n as int)));
    }
    parts
}

/// The components from position `from` on, written as one path.
fn join_from(parts: &Vec<String>, from: usize) -> (r: String)
    requires
        from <= parts.len(),
    ensures
        r@ == join(strings_view(parts@).skip(from as int)),
{
    let ghost all = strings_view(parts@).skip(from as int);
    let mut out = String::new();
    if from == parts.len() {
        return out;
    }
    out.append(parts[from].as_str());
    let mut i: usize = from + 1;
    assert(all.take(1) =~= seq![parts@[from as int]@]);
    assert(out@ =~= parts@[from as int]@);
    while i < parts.len()
        invariant
            from < i <= parts.len(),
            all == strings_view(parts@).skip(from as int),
            out@ == join(all.take(i - from)),
        decreases parts.len() - i,
    {
        proof {
            reveal_strlit("/");
            assert("/"@ =~= seq!['/']);
            assert(all.take(i + 1 - from).drop_last() =~= all.take(i - from));
            assert(all.take(i + 1 - from).last() == parts@[i as int]@);
        }
        out.append("/");
        out.append(parts[i].as_str());
        i += 1;
    }
    assert(all.take(i - from) =~= all);
    out
}

/// A canonical root directory, against which other paths are checked.
#[derive(Debug)]
pub struct BoundChecker {
    root: String,
}

impl View for BoundChecker {
    type V = Seq<char>;

    /// The canonical path of the root.
    closed spec fn view(&self) -> Seq<char> {
        self.root@
    }
}

impl BoundChecker {
    /// A checker for the root `root`, from what resolving `root` to its
    /// canonical form gave. A root that could not be resolved is an error
    /// that carries the root as it was given.
    pub fn new(root: &str, canonical: FilesystemResult<String>) -> (r: FilesystemResult<Self>)
        ensures
            match canonical {
                Ok(resolved) => r is Ok && r->Ok_0@ == resolved@,
                Err(e) => r is Err && r->Err_0@ == e@.with_path(root@),
            },
    {
        match canonical {
            Ok(resolved) => Ok(BoundChecker { root: resolved }),
            Err(e) => Err(e.with_path(String::from_str(root))),
        }
    }

    /// Whether a canonical path is the root or lies below it.
    pub fn is_in_bounds_canonical(&self, path: &str) -> (r: bool)
        ensures
            r == in_bounds(self@, path@),
    {
        let root_parts = split_path(self.root.as_str());
        let path_parts = split_path(path);
        Self::starts_with(&path_parts, &root_parts)
    }

    /// Whether the second list of components opens the first.
    fn starts_with(path_parts: &Vec<String>, root_parts: &Vec<String>) -> (r: bool)
        ensures
            r == is_within(strings_view(root_parts@), strings_view(path_parts@)),
    {
        if root_parts.len() > path_parts.len() {
            return false;
        }
        let ghost root = strings_view(root_parts@);
        let ghost path = strings_view(path_parts@);
        let mut k: usize = 0;
        while k < root_parts.len()
            invariant
                k <= root_parts.len() <= path_parts.len(),
                root == strings_view(root_parts@),
                path == strings_view(path_parts@),
                forall|j: int| 0 <= j < k ==> path[j] == root[j],
            decreases root_parts.len() - k,
        {
            if root_parts[k] != path_parts[k] {
                assert(path.take(root.len() as int)[k as int] != root[k as int]);
                return false;
            }
            k += 1;
        }
        assert(path.take(root.len() as int) =~= root);
        true
    }

    /// Whether `path` is the root or lies below it, from what resolving
    /// `path` to its canonical form gave. A path that could not be resolved
    /// is an error that carries the path as it was given.
    pub fn is_in_bounds(&self, path: &str, canonical: FilesystemResult<String>) -> (r:
        FilesystemResult<bool>)
        ensures
            match canonical {
                Ok(resolved) => r == Ok::<bool, FilesystemError>(in_bounds(self@, resolved@)),
                Err(e) => r is Err && r->Err_0@ == e@.with_path(path@),
            },
    {
        match canonical {
            Ok(resolved) => Ok(self.is_in_bounds_canonical(resolved.as_str())),
            Err(e) => Err(e.with_path(String::from_str(path))),
        }
    }

    /// What `path` is called relative to the root, from what resolving
    /// `path` to its canonical form gave: the components of the canonical
    /// path after those of the root, with a `/` between each two. A path
    /// that could not be resolved is an error that carries the path as it
    /// was given; a path that resolves outside the root is an out-of-bounds
    /// error that carries the canonical path and the root.
    pub fn get_relative_string(&self, path: &str, canonical: FilesystemResult<String>) -> (r:
        FilesystemResult<String>)
        ensures
            match canonical {
                Ok(resolved) => if in_bounds(self@, resolved@) {
                    r is Ok && r->Ok_0@ == relative(self@, resolved@)
                } else {
                    r is Err && r->Err_0@ == FilesystemErrorView::OutOfBounds(resolved@, self@)
                },
                Err(e) => r is Err && r->Err_0@ == e@.with_path(path@),
            },
    {
        let resolved = match canonical {
            Ok(resolved) => resolved,
            Err(e) => {
                return Err(e.with_path(String::from_str(path)));
            },
        };
        let root_parts = split_path(self.root.as_str());
        let path_parts = split_path(resolved.as_str());
        if !Self::starts_with(&path_parts, &root_parts) {
            return Err(FilesystemError::OutOfBounds(resolved, self.root.clone()));
        }
        Ok(join_from(&path_parts, root_parts.len()))
    }
}

/// A run of characters that can stand as one component of a path: it is
/// not empty and holds no `/`.
pub open spec fn is_component(part: Seq<char>) -> bool {
    part.len() > 0 && forall|i: int| 0 <= i < part.len() ==> part[i] != '/'
}

/// Behind a `/`, the components of what follows are added to the components
/// of what stands before.
pub proof fn lemma_components_concat(before: Seq<char>, after: Seq<char>)
    ensures
        split(before + seq!['/'] + after) == (
            components(before) + split(after).0,
            split(after).1,
        ),
        components(before + seq!['/'] + after) == components(before) + components(after),
    decreases after.len(),
{
    let whole = before + seq!['/'] + after;
    if after.len() == 0 {
        assert(whole.drop_last() =~= before);
        assert(components(before) + Seq::<Seq<char>>::empty() =~= components(before));
    } else {
        lemma_components_concat(before, after.drop_last());
        assert(whole.drop_last() =~= before + seq!['/'] + after.drop_last());
        assert(whole.last() == after.last());
        let (done, current) = split(after.drop_last());
        if after.last() == '/' {
            if current.len() > 0 {
                assert(components(before) + done.push(current) =~= (components(before)
                    + done).push(current));
            }
        }
    }
    let (done, current) = split(after);
    if current.len() > 0 {
        assert(components(before) + done.push(current) =~= (components(before) + done).push(
            current,
        ));
    }
}

/// A run of characters without a `/` is its own single component.
pub proof fn lemma_components_single(part: Seq<char>)
    requires
        forall|i: int| 0 <= i < part.len() ==> part[i] != '/',
    ensures
        split(part) == (Seq::<Seq<char>>::empty(), part),
        is_component(part) ==> components(part) == seq![part],
    decreases part.len(),
{
    if part.len() > 0 {
        lemma_components_single(part.drop_last());
        assert(part.drop_last().push(part.last()) =~= part);
    }
    assert(Seq::<Seq<char>>::empty().push(part) =~= seq![part]);
}

/// Components written as one path are read back as the same components.
pub proof fn lemma_components_join(parts: Seq<Seq<char>>)
    requires
        forall|i: int| 0 <= i < parts.len() ==> is_component(#[trigger] parts[i]),
    ensures
        components(join(parts)) == parts,
    decreases parts.len(),
{
    if parts.len() == 0 {
        assert(components(join(parts)) =~= parts);
    } else if parts.len() == 1 {
        lemma_components_single(parts[0]);
        assert(seq![parts[0]] =~= parts);
    } else {
        let front = parts.drop_last();
        assert forall|i: int| 0 <= i < front.len() implies is_component(#[trigger] front[i]) by {
            assert(front[i] == parts[i]);
        }
        lemma_components_join(front);
        lemma_components_concat(join(front), parts.last());
        lemma_components_single(parts.last());
        assert(front + seq![parts.last()] =~= parts);
    }
}

/// The root itself is within bounds.
pub proof fn lemma_root_in_bounds(root: Seq<char>)
    ensures
        in_bounds(root, root),
{
    let parts = components(root);
    assert(parts.take(parts.len() as int) =~= parts);
}

/// Every path below the root is within bounds: whatever is written behind
/// the root and a `/` stays inside.
pub proof fn lemma_descendant_in_bounds(root: Seq<char>, below: Seq<char>)
    ensures
        in_bounds(root, root + seq!['/'] + below),
{
    lemma_components_concat(root, below);
    let parts = components(root);
    assert((parts + components(below)).take(parts.len() as int) =~= parts);
}

/// A path that leaves the root through its parent is out of bounds: a path
/// that shares all but the last component of the root and goes on with
/// another component, or with none, is not within the root.
pub proof fn lemma_escape_out_of_bounds(root: Seq<char>, path: Seq<char>, beside: Seq<Seq<char>>)
    requires
        components(root).len() > 0,
        components(path) == components(root).drop_last() + beside,
        beside.len() == 0 || beside[0] != components(root).last(),
    ensures
        !in_bounds(root, path),
{
    let parts = components(root);
    let n = parts.len() as int;
    if components(path).len() >= n {
        assert(components(path).take(n)[n - 1] == beside[0]);
    }
}

/// The parent of the root, and whatever lies in or below another child of
/// that parent, is out of bounds: from the root `parent/name`, neither
/// `parent` nor `parent/other` nor `parent/other/below` is within bounds.
pub proof fn lemma_parent_and_siblings_out_of_bounds(
    parent: Seq<char>,
    name: Seq<char>,
    other: Seq<char>,
    below: Seq<char>,
)
    requires
        is_component(name),
        is_component(other),
        name != other,
    ensures
        !in_bounds(parent + seq!['/'] + name, parent),
        !in_bounds(parent + seq!['/'] + name, parent + seq!['/'] + other),
        !in_bounds(parent + seq!['/'] + name, parent + seq!['/'] + other + seq!['/'] + below),
{
    let root = parent + seq!['/'] + name;
    let sibling = parent + seq!['/'] + other;
    lemma_components_concat(parent, name);
    lemma_components_single(name);
    lemma_components_concat(parent, other);
    lemma_components_single(other);
    lemma_components_concat(sibling, below);
    let above = components(parent);
    assert((above + seq![name]).drop_last() =~= above);
    assert(above + Seq::<Seq<char>>::empty() =~= above);
    lemma_escape_out_of_bounds(root, parent, Seq::empty());
    lemma_escape_out_of_bounds(root, sibling, seq![other]);
    assert(above + seq![other] + components(below) =~= above + (seq![other] + components(
        below,
    )));
    lemma_escape_out_of_bounds(root, sibling + seq!['/'] + below, seq![other] + components(below));
}

/// The relative path of a file below the root is what stands behind the
/// root and its `/`.
pub proof fn lemma_relative_strips_root(root: Seq<char>, below: Seq<Seq<char>>)
    requires
        forall|i: int| 0 <= i < below.len() ==> is_component(#[trigger] below[i]),
    ensures
        in_bounds(root, root + seq!['/'] + join(below)),
        relative(root, root + seq!['/'] + join(below)) == join(below),
{
    lemma_descendant_in_bounds(root, join(below));
    lemma_components_concat(root, join(below));
    lemma_components_join(below);
    let parts = components(root);
    assert((parts + below).skip(parts.len() as int) =~= below);
}

} // verus!
