//! The validated form of an index: a mapping from virtual path to location
//! in which no path occurs twice.

use vstd::prelude::*;
use crate::config::index::encode_index_file;
use crate::config::index::index_of_document;
use crate::config::index::index_of_parsed;
use crate::config::index::lemma_decode_encode_index_file;
use crate::config::index::IndexEntry;
use crate::config::index::IndexEntryView;
use crate::config::index::IndexFile;
use crate::config::index::IndexType;
use crate::config::index::IndexTypeView;
use crate::config::json::json_parse;
use crate::readers::FilesystemError;
use crate::readers::FilesystemErrorView;
use crate::text::str_eq;

verus! {

/// No two entries of the list have the same path.
pub open spec fn distinct_paths(entries: Seq<IndexEntryView>) -> bool {
    forall|i: int, j: int| 0 <= i < j < entries.len() ==> entries[i].path != entries[j].path
}

/// Some entry of the list has the path.
pub open spec fn has_path(entries: Seq<IndexEntryView>, path: Seq<char>) -> bool {
    exists|i: int| 0 <= i < entries.len() && #[trigger] entries[i].path == path
}

/// The mapping that holds each entry of the list under its path. Where a path
/// occurs more than once, its last entry counts.
pub open spec fn map_of(entries: Seq<IndexEntryView>) -> Map<Seq<char>, IndexTypeView>
    decreases entries.len(),
{
    if entries.len() == 0 {
        Map::empty()
    } else {
        map_of(entries.drop_last()).insert(entries.last().path, entries.last().index)
    }
}

/// What validating a list of entries gives: the entries are put into an
/// empty mapping one after the other, and the first entry whose path is
/// already there ends the work with that path as the error.
pub open spec fn build(entries: Seq<IndexEntryView>) -> Result<
    Map<Seq<char>, IndexTypeView>,
    Seq<char>,
>
    decreases entries.len(),
{
    if entries.len() == 0 {
        Ok(Map::empty())
    } else {
        match build(entries.drop_last()) {
            Err(path) => Err(path),
            Ok(map) => if map.dom().contains(entries.last().path) {
                Err(entries.last().path)
            } else {
                Ok(map.insert(entries.last().path, entries.last().index))
            },
        }
    }
}

/// The paths that [`map_of`] holds are the paths of the list, and an entry
/// whose path occurs once is found under it.
pub proof fn lemma_map_of_entries(entries: Seq<IndexEntryView>)
    ensures
        forall|path: Seq<char>| #[trigger]
            map_of(entries).dom().contains(path) <==> has_path(entries, path),
        distinct_paths(entries) ==> forall|i: int|
            0 <= i < entries.len() ==> map_of(entries)[#[trigger] entries[i].path]
                == entries[i].index,
    decreases entries.len(),
{
    if entries.len() == 0 {
        assert forall|path: Seq<char>| #[trigger]
            map_of(entries).dom().contains(path) <==> has_path(entries, path) by {}
    } else {
        let front = entries.drop_last();
        let last = entries.last();
        lemma_map_of_entries(front);
        assert(map_of(entries) == map_of(front).insert(last.path, last.index));
        assert forall|path: Seq<char>| #[trigger]
            map_of(entries).dom().contains(path) <==> has_path(entries, path) by {
            if map_of(entries).dom().contains(path) {
                if path == last.path {
                    assert(entries[entries.len() - 1].path == path);
                } else {
                    assert(map_of(front).dom().contains(path));
                    assert(has_path(front, path));
                    let i = choose|i: int| 0 <= i < front.len() && #[trigger] front[i].path == path;
                    assert(entries[i].path == path);
                }
            }
            if has_path(entries, path) {
                let i = choose|i: int| 0 <= i < entries.len() && #[trigger] entries[i].path == path;
                if i < front.len() {
                    assert(front[i].path == path);
                    assert(has_path(front, path));
                    assert(map_of(front).dom().contains(path));
                }
            }
        }
        if distinct_paths(entries) {
            lemma_distinct_front(entries);
            assert forall|i: int| 0 <= i < entries.len() implies map_of(
                entries,
            )[#[trigger] entries[i].path] == entries[i].index by {
                if i < front.len() {
                    assert(front[i].path == entries[i].path);
                    assert(entries[i].path != entries[entries.len() - 1].path);
                    assert(map_of(front)[front[i].path] == front[i].index);
                }
            }
        }
    }
}

/// A list without a repeated path stays one when its last entry is dropped.
pub proof fn lemma_distinct_front(entries: Seq<IndexEntryView>)
    requires
        distinct_paths(entries),
        entries.len() > 0,
    ensures
        distinct_paths(entries.drop_last()),
{
    let front = entries.drop_last();
    assert forall|i: int, j: int| 0 <= i < j < front.len() implies front[i].path
        != front[j].path by {
        assert(entries[i].path != entries[j].path);
    }
}

/// Validation succeeds on exactly the lists without a repeated path, and then
/// gives the mapping of the list.
pub proof fn lemma_build(entries: Seq<IndexEntryView>)
    ensures
        build(entries) is Ok <==> distinct_paths(entries),
        build(entries) is Ok ==> build(entries) == Ok::<_, Seq<char>>(map_of(entries)),
        build(entries) is Err ==> has_path(entries, build(entries)->Err_0),
    decreases entries.len(),
{
    if entries.len() > 0 {
        let front = entries.drop_last();
        let last = entries.last();
        lemma_build(front);
        lemma_map_of_entries(front);
        match build(front) {
            Err(path) => {
                let i = choose|i: int| 0 <= i < front.len() && #[trigger] front[i].path == path;
                assert(entries[i].path == path);
                let (a, b) = choose|a: int, b: int|
                    0 <= a < b < front.len() && front[a].path == front[b].path;
                assert(entries[a].path == entries[b].path);
            },
            Ok(map) => {
                if map.dom().contains(last.path) {
                    let i = choose|i: int|
                        0 <= i < front.len() && #[trigger] front[i].path == last.path;
                    assert(entries[i].path == entries[entries.len() - 1].path);
                } else {
                    assert forall|i: int, j: int| 0 <= i < j < entries.len() implies entries[i].path
                        != entries[j].path by {
                        if j < front.len() {
                            assert(front[i].path != front[j].path);
                        } else {
                            if entries[i].path == entries[j].path {
                                assert(front[i].path == last.path);
                            }
                        }
                    }
                }
            },
        }
    }
}

/// Replacing an entry by one with the same path replaces what the mapping
/// holds under that path and touches nothing else.
proof fn lemma_map_of_update(entries: Seq<IndexEntryView>, at: int, entry: IndexEntryView)
    requires
        distinct_paths(entries),
        0 <= at < entries.len(),
        entries[at].path == entry.path,
    ensures
        distinct_paths(entries.update(at, entry)),
        map_of(entries.update(at, entry)) == map_of(entries).insert(entry.path, entry.index),
    decreases entries.len(),
{
    let changed = entries.update(at, entry);
    assert forall|i: int, j: int| 0 <= i < j < changed.len() implies changed[i].path
        != changed[j].path by {
        assert(entries[i].path != entries[j].path);
    }
    let front = entries.drop_last();
    if at == entries.len() - 1 {
        assert(changed.drop_last() =~= front);
        assert(map_of(changed) =~= map_of(entries).insert(entry.path, entry.index));
    } else {
        lemma_distinct_front(entries);
        lemma_map_of_update(front, at, entry);
        assert(changed.drop_last() =~= front.update(at, entry));
        assert(entries[at].path != entries[entries.len() - 1].path);
        assert(map_of(changed) =~= map_of(entries).insert(entry.path, entry.index));
    }
}

/// A mapping from virtual path to location. No path occurs twice in it.
#[derive(Debug)]
pub struct AssetMap {
    entries: Vec<IndexEntry>,
}

impl View for AssetMap {
    type V = Map<Seq<char>, IndexTypeView>;

    closed spec fn view(&self) -> Map<Seq<char>, IndexTypeView> {
        map_of(self.listing())
    }
}

impl AssetMap {
    /// The entries of the mapping in the order in which their paths were
    /// first inserted.
    pub closed spec fn listing(&self) -> Seq<IndexEntryView> {
        self.entries@.map_values(|e: IndexEntry| e@)
    }

    /// The entries as they are stored.
    pub closed spec fn stored(self) -> Vec<IndexEntry> {
        self.entries
    }

    /// The mapping that stores exactly the given entries.
    pub closed spec fn of_stored(entries: Vec<IndexEntry>) -> AssetMap {
        AssetMap { entries }
    }

    #[verifier::type_invariant]
    spec fn well_formed(self) -> bool {
        distinct_paths(self.listing())
    }

    /// The empty mapping.
    pub fn new() -> (r: Self)
        ensures
            r@ == Map::<Seq<char>, IndexTypeView>::empty(),
            r.listing() == Seq::<IndexEntryView>::empty(),
    {
        let r = AssetMap { entries: Vec::new() };
        assert(r.listing() =~= Seq::<IndexEntryView>::empty());
        r
    }

    /// The number of paths in the mapping.
    pub fn len(&self) -> (r: usize)
        ensures
            r == self@.dom().len(),
            r == self.listing().len(),
            self@.dom().finite(),
    {
        proof {
            use_type_invariant(self);
            lemma_map_of_len(self.listing());
        }
        self.entries.len()
    }

    /// Whether the mapping holds no path.
    pub fn is_empty(&self) -> (r: bool)
        ensures
            r == (self@.dom().len() == 0),
            r == (self@ == Map::<Seq<char>, IndexTypeView>::empty()),
    {
        proof {
            use_type_invariant(self);
            lemma_map_of_len(self.listing());
            if self@.dom().len() == 0 {
                assert(self@ =~= Map::<Seq<char>, IndexTypeView>::empty());
            }
        }
        self.entries.len() == 0
    }

    /// The position of the entry with the given path, if there is one.
    fn position(&self, path: &str) -> (r: Option<usize>)
        ensures
            match r {
                Some(i) => i < self.listing().len() && self.listing()[i as int].path == path@,
                None => !has_path(self.listing(), path@),
            },
    {
        let mut i: usize = 0;
        while i < self.entries.len()
            invariant
                i <= self.entries.len(),
                forall|k: int| 0 <= k < i ==> self.listing()[k].path != path@,
            decreases self.entries.len() - i,
        {
            if str_eq(self.entries[i].path.as_str(), path) {
                return Some(i);
            }
            i += 1;
        }
        None
    }

    /// Whether the mapping holds the path.
    pub fn contains_key(&self, path: &str) -> (r: bool)
        ensures
            r == self@.dom().contains(path@),
            r == has_path(self.listing(), path@),
    {
        proof {
            lemma_map_of_entries(self.listing());
        }
        self.position(path).is_some()
    }

    /// The location under the path, if the mapping holds the path.
    pub fn get(&self, path: &str) -> (r: Option<&IndexType>)
        ensures
            match r {
                Some(index) => self@.dom().contains(path@) && index@ == self@[path@],
                None => !self@.dom().contains(path@),
            },
    {
        proof {
            use_type_invariant(self);
            lemma_map_of_entries(self.listing());
        }
        match self.position(path) {
            Some(i) => {
                assert(self.listing()[i as int].path == path@);
                Some(&self.entries[i].index)
            },
            None => None,
        }
    }

    /// Puts the location under the path. Where the path was there already,
    /// its location is replaced and the earlier one is returned.
    pub fn insert(&mut self, path: String, index: IndexType) -> (r: Option<IndexType>)
        ensures
            final(self)@ == old(self)@.insert(path@, index@),
            match r {
                Some(earlier) => old(self)@.dom().contains(path@) && earlier@ == old(self)@[path@]
                    && exists|at: int|
                    0 <= at < old(self).listing().len() && (#[trigger] old(
                        self,
                    ).listing()[at]).path == path@ && final(self).listing() == old(
                        self,
                    ).listing().update(at, IndexEntryView { path: path@, index: index@ }),
                None => !old(self)@.dom().contains(path@) && final(self).listing() == old(
                    self,
                ).listing().push(IndexEntryView { path: path@, index: index@ }),
            },
    {
        proof {
            use_type_invariant(&*self);
            lemma_map_of_entries(self.listing());
        }
        let found = self.position(path.as_str());
        let ghost before = self.listing();
        let ghost entry = IndexEntryView { path: path@, index: index@ };
        let mut entries: Vec<IndexEntry> = Vec::new();
        std::mem::swap(&mut entries, &mut self.entries);
        assert(entries@.map_values(|e: IndexEntry| e@) == before);
        let r = match found {
            Some(i) => {
                let earlier = entries[i].index.clone();
                proof {
                    assert(before[i as int].path == path@);
                    lemma_map_of_update(before, i as int, entry);
                }
                entries.set(i, IndexEntry { path, index });
                assert(entries@.map_values(|e: IndexEntry| e@) =~= before.update(i as int, entry));
                Some(earlier)
            },
            None => {
                entries.push(IndexEntry { path, index });
                assert(entries@.map_values(|e: IndexEntry| e@) =~= before.push(entry));
                assert(before.push(entry).drop_last() =~= before);
                assert(distinct_paths(before.push(entry))) by {
                    assert forall|a: int, b: int| 0 <= a < b < before.len() + 1 implies before.push(
                        entry,
                    )[a].path != before.push(entry)[b].path by {
                        if b == before.len() {
                            if before[a].path == entry.path {
                                assert(has_path(before, path@));
                            }
                        }
                    }
                }
                None
            },
        };
        self.entries = entries;
        r
    }
}

/// A list without a repeated path has as many entries as its mapping has
/// paths.
pub proof fn lemma_map_of_len(entries: Seq<IndexEntryView>)
    requires
        distinct_paths(entries),
    ensures
        map_of(entries).dom().finite(),
        map_of(entries).dom().len() == entries.len(),
    decreases entries.len(),
{
    if entries.len() > 0 {
        let front = entries.drop_last();
        lemma_distinct_front(entries);
        lemma_map_of_len(front);
        lemma_map_of_entries(front);
        if map_of(front).dom().contains(entries.last().path) {
            let i = choose|i: int|
                0 <= i < front.len() && #[trigger] front[i].path == entries.last().path;
            assert(entries[i].path == entries[entries.len() - 1].path);
        }
    }
}

/// The position of the first entry whose path an earlier entry has, or the
/// length of the list where there is none.
pub open spec fn first_repeat(entries: Seq<IndexEntryView>) -> int
    decreases entries.len(),
{
    if entries.len() == 0 {
        0
    } else if first_repeat(entries.drop_last()) < entries.len() - 1 {
        first_repeat(entries.drop_last())
    } else if has_path(entries.drop_last(), entries.last().path) {
        entries.len() - 1
    } else {
        entries.len() as int
    }
}

/// [`first_repeat`] is where [`build`] stops.
pub proof fn lemma_first_repeat(entries: Seq<IndexEntryView>)
    ensures
        0 <= first_repeat(entries) <= entries.len(),
        distinct_paths(entries) <==> first_repeat(entries) == entries.len(),
        first_repeat(entries) < entries.len() ==> build(entries) == Err::<
            Map<Seq<char>, IndexTypeView>,
            _,
        >(entries[first_repeat(entries)].path),
    decreases entries.len(),
{
    if entries.len() > 0 {
        let front = entries.drop_last();
        lemma_first_repeat(front);
        lemma_build(front);
        lemma_build(entries);
        lemma_map_of_entries(front);
        if first_repeat(front) < front.len() {
            assert(front[first_repeat(front)] == entries[first_repeat(front)]);
        }
    }
}

impl vstd::std_specs::convert::TryFromSpecImpl<IndexFile> for AssetMap {
    open spec fn obeys_try_from_spec() -> bool {
        true
    }

    open spec fn try_from_spec(value: IndexFile) -> Result<Self, FilesystemError> {
        if first_repeat(value@) == value@.len() {
            Ok(AssetMap::of_stored(value.files))
        } else {
            Err(FilesystemError::DuplicatePathsInIndex(value.files@[first_repeat(value@)].path))
        }
    }
}

impl TryFrom<IndexFile> for AssetMap {
    type Error = FilesystemError;

    /// Validates a list of entries. The list is accepted if and only if no
    /// path occurs twice in it; the mapping then holds each entry under its
    /// path. Otherwise the error names the first path, in the order of the
    /// list, that an earlier entry has already.
    fn try_from(value: IndexFile) -> (r: Result<Self, FilesystemError>)
        ensures
            match r {
                Ok(map) => build(value@) == Ok::<_, Seq<char>>(map@) && map.listing() == value@,
                Err(e) => build(value@) is Err && e@ == FilesystemErrorView::DuplicatePathsInIndex(
                    build(value@)->Err_0,
                ),
            },
            r is Err <==> !distinct_paths(value@),
    {
        let ghost all = value@;
        let mut i: usize = 0;
        while i < value.files.len()
            invariant
                i <= value.files.len(),
                all == value@,
                first_repeat(all.take(i as int)) == i,
            decreases value.files.len() - i,
        {
            let mut k: usize = 0;
            let mut found = false;
            while k < i
                invariant
                    k <= i < value.files.len(),
                    all == value@,
                    found == has_path(all.take(k as int), all[i as int].path),
                decreases i - k,
            {
                if str_eq(value.files[k].path.as_str(), value.files[i].path.as_str()) {
                    found = true;
                    assert(all.take(k + 1)[k as int].path == all[i as int].path);
                }
                proof {
                    if has_path(all.take(k + 1), all[i as int].path) && !found {
                        let w = choose|w: int|
                            0 <= w < k + 1 && #[trigger] all.take(k + 1)[w].path == all[i as int].path;
                        assert(all.take(k as int)[w].path == all[i as int].path);
                    }
                    if has_path(all.take(k as int), all[i as int].path) {
                        let w = choose|w: int|
                            0 <= w < k && #[trigger] all.take(k as int)[w].path == all[i as int].path;
                        assert(all.take(k + 1)[w].path == all[i as int].path);
                    }
                }
                k += 1;
            }
            proof {
                assert(all.take(i + 1).drop_last() =~= all.take(i as int));
                assert(all.take(i + 1).last() == all[i as int]);
            }
            if found {
                proof {
                    lemma_first_repeat(all.take(i + 1));
                    lemma_build_prefix(all, i + 1);
                    lemma_build(all);
                    assert(first_repeat(all) == i);
                }
                return Err(FilesystemError::DuplicatePathsInIndex(value.files[i].path.clone()));
            }
            i += 1;
        }
        proof {
            assert(all.take(i as int) =~= all);
            lemma_first_repeat(all);
            lemma_build(all);
        }
        Ok(AssetMap { entries: value.files })
    }
}

/// Once validation has failed on the first entries of a list, it fails in
/// the same way on the whole list.
pub proof fn lemma_build_prefix(entries: Seq<IndexEntryView>, n: int)
    requires
        0 <= n <= entries.len(),
        build(entries.take(n)) is Err,
    ensures
        build(entries) == build(entries.take(n)),
        first_repeat(entries) == first_repeat(entries.take(n)),
    decreases entries.len() - n,
{
    if n < entries.len() {
        assert(entries.take(n + 1).drop_last() =~= entries.take(n));
        lemma_first_repeat(entries.take(n));
        lemma_build(entries.take(n));
        lemma_build_prefix(entries, n + 1);
    } else {
        assert(entries.take(n) =~= entries);
    }
}

impl vstd::std_specs::convert::FromSpecImpl<AssetMap> for IndexFile {
    open spec fn obeys_from_spec() -> bool {
        true
    }

    open spec fn from_spec(value: AssetMap) -> IndexFile {
        IndexFile { files: value.stored() }
    }
}

impl From<AssetMap> for IndexFile {
    /// The list form of a mapping: one entry for each path, in the order in
    /// which the paths were first inserted. No path occurs twice in the list,
    /// and validating the list gives the mapping back.
    fn from(value: AssetMap) -> (r: IndexFile)
        ensures
            r@ == value.listing(),
            distinct_paths(r@),
            build(r@) == Ok::<_, Seq<char>>(value@),
    {
        proof {
            use_type_invariant(&value);
            lemma_build(value.listing());
        }
        IndexFile { files: value.entries }
    }
}

/// A list in which two entries share a path is never accepted, whatever
/// stands before, between and after the two.
pub proof fn lemma_duplicate_rejected(
    before: Seq<IndexEntryView>,
    first: IndexEntryView,
    between: Seq<IndexEntryView>,
    second: IndexEntryView,
    after: Seq<IndexEntryView>,
)
    requires
        first.path == second.path,
    ensures
        build(before + seq![first] + between + seq![second] + after) is Err,
{
    let all = before + seq![first] + between + seq![second] + after;
    let i = before.len() as int;
    let j = (before.len() + 1 + between.len()) as int;
    assert(all[i] == first);
    assert(all[j] == second);
    lemma_build(all);
}

/// A list with a repeated path is refused in whatever order its entries
/// stand: where `order` gives each entry of `entries` a position of its own
/// in `rearranged`, and `entries` is refused, `rearranged` is refused too.
pub proof fn lemma_rearranged_rejected(
    entries: Seq<IndexEntryView>,
    rearranged: Seq<IndexEntryView>,
    order: Seq<int>,
)
    requires
        rearranged.len() == entries.len(),
        order.len() == entries.len(),
        forall|i: int|
            0 <= i < entries.len() ==> 0 <= #[trigger] order[i] < rearranged.len()
                && rearranged[order[i]] == entries[i],
        forall|i: int, j: int| 0 <= i < j < entries.len() ==> order[i] != order[j],
        build(entries) is Err,
    ensures
        build(rearranged) is Err,
{
    lemma_build(entries);
    lemma_build(rearranged);
    let (i, j) = choose|i: int, j: int|
        0 <= i < j < entries.len() && entries[i].path == entries[j].path;
    let a = order[i];
    let b = order[j];
    assert(rearranged[a].path == rearranged[b].path);
    if a < b {
        assert(!distinct_paths(rearranged));
    } else {
        assert(b < a);
        assert(!distinct_paths(rearranged));
    }
}

/// Writing a mapping as a JSON document and reading the document back
/// gives the same mapping: the list form of the mapping is encoded, the
/// document is decoded, and the decoded list is validated. The same holds
/// of every text that the JSON parser reads as that document.
pub proof fn lemma_round_trip(map: AssetMap)
    requires
        distinct_paths(map.listing()),
    ensures
        index_of_document(encode_index_file(map.listing())) == Ok::<_, FilesystemErrorView>(
            map.listing(),
        ),
        forall|text: Seq<char>|
            #[trigger] json_parse(text) == Ok::<_, Seq<char>>(encode_index_file(map.listing()))
                ==> index_of_parsed(json_parse(text)) == Ok::<_, FilesystemErrorView>(
                map.listing(),
            ),
        build(map.listing()) == Ok::<_, Seq<char>>(map@),
{
    lemma_decode_encode_index_file(map.listing());
    lemma_build(map.listing());
}

} // verus!
