//! The entries of an index and the list form in which an index is stored.

use vstd::prelude::*;
use crate::config::json::json_parse;
use crate::config::json::json_text;
use crate::config::json::lemma_array_view;
use crate::config::json::member;
use crate::config::json::parse_json;
use crate::config::json::write_json;
use crate::config::json::JsonValue;
use crate::config::json::JsonView;
use crate::readers::text_result_view;
use crate::readers::FilesystemError;
use crate::readers::FilesystemErrorView;
use crate::readers::FilesystemResult;

verus! {

/// Where a file lies inside a package: the package's file name, the offset of
/// the file's first byte and the number of its bytes.
#[derive(Debug, PartialEq)]
pub struct AssetPackIndex {
    pub package: String,
    pub starting_index: u64,
    pub file_size: u64,
}

/// Where a file lies on the web: its URL and, where known, a hash of its
/// content. The hash is carried along and never checked.
#[derive(Debug, PartialEq)]
pub struct AuraIndex {
    pub url: String,
    pub hash: Option<String>,
}

/// The location of one file: a byte range of a package or a web resource.
#[derive(Debug, PartialEq)]
pub enum IndexType {
    AssetPack(AssetPackIndex),
    Aura(AuraIndex),
}

/// One file of an index: its virtual path and its location.
#[derive(Debug, PartialEq)]
pub struct IndexEntry {
    pub path: String,
    pub index: IndexType,
}

/// An index in its list form, as it is stored and loaded. The order of the
/// entries is kept; it has no meaning for a lookup.
#[derive(Debug)]
pub struct IndexFile {
    pub files: Vec<IndexEntry>,
}

/// The mathematical value of an [`AssetPackIndex`].
pub struct AssetPackIndexView {
    pub package: Seq<char>,
    pub starting_index: u64,
    pub file_size: u64,
}

/// The mathematical value of an [`AuraIndex`].
pub struct AuraIndexView {
    pub url: Seq<char>,
    pub hash: Option<Seq<char>>,
}

/// The mathematical value of an [`IndexType`].
pub enum IndexTypeView {
    AssetPack(AssetPackIndexView),
    Aura(AuraIndexView),
}

/// The mathematical value of an [`IndexEntry`].
pub struct IndexEntryView {
    pub path: Seq<char>,
    pub index: IndexTypeView,
}

impl View for AssetPackIndex {
    type V = AssetPackIndexView;

    open spec fn view(&self) -> AssetPackIndexView {
        AssetPackIndexView {
            package: self.package@,
            starting_index: self.starting_index,
            file_size: self.file_size,
        }
    }
}

impl View for AuraIndex {
    type V = AuraIndexView;

    open spec fn view(&self) -> AuraIndexView {
        AuraIndexView {
            url: self.url@,
            hash: match self.hash {
                Some(h) => Some(h@),
                None => None,
            },
        }
    }
}

impl View for IndexType {
    type V = IndexTypeView;

    open spec fn view(&self) -> IndexTypeView {
        match self {
            IndexType::AssetPack(p) => IndexTypeView::AssetPack(p@),
            IndexType::Aura(a) => IndexTypeView::Aura(a@),
        }
    }
}

impl View for IndexEntry {
    type V = IndexEntryView;

    open spec fn view(&self) -> IndexEntryView {
        IndexEntryView { path: self.path@, index: self.index@ }
    }
}

impl View for IndexFile {
    type V = Seq<IndexEntryView>;

    open spec fn view(&self) -> Seq<IndexEntryView> {
        self.files@.map_values(|e: IndexEntry| e@)
    }
}

impl Clone for AssetPackIndex {
    fn clone(&self) -> (r: Self)
        ensures
            r@ == self@,
    {
        AssetPackIndex {
            package: self.package.clone(),
            starting_index: self.starting_index,
            file_size: self.file_size,
        }
    }
}

impl Clone for AuraIndex {
    fn clone(&self) -> (r: Self)
        ensures
            r@ == self@,
    {
        let hash = match &self.hash {
            Some(h) => Some(h.clone()),
            None => None,
        };
        AuraIndex { url: self.url.clone(), hash }
    }
}

impl Clone for IndexType {
    fn clone(&self) -> (r: Self)
        ensures
            r@ == self@,
    {
        match self {
            IndexType::AssetPack(p) => IndexType::AssetPack(p.clone()),
            IndexType::Aura(a) => IndexType::Aura(a.clone()),
        }
    }
}

impl Clone for IndexEntry {
    fn clone(&self) -> (r: Self)
        ensures
            r@ == self@,
    {
        IndexEntry { path: self.path.clone(), index: self.index.clone() }
    }
}

impl IndexEntry {
    /// An entry that places `path` at `index`.
    pub fn new(path: String, index: IndexType) -> (r: Self)
        ensures
            r@ == (IndexEntryView { path: path@, index: index@ }),
    {
        IndexEntry { path, index }
    }

    /// A copy of the entry's virtual path.
    pub fn path(&self) -> (r: String)
        ensures
            r@ == self@.path,
    {
        self.path.clone()
    }

    /// A copy of the entry's location.
    pub fn index(&self) -> (r: IndexType)
        ensures
            r@ == self@.index,
    {
        self.index.clone()
    }
}

/// The package location that a JSON object stands for: its members
/// `package`, a string, and `starting_index` and `file_size`, unsigned
/// 64-bit integers. Other members are passed over.
pub open spec fn decode_asset_pack(document: JsonView) -> Option<AssetPackIndexView> {
    match (
        document.get("package"@),
        document.get("starting_index"@),
        document.get("file_size"@),
    ) {
        (
            Some(JsonView::Text(package)),
            Some(JsonView::Unsigned(starting_index)),
            Some(JsonView::Unsigned(file_size)),
        ) => Some(AssetPackIndexView { package, starting_index, file_size }),
        _ => None,
    }
}

/// The web location that a JSON object stands for: its member `url`, a
/// string, and its member `hash`, a string, `null` or absent. Other members
/// are passed over.
pub open spec fn decode_aura(document: JsonView) -> Option<AuraIndexView> {
    match document.get("url"@) {
        Some(JsonView::Text(url)) => match document.get("hash"@) {
            None => Some(AuraIndexView { url, hash: None }),
            Some(JsonView::Null) => Some(AuraIndexView { url, hash: None }),
            Some(JsonView::Text(hash)) => Some(AuraIndexView { url, hash: Some(hash) }),
            _ => None,
        },
        _ => None,
    }
}

/// The location that a JSON object stands for. The two kinds carry no tag:
/// an object with the members of a package location is one, any other
/// object with the members of a web location is one of those, and every
/// other document is none.
pub open spec fn decode_index_type(document: JsonView) -> Option<IndexTypeView> {
    match decode_asset_pack(document) {
        Some(pack) => Some(IndexTypeView::AssetPack(pack)),
        None => match decode_aura(document) {
            Some(aura) => Some(IndexTypeView::Aura(aura)),
            None => None,
        },
    }
}

/// The entry that a JSON object stands for: its member `path`, a string, and
/// its member `index`, a location.
pub open spec fn decode_entry(document: JsonView) -> Option<IndexEntryView> {
    match (document.get("path"@), document.get("index"@)) {
        (Some(JsonView::Text(path)), Some(location)) => match decode_index_type(location) {
            Some(index) => Some(IndexEntryView { path, index }),
            None => None,
        },
        _ => None,
    }
}

/// The entries that a list of JSON documents stands for, if each of them is
/// an entry.
pub open spec fn decode_entries(items: Seq<JsonView>) -> Option<Seq<IndexEntryView>> {
    if forall|i: int| 0 <= i < items.len() ==> (#[trigger] decode_entry(items[i])) is Some {
        Some(Seq::new(items.len(), |i: int| decode_entry(items[i])->Some_0))
    } else {
        None
    }
}

/// The index that a JSON document stands for: an array of entries.
pub open spec fn decode_index_file(document: JsonView) -> Option<Seq<IndexEntryView>> {
    match document {
        JsonView::Array(items) => decode_entries(items),
        _ => None,
    }
}

/// The JSON object for a package location.
pub open spec fn encode_asset_pack(pack: AssetPackIndexView) -> JsonView {
    JsonView::Object(
        seq![
            ("package"@, JsonView::Text(pack.package)),
            ("starting_index"@, JsonView::Unsigned(pack.starting_index)),
            ("file_size"@, JsonView::Unsigned(pack.file_size)),
        ],
    )
}

/// The JSON object for a web location. A hash that is not known is `null`.
pub open spec fn encode_aura(aura: AuraIndexView) -> JsonView {
    JsonView::Object(
        seq![
            ("url"@, JsonView::Text(aura.url)),
            (
                "hash"@,
                match aura.hash {
                    Some(hash) => JsonView::Text(hash),
                    None => JsonView::Null,
                },
            ),
        ],
    )
}

/// The JSON object for a location.
pub open spec fn encode_index_type(index: IndexTypeView) -> JsonView {
    match index {
        IndexTypeView::AssetPack(pack) => encode_asset_pack(pack),
        IndexTypeView::Aura(aura) => encode_aura(aura),
    }
}

/// The JSON object for an entry.
pub open spec fn encode_entry(entry: IndexEntryView) -> JsonView {
    JsonView::Object(
        seq![("path"@, JsonView::Text(entry.path)), ("index"@, encode_index_type(entry.index))],
    )
}

/// The JSON document for an index: the array of its entries, in order.
pub open spec fn encode_index_file(entries: Seq<IndexEntryView>) -> JsonView {
    JsonView::Array(entries.map_values(|e: IndexEntryView| encode_entry(e)))
}

impl AssetPackIndex {
    /// Reads a package location from a JSON document.
    pub fn from_json(document: &JsonValue) -> (r: Option<AssetPackIndex>)
        ensures
            match r {
                Some(pack) => decode_asset_pack(document@) == Some(pack@),
                None => decode_asset_pack(document@) is None,
            },
    {
        let package = match document.get("package") {
            Some(JsonValue::Text(package)) => package,
            _ => {
                return None;
            },
        };
        let starting_index = match document.get("starting_index") {
            Some(JsonValue::Unsigned(n)) => *n,
            _ => {
                return None;
            },
        };
        let file_size = match document.get("file_size") {
            Some(JsonValue::Unsigned(n)) => *n,
            _ => {
                return None;
            },
        };
        Some(AssetPackIndex { package: package.clone(), starting_index, file_size })
    }

    /// The JSON object for the location.
    pub fn to_json(&self) -> (r: JsonValue)
        ensures
            r@ == encode_asset_pack(self@),
    {
        JsonValue::object3(
            "package",
            JsonValue::Text(self.package.clone()),
            "starting_index",
            JsonValue::Unsigned(self.starting_index),
            "file_size",
            JsonValue::Unsigned(self.file_size),
        )
    }
}

impl AuraIndex {
    /// Reads a web location from a JSON document.
    pub fn from_json(document: &JsonValue) -> (r: Option<AuraIndex>)
        ensures
            match r {
                Some(aura) => decode_aura(document@) == Some(aura@),
                None => decode_aura(document@) is None,
            },
    {
        let url = match document.get("url") {
            Some(JsonValue::Text(url)) => url,
            _ => {
                return None;
            },
        };
        let hash = match document.get("hash") {
            None => None,
            Some(JsonValue::Null) => None,
            Some(JsonValue::Text(hash)) => Some(hash.clone()),
            _ => {
                return None;
            },
        };
        Some(AuraIndex { url: url.clone(), hash })
    }

    /// The JSON object for the location.
    pub fn to_json(&self) -> (r: JsonValue)
        ensures
            r@ == encode_aura(self@),
    {
        let hash = match &self.hash {
            Some(hash) => JsonValue::Text(hash.clone()),
            None => JsonValue::Null,
        };
        let r = JsonValue::object2("url", JsonValue::Text(self.url.clone()), "hash", hash);
        assert(r@->Object_0 =~= encode_aura(self@)->Object_0);
        r
    }
}

impl IndexType {
    /// Reads a location from a JSON document, telling the two kinds apart by
    /// the members that are there.
    pub fn from_json(document: &JsonValue) -> (r: Option<IndexType>)
        ensures
            match r {
                Some(index) => decode_index_type(document@) == Some(index@),
                None => decode_index_type(document@) is None,
            },
    {
        match AssetPackIndex::from_json(document) {
            Some(pack) => Some(IndexType::AssetPack(pack)),
            None => match AuraIndex::from_json(document) {
                Some(aura) => Some(IndexType::Aura(aura)),
                None => None,
            },
        }
    }

    /// The JSON object for the location.
    pub fn to_json(&self) -> (r: JsonValue)
        ensures
            r@ == encode_index_type(self@),
    {
        match self {
            IndexType::AssetPack(pack) => pack.to_json(),
            IndexType::Aura(aura) => aura.to_json(),
        }
    }
}

impl IndexEntry {
    /// Reads an entry from a JSON document.
    pub fn from_json(document: &JsonValue) -> (r: Option<IndexEntry>)
        ensures
            match r {
                Some(entry) => decode_entry(document@) == Some(entry@),
                None => decode_entry(document@) is None,
            },
    {
        let path = match document.get("path") {
            Some(JsonValue::Text(path)) => path,
            _ => {
                return None;
            },
        };
        let location = match document.get("index") {
            Some(location) => location,
            None => {
                return None;
            },
        };
        match IndexType::from_json(location) {
            Some(index) => Some(IndexEntry { path: path.clone(), index }),
            None => None,
        }
    }

    /// The JSON object for the entry.
    pub fn to_json(&self) -> (r: JsonValue)
        ensures
            r@ == encode_entry(self@),
    {
        JsonValue::object2(
            "path",
            JsonValue::Text(self.path.clone()),
            "index",
            self.index.to_json(),
        )
    }
}

/// The message of the error for a JSON document that is no index.
pub open spec fn shape_message() -> Seq<char> {
    "data did not match the shape of an index file"@
}

/// What reading an index from a JSON document gives.
pub open spec fn index_of_document(document: JsonView) -> Result<
    Seq<IndexEntryView>,
    FilesystemErrorView,
> {
    match decode_index_file(document) {
        Some(entries) => Ok(entries),
        None => Err(FilesystemErrorView::DeserializationError(shape_message())),
    }
}

/// What reading an index gives, from what the JSON parser made of the text:
/// the parser's message where it refused the text, else the index for which
/// the document stands.
pub open spec fn index_of_parsed(parsed: Result<JsonView, Seq<char>>) -> Result<
    Seq<IndexEntryView>,
    FilesystemErrorView,
> {
    match parsed {
        Ok(document) => index_of_document(document),
        Err(message) => Err(FilesystemErrorView::DeserializationError(message)),
    }
}

/// What writing an index gives, from what the JSON writer made of its
/// document.
pub open spec fn text_of_written(written: Result<Seq<char>, Seq<char>>) -> Result<
    Seq<char>,
    FilesystemErrorView,
> {
    match written {
        Ok(text) => Ok(text),
        Err(message) => Err(FilesystemErrorView::SerializationError(message)),
    }
}

/// The value of a result that holds an index.
pub open spec fn index_result_view(r: FilesystemResult<IndexFile>) -> Result<
    Seq<IndexEntryView>,
    FilesystemErrorView,
> {
    match r {
        Ok(file) => Ok(file@),
        Err(e) => Err(e@),
    }
}

impl IndexFile {
    /// Reads an index from a JSON document. The document has to be an array
    /// in which every element is an object with a `path` and a location
    /// under `index`; any other document is refused.
    pub fn from_json(document: &JsonValue) -> (r: FilesystemResult<IndexFile>)
        ensures
            index_result_view(r) == index_of_document(document@),
    {
        let items = match document {
            JsonValue::Array(items) => items,
            _ => {
                return Err(FilesystemError::DeserializationError(Self::shape_error()));
            },
        };
        proof {
            lemma_array_view(*items);
        }
        let ghost views = document@->Array_0;
        let mut files: Vec<IndexEntry> = Vec::new();
        let mut i: usize = 0;
        while i < items.len()
            invariant
                i <= items.len(),
                document@ == JsonView::Array(views),
                views.len() == items@.len(),
                forall|k: int| 0 <= k < items@.len() ==> views[k] == #[trigger] items@[k]@,
                files@.len() == i,
                forall|k: int|
                    0 <= k < i ==> decode_entry(views[k]) == Some((#[trigger] files@[k])@),
            decreases items.len() - i,
        {
            match IndexEntry::from_json(&items[i]) {
                Some(entry) => {
                    files.push(entry);
                },
                None => {
                    assert(decode_entry(views[i as int]) is None);
                    return Err(FilesystemError::DeserializationError(Self::shape_error()));
                },
            }
            i += 1;
        }
        let file = IndexFile { files };
        assert forall|k: int| 0 <= k < views.len() implies (#[trigger] decode_entry(
            views[k],
        )) is Some by {
            assert(decode_entry(views[k]) == Some(files@[k]@));
        }
        assert(file@ =~= decode_entries(views)->Some_0);
        Ok(file)
    }

    /// The message for a document that is no index.
    fn shape_error() -> (r: String)
        ensures
            r@ == shape_message(),
    {
        "data did not match the shape of an index file".to_owned()
    }

    /// Reads an index from what the JSON parser made of a text.
    pub fn from_parsed(parsed: Result<JsonValue, String>) -> (r: FilesystemResult<IndexFile>)
        ensures
            index_result_view(r) == index_of_parsed(crate::config::json::parsed_view(parsed)),
    {
        match parsed {
            Ok(document) => Self::from_json(&document),
            Err(message) => Err(FilesystemError::DeserializationError(message)),
        }
    }

    /// Reads an index from JSON text. A text that is no JSON is refused with
    /// the parser's message, a JSON document that is no index with the
    /// crate's own.
    pub fn from_str(contents: &str) -> (r: FilesystemResult<IndexFile>)
        ensures
            index_result_view(r) == index_of_parsed(json_parse(contents@)),
    {
        Self::from_parsed(parse_json(contents))
    }

    /// Reads an index from what reading the index file at `path` gave: its
    /// text, or the error of the platform, which then gets the path.
    pub fn from_file(path: &str, contents: FilesystemResult<String>) -> (r: FilesystemResult<
        IndexFile,
    >)
        ensures
            index_result_view(r) == match contents {
                Ok(text) => index_of_parsed(json_parse(text@)),
                Err(e) => Err(e@.with_path(path@)),
            },
    {
        match contents {
            Ok(text) => Self::from_str(text.as_str()),
            Err(e) => Err(e.with_path(path.to_owned())),
        }
    }

    /// The JSON document for the index.
    pub fn to_json(&self) -> (r: JsonValue)
        ensures
            r@ == encode_index_file(self@),
    {
        let mut items: Vec<JsonValue> = Vec::new();
        let mut i: usize = 0;
        while i < self.files.len()
            invariant
                i <= self.files.len(),
                items@.len() == i,
                forall|k: int| 0 <= k < i ==> (#[trigger] items@[k])@ == encode_entry(self@[k]),
            decreases self.files.len() - i,
        {
            items.push(self.files[i].to_json());
            i += 1;
        }
        proof {
            lemma_array_view(items);
            assert(JsonValue::Array(items)@->Array_0 =~= encode_index_file(self@)->Array_0);
        }
        JsonValue::Array(items)
    }

    /// The index as JSON text, in the compact form of the JSON writer.
    pub fn to_json_string(&self) -> (r: FilesystemResult<String>)
        ensures
            text_result_view(r) == text_of_written(json_text(encode_index_file(self@))),
    {
        match write_json(&self.to_json()) {
            Ok(text) => Ok(text),
            Err(message) => Err(FilesystemError::SerializationError(message)),
        }
    }
}

/// The member names of the index format differ from one another.
proof fn lemma_member_names()
    ensures
        "path"@ != "index"@,
        "package"@ != "starting_index"@,
        "package"@ != "file_size"@,
        "starting_index"@ != "file_size"@,
        "url"@ != "hash"@,
        "url"@ != "package"@,
        "hash"@ != "package"@,
{
    reveal_strlit("path");
    reveal_strlit("index");
    reveal_strlit("package");
    reveal_strlit("starting_index");
    reveal_strlit("file_size");
    reveal_strlit("url");
    reveal_strlit("hash");
    assert("path"@.len() == 4 && "index"@.len() == 5);
    assert("package"@.len() == 7 && "starting_index"@.len() == 14 && "file_size"@.len() == 9);
    assert("url"@.len() == 3 && "hash"@.len() == 4);
}

/// Reading the JSON object of a location gives the location back.
pub proof fn lemma_decode_encode_index_type(index: IndexTypeView)
    ensures
        decode_index_type(encode_index_type(index)) == Some(index),
{
    lemma_member_names();
    reveal_with_fuel(member, 4);
    match index {
        IndexTypeView::AssetPack(pack) => {
            let document = encode_asset_pack(pack);
            assert(document.get("package"@) == Some(JsonView::Text(pack.package)));
            assert(document.get("starting_index"@) == Some(
                JsonView::Unsigned(pack.starting_index),
            ));
            assert(document.get("file_size"@) == Some(JsonView::Unsigned(pack.file_size)));
        },
        IndexTypeView::Aura(aura) => {
            let document = encode_aura(aura);
            assert(document.get("package"@) is None);
            assert(document.get("url"@) == Some(JsonView::Text(aura.url)));
            assert(document.get("hash"@) == Some(
                match aura.hash {
                    Some(hash) => JsonView::Text(hash),
                    None => JsonView::Null,
                },
            ));
        },
    }
}

/// Reading the JSON object of an entry gives the entry back.
pub proof fn lemma_decode_encode_entry(entry: IndexEntryView)
    ensures
        decode_entry(encode_entry(entry)) == Some(entry),
{
    lemma_member_names();
    lemma_decode_encode_index_type(entry.index);
    reveal_with_fuel(member, 3);
    let document = encode_entry(entry);
    assert(document.get("path"@) == Some(JsonView::Text(entry.path)));
    assert(document.get("index"@) == Some(encode_index_type(entry.index)));
}

/// Reading the JSON document of an index gives the index back: the same
/// entries in the same order.
pub proof fn lemma_decode_encode_index_file(entries: Seq<IndexEntryView>)
    ensures
        decode_index_file(encode_index_file(entries)) == Some(entries),
        index_of_document(encode_index_file(entries)) == Ok::<_, FilesystemErrorView>(entries),
{
    let items = entries.map_values(|e: IndexEntryView| encode_entry(e));
    assert forall|i: int| 0 <= i < items.len() implies (#[trigger] decode_entry(items[i]))
        == Some(entries[i]) by {
        lemma_decode_encode_entry(entries[i]);
    }
    assert(decode_entries(items)->Some_0 =~= entries);
}

} // verus!
