use crate::document::{document_of, trees, Json, JsonTree};
use crate::path::{is_safe_relative, is_safe_relative_path};
use vstd::prelude::*;
use vstd::string::*;
use vstd::utf8::{decode_utf8, valid_utf8};

verus! {

/// Whether the server side needs an artifact.
#[derive(Clone, Copy, Debug, PartialEq, Eq, Structural)]
pub enum Applicability {
    Required,
    Optional,
    Unsupported,
}

/// One of the fields that every element of `files` must have.
#[derive(Clone, Copy, Debug, PartialEq, Eq, Structural)]
pub enum Field {
    /// `env.server`, a string.
    Server,
    /// `path`, a string.
    Path,
    /// `hashes.sha512`, a string.
    Digest,
    /// `downloads[0]`, a string.
    Download,
}

/// Why an element of `files` is no entry.
#[derive(Clone, Copy, Debug, PartialEq, Eq, Structural)]
pub enum EntryFault {
    /// The field is absent or is not a string.
    Missing(Field),
    /// The path is empty, absolute or has a `..` component.
    UnsafePath,
}

/// Why a manifest was rejected.
#[derive(Clone, Copy, Debug, PartialEq, Eq, Structural)]
pub enum ManifestError {
    /// The bytes are not text in UTF-8.
    NotText,
    /// The text is not a JSON document, or holds too long a run of digits
    /// to be read as one.
    Syntax,
    /// The element of `files` at `index` is the first that is no entry.
    Entry { index: usize, fault: EntryFault },
}

/// What an entry of a manifest says.
pub struct EntryView {
    pub relative_path: Seq<char>,
    pub expected_digest: Seq<char>,
    pub source_url: Seq<char>,
    pub applicability: Applicability,
}

/// One artifact that a manifest declares. Its path can be placed below an
/// install root without leaving it.
#[derive(Debug, PartialEq)]
pub struct ModEntry {
    relative_path: String,
    expected_digest: String,
    source_url: String,
    applicability: Applicability,
}

impl View for ModEntry {
    type V = EntryView;

    closed spec fn view(&self) -> EntryView {
        EntryView {
            relative_path: self.relative_path@,
            expected_digest: self.expected_digest@,
            source_url: self.source_url@,
            applicability: self.applicability,
        }
    }
}

impl ModEntry {
    #[verifier::type_invariant]
    spec fn stays_below_root(self) -> bool {
        is_safe_relative(self.relative_path@)
    }

    /// Makes an entry of the four values, unless the path is unsafe.
    pub fn new(
        relative_path: String,
        expected_digest: String,
        source_url: String,
        applicability: Applicability,
    ) -> (r: Option<ModEntry>)
        ensures
            r is Some <==> is_safe_relative(relative_path@),
            r matches Some(entry) ==> entry@ == (EntryView {
                relative_path: relative_path@,
                expected_digest: expected_digest@,
                source_url: source_url@,
                applicability,
            }),
    {
        if is_safe_relative_path(relative_path.as_str()) {
            Some(ModEntry { relative_path, expected_digest, source_url, applicability })
        } else {
            None
        }
    }

    /// Where the artifact goes, relative to the install root.
    pub fn relative_path(&self) -> (r: &String)
        ensures
            r@ == self@.relative_path,
            is_safe_relative(r@),
    {
        proof {
            use_type_invariant(self);
        }
        &self.relative_path
    }

    /// The SHA-512 digest that the manifest declares, in hexadecimal.
    pub fn expected_digest(&self) -> (r: &String)
        ensures
            r@ == self@.expected_digest,
    {
        &self.expected_digest
    }

    /// The address from which the artifact is fetched.
    pub fn source_url(&self) -> (r: &String)
        ensures
            r@ == self@.source_url,
    {
        &self.source_url
    }

    /// Whether the server side needs the artifact.
    pub fn applicability(&self) -> (r: Applicability)
        ensures
            r == self@.applicability,
    {
        self.applicability
    }

    /// A second entry that says the same.
    pub fn duplicate(&self) -> (r: ModEntry)
        ensures
            r@ == self@,
    {
        proof {
            use_type_invariant(self);
        }
        ModEntry {
            relative_path: self.relative_path.clone(),
            expected_digest: self.expected_digest.clone(),
            source_url: self.source_url.clone(),
            applicability: self.applicability,
        }
    }
}

/// What each of a sequence of entries says.
pub open spec fn views(entries: Seq<ModEntry>) -> Seq<EntryView> {
    Seq::new(entries.len(), |i: int| entries[i]@)
}

/// The applicability that a token of `env.server` stands for: `required`
/// and `optional` for themselves, any other for `Unsupported`.
pub open spec fn applicability_of(token: Seq<char>) -> Applicability {
    if token == "required"@ {
        Applicability::Required
    } else if token == "optional"@ {
        Applicability::Optional
    } else {
        Applicability::Unsupported
    }
}

/// The text of `value`, if there is a value and it is a string.
pub open spec fn text_in(value: Option<JsonTree>) -> Option<Seq<char>> {
    match value {
        Some(v) => v.text(),
        None => None,
    }
}

/// The field `key` of `value`, if there is a value and it has the field.
pub open spec fn member_in(value: Option<JsonTree>, key: Seq<char>) -> Option<JsonTree> {
    match value {
        Some(v) => v.member(key),
        None => None,
    }
}

/// The first element of `value`, if there is a value and it is an array
/// that is not empty.
pub open spec fn first_in(value: Option<JsonTree>) -> Option<JsonTree> {
    match value {
        Some(JsonTree::List(items)) => if items.len() > 0 {
            Some(items[0])
        } else {
            None
        },
        _ => None,
    }
}

/// The string that `item` holds for `field`, if it holds one.
pub open spec fn field_of(item: JsonTree, field: Field) -> Option<Seq<char>> {
    match field {
        Field::Server => text_in(member_in(item.member("env"@), "server"@)),
        Field::Path => text_in(item.member("path"@)),
        Field::Digest => text_in(member_in(item.member("hashes"@), "sha512"@)),
        Field::Download => text_in(first_in(item.member("downloads"@))),
    }
}

/// The entry that an element of `files` stands for, or the first thing that
/// is wrong with it: the fields are looked at in the order server, path,
/// digest, download, and the path is judged last.
pub open spec fn entry_of(item: JsonTree) -> Result<EntryView, EntryFault> {
    if field_of(item, Field::Server) is None {
        Err(EntryFault::Missing(Field::Server))
    } else if field_of(item, Field::Path) is None {
        Err(EntryFault::Missing(Field::Path))
    } else if field_of(item, Field::Digest) is None {
        Err(EntryFault::Missing(Field::Digest))
    } else if field_of(item, Field::Download) is None {
        Err(EntryFault::Missing(Field::Download))
    } else if !is_safe_relative(field_of(item, Field::Path)->0) {
        Err(EntryFault::UnsafePath)
    } else {
        Ok(
            EntryView {
                relative_path: field_of(item, Field::Path)->0,
                expected_digest: field_of(item, Field::Digest)->0,
                source_url: field_of(item, Field::Download)->0,
                applicability: applicability_of(field_of(item, Field::Server)->0),
            },
        )
    }
}

/// The elements of the array `files` of a manifest; none where the document
/// has no such array.
pub open spec fn files_of(doc: JsonTree) -> Seq<JsonTree> {
    match doc.member("files"@) {
        Some(JsonTree::List(items)) => items,
        _ => Seq::empty(),
    }
}

/// The number of elements at the start of `items` that are entries.
pub open spec fn leading_entries(items: Seq<JsonTree>) -> nat
    decreases items.len(),
{
    if items.len() == 0 || entry_of(items[0]) is Err {
        0
    } else {
        1 + leading_entries(items.skip(1))
    }
}

/// What a manifest declares: the entries of its `files`, in their order, if
/// every element is one; else the place and fault of the first that is not.
pub open spec fn entries_of(doc: JsonTree) -> Result<Seq<EntryView>, ManifestError> {
    let items = files_of(doc);
    let good = leading_entries(items);
    if good < items.len() {
        Err(ManifestError::Entry { index: good as usize, fault: entry_of(items[good as int])->Err_0 })
    } else {
        Ok(Seq::new(items.len(), |i: int| entry_of(items[i])->Ok_0))
    }
}

/// What a manifest text declares: a syntax error where it is not read as
/// a JSON document, else what the document declares.
pub open spec fn manifest_of(text: Seq<char>) -> Result<Seq<EntryView>, ManifestError> {
    match document_of(text) {
        Some(doc) => entries_of(doc),
        None => Err(ManifestError::Syntax),
    }
}

/// The document that the bytes of a manifest hold: an error where they are
/// not text in UTF-8 or the text is not read as a JSON document.
pub open spec fn document_in(bytes: Seq<u8>) -> Result<JsonTree, ManifestError> {
    if !valid_utf8(bytes) {
        Err(ManifestError::NotText)
    } else {
        match document_of(decode_utf8(bytes)) {
            Some(doc) => Ok(doc),
            None => Err(ManifestError::Syntax),
        }
    }
}

/// What the bytes of a manifest declare: an error where they are not text
/// in UTF-8, else what the text declares.
pub open spec fn manifest_in(bytes: Seq<u8>) -> Result<Seq<EntryView>, ManifestError> {
    if valid_utf8(bytes) {
        manifest_of(decode_utf8(bytes))
    } else {
        Err(ManifestError::NotText)
    }
}

/// An entry that the server side needs.
pub open spec fn is_required(entry: EntryView) -> bool {
    entry.applicability == Applicability::Required
}

/// The test that selection applies to each entry.
pub open spec fn selection() -> spec_fn(EntryView) -> bool {
    |entry: EntryView| is_required(entry)
}

/// The entries to install: those that the server side needs, in their
/// order, each as often as it occurs.
pub open spec fn selected(entries: Seq<EntryView>) -> Seq<EntryView> {
    entries.filter(selection())
}

/// The places of the required entries among `entries`, in rising order.
pub open spec fn required_places(entries: Seq<EntryView>) -> Seq<int>
    decreases entries.len(),
{
    if entries.len() == 0 {
        Seq::empty()
    } else if is_required(entries.last()) {
        required_places(entries.drop_last()).push(entries.len() - 1)
    } else {
        required_places(entries.drop_last())
    }
}

/// `leading_entries` counts a prefix of entries that ends at the first
/// element that is none.
pub proof fn lemma_leading_entries(items: Seq<JsonTree>)
    ensures
        leading_entries(items) <= items.len(),
        forall|i: int| 0 <= i < leading_entries(items) ==> entry_of(#[trigger] items[i]) is Ok,
        leading_entries(items) < items.len() ==> entry_of(
            items[leading_entries(items) as int],
        ) is Err,
    decreases items.len(),
{
    if items.len() == 0 || entry_of(items[0]) is Err {
    } else {
        let rest = items.skip(1);
        lemma_leading_entries(rest);
        assert forall|i: int| 0 <= i < leading_entries(items) implies entry_of(
            #[trigger] items[i],
        ) is Ok by {
            if i > 0 {
                assert(items[i] == rest[i - 1]);
            }
        }
    }
}

/// A prefix of entries followed by an element that is none has exactly
/// that many leading entries.
pub proof fn lemma_leading_entries_is(items: Seq<JsonTree>, n: int)
    requires
        0 <= n <= items.len(),
        forall|i: int| 0 <= i < n ==> entry_of(#[trigger] items[i]) is Ok,
        n < items.len() ==> entry_of(items[n]) is Err,
    ensures
        leading_entries(items) == n,
{
    lemma_leading_entries(items);
}

/// An entry is among the selected if and only if it is among the entries
/// and its applicability is `Required`.
pub proof fn lemma_selected_iff_required(entries: Seq<EntryView>, entry: EntryView)
    ensures
        selected(entries).contains(entry) <==> entries.contains(entry) && entry.applicability
            == Applicability::Required,
{
    let chosen = selected(entries);
    if chosen.contains(entry) {
        entries.lemma_filter_contains_rev(selection(), entry);
        let i = choose|i: int| 0 <= i < chosen.len() && chosen[i] == entry;
        entries.lemma_filter_pred(selection(), i);
    }
    if entries.contains(entry) && is_required(entry) {
        let i = choose|i: int| 0 <= i < entries.len() && entries[i] == entry;
        entries.lemma_filter_contains(selection(), i);
    }
}

/// Selection keeps the order of the manifest and drops nothing that is
/// required: the selected entries are the entries at the places of the
/// required ones, and those places rise.
pub proof fn lemma_selection_keeps_order(entries: Seq<EntryView>)
    ensures
        required_places(entries).len() == selected(entries).len(),
        forall|k: int|
            0 <= k < selected(entries).len() ==> 0 <= #[trigger] required_places(entries)[k]
                < entries.len() && selected(entries)[k] == entries[required_places(entries)[k]],
        forall|a: int, b: int|
            0 <= a < b < selected(entries).len() ==> required_places(entries)[a]
                < required_places(entries)[b],
        forall|i: int|
            0 <= i < entries.len() && is_required(#[trigger] entries[i]) ==> required_places(
                entries,
            ).contains(i),
    decreases entries.len(),
{
    reveal(Seq::filter);
    if entries.len() > 0 {
        let front = entries.drop_last();
        lemma_selection_keeps_order(front);
        let places = required_places(entries);
        let before = required_places(front);
        assert forall|i: int| 0 <= i < entries.len() && is_required(
            #[trigger] entries[i],
        ) implies places.contains(i) by {
            if i < front.len() {
                assert(front[i] == entries[i]);
                let k = choose|k: int| 0 <= k < before.len() && before[k] == i;
                assert(places[k] == i);
            } else {
                assert(places[places.len() - 1] == i);
            }
        }
    }
}

/// One element of `files` that is no entry makes the whole manifest an
/// error: no entry is produced.
pub proof fn lemma_all_or_nothing(doc: JsonTree, i: int)
    requires
        0 <= i < files_of(doc).len(),
        entry_of(files_of(doc)[i]) is Err,
    ensures
        entries_of(doc) is Err,
{
    lemma_leading_entries(files_of(doc));
}

/// An element of `files` that lacks one of the four fields is no entry, so
/// a manifest with such an element produces no entry.
pub proof fn lemma_missing_field_rejects(doc: JsonTree, i: int, field: Field)
    requires
        0 <= i < files_of(doc).len(),
        field_of(files_of(doc)[i], field) is None,
    ensures
        entry_of(files_of(doc)[i]) is Err,
        entries_of(doc) is Err,
{
    lemma_all_or_nothing(doc, i);
}

/// A manifest that is accepted has one entry for each element of `files`,
/// in the order of the elements, and the path of each entry is safe.
pub proof fn lemma_accepted_is_complete(doc: JsonTree)
    requires
        entries_of(doc) is Ok,
    ensures
        entries_of(doc)->Ok_0.len() == files_of(doc).len(),
        forall|i: int|
            0 <= i < files_of(doc).len() ==> entry_of(#[trigger] files_of(doc)[i]) == Ok::<
                EntryView,
                EntryFault,
            >(entries_of(doc)->Ok_0[i]),
        forall|i: int|
            0 <= i < files_of(doc).len() ==> is_safe_relative(
                (#[trigger] entries_of(doc)->Ok_0[i]).relative_path,
            ),
{
    lemma_leading_entries(files_of(doc));
}

/// The tree of an optional document.
pub open spec fn tree_in(value: Option<&Json>) -> Option<JsonTree> {
    match value {
        Some(v) => Some(v@),
        None => None,
    }
}

/// The text of an optional value, if there is a value and it is a string.
fn text_at<'a>(value: Option<&'a Json>) -> (r: Option<&'a String>)
    ensures
        match r {
            Some(s) => text_in(tree_in(value)) == Some(s@),
            None => text_in(tree_in(value)) is None,
        },
{
    match value {
        Some(v) => v.text(),
        None => None,
    }
}

/// The field `key` of an optional value, if there is a value that has it.
fn member_at<'a>(value: Option<&'a Json>, key: &str) -> (r: Option<&'a Json>)
    ensures
        tree_in(r) == member_in(tree_in(value), key@),
{
    match value {
        Some(v) => v.member(key),
        None => None,
    }
}

/// The first element of an optional value, if there is a value and it is
/// an array that is not empty.
fn first_at<'a>(value: Option<&'a Json>) -> (r: Option<&'a Json>)
    ensures
        tree_in(r) == first_in(tree_in(value)),
{
    match value {
        Some(v) => match v.items() {
            Some(items) => if items.len() > 0 {
                Some(&items[0])
            } else {
                None
            },
            None => None,
        },
        None => None,
    }
}

/// Reads a token of `env.server`.
pub fn applicability_from(token: &str) -> (r: Applicability)
    ensures
        r == applicability_of(token@),
{
    let token = String::from_str(token);
    if token == String::from_str("required") {
        Applicability::Required
    } else if token == String::from_str("optional") {
        Applicability::Optional
    } else {
        Applicability::Unsupported
    }
}

/// Reads one element of `files`.
pub fn entry_from(item: &Json) -> (r: Result<ModEntry, EntryFault>)
    ensures
        match r {
            Ok(entry) => entry_of(item@) == Ok::<EntryView, EntryFault>(entry@),
            Err(fault) => entry_of(item@) == Err::<EntryView, EntryFault>(fault),
        },
{
    let server = match text_at(member_at(item.member("env"), "server")) {
        Some(s) => s,
        None => { return Err(EntryFault::Missing(Field::Server)); },
    };
    let path = match text_at(item.member("path")) {
        Some(s) => s,
        None => { return Err(EntryFault::Missing(Field::Path)); },
    };
    let digest = match text_at(member_at(item.member("hashes"), "sha512")) {
        Some(s) => s,
        None => { return Err(EntryFault::Missing(Field::Digest)); },
    };
    let url = match text_at(first_at(item.member("downloads"))) {
        Some(s) => s,
        None => { return Err(EntryFault::Missing(Field::Download)); },
    };
    let applicability = applicability_from(server.as_str());
    match ModEntry::new(path.clone(), digest.clone(), url.clone(), applicability) {
        Some(entry) => Ok(entry),
        None => Err(EntryFault::UnsafePath),
    }
}

/// Reads the entries that a manifest document declares.
///
/// Either every element of `files` is an entry and all of them are
/// returned, in their order, or the first that is none is reported and no
/// entry is returned.
pub fn read_manifest(doc: &Json) -> (r: Result<Vec<ModEntry>, ManifestError>)
    ensures
        match r {
            Ok(entries) => entries_of(doc@) == Ok::<Seq<EntryView>, ManifestError>(
                views(entries@),
            ),
            Err(error) => entries_of(doc@) == Err::<Seq<EntryView>, ManifestError>(error),
        },
{
    let mut entries: Vec<ModEntry> = Vec::new();
    let items = match doc.member("files") {
        Some(files) => match files.items() {
            Some(items) => items,
            None => {
                assert(views(entries@) =~= Seq::new(0, |i: int| entry_of(files_of(doc@)[i])->Ok_0));
                return Ok(entries);
            },
        },
        None => {
            assert(views(entries@) =~= Seq::new(0, |i: int| entry_of(files_of(doc@)[i])->Ok_0));
            return Ok(entries);
        },
    };
    let ghost all = files_of(doc@);
    let n = items.len();
    let mut i: usize = 0;
    while i < n
        invariant
            i <= n == items@.len(),
            all == trees(items@),
            all == files_of(doc@),
            entries@.len() == i,
            forall|j: int|
                0 <= j < i ==> entry_of(#[trigger] all[j]) == Ok::<EntryView, EntryFault>(
                    entries@[j]@,
                ),
        decreases n - i,
    {
        match entry_from(&items[i]) {
            Ok(entry) => {
                entries.push(entry);
            },
            Err(fault) => {
                proof {
                    lemma_leading_entries_is(all, i as int);
                }
                return Err(ManifestError::Entry { index: i, fault });
            },
        }
        i += 1;
    }
    proof {
        lemma_leading_entries_is(all, n as int);
        assert(views(entries@) =~= Seq::new(all.len(), |i: int| entry_of(all[i])->Ok_0));
    }
    Ok(entries)
}

/// Reads the entries that a manifest text declares.
pub fn parse_manifest(text: &str) -> (r: Result<Vec<ModEntry>, ManifestError>)
    ensures
        match r {
            Ok(entries) => manifest_of(text@) == Ok::<Seq<EntryView>, ManifestError>(
                views(entries@),
            ),
            Err(error) => manifest_of(text@) == Err::<Seq<EntryView>, ManifestError>(error),
        },
{
    match Json::parse(text) {
        Some(doc) => read_manifest(&doc),
        None => Err(ManifestError::Syntax),
    }
}

/// The name of the manifest inside an archive.
pub fn manifest_name() -> (name: &'static str)
    ensures
        name@ == "modrinth.index.json"@,
{
    "modrinth.index.json"
}

/// Turns bytes into text with `String::from_utf8` of the standard library:
/// it succeeds exactly on valid UTF-8, and the text is what the bytes
/// encode.
#[verifier::external_body]
fn text_from_utf8(bytes: Vec<u8>) -> (text: Option<String>)
    ensures
        text is Some <==> valid_utf8(bytes@),
        text matches Some(s) ==> s@ == decode_utf8(bytes@),
{
    String::from_utf8(bytes).ok()
}

/// Reads the bytes of a manifest as text: the characters that they encode
/// in UTF-8, or `NotText` where they encode none.
pub fn decode_text(bytes: Vec<u8>) -> (r: Result<String, ManifestError>)
    ensures
        r is Ok <==> valid_utf8(bytes@),
        r matches Ok(text) ==> text@ == decode_utf8(bytes@),
        r matches Err(error) ==> error == ManifestError::NotText,
{
    match text_from_utf8(bytes) {
        Some(text) => Ok(text),
        None => Err(ManifestError::NotText),
    }
}

/// Reads the bytes of a manifest as a document.
pub fn read_document(bytes: Vec<u8>) -> (r: Result<Json, ManifestError>)
    ensures
        match r {
            Ok(doc) => document_in(bytes@) == Ok::<JsonTree, ManifestError>(doc@),
            Err(error) => document_in(bytes@) == Err::<JsonTree, ManifestError>(error),
        },
{
    match decode_text(bytes) {
        Ok(text) => match Json::parse(text.as_str()) {
            Some(doc) => Ok(doc),
            None => Err(ManifestError::Syntax),
        },
        Err(error) => Err(error),
    }
}

/// The bytes of a manifest declare what the document that they hold
/// declares, and are rejected where they hold none.
pub proof fn lemma_manifest_by_stages(bytes: Seq<u8>)
    ensures
        manifest_in(bytes) == match document_in(bytes) {
            Ok(doc) => entries_of(doc),
            Err(error) => Err(error),
        },
{
}

/// Reads the entries that the bytes of a manifest declare.
pub fn load_manifest(bytes: Vec<u8>) -> (r: Result<Vec<ModEntry>, ManifestError>)
    ensures
        match r {
            Ok(entries) => manifest_in(bytes@) == Ok::<Seq<EntryView>, ManifestError>(
                views(entries@),
            ),
            Err(error) => manifest_in(bytes@) == Err::<Seq<EntryView>, ManifestError>(error),
        },
{
    match decode_text(bytes) {
        Ok(text) => parse_manifest(text.as_str()),
        Err(error) => Err(error),
    }
}

/// Keeps the entries that the server side needs, in their order.
pub fn select(entries: Vec<ModEntry>) -> (chosen: Vec<ModEntry>)
    ensures
        views(chosen@) == selected(views(entries@)),
{
    let mut chosen: Vec<ModEntry> = Vec::new();
    let ghost all = views(entries@);
    proof {
        reveal(Seq::filter);
    }
    for entry in it: entries
        invariant
            all == views(it.seq()),
            views(chosen@) == selected(all.take(it.index() as int)),
    {
        proof {
            reveal(Seq::filter);
            let k = it.index() as int;
            assert(all.take(k + 1).drop_last() =~= all.take(k));
        }
        match entry.applicability() {
            Applicability::Required => {
                chosen.push(entry);
            },
            _ => {},
        }
    }
    proof {
        assert(all.take(all.len() as int) =~= all);
    }
    chosen
}

} // verus!
