//! Finding the slides of a directory and putting them in order.
//!
//! The directory is listed by the caller, who hands over what it found: the
//! path of each entry and whether the entry is a file. The slides are the
//! files among them whose extension is `md`. Each slide gets an ordering key
//! from its name: the text of its stem before the first `_`. Under strict
//! numeric keys that text has to be an integer and the slides are ordered by
//! it; under natural order the slides are ordered by their file names, with
//! runs of digits read as numbers.

use vstd::prelude::*;
use crate::errors::{PipelineError, PipelineErrorView};
use crate::index::{parse_index, spec_parse_index, Index};
use crate::natural::{natural_compare, natural_order};
use crate::ordering::{
    has_growing_keys, is_ascending, is_rearrangement, is_sorting, is_strict_total_order,
    keeps_ties, lemma_growing_keys_unique, lemma_ordered_is_ascending,
    lemma_rearrangement_keeps_elements, lemma_sorting_maps, rank, sort_ranked, Ranked,
};
use crate::paths::{
    file_name, file_name_of, file_stem, is_markdown_file, spec_file_stem, spec_is_markdown_file,
};
use crate::seqs::{
    first_where, lemma_filter_map_holds, lemma_first_where, lemma_first_where_is, opt_view,
    pairs_view, views,
};
use crate::text::{
    chars_of, comes_before, find_first, first_index_of, lemma_lex_lt_asymmetric,
    lemma_lex_lt_total, lemma_lex_lt_transitive, lex_lt, slice_of,
};

verus! {

/// What an entry of a directory was found to be.
#[derive(Clone, Copy, Debug, PartialEq, Eq, Structural)]
pub enum EntryType {
    /// A regular file.
    File,
    /// A directory, or anything else that is no file.
    NotFile,
    /// The entry's type could not be read.
    Unreadable,
}

/// How a slide's ordering key is derived from its name.
#[derive(Clone, Copy, Debug, PartialEq, Eq, Structural)]
pub enum KeyPolicy {
    /// The key is the integer before the first `_` of the stem; a slide
    /// without one stops the run.
    StrictNumeric,
    /// The key is the file name, compared in natural order.
    NaturalOrder,
}

impl Default for KeyPolicy {
    /// Natural order, which finds an order for every name.
    fn default() -> (policy: Self)
        ensures
            policy == KeyPolicy::NaturalOrder,
    {
        KeyPolicy::NaturalOrder
    }
}

/// Why an entry of the slide directory is no slide.
#[derive(Clone, Copy, Debug, PartialEq, Eq, Structural)]
pub enum SkipReason {
    /// The entry is no file.
    NotAFile,
    /// The entry is a file without the extension `md`.
    NotMarkdown,
}

/// One entry of a directory, as listed.
#[derive(Clone, Debug)]
pub struct ListedEntry {
    /// The entry's path.
    pub path: String,
    /// What the entry was found to be.
    pub entry_type: EntryType,
}

/// What a `ListedEntry` holds.
pub ghost struct ListedEntryView {
    pub path: Seq<char>,
    pub entry_type: EntryType,
}

impl View for ListedEntry {
    type V = ListedEntryView;

    open spec fn view(&self) -> ListedEntryView {
        ListedEntryView { path: self.path@, entry_type: self.entry_type }
    }
}

/// The entry is a slide: a file with the extension `md`.
pub open spec fn is_slide_entry(e: ListedEntryView) -> bool {
    e.entry_type == EntryType::File && spec_is_markdown_file(e.path)
}

/// The path of the entry if it is a slide.
pub open spec fn slide_path(e: ListedEntryView) -> Option<Seq<char>> {
    if is_slide_entry(e) {
        Some(e.path)
    } else {
        None
    }
}

/// `slide_path` as a value.
pub open spec fn slide_path_fn() -> spec_fn(ListedEntryView) -> Option<Seq<char>> {
    |e: ListedEntryView| slide_path(e)
}

/// The paths of the slides among `entries`, in the order of the listing.
pub open spec fn slide_paths(entries: Seq<ListedEntryView>) -> Seq<Seq<char>> {
    entries.filter_map(slide_path_fn())
}

/// The test for an entry whose type could not be read.
pub open spec fn is_unreadable() -> spec_fn(ListedEntryView) -> bool {
    |e: ListedEntryView| e.entry_type == EntryType::Unreadable
}

/// Why the entry is skipped, if it is: an entry that is no slide and whose
/// type could be read.
pub open spec fn spec_skip_reason(e: ListedEntryView) -> Option<SkipReason> {
    match e.entry_type {
        EntryType::Unreadable => None,
        EntryType::NotFile => Some(SkipReason::NotAFile),
        EntryType::File => if spec_is_markdown_file(e.path) {
            None
        } else {
            Some(SkipReason::NotMarkdown)
        },
    }
}

/// The raw ordering key of `path`: its stem up to the first `_`, all of the
/// stem when it has none.
pub open spec fn spec_raw_key(path: Seq<char>) -> Option<Seq<char>> {
    match spec_file_stem(path) {
        Some(stem) => Some(stem.take(first_index_of(stem, '_'))),
        None => None,
    }
}

/// The raw key of `path`, or the empty text for a path without a file name.
pub open spec fn raw_key_of(path: Seq<char>) -> Seq<char> {
    match spec_raw_key(path) {
        Some(key) => key,
        None => Seq::<char>::empty(),
    }
}

/// The index of the slide at `path` under strict numeric keys.
pub open spec fn spec_index_of(path: Seq<char>) -> Option<int> {
    spec_parse_index(raw_key_of(path))
}

/// The test for a path without an index.
pub open spec fn has_no_index() -> spec_fn(Seq<char>) -> bool {
    |path: Seq<char>| spec_index_of(path) is None
}

/// A raw key beside the path it was taken from.
pub open spec fn key_and_path() -> spec_fn(Seq<char>) -> (Seq<char>, Seq<char>) {
    |path: Seq<char>| (raw_key_of(path), path)
}

/// The raw key and the path of each slide among `entries`, in the order of
/// the listing.
pub open spec fn file_indices(entries: Seq<ListedEntryView>) -> Seq<(Seq<char>, Seq<char>)> {
    slide_paths(entries).map_values(key_and_path())
}

/// A slide with its index under strict numeric keys. Such slides are
/// ordered by index, and by file name where two indices are equal: that is
/// the order of `precedes`, by which `sort_ranked` arranges them.
#[derive(Clone, Debug, PartialEq, Eq)]
pub struct FileEntry {
    /// The index: the slide's ordering key.
    pub idx: Index,
    /// The slide's path.
    pub file_path: String,
}

/// What a `FileEntry` holds.
pub ghost struct FileEntryView {
    pub idx: int,
    pub file_path: Seq<char>,
}

impl View for FileEntry {
    type V = FileEntryView;

    open spec fn view(&self) -> FileEntryView {
        FileEntryView { idx: self.idx@, file_path: self.file_path@ }
    }
}

/// The order of two paths by file name: dictionary order of their file
/// names and, for two paths with one file name, of the paths themselves.
pub open spec fn name_before(a: Seq<char>, b: Seq<char>) -> bool {
    lex_lt(file_name_of(a), file_name_of(b)) || (file_name_of(a) == file_name_of(b) && lex_lt(
        a,
        b,
    ))
}

/// The order of indexed slides: by index, and by file name where two indices
/// are equal.
pub open spec fn numeric_before(a: FileEntryView, b: FileEntryView) -> bool {
    a.idx < b.idx || (a.idx == b.idx && name_before(a.file_path, b.file_path))
}

/// The file name of `path`; empty where it has none.
fn file_name_or_empty(path: &str) -> (name: String)
    ensures
        name@ == file_name_of(path@),
{
    match file_name(path) {
        Some(name) => name,
        None => String::new(),
    }
}

/// Tells whether the path `a` goes before the path `b` by file name.
pub fn goes_first_by_name(a: &str, b: &str) -> (r: bool)
    ensures
        r == name_before(a@, b@),
{
    let name_a = chars_of(file_name_or_empty(a).as_str());
    let name_b = chars_of(file_name_or_empty(b).as_str());
    if comes_before(&name_a, &name_b) {
        true
    } else if comes_before(&name_b, &name_a) {
        proof {
            lemma_lex_lt_asymmetric(name_b@, name_a@);
        }
        false
    } else {
        proof {
            lemma_lex_lt_total(name_a@, name_b@);
        }
        comes_before(&chars_of(a), &chars_of(b))
    }
}

impl Ranked for FileEntry {
    open spec fn goes_before(&self, other: &Self) -> bool {
        numeric_before(self@, other@)
    }

    fn precedes(&self, other: &Self) -> (b: bool) {
        if self.idx.is_less_than(&other.idx) {
            true
        } else if other.idx.is_less_than(&self.idx) {
            false
        } else {
            goes_first_by_name(self.file_path.as_str(), other.file_path.as_str())
        }
    }
}

/// A slide with its file name, which is its key under natural order.
#[derive(Clone, Debug)]
pub struct SlideSource {
    /// The slide's path.
    pub path: String,
    /// The slide's file name.
    pub filename: String,
}

/// What a `SlideSource` holds.
pub ghost struct SlideSourceView {
    pub path: Seq<char>,
    pub filename: Seq<char>,
}

impl View for SlideSource {
    type V = SlideSourceView;

    open spec fn view(&self) -> SlideSourceView {
        SlideSourceView { path: self.path@, filename: self.filename@ }
    }
}

/// Natural order of two names, and dictionary order where natural order
/// finds them equal.
pub open spec fn natural_before(a: Seq<char>, b: Seq<char>) -> bool {
    natural_order(a, b) < 0 || (natural_order(a, b) == 0 && lex_lt(a, b))
}

impl Ranked for SlideSource {
    open spec fn goes_before(&self, other: &Self) -> bool {
        natural_before(self.filename@, other.filename@)
    }

    fn precedes(&self, other: &Self) -> (b: bool) {
        let sign = natural_compare(self.filename.as_str(), other.filename.as_str());
        if sign < 0 {
            true
        } else if sign > 0 {
            false
        } else {
            let mine = chars_of(self.filename.as_str());
            let theirs = chars_of(other.filename.as_str());
            comes_before(&mine, &theirs)
        }
    }
}

/// The order of two slides, given by their paths, under `policy`.
pub open spec fn slide_before(policy: KeyPolicy, a: Seq<char>, b: Seq<char>) -> bool {
    match policy {
        KeyPolicy::StrictNumeric => numeric_before(
            FileEntryView { idx: spec_index_of(a).unwrap_or(0), file_path: a },
            FileEntryView { idx: spec_index_of(b).unwrap_or(0), file_path: b },
        ),
        KeyPolicy::NaturalOrder => natural_before(file_name_of(a), file_name_of(b)),
    }
}

/// `slide_before` under `policy`, as a relation.
pub open spec fn slide_order(policy: KeyPolicy) -> spec_fn(Seq<char>, Seq<char>) -> bool {
    |a: Seq<char>, b: Seq<char>| slide_before(policy, a, b)
}

/// Tells why `entry` is skipped, if it is.
pub fn skip_reason(entry: &ListedEntry) -> (r: Option<SkipReason>)
    ensures
        r == spec_skip_reason(entry@),
{
    match entry.entry_type {
        EntryType::Unreadable => None,
        EntryType::NotFile => Some(SkipReason::NotAFile),
        EntryType::File => if is_markdown_file(entry.path.as_str()) {
            None
        } else {
            Some(SkipReason::NotMarkdown)
        },
    }
}

/// The raw ordering key of `path`, if it has a file name.
pub fn raw_key(path: &str) -> (key: Option<String>)
    ensures
        opt_view(key) == spec_raw_key(path@),
{
    match file_stem(path) {
        None => None,
        Some(stem) => {
            let v = chars_of(stem.as_str());
            let cut = find_first(&v, '_');
            Some(slice_of(stem.as_str(), 0, cut))
        },
    }
}

/// Fetches the text of each slide's name that comes before the underscore,
/// with the slide's path. Entries that are no files, and files that are no
/// markdown files, are left out. An entry whose type could not be read stops
/// the work: the error holds the path of the first such entry.
pub fn fetch_file_indices(entries: &Vec<ListedEntry>) -> (r: Result<
    Vec<(String, String)>,
    PipelineError,
>)
    ensures
        match r {
            Ok(files) => {
                &&& first_where(views(entries@), is_unreadable()) == entries.len()
                &&& pairs_view(files@) == file_indices(views(entries@))
            },
            Err(e) => {
                let at = first_where(views(entries@), is_unreadable());
                &&& at < entries.len()
                &&& e@ == PipelineErrorView::FileType(entries[at].path@)
            },
        },
{
    let ghost listing = views(entries@);
    let mut files: Vec<(String, String)> = Vec::new();
    let mut i: usize = 0;
    assert(listing.take(0).filter_map(slide_path_fn()) =~= Seq::empty());
    while i < entries.len()
        invariant
            i <= entries.len(),
            listing == views(entries@),
            forall|j: int| 0 <= j < i ==> !is_unreadable()(#[trigger] listing[j]),
            pairs_view(files@) =~= file_indices(listing.take(i as int)),
        decreases entries.len() - i,
    {
        let entry = &entries[i];
        assert(listing[i as int] == entry@);
        proof {
            listing.lemma_filter_map_take_succ(slide_path_fn(), i as int);
        }
        match entry.entry_type {
            EntryType::Unreadable => {
                proof {
                    lemma_first_where_is(listing, is_unreadable(), i as int);
                }
                return Err(PipelineError::FileType(entry.path.clone()));
            },
            EntryType::NotFile => {},
            EntryType::File => {
                if is_markdown_file(entry.path.as_str()) {
                    let ghost before = files@;
                    let key = match raw_key(entry.path.as_str()) {
                        Some(key) => key,
                        None => String::new(),
                    };
                    files.push((key, entry.path.clone()));
                    assert(pairs_view(files@) =~= pairs_view(before).push(
                        key_and_path()(entry.path@),
                    ));
                }
            },
        }
        i += 1;
    }
    proof {
        lemma_first_where_is(listing, is_unreadable(), i as int);
        assert(listing.take(i as int) =~= listing);
    }
    Ok(files)
}

/// Converts raw keys and paths to indexed slides, reading each key as an
/// integer. The first key that is no integer stops the work: the error holds
/// that key.
pub fn indices_and_paths_to_entries(indices_and_paths: Vec<(String, String)>) -> (r: Result<
    Vec<FileEntry>,
    PipelineError,
>)
    ensures
        match r {
            Ok(entries) => {
                &&& entries.len() == indices_and_paths.len()
                &&& forall|i: int|
                    0 <= i < entries.len() ==> {
                        &&& spec_parse_index(indices_and_paths[i].0@) == Some(
                            (#[trigger] entries[i]).idx@,
                        )
                        &&& entries[i].file_path@ == indices_and_paths[i].1@
                    }
            },
            Err(e) => exists|at: int|
                {
                    &&& 0 <= at < indices_and_paths.len()
                    &&& spec_parse_index(#[trigger] indices_and_paths[at].0@) is None
                    &&& forall|j: int|
                        0 <= j < at ==> spec_parse_index(
                            (#[trigger] indices_and_paths[j]).0@,
                        ) is Some
                    &&& e@ == PipelineErrorView::IndexParse(indices_and_paths[at].0@)
                },
        },
{
    let mut entries: Vec<FileEntry> = Vec::new();
    let mut i: usize = 0;
    while i < indices_and_paths.len()
        invariant
            i <= indices_and_paths.len(),
            entries.len() == i,
            forall|j: int|
                0 <= j < i ==> {
                    &&& spec_parse_index(indices_and_paths[j].0@) == Some(
                        (#[trigger] entries[j]).idx@,
                    )
                    &&& entries[j].file_path@ == indices_and_paths[j].1@
                },
        decreases indices_and_paths.len() - i,
    {
        let pair = &indices_and_paths[i];
        match parse_index(pair.0.as_str()) {
            Some(idx) => {
                entries.push(FileEntry { idx, file_path: pair.1.clone() });
            },
            None => {
                assert(spec_parse_index(indices_and_paths[i as int].0@) is None);
                assert forall|j: int| 0 <= j < i implies spec_parse_index(
                    (#[trigger] indices_and_paths[j]).0@,
                ) is Some by {
                    assert(spec_parse_index(indices_and_paths[j].0@) == Some(entries[j].idx@));
                }
                return Err(PipelineError::IndexParse(pair.0.clone()));
            },
        }
        i += 1;
    }
    Ok(entries)
}

/// The path of an indexed slide.
pub open spec fn entry_path() -> spec_fn(FileEntry) -> Seq<char> {
    |e: FileEntry| e.file_path@
}

/// The path of a slide kept under natural order.
pub open spec fn source_path() -> spec_fn(SlideSource) -> Seq<char> {
    |s: SlideSource| s.path@
}

/// What a listing holds, where there is one.
pub open spec fn listing_view(listing: Option<Vec<ListedEntry>>) -> Option<Seq<ListedEntryView>> {
    match listing {
        Some(entries) => Some(views(entries@)),
        None => None,
    }
}

/// The error that stops the discovery of slides, if one does: the directory
/// could not be listed; or the type of an entry could not be read, of which
/// the first is reported; or, under strict numeric keys, the key of a slide
/// is no integer, of which again the first is reported.
pub open spec fn discovery_error(
    dir: Seq<char>,
    listing: Option<Seq<ListedEntryView>>,
    policy: KeyPolicy,
) -> Option<PipelineErrorView> {
    match listing {
        None => Some(PipelineErrorView::DirectoryAccess(dir)),
        Some(entries) => {
            let unreadable = first_where(entries, is_unreadable());
            let slides = slide_paths(entries);
            let unindexed = first_where(slides, has_no_index());
            if unreadable < entries.len() {
                Some(PipelineErrorView::FileType(entries[unreadable].path))
            } else if policy == KeyPolicy::StrictNumeric && unindexed < slides.len() {
                Some(PipelineErrorView::IndexParse(raw_key_of(slides[unindexed])))
            } else {
                None
            }
        },
    }
}

/// `found` is what the discovery of slides gives for `listing` under
/// `policy`: nothing stops it, and `found` holds the paths of the slides of
/// the listing, put in the order of the policy. Under strict numeric keys,
/// which put any two slides in one order, `found` is in that order
/// throughout.
pub open spec fn is_discovery(
    listing: Seq<ListedEntryView>,
    policy: KeyPolicy,
    found: Seq<Seq<char>>,
) -> bool {
    &&& discovery_error(Seq::<char>::empty(), Some(listing), policy) is None
    &&& is_sorting(slide_paths(listing), found, slide_order(policy))
    &&& policy == KeyPolicy::StrictNumeric ==> is_ascending(found, slide_order(policy))
}

/// The order of indexed slides puts any two different slides in one order.
pub proof fn lemma_numeric_order_is_total()
    ensures
        is_strict_total_order(slide_order(KeyPolicy::StrictNumeric)),
{
    let before = slide_order(KeyPolicy::StrictNumeric);
    assert forall|a: Seq<char>, b: Seq<char>| #[trigger] before(a, b) implies !before(b, a) by {
        lemma_lex_lt_asymmetric(a, b);
        lemma_lex_lt_asymmetric(file_name_of(a), file_name_of(b));
    }
    assert forall|a: Seq<char>, b: Seq<char>, c: Seq<char>| #[trigger]
        before(a, b) && #[trigger] before(b, c) implies before(a, c) by {
        let (na, nb, nc) = (file_name_of(a), file_name_of(b), file_name_of(c));
        if lex_lt(na, nb) && lex_lt(nb, nc) {
            lemma_lex_lt_transitive(na, nb, nc);
        }
        if lex_lt(a, b) && lex_lt(b, c) {
            lemma_lex_lt_transitive(a, b, c);
        }
    }
    assert forall|a: Seq<char>, b: Seq<char>| a == b || #[trigger] before(a, b) || before(b, a) by {
        lemma_lex_lt_total(a, b);
        lemma_lex_lt_total(file_name_of(a), file_name_of(b));
    }
}

/// The paths of `entries`, in the same order.
fn paths_of_entries(entries: Vec<FileEntry>) -> (paths: Vec<String>)
    ensures
        views(paths@) == entries@.map_values(entry_path()),
{
    let mut paths: Vec<String> = Vec::new();
    let mut i: usize = 0;
    while i < entries.len()
        invariant
            i <= entries.len(),
            paths.len() == i,
            forall|j: int| 0 <= j < i ==> (#[trigger] paths[j])@ == entries[j].file_path@,
        decreases entries.len() - i,
    {
        paths.push(entries[i].file_path.clone());
        i += 1;
    }
    assert(views(paths@) =~= entries@.map_values(entry_path()));
    paths
}

/// The paths of `sources`, in the same order.
fn paths_of_sources(sources: Vec<SlideSource>) -> (paths: Vec<String>)
    ensures
        views(paths@) == sources@.map_values(source_path()),
{
    let mut paths: Vec<String> = Vec::new();
    let mut i: usize = 0;
    while i < sources.len()
        invariant
            i <= sources.len(),
            paths.len() == i,
            forall|j: int| 0 <= j < i ==> (#[trigger] paths[j])@ == sources[j].path@,
        decreases sources.len() - i,
    {
        paths.push(sources[i].path.clone());
        i += 1;
    }
    assert(views(paths@) =~= sources@.map_values(source_path()));
    paths
}

/// Each path with its file name.
fn sources_of(files: &Vec<(String, String)>) -> (sources: Vec<SlideSource>)
    ensures
        sources.len() == files.len(),
        forall|i: int|
            0 <= i < sources.len() ==> {
                &&& (#[trigger] sources[i]).path@ == files[i].1@
                &&& sources[i].filename@ == file_name_of(files[i].1@)
            },
{
    let mut sources: Vec<SlideSource> = Vec::new();
    let mut i: usize = 0;
    while i < files.len()
        invariant
            i <= files.len(),
            sources.len() == i,
            forall|j: int|
                0 <= j < i ==> {
                    &&& (#[trigger] sources[j]).path@ == files[j].1@
                    &&& sources[j].filename@ == file_name_of(files[j].1@)
                },
        decreases files.len() - i,
    {
        let path = files[i].1.clone();
        let filename = match file_name(path.as_str()) {
            Some(name) => name,
            None => String::new(),
        };
        sources.push(SlideSource { path, filename });
        i += 1;
    }
    sources
}

/// Finds the slides among the entries of the directory `slide_dir` and
/// returns their paths in the order of `policy`. `listing` is what the
/// directory holds, or `None` where it could not be listed.
pub fn find_slides(slide_dir: &str, listing: &Option<Vec<ListedEntry>>, policy: KeyPolicy) -> (r:
    Result<Vec<String>, PipelineError>)
    ensures
        match r {
            Ok(paths) => {
                &&& listing_view(*listing) matches Some(entries)
                &&& is_discovery(entries, policy, views(paths@))
            },
            Err(e) => discovery_error(slide_dir@, listing_view(*listing), policy) == Some(e@),
        },
{
    let entries = match listing {
        None => {
            return Err(PipelineError::DirectoryAccess(slide_dir.to_owned()));
        },
        Some(entries) => entries,
    };
    let ghost listed = views(entries@);
    let ghost slides = slide_paths(listed);
    let files = match fetch_file_indices(entries) {
        Err(e) => {
            proof {
                let at = first_where(listed, is_unreadable());
                assert(listed == views(entries@));
                assert(0 <= at < entries.len()) by {
                    lemma_first_where(listed, is_unreadable());
                }
                assert(listed[at] == entries[at]@);
            }
            return Err(e);
        },
        Ok(files) => files,
    };
    assert(pairs_view(files@) == slides.map_values(key_and_path()));
    assert(pairs_view(files@).len() == files.len());
    assert forall|i: int| 0 <= i < files.len() implies (#[trigger] files[i]).0@ == raw_key_of(
        slides[i],
    ) && files[i].1@ == slides[i] by {
        assert(pairs_view(files@)[i] == key_and_path()(slides[i]));
    }
    match policy {
        KeyPolicy::StrictNumeric => {
            let indexed = match indices_and_paths_to_entries(files) {
                Err(e) => {
                    proof {
                        let at = choose|at: int|
                            {
                                &&& 0 <= at < files.len()
                                &&& spec_parse_index(#[trigger] files[at].0@) is None
                                &&& forall|j: int|
                                    0 <= j < at ==> spec_parse_index((#[trigger] files[j]).0@) is Some
                                &&& e@ == PipelineErrorView::IndexParse(files[at].0@)
                            };
                        assert forall|j: int| 0 <= j < at implies !has_no_index()(
                            #[trigger] slides[j],
                        ) by {
                            assert(spec_parse_index(files[j].0@) is Some);
                        }
                        lemma_first_where_is(slides, has_no_index(), at);
                    }
                    return Err(e);
                },
                Ok(indexed) => indexed,
            };
            let sorted = sort_ranked(indexed);
            let paths = paths_of_entries(sorted);
            proof {
                let order = slide_order(policy);
                assert forall|j: int| 0 <= j < slides.len() implies !has_no_index()(
                    #[trigger] slides[j],
                ) by {
                    assert(spec_parse_index(files[j].0@) == Some(indexed[j].idx@));
                }
                lemma_first_where_is(slides, has_no_index(), slides.len() as int);
                assert forall|i: int, j: int|
                    0 <= i < indexed.len() && 0 <= j < indexed.len() implies rank::<FileEntry>()(
                    #[trigger] indexed[i],
                    #[trigger] indexed[j],
                ) == order(entry_path()(indexed[i]), entry_path()(indexed[j])) by {
                    assert(spec_parse_index(files[i].0@) == Some(indexed[i].idx@));
                    assert(spec_parse_index(files[j].0@) == Some(indexed[j].idx@));
                }
                lemma_sorting_maps(
                    indexed@,
                    sorted@,
                    rank::<FileEntry>(),
                    entry_path(),
                    order,
                );
                assert(indexed@.map_values(entry_path()) =~= slides);
                lemma_numeric_order_is_total();
                lemma_ordered_is_ascending(views(paths@), order);
            }
            Ok(paths)
        },
        KeyPolicy::NaturalOrder => {
            let sources = sources_of(&files);
            let sorted = sort_ranked(sources);
            let paths = paths_of_sources(sorted);
            proof {
                let order = slide_order(policy);
                assert forall|i: int, j: int|
                    0 <= i < sources.len() && 0 <= j < sources.len() implies rank::<SlideSource>()(
                    #[trigger] sources[i],
                    #[trigger] sources[j],
                ) == order(source_path()(sources[i]), source_path()(sources[j])) by {
                    assert(sources[i].filename@ == file_name_of(files[i].1@));
                    assert(sources[j].filename@ == file_name_of(files[j].1@));
                }
                lemma_sorting_maps(
                    sources@,
                    sorted@,
                    rank::<SlideSource>(),
                    source_path(),
                    order,
                );
                assert(sources@.map_values(source_path()) =~= slides);
            }
            Ok(paths)
        },
    }
}

/// The index of the slide at `path`; 0 for a path without one.
pub open spec fn index_key() -> spec_fn(Seq<char>) -> int {
    |path: Seq<char>| spec_index_of(path).unwrap_or(0)
}

/// No two of `paths` have the same index.
pub open spec fn has_distinct_indices(paths: Seq<Seq<char>>) -> bool {
    forall|i: int, j: int|
        0 <= i < j < paths.len() ==> index_key()(#[trigger] paths[i]) != index_key()(
            #[trigger] paths[j],
        )
}

/// Slides whose names start with different integers are found in the order
/// of those integers, each greater than the one before, and that order does
/// not depend on the order in which the directory was listed: two listings
/// that hold the same entries give the same slides in the same order.
pub proof fn law_numeric_order_of_discovery(
    listing: Seq<ListedEntryView>,
    found: Seq<Seq<char>>,
    relisting: Seq<ListedEntryView>,
    found_again: Seq<Seq<char>>,
)
    requires
        is_discovery(listing, KeyPolicy::StrictNumeric, found),
        is_discovery(relisting, KeyPolicy::StrictNumeric, found_again),
        forall|e: ListedEntryView| listing.contains(e) <==> relisting.contains(e),
        has_distinct_indices(slide_paths(listing)),
        has_distinct_indices(slide_paths(relisting)),
    ensures
        forall|i: int, j: int|
            0 <= i < j < found.len() ==> index_key()(#[trigger] found[i]) < index_key()(
                #[trigger] found[j],
            ),
        found_again == found,
{
    lemma_found_has_growing_indices(listing, found);
    lemma_found_has_growing_indices(relisting, found_again);
    assert forall|x: Seq<char>| found.contains(x) <==> found_again.contains(x) by {
        law_discovery_finds_the_slides(listing, KeyPolicy::StrictNumeric, found, x);
        law_discovery_finds_the_slides(relisting, KeyPolicy::StrictNumeric, found_again, x);
        if found.contains(x) {
            let e = choose|e: ListedEntryView| listing.contains(e) && slide_path(e) == Some(x);
            assert(relisting.contains(e));
        }
        if found_again.contains(x) {
            let e = choose|e: ListedEntryView| relisting.contains(e) && slide_path(e) == Some(x);
            assert(listing.contains(e));
        }
    }
    lemma_growing_keys_unique(found, found_again, index_key());
}

/// Slides with different indices, found under strict numeric keys, stand in
/// the order of their indices.
proof fn lemma_found_has_growing_indices(listing: Seq<ListedEntryView>, found: Seq<Seq<char>>)
    requires
        is_discovery(listing, KeyPolicy::StrictNumeric, found),
        has_distinct_indices(slide_paths(listing)),
    ensures
        has_growing_keys(found, index_key()),
{
    let slides = slide_paths(listing);
    let order = slide_order(KeyPolicy::StrictNumeric);
    let p = choose|p: Seq<int>|
        is_rearrangement(slides, found, p) && keeps_ties(found, p, order);
    assert forall|i: int, j: int| 0 <= i < j < found.len() implies index_key()(
        #[trigger] found[i],
    ) < index_key()(#[trigger] found[j]) by {
        assert(found[i] == slides[p[i]]);
        assert(found[j] == slides[p[j]]);
        assert(p[i] != p[j]);
        if p[i] < p[j] {
            assert(index_key()(slides[p[i]]) != index_key()(slides[p[j]]));
        } else {
            assert(index_key()(slides[p[j]]) != index_key()(slides[p[i]]));
        }
        assert(!order(found[j], found[i]));
    }
}

/// What is found is what the listing holds as slides, no more and no less:
/// a path is among the slides found exactly if it is the path of an entry of
/// the listing that is a file and has the extension `md`. A file without
/// that extension is never found.
pub proof fn law_discovery_finds_the_slides(
    listing: Seq<ListedEntryView>,
    policy: KeyPolicy,
    found: Seq<Seq<char>>,
    path: Seq<char>,
)
    requires
        is_discovery(listing, policy, found),
    ensures
        found.contains(path) <==> exists|e: ListedEntryView|
            listing.contains(e) && slide_path(e) == Some(path),
        found.contains(path) ==> spec_is_markdown_file(path),
{
    let slides = slide_paths(listing);
    let p = choose|p: Seq<int>|
        is_rearrangement(slides, found, p) && keeps_ties(found, p, slide_order(policy));
    lemma_rearrangement_keeps_elements(slides, found, p);
    if slides.contains(path) {
        listing.lemma_filter_map_contains(slide_path_fn(), path);
        let e = choose|e: ListedEntryView|
            #[trigger] listing.contains(e) && slide_path_fn()(e) == Some(path);
        assert(listing.contains(e) && slide_path(e) == Some(path));
    }
    if exists|e: ListedEntryView| listing.contains(e) && slide_path(e) == Some(path) {
        let e = choose|e: ListedEntryView| listing.contains(e) && slide_path(e) == Some(path);
        let i = choose|i: int| 0 <= i < listing.len() && listing[i] == e;
        lemma_filter_map_holds(listing, slide_path_fn(), i);
    }
}

} // verus!
