//! Slides and the images they refer to.
//!
//! A `Slide` is markdown text and, once parsed, the local images it names. A
//! `SlideFile` is a slide that was read from a file and made ready for the
//! presentation: its text is rendered, and every local image it shows has
//! been given a place of its own below the output directory,
//! `./img/<slide file name>/<image file name>`, to which its reference now
//! points. The library reads no disk: the text of the file, what its path
//! names, and the canonical path of each image are handed to it.

use vstd::prelude::*;
use crate::errors::{PipelineError, PipelineErrorView, ValidationError, ValidationErrorView};
use crate::parsing::{
    event_view, events_view, get_local_links, grab_image_links, image_links, inline_target,
    is_remote, is_remote_link, local_links, markdown_events, render_markdown, rendered_html,
    scan_markdown,
};
use crate::paths::{
    dir_name, dir_of, file_name, goes_up, goes_up_at, is_absolute, is_dots, is_markdown_file,
    join, lemma_file_name_has_no_separator, spec_file_name, spec_is_absolute,
    spec_is_markdown_file, spec_join, PathStatus,
};
use crate::seqs::{
    first_by_key, first_where, holds_key, lemma_first_by_key, lemma_first_by_key_push,
    lemma_first_where_is, opt_view, opts_view, pairs_view, views,
};

verus! {

/// A single slide that can be used in a presentation: markdown text, and the
/// local images found in it once `parse` has run.
#[derive(Debug)]
pub struct Slide {
    /// The slide's markdown.
    pub contents: String,
    /// Path to the slide file; `None` if the slide was not read from a file.
    pub slide_path: Option<String>,
    /// `None` means that `contents` has not been parsed yet. After parsing it
    /// holds the local image references, of which there may be none.
    pub local_images: Option<Vec<String>>,
}

/// What a `Slide` holds.
pub ghost struct SlideView {
    pub contents: Seq<char>,
    pub slide_path: Option<Seq<char>>,
    pub local_images: Option<Seq<Seq<char>>>,
}

impl View for Slide {
    type V = SlideView;

    open spec fn view(&self) -> SlideView {
        SlideView {
            contents: self.contents@,
            slide_path: opt_view(self.slide_path),
            local_images: match self.local_images {
                Some(images) => Some(views(images@)),
                None => None,
            },
        }
    }
}

impl Slide {
    /// Creates a new `Slide` from contents. This does not parse the contents.
    pub fn new(contents: String) -> (slide: Self)
        ensures
            slide@ == (SlideView { contents: contents@, slide_path: None, local_images: None }),
    {
        Slide { contents, slide_path: None, local_images: None }
    }

    /// The slide whose text `contents` was read from the file at `file_path`.
    /// The contents are not parsed.
    pub fn from_file(file_path: &str, contents: String) -> (slide: Self)
        ensures
            slide@ == (SlideView {
                contents: contents@,
                slide_path: Some(file_path@),
                local_images: None,
            }),
    {
        Slide { contents, slide_path: Some(file_path.to_owned()), local_images: None }
    }

    /// Parses the contents of the slide, looking for local images, and fills
    /// in the `local_images` field with their references, in the order in
    /// which the slide shows them.
    pub fn parse(&mut self)
        ensures
            final(self)@ == (SlideView {
                local_images: Some(local_links(image_links(markdown_events(old(self).contents@)))),
                ..old(self)@
            }),
    {
        let links = grab_image_links(self.contents.as_str());
        let local = get_local_links(links);
        self.local_images = Some(local);
    }

    /// Renders the slide: its contents, unchanged.
    pub fn render(&self) -> (text: String)
        ensures
            text@ == self.contents@,
    {
        self.contents.clone()
    }
}

/// The place of an image below the output directory: a directory for the
/// slide that shows it, and in it the image under its own name. Images of
/// different slides are thus kept apart. Two images of one slide that have
/// the same file name share their destination: the one that the slide shows
/// first is the one that is copied there.
pub open spec fn destination(slide_name: Seq<char>, image_name: Seq<char>) -> Seq<char> {
    "./img/"@ + slide_name + "/"@ + image_name
}

/// Where the image `target` of the slide at `slide_path` is looked for: the
/// target seen from the slide's directory.
pub open spec fn candidate_source(slide_path: Seq<char>, target: Seq<char>) -> Seq<char> {
    spec_join(dir_of(slide_path), target)
}

/// The test for a pair that says where `key` was found.
pub open spec fn resolves(key: Seq<char>) -> spec_fn((Seq<char>, Seq<char>)) -> bool {
    |pair: (Seq<char>, Seq<char>)| pair.0 == key
}

/// What `resolved` gives for `candidate`: the second part of the first pair
/// that starts with it.
pub open spec fn lookup(resolved: Seq<(Seq<char>, Seq<char>)>, candidate: Seq<char>) -> Option<
    Seq<char>,
> {
    let at = first_where(resolved, resolves(candidate));
    if at < resolved.len() {
        Some(resolved[at].1)
    } else {
        None
    }
}

/// What becomes of one event of a slide's markdown.
#[derive(Debug)]
pub enum Relocation {
    /// The event stays as it is: it starts no inline image, or a remote one.
    Keep,
    /// The event starts a local image, found at `source`, which moves to
    /// `destination`.
    Move { source: String, destination: String },
    /// The event starts a local image that could not be resolved. Holds the
    /// reference as the slide writes it.
    Missing(String),
}

/// What a `Relocation` holds.
pub ghost enum RelocationView {
    Keep,
    Move { source: Seq<char>, destination: Seq<char> },
    Missing(Seq<char>),
}

impl View for Relocation {
    type V = RelocationView;

    open spec fn view(&self) -> RelocationView {
        match self {
            Relocation::Keep => RelocationView::Keep,
            Relocation::Move { source, destination } => RelocationView::Move {
                source: source@,
                destination: destination@,
            },
            Relocation::Missing(target) => RelocationView::Missing(target@),
        }
    }
}

/// What becomes of `event` in the slide at `slide_path`, whose file name is
/// `slide_name`, when `resolved` holds the canonical path of every image that
/// was found on disk, beside the path it was looked for at. Only an event
/// that starts an image written inline is touched. A local image that
/// `resolved` does not hold, or whose canonical path has no file name, is
/// missing.
pub open spec fn relocate(
    slide_path: Seq<char>,
    slide_name: Seq<char>,
    resolved: Seq<(Seq<char>, Seq<char>)>,
    event: Option<(bool, Seq<char>)>,
) -> RelocationView {
    match inline_target(event) {
        None => RelocationView::Keep,
        Some(target) => if is_remote(target) {
            RelocationView::Keep
        } else {
            match lookup(resolved, candidate_source(slide_path, target)) {
                None => RelocationView::Missing(target),
                Some(source) => match spec_file_name(source) {
                    None => RelocationView::Missing(target),
                    Some(image) => RelocationView::Move {
                        source,
                        destination: destination(slide_name, image),
                    },
                },
            }
        },
    }
}

/// `relocate` for one slide, as a function of the event.
pub open spec fn relocate_fn(
    slide_path: Seq<char>,
    slide_name: Seq<char>,
    resolved: Seq<(Seq<char>, Seq<char>)>,
) -> spec_fn(Option<(bool, Seq<char>)>) -> RelocationView {
    |event: Option<(bool, Seq<char>)>| relocate(slide_path, slide_name, resolved, event)
}

/// The test for a missing image.
pub open spec fn is_missing() -> spec_fn(RelocationView) -> bool {
    |r: RelocationView| r is Missing
}

/// The reference of a missing image.
pub open spec fn missing_target(r: RelocationView) -> Seq<char> {
    match r {
        RelocationView::Missing(target) => target,
        _ => Seq::<char>::empty(),
    }
}

/// Source and destination of an image that moves.
pub open spec fn moved() -> spec_fn(RelocationView) -> Option<(Seq<char>, Seq<char>)> {
    |r: RelocationView|
        match r {
            RelocationView::Move { source, destination } => Some((source, destination)),
            _ => None,
        }
}

/// The new target of an event: the destination of an image that moves.
pub open spec fn new_target() -> spec_fn(RelocationView) -> Option<Seq<char>> {
    |r: RelocationView|
        match r {
            RelocationView::Move { source, destination } => Some(destination),
            _ => None,
        }
}

/// The destination of an image.
pub open spec fn destination_of() -> spec_fn((Seq<char>, Seq<char>)) -> Seq<char> {
    |image: (Seq<char>, Seq<char>)| image.1
}

/// Some image of `images` goes to `destination`.
pub open spec fn goes_to(images: Seq<(Seq<char>, Seq<char>)>, destination: Seq<char>) -> bool {
    holds_key(images, destination_of(), destination)
}

/// The images to keep of `images`: each in its turn, unless an earlier one
/// already goes to the same destination.
pub open spec fn kept_images(images: Seq<(Seq<char>, Seq<char>)>) -> Seq<(Seq<char>, Seq<char>)> {
    first_by_key(images, destination_of())
}

/// Why the slide file at `path` is refused, when `status` is what the path
/// names: the first of these that holds.
pub open spec fn path_fault(path: Seq<char>, status: PathStatus) -> Option<Seq<char>> {
    if !spec_is_absolute(path) {
        Some("Path is not absolute"@)
    } else if status == PathStatus::Missing {
        Some("File does not exist"@)
    } else if status != PathStatus::File {
        Some("Path is not a file"@)
    } else if !spec_is_markdown_file(path) {
        Some("File is not a markdown file"@)
    } else {
        None
    }
}

/// A slide that exists as a file on the disk, read and made ready.
#[derive(Debug)]
pub struct SlideFile {
    /// The file name of the slide, which names the directory of its images.
    pub filename: String,
    /// Absolute path to where the slide file is located on the disk.
    pub path: String,
    /// The slide as HTML, with the references to local images rewritten.
    pub contents: String,
    /// The local images of the slide: where each one is on disk, and where
    /// it goes below the output directory.
    pub local_images: Vec<(String, String)>,
}

/// What a `SlideFile` holds.
pub ghost struct SlideFileView {
    pub filename: Seq<char>,
    pub path: Seq<char>,
    pub contents: Seq<char>,
    pub local_images: Seq<(Seq<char>, Seq<char>)>,
}

impl View for SlideFile {
    type V = SlideFileView;

    open spec fn view(&self) -> SlideFileView {
        SlideFileView {
            filename: self.filename@,
            path: self.path@,
            contents: self.contents@,
            local_images: pairs_view(self.local_images@),
        }
    }
}

/// What reading and parsing the slide file at `path` gives, when `status` is
/// what the path names, `contents` the text of the file, and `resolved` the
/// images found on disk.
pub open spec fn spec_read_and_parse(
    path: Seq<char>,
    status: PathStatus,
    contents: Seq<char>,
    resolved: Seq<(Seq<char>, Seq<char>)>,
) -> Result<SlideFileView, PipelineErrorView> {
    match spec_file_name(path) {
        None => Err(
            PipelineErrorView::InvalidSlide(
                ValidationErrorView {
                    value: path,
                    reason: "Path does not contain a valid filename"@,
                },
            ),
        ),
        Some(filename) => match path_fault(path, status) {
            Some(reason) => Err(
                PipelineErrorView::InvalidSlide(ValidationErrorView { value: path, reason }),
            ),
            None => {
                let relocations = markdown_events(contents).map_values(
                    relocate_fn(path, filename, resolved),
                );
                let missing = first_where(relocations, is_missing());
                if missing < relocations.len() {
                    Err(PipelineErrorView::AssetNotFound(missing_target(relocations[missing])))
                } else {
                    Ok(
                        SlideFileView {
                            filename,
                            path,
                            contents: rendered_html(contents, relocations.map_values(new_target())),
                            local_images: kept_images(relocations.filter_map(moved())),
                        },
                    )
                }
            },
        },
    }
}

/// What is known of one slide file before it is parsed.
#[derive(Debug)]
pub struct SlideInput {
    /// The file's path.
    pub path: String,
    /// What the path names on disk.
    pub status: PathStatus,
    /// The text of the file.
    pub contents: String,
}

/// What a `SlideInput` holds.
pub ghost struct SlideInputView {
    pub path: Seq<char>,
    pub status: PathStatus,
    pub contents: Seq<char>,
}

impl View for SlideInput {
    type V = SlideInputView;

    open spec fn view(&self) -> SlideInputView {
        SlideInputView { path: self.path@, status: self.status, contents: self.contents@ }
    }
}

/// The test for an input that cannot be read and parsed.
pub open spec fn fails_to_parse(resolved: Seq<(Seq<char>, Seq<char>)>) -> spec_fn(
    SlideInputView,
) -> bool {
    |input: SlideInputView|
        spec_read_and_parse(input.path, input.status, input.contents, resolved) is Err
}

/// The view of the outcome of reading a slide.
pub open spec fn outcome_view(r: Result<SlideFile, PipelineError>) -> Result<
    SlideFileView,
    PipelineErrorView,
> {
    match r {
        Ok(slide) => Ok(slide@),
        Err(e) => Err(e@),
    }
}

/// The place of the image named `image_name`, shown by the slide named
/// `slide_name`, below the output directory.
pub fn destination_path(slide_name: &str, image_name: &str) -> (d: String)
    ensures
        d@ == destination(slide_name@, image_name@),
{
    let mut d = "./img/".to_owned();
    d.append(slide_name);
    d.append("/");
    d.append(image_name);
    d
}

/// Where the image `target` of the slide at `slide_path` is looked for.
pub fn candidate_path(slide_path: &str, target: &str) -> (c: String)
    ensures
        c@ == candidate_source(slide_path@, target@),
{
    join(dir_name(slide_path).as_str(), target)
}

/// Looks `candidate` up in `resolved`.
pub fn lookup_resolved(resolved: &Vec<(String, String)>, candidate: &String) -> (r: Option<String>)
    ensures
        opt_view(r) == lookup(pairs_view(resolved@), candidate@),
{
    let ghost all = pairs_view(resolved@);
    let mut i: usize = 0;
    while i < resolved.len()
        invariant
            i <= resolved.len(),
            all == pairs_view(resolved@),
            forall|j: int| 0 <= j < i ==> !resolves(candidate@)(#[trigger] all[j]),
        decreases resolved.len() - i,
    {
        assert(all[i as int] == (resolved[i as int].0@, resolved[i as int].1@));
        if resolved[i].0 == *candidate {
            proof {
                lemma_first_where_is(all, resolves(candidate@), i as int);
            }
            return Some(resolved[i].1.clone());
        }
        i += 1;
    }
    proof {
        lemma_first_where_is(all, resolves(candidate@), i as int);
    }
    None
}

/// Tells whether `images` holds one that goes to `destination`.
pub fn has_destination(images: &Vec<(String, String)>, destination: &String) -> (r: bool)
    ensures
        r == goes_to(pairs_view(images@), destination@),
{
    let mut i: usize = 0;
    while i < images.len()
        invariant
            i <= images.len(),
            forall|j: int|
                0 <= j < i ==> destination_of()(#[trigger] pairs_view(images@)[j]) != destination@,
        decreases images.len() - i,
    {
        assert(pairs_view(images@)[i as int].1 == images[i as int].1@);
        if images[i].1 == *destination {
            return true;
        }
        i += 1;
    }
    false
}

/// Decides what becomes of one event of the slide at `slide_path`, whose
/// file name is `slide_name`.
pub fn relocate_event(
    slide_path: &str,
    slide_name: &str,
    resolved: &Vec<(String, String)>,
    event: &Option<(bool, String)>,
) -> (r: Relocation)
    ensures
        r@ == relocate(slide_path@, slide_name@, pairs_view(resolved@), event_view(*event)),
{
    let target = match event {
        None => {
            return Relocation::Keep;
        },
        Some(image) => {
            if !image.0 {
                return Relocation::Keep;
            }
            &image.1
        },
    };
    if is_remote_link(target.as_str()) {
        return Relocation::Keep;
    }
    let candidate = candidate_path(slide_path, target.as_str());
    let source = match lookup_resolved(resolved, &candidate) {
        None => {
            return Relocation::Missing(target.clone());
        },
        Some(source) => source,
    };
    match file_name(source.as_str()) {
        None => Relocation::Missing(target.clone()),
        Some(image) => {
            let destination = destination_path(slide_name, image.as_str());
            Relocation::Move { source, destination }
        },
    }
}

impl SlideFile {
    /// Checks the path of a slide file, of which `status` says what it names
    /// on disk: the path is absolute, and names a file, which is a markdown
    /// file.
    pub fn validate_path(slide_file_path: &str, status: PathStatus) -> (r: Result<
        (),
        ValidationError,
    >)
        ensures
            match r {
                Ok(_) => path_fault(slide_file_path@, status) is None,
                Err(e) => path_fault(slide_file_path@, status) == Some(e.reason@) && e.value@
                    == slide_file_path@,
            },
    {
        if !is_absolute(slide_file_path) {
            return Err(ValidationError::new(slide_file_path, "Path is not absolute".to_owned()));
        }
        if status == PathStatus::Missing {
            return Err(ValidationError::new(slide_file_path, "File does not exist".to_owned()));
        }
        if status != PathStatus::File {
            return Err(ValidationError::new(slide_file_path, "Path is not a file".to_owned()));
        }
        if !is_markdown_file(slide_file_path) {
            return Err(
                ValidationError::new(slide_file_path, "File is not a markdown file".to_owned()),
            );
        }
        Ok(())
    }

    /// Checks the slide's own path, as `validate_path` does.
    pub fn validate(&self, status: PathStatus) -> (r: Result<(), ValidationError>)
        ensures
            match r {
                Ok(_) => path_fault(self.path@, status) is None,
                Err(e) => path_fault(self.path@, status) == Some(e.reason@) && e.value@
                    == self.path@,
            },
    {
        SlideFile::validate_path(self.path.as_str(), status)
    }

    /// The paths at which the local images of a slide are looked for: one
    /// for each local image that the slide's text shows, in that order.
    pub fn asset_candidates(path: &str, contents: &str) -> (candidates: Vec<String>)
        ensures
            candidates.len() == local_links(image_links(markdown_events(contents@))).len(),
            forall|i: int|
                0 <= i < candidates.len() ==> (#[trigger] candidates[i])@ == candidate_source(
                    path@,
                    local_links(image_links(markdown_events(contents@)))[i],
                ),
    {
        let links = get_local_links(grab_image_links(contents));
        let ghost targets = local_links(image_links(markdown_events(contents@)));
        let mut candidates: Vec<String> = Vec::new();
        let mut i: usize = 0;
        while i < links.len()
            invariant
                i <= links.len(),
                candidates.len() == i,
                views(links@) == targets,
                forall|j: int|
                    0 <= j < i ==> (#[trigger] candidates[j])@ == candidate_source(
                        path@,
                        targets[j],
                    ),
            decreases links.len() - i,
        {
            assert(views(links@)[i as int] == links[i as int]@);
            candidates.push(candidate_path(path, links[i].as_str()));
            i += 1;
        }
        assert(views(links@).len() == links.len());
        candidates
    }

    /// Makes the slide file at `path` ready: checks the path, finds the local
    /// images in `contents`, gives each its destination, rewrites the
    /// references to them and renders the slide. `status` is what the path
    /// names on disk, `contents` the text of the file, and `resolved` holds,
    /// for each image that was found on disk, the path it was looked for at
    /// and its canonical path.
    pub fn read_and_parse(
        path: &str,
        status: PathStatus,
        contents: &str,
        resolved: &Vec<(String, String)>,
    ) -> (r: Result<SlideFile, PipelineError>)
        ensures
            outcome_view(r) == spec_read_and_parse(path@, status, contents@, pairs_view(resolved@)),
    {
        let filename = match file_name(path) {
            None => {
                return Err(
                    PipelineError::InvalidSlide(
                        ValidationError::new(
                            path,
                            "Path does not contain a valid filename".to_owned(),
                        ),
                    ),
                );
            },
            Some(filename) => filename,
        };
        match SlideFile::validate_path(path, status) {
            Err(e) => {
                return Err(PipelineError::InvalidSlide(e));
            },
            Ok(_) => {},
        }
        let events = scan_markdown(contents);
        let ghost found = pairs_view(resolved@);
        let ghost relocations = markdown_events(contents@).map_values(
            relocate_fn(path@, filename@, found),
        );
        let mut targets: Vec<Option<String>> = Vec::new();
        let mut local_images: Vec<(String, String)> = Vec::new();
        let mut i: usize = 0;
        assert(relocations.take(0).filter_map(moved()) =~= Seq::empty());
        assert(kept_images(Seq::empty()) =~= Seq::empty());
        while i < events.len()
            invariant
                i <= events.len(),
                spec_file_name(path@) == Some(filename@),
                path_fault(path@, status) is None,
                events_view(events@) == markdown_events(contents@),
                found == pairs_view(resolved@),
                relocations == markdown_events(contents@).map_values(
                    relocate_fn(path@, filename@, found),
                ),
                forall|j: int| 0 <= j < i ==> !is_missing()(#[trigger] relocations[j]),
                opts_view(targets@) =~= relocations.take(i as int).map_values(new_target()),
                pairs_view(local_images@) =~= kept_images(
                    relocations.take(i as int).filter_map(moved()),
                ),
            decreases events.len() - i,
        {
            assert(events_view(events@)[i as int] == event_view(events[i as int]));
            let relocation = relocate_event(path, filename.as_str(), resolved, &events[i]);
            assert(relocation@ == relocations[i as int]);
            proof {
                relocations.lemma_filter_map_take_succ(moved(), i as int);
            }
            let ghost targets_before = targets@;
            let ghost images_before = local_images@;
            match relocation {
                Relocation::Keep => {
                    targets.push(None);
                    assert(opts_view(targets@) =~= opts_view(targets_before).push(None));
                },
                Relocation::Move { source, destination } => {
                    proof {
                        let upto = relocations.take(i as int).filter_map(moved());
                        assert(upto + seq![(source@, destination@)] =~= upto.push(
                            (source@, destination@),
                        ));
                        lemma_first_by_key_push(upto, destination_of(), (source@, destination@));
                    }
                    targets.push(Some(destination.clone()));
                    if !has_destination(&local_images, &destination) {
                        local_images.push((source, destination));
                        assert(pairs_view(local_images@) =~= pairs_view(images_before).push(
                            (source@, destination@),
                        ));
                    }
                    assert(opts_view(targets@) =~= opts_view(targets_before).push(
                        Some(destination@),
                    ));
                },
                Relocation::Missing(target) => {
                    proof {
                        lemma_first_where_is(relocations, is_missing(), i as int);
                    }
                    return Err(PipelineError::AssetNotFound(target));
                },
            }
            i += 1;
        }
        proof {
            lemma_first_where_is(relocations, is_missing(), i as int);
            assert(relocations.take(i as int) =~= relocations);
        }
        let html = render_markdown(contents, &targets);
        Ok(SlideFile { filename, path: path.to_owned(), contents: html, local_images })
    }

    /// Makes every slide of `inputs` ready, in their order, as `read_and_parse`
    /// does. The first slide that fails stops the work with its error.
    pub fn from_paths(inputs: &Vec<SlideInput>, resolved: &Vec<(String, String)>) -> (r: Result<
        Vec<SlideFile>,
        PipelineError,
    >)
        ensures
            match r {
                Ok(slides) => {
                    &&& slides.len() == inputs.len()
                    &&& forall|i: int|
                        0 <= i < slides.len() ==> spec_read_and_parse(
                            inputs[i].path@,
                            inputs[i].status,
                            inputs[i].contents@,
                            pairs_view(resolved@),
                        ) == Ok::<SlideFileView, PipelineErrorView>((#[trigger] slides[i])@)
                },
                Err(e) => {
                    let at = first_where(views(inputs@), fails_to_parse(pairs_view(resolved@)));
                    &&& at < inputs.len()
                    &&& spec_read_and_parse(
                        inputs[at].path@,
                        inputs[at].status,
                        inputs[at].contents@,
                        pairs_view(resolved@),
                    ) == Err::<SlideFileView, PipelineErrorView>(e@)
                },
            },
    {
        let ghost all = views(inputs@);
        let ghost found = pairs_view(resolved@);
        let mut slides: Vec<SlideFile> = Vec::new();
        let mut i: usize = 0;
        while i < inputs.len()
            invariant
                i <= inputs.len(),
                slides.len() == i,
                all == views(inputs@),
                found == pairs_view(resolved@),
                forall|j: int| 0 <= j < i ==> !fails_to_parse(found)(#[trigger] all[j]),
                forall|j: int|
                    0 <= j < i ==> spec_read_and_parse(
                        inputs[j].path@,
                        inputs[j].status,
                        inputs[j].contents@,
                        found,
                    ) == Ok::<SlideFileView, PipelineErrorView>((#[trigger] slides[j])@),
            decreases inputs.len() - i,
        {
            let input = &inputs[i];
            assert(all[i as int] == input@);
            match SlideFile::read_and_parse(
                input.path.as_str(),
                input.status,
                input.contents.as_str(),
                resolved,
            ) {
                Ok(slide) => {
                    slides.push(slide);
                },
                Err(e) => {
                    proof {
                        lemma_first_where_is(all, fails_to_parse(found), i as int);
                    }
                    return Err(e);
                },
            }
            i += 1;
        }
        Ok(slides)
    }
}

/// Images of different slides never meet: where two slide names differ, and
/// neither holds a separator, as no file name does, no image of the one
/// slide has the destination of an image of the other, whatever the images
/// are called.
pub proof fn law_destinations_do_not_collide(
    slide_a: Seq<char>,
    image_a: Seq<char>,
    slide_b: Seq<char>,
    image_b: Seq<char>,
)
    requires
        slide_a != slide_b,
        !slide_a.contains('/'),
        !slide_b.contains('/'),
    ensures
        destination(slide_a, image_a) != destination(slide_b, image_b),
{
    reveal_strlit("/");
    let prefix = "./img/"@;
    let n = prefix.len() as int;
    let da = destination(slide_a, image_a);
    let db = destination(slide_b, image_b);
    if da == db {
        let la = slide_a.len() as int;
        let lb = slide_b.len() as int;
        assert(da[n + la] == '/');
        assert(db[n + lb] == '/');
        if la < lb {
            assert(db[n + la] == slide_b[la]);
            assert(slide_b.contains(slide_b[la]));
        } else if lb < la {
            assert(da[n + lb] == slide_a[lb]);
            assert(slide_a.contains(slide_a[lb]));
        } else {
            assert forall|i: int| 0 <= i < la implies slide_a[i] == slide_b[i] by {
                assert(da[n + i] == slide_a[i]);
                assert(db[n + i] == slide_b[i]);
            }
            assert(slide_a =~= slide_b);
        }
    }
}

/// Within one slide, images with different names have different
/// destinations.
pub proof fn law_destinations_keep_image_names_apart(
    slide: Seq<char>,
    image_a: Seq<char>,
    image_b: Seq<char>,
)
    requires
        image_a != image_b,
    ensures
        destination(slide, image_a) != destination(slide, image_b),
{
    let head = "./img/"@ + slide + "/"@;
    let n = head.len() as int;
    let da = destination(slide, image_a);
    let db = destination(slide, image_b);
    if da == db {
        assert(da.len() == n + image_a.len());
        assert(db.len() == n + image_b.len());
        assert forall|i: int| 0 <= i < image_a.len() implies image_a[i] == image_b[i] by {
            assert(da[n + i] == image_a[i]);
            assert(db[n + i] == image_b[i]);
        }
        assert(image_a =~= image_b);
    }
}

/// A remote reference is never rewritten: the event that shows it stays as
/// it is, so that it is rendered with the target the slide wrote. Neither is
/// an image that is not written inline.
pub proof fn law_remote_references_are_kept(
    slide_path: Seq<char>,
    slide_name: Seq<char>,
    resolved: Seq<(Seq<char>, Seq<char>)>,
    inline: bool,
    target: Seq<char>,
)
    requires
        is_remote(target) || !inline,
    ensures
        relocate(slide_path, slide_name, resolved, Some((inline, target))) == RelocationView::Keep,
        new_target()(relocate(slide_path, slide_name, resolved, Some((inline, target)))) is None,
        moved()(relocate(slide_path, slide_name, resolved, Some((inline, target)))) is None,
{
}

/// The destinations of a slide that was read stand below `./img/`, in the
/// directory named like the slide.
pub proof fn law_images_go_below_the_slide(
    path: Seq<char>,
    status: PathStatus,
    contents: Seq<char>,
    resolved: Seq<(Seq<char>, Seq<char>)>,
    i: int,
)
    requires
        spec_read_and_parse(path, status, contents, resolved) is Ok,
        0 <= i < spec_read_and_parse(path, status, contents, resolved)->Ok_0.local_images.len(),
    ensures
        ({
            let slide = spec_read_and_parse(path, status, contents, resolved)->Ok_0;
            exists|image: Seq<char>|
                #![trigger destination(slide.filename, image)]
                {
                    &&& spec_file_name(slide.local_images[i].0) == Some(image)
                    &&& slide.local_images[i].1 == destination(slide.filename, image)
                }
        }),
{
    let slide = spec_read_and_parse(path, status, contents, resolved)->Ok_0;
    let relocations = markdown_events(contents).map_values(
        relocate_fn(path, slide.filename, resolved),
    );
    lemma_first_by_key(relocations.filter_map(moved()), destination_of());
    assert(relocations.filter_map(moved()).contains(slide.local_images[i]));
    relocations.lemma_filter_map_contains(moved(), slide.local_images[i]);
    let r = choose|r: RelocationView| #[trigger]
        relocations.contains(r) && moved()(r) == Some(slide.local_images[i]);
    let k = choose|k: int| 0 <= k < relocations.len() && relocations[k] == r;
    let event = markdown_events(contents)[k];
    assert(r == relocate(path, slide.filename, resolved, event));
    let image = spec_file_name(slide.local_images[i].0)->0;
    assert(slide.local_images[i].1 == destination(slide.filename, image));
}

/// Two slides with different file names share no destination: whatever
/// images they show, and even where the images have the same name, each
/// image of the one slide goes to another place than each image of the
/// other.
pub proof fn law_slides_do_not_share_destinations(
    path_a: Seq<char>,
    status_a: PathStatus,
    contents_a: Seq<char>,
    resolved_a: Seq<(Seq<char>, Seq<char>)>,
    i: int,
    path_b: Seq<char>,
    status_b: PathStatus,
    contents_b: Seq<char>,
    resolved_b: Seq<(Seq<char>, Seq<char>)>,
    j: int,
)
    requires
        spec_read_and_parse(path_a, status_a, contents_a, resolved_a) matches Ok(a) && 0 <= i
            < a.local_images.len(),
        spec_read_and_parse(path_b, status_b, contents_b, resolved_b) matches Ok(b) && 0 <= j
            < b.local_images.len(),
        spec_file_name(path_a) != spec_file_name(path_b),
    ensures
        spec_read_and_parse(path_a, status_a, contents_a, resolved_a)->Ok_0.local_images[i].1
            != spec_read_and_parse(
            path_b,
            status_b,
            contents_b,
            resolved_b,
        )->Ok_0.local_images[j].1,
{
    let a = spec_read_and_parse(path_a, status_a, contents_a, resolved_a)->Ok_0;
    let b = spec_read_and_parse(path_b, status_b, contents_b, resolved_b)->Ok_0;
    law_images_go_below_the_slide(path_a, status_a, contents_a, resolved_a, i);
    law_images_go_below_the_slide(path_b, status_b, contents_b, resolved_b, j);
    lemma_file_name_has_no_separator(path_a);
    lemma_file_name_has_no_separator(path_b);
    let image_a = spec_file_name(a.local_images[i].0)->0;
    let image_b = spec_file_name(b.local_images[j].0)->0;
    law_destinations_do_not_collide(a.filename, image_a, b.filename, image_b);
}

/// A slide that was read holds each of its destinations once, however often
/// its text shows an image.
pub proof fn law_slide_has_each_destination_once(
    path: Seq<char>,
    status: PathStatus,
    contents: Seq<char>,
    resolved: Seq<(Seq<char>, Seq<char>)>,
)
    requires
        spec_read_and_parse(path, status, contents, resolved) is Ok,
    ensures
        ({
            let images = spec_read_and_parse(path, status, contents, resolved)->Ok_0.local_images;
            forall|i: int, j: int|
                0 <= i < j < images.len() ==> (#[trigger] images[i]).1 != (#[trigger] images[j]).1
        }),
{
    let name = spec_file_name(path)->0;
    let relocations = markdown_events(contents).map_values(relocate_fn(path, name, resolved));
    lemma_first_by_key(relocations.filter_map(moved()), destination_of());
}

/// A destination is a relative path.
pub proof fn law_destinations_are_relative(slide_name: Seq<char>, image_name: Seq<char>)
    ensures
        !spec_is_absolute(destination(slide_name, image_name)),
{
    reveal_strlit("./img/");
    assert(destination(slide_name, image_name)[0] == '.');
}

/// The destination of an image never leads out of the output directory: it
/// holds no component `..`, because neither the name of a slide nor that of
/// an image is one or holds a separator.
pub proof fn law_destinations_do_not_go_up(slide_name: Seq<char>, image_name: Seq<char>)
    requires
        !slide_name.contains('/') && !is_dots(slide_name),
        !image_name.contains('/') && !is_dots(image_name),
    ensures
        !goes_up(destination(slide_name, image_name)),
{
    reveal_strlit("./img/");
    reveal_strlit("/");
    let d = destination(slide_name, image_name);
    let a = slide_name.len() as int;
    let x = image_name.len() as int;
    assert(d.len() == 7 + a + x);
    assert forall|i: int| 0 <= i < d.len() && d[i] == '/' implies i == 1 || i == 5 || i == 6 + a by {
        if 6 <= i < 6 + a {
            assert(d[i] == slide_name[i - 6]);
            assert(slide_name.contains(slide_name[i - 6]));
        } else if i > 6 + a {
            assert(d[i] == image_name[i - 7 - a]);
            assert(image_name.contains(image_name[i - 7 - a]));
        }
    }
    assert forall|i: int| !goes_up_at(d, i) by {
        if goes_up_at(d, i) {
            if i == 6 {
                assert(d[6] == slide_name[0]);
                assert(d[7] == slide_name[1]);
                assert(a == 2);
            } else if i == 7 + a {
                assert(d[i] == image_name[0]);
                assert(d[i + 1] == image_name[1]);
                assert(x == 2);
            }
        }
    }
}

} // verus!
