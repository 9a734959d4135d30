//! The presentation as a whole: what it is made of, how it is rendered, and
//! what has to be done on disk to package it.
//!
//! Rendering is the template engine's work, and the engine is the caller's:
//! the library says what to ask it, which is the template and the values it
//! can name, and takes its answer. Packaging is laid out as a list of
//! actions, which the caller performs one after the other: the library says
//! which action is next and stops the run at the first one that fails.

use vstd::prelude::*;
use crate::errors::{ArgumentError, ArgumentErrorView, PipelineError, PipelineErrorView};
use crate::paths::{
    base_of, below, dir_name, dir_of, goes_up, holds_way_up, is_absolute, spec_below,
    spec_is_absolute, PathStatus,
};
use crate::seqs::{first_by_key, lemma_first_by_key, lemma_first_by_key_push, pairs_view, views};
use crate::slide::{
    destination_of, goes_to, has_destination, Slide, SlideFile, SlideFileView, SlideView,
};

verus! {

/// What the template engine made of a template: the text, or its complaint.
pub fn template_outcome(outcome: Result<String, String>) -> (r: Result<String, PipelineError>)
    ensures
        match outcome {
            Ok(text) => r == Ok::<String, PipelineError>(text),
            Err(message) => r == Err::<String, PipelineError>(
                PipelineError::TemplateRender(message),
            ),
        },
{
    match outcome {
        Ok(text) => Ok(text),
        Err(message) => Err(PipelineError::TemplateRender(message)),
    }
}

/// A value that a template can name.
#[derive(Debug)]
pub enum ContextValue {
    /// A text.
    Text(String),
    /// A list of texts.
    List(Vec<String>),
}

/// What a `ContextValue` holds.
pub ghost enum ContextValueView {
    Text(Seq<char>),
    List(Seq<Seq<char>>),
}

impl View for ContextValue {
    type V = ContextValueView;

    open spec fn view(&self) -> ContextValueView {
        match self {
            ContextValue::Text(text) => ContextValueView::Text(text@),
            ContextValue::List(texts) => ContextValueView::List(views(texts@)),
        }
    }
}

/// What the template engine is asked to render.
#[derive(Debug)]
pub struct TemplateRequest {
    /// The text of the template.
    pub template: String,
    /// Whether the engine escapes the values it puts in.
    pub autoescape: bool,
    /// The values that the template can name, each under its key.
    pub context: Vec<(String, ContextValue)>,
}

/// What a `TemplateRequest` holds.
pub ghost struct TemplateRequestView {
    pub template: Seq<char>,
    pub autoescape: bool,
    pub context: Seq<(Seq<char>, ContextValueView)>,
}

impl View for TemplateRequest {
    type V = TemplateRequestView;

    open spec fn view(&self) -> TemplateRequestView {
        TemplateRequestView {
            template: self.template@,
            autoescape: self.autoescape,
            context: self.context@.map_values(|entry: (String, ContextValue)| (entry.0@, entry.1@)),
        }
    }
}

/// Where rendering stands.
#[derive(Debug)]
pub enum RenderStep {
    /// Hand this request to the template engine, and come back with its
    /// answer.
    Ask(TemplateRequest),
    /// The presentation is rendered: this is its text.
    Done(String),
    /// The engine failed: give up, with this error.
    Failed(PipelineError),
}

/// What a `RenderStep` holds.
pub ghost enum RenderStepView {
    Ask(TemplateRequestView),
    Done(Seq<char>),
    Failed(PipelineErrorView),
}

impl View for RenderStep {
    type V = RenderStepView;

    open spec fn view(&self) -> RenderStepView {
        match self {
            RenderStep::Ask(request) => RenderStepView::Ask(request@),
            RenderStep::Done(text) => RenderStepView::Done(text@),
            RenderStep::Failed(e) => RenderStepView::Failed(e@),
        }
    }
}

/// The values that a template can name: the title, under `title` and under
/// `slide_title`, and the slides in their order, under `ingested_files`.
pub open spec fn context_of(title: Seq<char>, slides: Seq<Seq<char>>) -> Seq<
    (Seq<char>, ContextValueView),
> {
    seq![
        ("title"@, ContextValueView::Text(title)),
        ("slide_title"@, ContextValueView::Text(title)),
        ("ingested_files"@, ContextValueView::List(slides)),
    ]
}

/// The view of the engine's answer, where there is one.
pub open spec fn answer_view(answer: Option<Result<String, String>>) -> Option<
    Result<Seq<char>, Seq<char>>,
> {
    match answer {
        None => None,
        Some(Ok(text)) => Some(Ok(text@)),
        Some(Err(message)) => Some(Err(message@)),
    }
}

/// The step of rendering `template` with `title` and `slides`: before the
/// engine has answered, the request to hand to it, which asks for no
/// escaping; after it, the text that it gave, or the error that holds its
/// message unchanged.
pub open spec fn spec_render(
    template: Seq<char>,
    title: Seq<char>,
    slides: Seq<Seq<char>>,
    answer: Option<Result<Seq<char>, Seq<char>>>,
) -> RenderStepView {
    match answer {
        None => RenderStepView::Ask(
            TemplateRequestView { template, autoescape: false, context: context_of(title, slides) },
        ),
        Some(Ok(text)) => RenderStepView::Done(text),
        Some(Err(message)) => RenderStepView::Failed(PipelineErrorView::TemplateRender(message)),
    }
}

/// Takes one step of rendering `template` with `title` and `slides`, of
/// which `answer` is what the engine made, if it was asked already.
fn render_with(
    template: &str,
    title: &str,
    slides: Vec<String>,
    answer: Option<Result<String, String>>,
) -> (step: RenderStep)
    ensures
        step@ == spec_render(template@, title@, views(slides@), answer_view(answer)),
{
    match answer {
        None => {
            let mut context: Vec<(String, ContextValue)> = Vec::new();
            context.push(("title".to_owned(), ContextValue::Text(title.to_owned())));
            context.push(("slide_title".to_owned(), ContextValue::Text(title.to_owned())));
            context.push(("ingested_files".to_owned(), ContextValue::List(slides)));
            let request = TemplateRequest { template: template.to_owned(), autoescape: false, context };
            assert(request@.context =~= context_of(title@, views(slides@)));
            RenderStep::Ask(request)
        },
        Some(outcome) => match template_outcome(outcome) {
            Ok(text) => RenderStep::Done(text),
            Err(e) => RenderStep::Failed(e),
        },
    }
}

/// A presentation made of slides that were not read from files.
#[derive(Debug)]
pub struct Presentation {
    /// The title of the presentation.
    pub title: String,
    /// The text of the template to use for the presentation.
    pub template: String,
    /// The slides, in order, to include in the presentation.
    pub slides: Vec<Slide>,
}

/// What the template is given for each slide: what the slide renders to,
/// which is its contents.
pub open spec fn slide_texts(slides: Seq<SlideView>) -> Seq<Seq<char>> {
    slides.map_values(|s: SlideView| s.contents)
}

/// The slides that were read from `files`, each a path with the text found
/// there, not parsed yet.
pub open spec fn slides_of_files(files: Seq<(Seq<char>, Seq<char>)>) -> Seq<SlideView> {
    files.map_values(
        |file: (Seq<char>, Seq<char>)|
            SlideView { contents: file.1, slide_path: Some(file.0), local_images: None },
    )
}

impl Presentation {
    /// The presentation with the given title and template, made of the
    /// slides that were read from `files`: each a path with the text found
    /// there, in the order of the presentation.
    pub fn from_files(title: String, template: String, files: Vec<(String, String)>) -> (r: Self)
        ensures
            r.title@ == title@,
            r.template@ == template@,
            views(r.slides@) == slides_of_files(pairs_view(files@)),
    {
        let mut slides: Vec<Slide> = Vec::new();
        let mut i: usize = 0;
        while i < files.len()
            invariant
                i <= files.len(),
                slides.len() == i,
                forall|j: int|
                    0 <= j < i ==> (#[trigger] slides[j])@ == (SlideView {
                        contents: files[j].1@,
                        slide_path: Some(files[j].0@),
                        local_images: None,
                    }),
            decreases files.len() - i,
        {
            slides.push(Slide::from_file(files[i].0.as_str(), files[i].1.clone()));
            i += 1;
        }
        assert(views(slides@) =~= slides_of_files(pairs_view(files@)));
        Presentation { title, template, slides }
    }

    /// What the template is given as the slides: each slide rendered, in
    /// order.
    pub fn ingested_files(&self) -> (texts: Vec<String>)
        ensures
            views(texts@) == slide_texts(views(self.slides@)),
    {
        let mut texts: Vec<String> = Vec::new();
        let mut i: usize = 0;
        while i < self.slides.len()
            invariant
                i <= self.slides.len(),
                texts.len() == i,
                forall|j: int| 0 <= j < i ==> (#[trigger] texts[j])@ == self.slides[j].contents@,
            decreases self.slides.len() - i,
        {
            texts.push(self.slides[i].render());
            i += 1;
        }
        assert(views(texts@) =~= slide_texts(views(self.slides@)));
        texts
    }

    /// Takes one step of rendering the presentation. With no answer of the
    /// template engine yet, the step is the request to hand to it: the
    /// template, and the title and `ingested_files` as the values it can
    /// name. With its answer, the step is the rendered text, or the error
    /// that holds the engine's message.
    pub fn render(&self, answer: Option<Result<String, String>>) -> (step: RenderStep)
        ensures
            step@ == spec_render(
                self.template@,
                self.title@,
                slide_texts(views(self.slides@)),
                answer_view(answer),
            ),
    {
        let texts = self.ingested_files();
        render_with(self.template.as_str(), self.title.as_str(), texts, answer)
    }

    /// Lays out what packaging the presentation takes, once it has been
    /// rendered to `document`: create the directory `output_dir` and write
    /// the document to `output_filename` in it.
    pub fn package(&self, document: String, output_dir: &str, output_filename: &str) -> (actions:
        Vec<PackageAction>)
        ensures
            views(actions@) == document_actions_of(output_dir@, output_filename@, document@),
    {
        document_actions(output_dir, output_filename, document)
    }
}

/// What has been found of the paths that a configuration names.
#[derive(Clone, Copy, Debug)]
pub struct ConfigProbe {
    /// What the output file's path names.
    pub output_file: PathStatus,
    /// What the template file's path names.
    pub template_file: PathStatus,
}

/// One thing to do on disk when a presentation is packaged.
#[derive(Debug)]
pub enum PackageAction {
    /// Create the directory and every missing directory above it.
    CreateDir(String),
    /// Write `text` to the file at `path`, in place of what is there.
    WriteDocument { path: String, text: String },
    /// Copy the file at `from` to `to`.
    CopyFile { from: String, to: String },
}

/// What a `PackageAction` holds.
pub ghost enum PackageActionView {
    CreateDir(Seq<char>),
    WriteDocument { path: Seq<char>, text: Seq<char> },
    CopyFile { from: Seq<char>, to: Seq<char> },
}

impl View for PackageAction {
    type V = PackageActionView;

    open spec fn view(&self) -> PackageActionView {
        match self {
            PackageAction::CreateDir(dir) => PackageActionView::CreateDir(dir@),
            PackageAction::WriteDocument { path, text } => PackageActionView::WriteDocument {
                path: path@,
                text: text@,
            },
            PackageAction::CopyFile { from, to } => PackageActionView::CopyFile {
                from: from@,
                to: to@,
            },
        }
    }
}

impl PackageActionView {
    /// The path that the action writes to.
    pub open spec fn target(self) -> Seq<char> {
        match self {
            PackageActionView::CreateDir(dir) => dir,
            PackageActionView::WriteDocument { path, text } => path,
            PackageActionView::CopyFile { from, to } => to,
        }
    }
}

/// What the caller of `next_step` has to do now.
#[derive(Debug)]
pub enum PackageStep {
    /// Perform the action at this position of the list.
    Perform(usize),
    /// Every action was performed: the presentation is packaged.
    Finished,
    /// The last action failed: give up, with this error.
    Abort(PipelineError),
}

/// The logical representation of a presentation that is ready to package.
#[derive(Debug)]
pub struct PresentationConfig {
    /// Title of the presentation.
    pub title: String,
    /// Output directory of the presentation. It does not need to exist.
    pub output_dir: String,
    /// Name of the final presentation file, with extension.
    pub output_filename: String,
    /// Absolute path to the template file.
    pub template_file: String,
    /// Slides to be included in the presentation, in the order in which they
    /// appear.
    pub slides: Vec<SlideFile>,
}

/// What a `PresentationConfig` holds.
pub ghost struct PresentationConfigView {
    pub title: Seq<char>,
    pub output_dir: Seq<char>,
    pub output_filename: Seq<char>,
    pub template_file: Seq<char>,
    pub slides: Seq<SlideFileView>,
}

impl View for PresentationConfig {
    type V = PresentationConfigView;

    open spec fn view(&self) -> PresentationConfigView {
        PresentationConfigView {
            title: self.title@,
            output_dir: self.output_dir@,
            output_filename: self.output_filename@,
            template_file: self.template_file@,
            slides: views(self.slides@),
        }
    }
}

/// What the template is given for each slide file: its contents.
pub open spec fn slide_bodies(slides: Seq<SlideFileView>) -> Seq<Seq<char>> {
    slides.map_values(|s: SlideFileView| s.contents)
}

/// The local images of `slides`, slide after slide.
pub open spec fn all_images(slides: Seq<SlideFileView>) -> Seq<(Seq<char>, Seq<char>)>
    decreases slides.len(),
{
    if slides.len() == 0 {
        Seq::empty()
    } else {
        all_images(slides.drop_last()) + slides.last().local_images
    }
}

/// The copies to make for `images`: each image in its turn, unless an
/// earlier one already goes to the same destination.
pub open spec fn copy_plan_of(images: Seq<(Seq<char>, Seq<char>)>) -> Seq<(Seq<char>, Seq<char>)> {
    first_by_key(images, destination_of())
}

/// What it takes to copy one image below `output_dir`: the directory it goes
/// to, then the copy.
pub open spec fn copy_actions(output_dir: Seq<char>, plan: Seq<(Seq<char>, Seq<char>)>) -> Seq<
    PackageActionView,
>
    decreases plan.len(),
{
    if plan.len() == 0 {
        Seq::empty()
    } else {
        copy_actions(output_dir, plan.drop_last()).push(
            PackageActionView::CreateDir(spec_below(output_dir, dir_of(plan.last().1))),
        ).push(
            PackageActionView::CopyFile {
                from: plan.last().0,
                to: spec_below(output_dir, plan.last().1),
            },
        )
    }
}

/// What it takes to put the rendered text `document` in its place: the
/// output directory, and the document in it.
pub open spec fn document_actions_of(
    output_dir: Seq<char>,
    output_filename: Seq<char>,
    document: Seq<char>,
) -> Seq<PackageActionView> {
    seq![
        PackageActionView::CreateDir(output_dir),
        PackageActionView::WriteDocument {
            path: spec_below(output_dir, output_filename),
            text: document,
        },
    ]
}

/// What it takes to package a presentation whose rendered text is
/// `document`: the output directory, the document in it, and then every copy
/// of the plan.
pub open spec fn package_actions(config: PresentationConfigView, document: Seq<char>) -> Seq<
    PackageActionView,
> {
    document_actions_of(config.output_dir, config.output_filename, document) + copy_actions(
        config.output_dir,
        copy_plan_of(all_images(config.slides)),
    )
}

/// Why a configuration is refused, when `probe` is what its paths name: the
/// first of these that holds.
pub open spec fn config_fault(config: PresentationConfigView, probe: ConfigProbe) -> Option<
    ArgumentErrorView,
> {
    if spec_is_absolute(config.output_filename) {
        Some(
            ArgumentErrorView {
                arg: "output_file"@,
                value: config.output_filename,
                reason: "Output file must be given relative to the output directory"@,
            },
        )
    } else if goes_up(config.output_filename) {
        Some(
            ArgumentErrorView {
                arg: "output_file"@,
                value: config.output_filename,
                reason: "Output file must not lead out of the output directory"@,
            },
        )
    } else if probe.output_file == PathStatus::Directory {
        Some(
            ArgumentErrorView {
                arg: "output_file"@,
                value: spec_below(config.output_dir, config.output_filename),
                reason: "Output file cannot be a directory"@,
            },
        )
    } else if !spec_is_absolute(config.template_file) {
        Some(
            ArgumentErrorView {
                arg: "template_file"@,
                value: config.template_file,
                reason: "Template file must be an absolute path"@,
            },
        )
    } else if probe.template_file != PathStatus::File {
        Some(
            ArgumentErrorView {
                arg: "template_file"@,
                value: config.template_file,
                reason: "Template file does not exist or cannot be read"@,
            },
        )
    } else {
        None
    }
}

/// What to do after `performed` actions of `actions` have been performed, of
/// which the last one succeeded or not: give up if it failed, perform the
/// next one if there is one, and finish otherwise.
pub open spec fn spec_next_step(actions: Seq<PackageActionView>, performed: int, last_ok: bool) -> (
    Option<int>,
    Option<PipelineErrorView>,
) {
    if 1 <= performed <= actions.len() && !last_ok {
        (None, Some(PipelineErrorView::IoWrite(actions[performed - 1].target())))
    } else if 0 <= performed < actions.len() {
        (Some(performed), None)
    } else {
        (None, None)
    }
}

/// The step as the position to perform and the error to give up with.
pub open spec fn step_view(step: PackageStep) -> (Option<int>, Option<PipelineErrorView>) {
    match step {
        PackageStep::Perform(i) => (Some(i as int), None),
        PackageStep::Finished => (None, None),
        PackageStep::Abort(e) => (None, Some(e@)),
    }
}

/// Lays out what it takes to put the rendered text `document` in its place:
/// create the directory `output_dir` and write the text to `output_filename`
/// in it.
pub fn document_actions(output_dir: &str, output_filename: &str, document: String) -> (actions:
    Vec<PackageAction>)
    ensures
        views(actions@) == document_actions_of(output_dir@, output_filename@, document@),
{
    let mut actions: Vec<PackageAction> = Vec::new();
    actions.push(PackageAction::CreateDir(output_dir.to_owned()));
    actions.push(
        PackageAction::WriteDocument { path: below(output_dir, output_filename), text: document },
    );
    assert(views(actions@) =~= document_actions_of(output_dir@, output_filename@, document@));
    actions
}

/// Says what to do next when a presentation is packaged. `performed` is the
/// number of actions performed so far, and `last_ok` tells whether the last
/// of them succeeded.
pub fn next_step(actions: &Vec<PackageAction>, performed: usize, last_ok: bool) -> (step:
    PackageStep)
    ensures
        step_view(step) == spec_next_step(views(actions@), performed as int, last_ok),
{
    if 1 <= performed && performed <= actions.len() && !last_ok {
        assert(views(actions@)[performed - 1] == actions[performed - 1]@);
        let path = match &actions[performed - 1] {
            PackageAction::CreateDir(dir) => dir.clone(),
            PackageAction::WriteDocument { path, text } => path.clone(),
            PackageAction::CopyFile { from, to } => to.clone(),
        };
        PackageStep::Abort(PipelineError::IoWrite(path))
    } else if performed < actions.len() {
        PackageStep::Perform(performed)
    } else {
        PackageStep::Finished
    }
}

impl PresentationConfig {
    /// Checks this configuration against what its paths were found to name:
    /// the name of the output file must be a relative path without a
    /// component `..` and must not name a directory, and the template must be
    /// given by an absolute path and be a file.
    pub fn validate(&self, probe: &ConfigProbe) -> (r: Result<(), ArgumentError>)
        ensures
            match r {
                Ok(_) => config_fault(self@, *probe) is None,
                Err(e) => config_fault(self@, *probe) == Some(e@),
            },
    {
        if is_absolute(self.output_filename.as_str()) {
            return Err(
                ArgumentError::new(
                    "output_file".to_owned(),
                    self.output_filename.as_str(),
                    "Output file must be given relative to the output directory".to_owned(),
                ),
            );
        }
        if holds_way_up(self.output_filename.as_str()) {
            return Err(
                ArgumentError::new(
                    "output_file".to_owned(),
                    self.output_filename.as_str(),
                    "Output file must not lead out of the output directory".to_owned(),
                ),
            );
        }
        if probe.output_file == PathStatus::Directory {
            let output_file = self.output_path();
            return Err(
                ArgumentError::new(
                    "output_file".to_owned(),
                    output_file.as_str(),
                    "Output file cannot be a directory".to_owned(),
                ),
            );
        }
        if !is_absolute(self.template_file.as_str()) {
            return Err(
                ArgumentError::new(
                    "template_file".to_owned(),
                    self.template_file.as_str(),
                    "Template file must be an absolute path".to_owned(),
                ),
            );
        }
        if probe.template_file != PathStatus::File {
            return Err(
                ArgumentError::new(
                    "template_file".to_owned(),
                    self.template_file.as_str(),
                    "Template file does not exist or cannot be read".to_owned(),
                ),
            );
        }
        Ok(())
    }

    /// Tells whether packaging writes over a file that is already there,
    /// which is worth a warning and no more.
    pub fn overwrites(probe: &ConfigProbe) -> (r: bool)
        ensures
            r == (probe.output_file == PathStatus::File),
    {
        probe.output_file == PathStatus::File
    }

    /// The path of the rendered document.
    pub fn output_path(&self) -> (path: String)
        ensures
            path@ == spec_below(self.output_dir@, self.output_filename@),
    {
        below(self.output_dir.as_str(), self.output_filename.as_str())
    }

    /// What the template is given as the slides: the contents of each slide,
    /// in order.
    pub fn ingested_files(&self) -> (texts: Vec<String>)
        ensures
            views(texts@) == slide_bodies(self@.slides),
    {
        let mut texts: Vec<String> = Vec::new();
        let mut i: usize = 0;
        while i < self.slides.len()
            invariant
                i <= self.slides.len(),
                texts.len() == i,
                forall|j: int| 0 <= j < i ==> (#[trigger] texts[j])@ == self.slides[j].contents@,
            decreases self.slides.len() - i,
        {
            texts.push(self.slides[i].contents.clone());
            i += 1;
        }
        assert(views(texts@) =~= slide_bodies(self@.slides));
        texts
    }

    /// Takes one step of rendering the presentation with the template whose
    /// text is `template`. With no answer of the template engine yet, the
    /// step is the request to hand to it: the template, and the title and
    /// `ingested_files` as the values it can name. With its answer, the step
    /// is the rendered text, or the error that holds the engine's message.
    pub fn render(&self, template: &str, answer: Option<Result<String, String>>) -> (step:
        RenderStep)
        ensures
            step@ == spec_render(
                template@,
                self.title@,
                slide_bodies(self@.slides),
                answer_view(answer),
            ),
    {
        let texts = self.ingested_files();
        render_with(template, self.title.as_str(), texts, answer)
    }

    /// The copies that packaging makes: the local images of all slides, each
    /// destination once.
    pub fn copy_plan(&self) -> (plan: Vec<(String, String)>)
        ensures
            pairs_view(plan@) == copy_plan_of(all_images(self@.slides)),
    {
        let ghost slides = views(self.slides@);
        let mut plan: Vec<(String, String)> = Vec::new();
        let mut i: usize = 0;
        while i < self.slides.len()
            invariant
                i <= self.slides.len(),
                slides == views(self.slides@),
                pairs_view(plan@) == copy_plan_of(all_images(slides.take(i as int))),
            decreases self.slides.len() - i,
        {
            let slide = &self.slides[i];
            let ghost images = pairs_view(slide.local_images@);
            let ghost before = all_images(slides.take(i as int));
            assert(slides[i as int] == slide@);
            let mut j: usize = 0;
            assert(before + images.take(0) =~= before);
            while j < slide.local_images.len()
                invariant
                    j <= slide.local_images.len(),
                    images == pairs_view(slide.local_images@),
                    pairs_view(plan@) == copy_plan_of(before + images.take(j as int)),
                decreases slide.local_images.len() - j,
            {
                let image = &slide.local_images[j];
                let ghost upto = before + images.take(j as int);
                let ghost plan_before = plan@;
                assert(images[j as int] == (image.0@, image.1@));
                assert(before + images.take(j + 1) =~= upto.push(images[j as int]));
                proof {
                    lemma_first_by_key_push(upto, destination_of(), images[j as int]);
                }
                if !has_destination(&plan, &image.1) {
                    plan.push((image.0.clone(), image.1.clone()));
                    assert(pairs_view(plan@) =~= pairs_view(plan_before).push(images[j as int]));
                }
                j += 1;
            }
            proof {
                assert(images.take(j as int) =~= images);
                assert(slides.take(i + 1).drop_last() =~= slides.take(i as int));
                assert(slides.take(i + 1).last() == slides[i as int]);
            }
            i += 1;
        }
        assert(slides.take(i as int) =~= slides);
        plan
    }

    /// Lays out what packaging the presentation takes, once it has been
    /// rendered to `document`: create the output directory, write the
    /// document into it, and copy every image of the copy plan to its place
    /// below it, after creating the directory it goes to.
    pub fn package(&self, document: String) -> (actions: Vec<PackageAction>)
        ensures
            views(actions@) == package_actions(self@, document@),
    {
        let plan = self.copy_plan();
        let ghost copies = pairs_view(plan@);
        let mut actions = document_actions(
            self.output_dir.as_str(),
            self.output_filename.as_str(),
            document,
        );
        let ghost head = views(actions@);
        let mut i: usize = 0;
        assert(head + copy_actions(self@.output_dir, copies.take(0)) =~= head);
        while i < plan.len()
            invariant
                i <= plan.len(),
                copies == pairs_view(plan@),
                views(actions@) == head + copy_actions(self@.output_dir, copies.take(i as int)),
            decreases plan.len() - i,
        {
            let ghost before = views(actions@);
            let entry = &plan[i];
            assert(copies[i as int] == (entry.0@, entry.1@));
            let dir = dir_name(entry.1.as_str());
            let made = below(self.output_dir.as_str(), dir.as_str());
            let to = below(self.output_dir.as_str(), entry.1.as_str());
            actions.push(PackageAction::CreateDir(made));
            actions.push(PackageAction::CopyFile { from: entry.0.clone(), to });
            proof {
                let upto = copies.take(i + 1);
                assert(upto.drop_last() =~= copies.take(i as int));
                assert(upto.last() == copies[i as int]);
                assert(views(actions@) =~= before.push(
                    PackageActionView::CreateDir(made@),
                ).push(PackageActionView::CopyFile { from: entry.0@, to: to@ }));
            }
            i += 1;
        }
        assert(copies.take(i as int) =~= copies);
        actions
    }
}

/// The copy plan holds one copy for each destination: no two of its entries
/// go to the same destination, every entry is one of the images, and every
/// image's destination is that of an entry. An image that is referred to
/// twice is copied once.
pub proof fn law_copy_plan_has_each_destination_once(images: Seq<(Seq<char>, Seq<char>)>)
    ensures
        forall|i: int, j: int|
            0 <= i < j < copy_plan_of(images).len() ==> (#[trigger] copy_plan_of(images)[i]).1 != (
            #[trigger] copy_plan_of(images)[j]).1,
        forall|i: int|
            0 <= i < copy_plan_of(images).len() ==> images.contains(
                #[trigger] copy_plan_of(images)[i],
            ),
        forall|i: int|
            0 <= i < images.len() ==> goes_to(copy_plan_of(images), (#[trigger] images[i]).1),
{
    lemma_first_by_key(images, destination_of());
}

/// Referring once more to an image that is already among `images` adds
/// nothing to the copy plan.
pub proof fn law_repeated_reference_is_copied_once(
    images: Seq<(Seq<char>, Seq<char>)>,
    again: (Seq<char>, Seq<char>),
)
    requires
        images.contains(again),
    ensures
        copy_plan_of(images.push(again)) == copy_plan_of(images),
{
    lemma_first_by_key(images, destination_of());
    lemma_first_by_key_push(images, destination_of(), again);
    let i = choose|i: int| 0 <= i < images.len() && images[i] == again;
    assert(goes_to(copy_plan_of(images), images[i].1));
}

/// `path` is `dir` or stands below it: it is `dir`, or starts with `dir`
/// and a separator, where the empty `dir` counts as `.`.
pub open spec fn is_within(dir: Seq<char>, path: Seq<char>) -> bool {
    path == dir || (base_of(dir) + seq!['/']).is_prefix_of(path)
}

/// Every copy of a plan is made below the output directory, and so is the
/// directory that is created for it.
proof fn lemma_copies_stay_below(output_dir: Seq<char>, plan: Seq<(Seq<char>, Seq<char>)>, k: int)
    requires
        0 <= k < copy_actions(output_dir, plan).len(),
    ensures
        is_within(output_dir, copy_actions(output_dir, plan)[k].target()),
    decreases plan.len(),
{
    if plan.len() > 0 {
        let before = copy_actions(output_dir, plan.drop_last());
        if k < before.len() {
            lemma_copies_stay_below(output_dir, plan.drop_last(), k);
        }
    }
}

/// Packaging writes below the output directory and nowhere else: whatever
/// the presentation holds, the path that any action of packaging writes to
/// is the output directory or starts with it and a separator. What follows
/// the separator is the name of the output file or the destination of an
/// image as it is written: `validate` refuses a name that is absolute or
/// holds a component `..`, and the destinations of slides that were read
/// hold none.
pub proof fn law_packaging_stays_below_the_output_dir(
    config: PresentationConfigView,
    document: Seq<char>,
    k: int,
)
    requires
        0 <= k < package_actions(config, document).len(),
    ensures
        is_within(config.output_dir, package_actions(config, document)[k].target()),
{
    if k >= 2 {
        lemma_copies_stay_below(
            config.output_dir,
            copy_plan_of(all_images(config.slides)),
            k - 2,
        );
    }
}

} // verus!
