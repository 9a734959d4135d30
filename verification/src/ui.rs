//! What the user asks for, on the command line or in a configuration file,
//! and how a presentation is made of it.
//!
//! The arguments are read and the file is decoded elsewhere; here stand the
//! values they give and the rules that turn them into a `PresentationConfig`:
//! which paths are joined to which, what the title is when none was given,
//! and which messages refuse a directory or a file.

use vstd::prelude::*;
use crate::paths::{
    join, missing_file_message, not_a_file_message, spec_join, validate_file_path, PathStatus,
};
use crate::presentation::{PresentationConfig, PresentationConfigView};
use crate::seqs::{first_where, lemma_first_where_is, opt_view, opts_view, views};
use crate::slide::SlideFile;

verus! {

/// How much the program reports while it runs.
#[derive(Clone, Copy, Debug, PartialEq, Eq, Structural)]
pub enum LogLevel {
    Error,
    Warn,
    Info,
    Debug,
    Trace,
}

/// Subcommands available on the command line.
#[derive(Debug)]
pub enum Commands {
    /// Creates the presentation from a config file.
    FromConfig {
        /// Path to the config file.
        config_path: String,
    },
    /// Creates the presentation from arguments.
    FromCli {
        /// Title of the presentation to make.
        title: Option<String>,
        /// Directory to search for slides in.
        slide_dir: String,
        /// Path to the template file to use.
        template_file: String,
        /// Output directory to place the generated slides in.
        output_dir: String,
        /// Output file name to use.
        output_file: String,
    },
}

/// The arguments of the command line.
#[derive(Debug)]
pub struct CliArgs {
    /// How often the flag that asks for more reports was given.
    pub verbose: usize,
    /// What to do.
    pub command: Commands,
}

/// The level of reports for a flag given `verbose` times.
pub open spec fn spec_log_level(verbose: usize) -> LogLevel {
    if verbose == 0 {
        LogLevel::Error
    } else if verbose == 1 {
        LogLevel::Warn
    } else if verbose == 2 {
        LogLevel::Info
    } else if verbose == 3 {
        LogLevel::Debug
    } else {
        LogLevel::Trace
    }
}

impl CliArgs {
    /// Returns an appropriate log level based on the verbosity level
    /// configured.
    pub fn get_log_level(&self) -> (level: LogLevel)
        ensures
            level == spec_log_level(self.verbose),
    {
        match self.verbose {
            0 => LogLevel::Error,
            1 => LogLevel::Warn,
            2 => LogLevel::Info,
            3 => LogLevel::Debug,
            _ => LogLevel::Trace,
        }
    }
}

/// A configuration file, decoded.
#[derive(Debug)]
pub struct PresentationConfigFile {
    pub title: String,
    /// Slide directory relative to the directory of the config file.
    pub slide_dir: String,
    /// Output directory relative to the directory of the config file.
    pub output_dir: String,
    /// Name of the output file.
    pub output_file: String,
    /// Template file relative to the directory of the config file.
    pub template_file: String,
    /// Slides to include, relative to the slide directory, in the order in
    /// which they appear. When empty, the slide directory is searched.
    pub include_files: Vec<String>,
    /// Absolute path of the directory containing the config file.
    pub working_dir: String,
}

/// What a `PresentationConfigFile` holds.
pub ghost struct PresentationConfigFileView {
    pub title: Seq<char>,
    pub slide_dir: Seq<char>,
    pub output_dir: Seq<char>,
    pub output_file: Seq<char>,
    pub template_file: Seq<char>,
    pub include_files: Seq<Seq<char>>,
    pub working_dir: Seq<char>,
}

impl View for PresentationConfigFile {
    type V = PresentationConfigFileView;

    open spec fn view(&self) -> PresentationConfigFileView {
        PresentationConfigFileView {
            title: self.title@,
            slide_dir: self.slide_dir@,
            output_dir: self.output_dir@,
            output_file: self.output_file@,
            template_file: self.template_file@,
            include_files: views(self.include_files@),
            working_dir: self.working_dir@,
        }
    }
}

impl PresentationConfigFileView {
    /// The slide directory, seen from the directory of the config file.
    pub open spec fn slide_directory(self) -> Seq<char> {
        spec_join(self.working_dir, self.slide_dir)
    }

    /// The configuration with every path seen from the directory of the
    /// config file, and every slide seen from the slide directory. The name
    /// of the output file stays a name.
    pub open spec fn with_full_paths(self) -> PresentationConfigFileView {
        PresentationConfigFileView {
            slide_dir: self.slide_directory(),
            output_dir: spec_join(self.working_dir, self.output_dir),
            template_file: spec_join(self.working_dir, self.template_file),
            include_files: self.include_files.map_values(
                |file: Seq<char>| spec_join(self.slide_directory(), file),
            ),
            ..self
        }
    }
}

/// The title of a presentation that was given none.
pub open spec fn default_title() -> Seq<char> {
    "Untitled Presentation"@
}

/// Each path with its status.
pub open spec fn with_statuses(paths: Seq<Seq<char>>, statuses: Seq<PathStatus>) -> Seq<
    (Seq<char>, PathStatus),
> {
    Seq::new(paths.len(), |i: int| (paths[i], status_at(statuses, i)))
}

/// The test for a path that names no file.
pub open spec fn names_no_file() -> spec_fn((Seq<char>, PathStatus)) -> bool {
    |p: (Seq<char>, PathStatus)| p.1 != PathStatus::File
}

/// The status of the path at position `i`: missing where none is given.
pub open spec fn status_at(statuses: Seq<PathStatus>, i: int) -> PathStatus {
    if 0 <= i < statuses.len() {
        statuses[i]
    } else {
        PathStatus::Missing
    }
}

impl PresentationConfigFile {
    /// Tells whether the slide directory is searched for slides: it is when
    /// the configuration lists none.
    pub fn discovers_slides(&self) -> (r: bool)
        ensures
            r == (self@.include_files.len() == 0),
    {
        self.include_files.len() == 0
    }

    /// The slide directory, seen from the directory of the config file.
    pub fn slide_directory(&self) -> (dir: String)
        ensures
            dir@ == self@.slide_directory(),
    {
        join(self.working_dir.as_str(), self.slide_dir.as_str())
    }

    /// The slides that the configuration lists, each seen from the slide
    /// directory.
    pub fn include_paths(&self) -> (paths: Vec<String>)
        ensures
            views(paths@) == self@.with_full_paths().include_files,
    {
        let slide_dir = self.slide_directory();
        let mut paths: Vec<String> = Vec::new();
        let mut i: usize = 0;
        while i < self.include_files.len()
            invariant
                i <= self.include_files.len(),
                paths.len() == i,
                slide_dir@ == self@.slide_directory(),
                forall|j: int|
                    0 <= j < i ==> (#[trigger] paths[j])@ == spec_join(
                        slide_dir@,
                        self.include_files[j]@,
                    ),
            decreases self.include_files.len() - i,
        {
            paths.push(join(slide_dir.as_str(), self.include_files[i].as_str()));
            i += 1;
        }
        assert(views(paths@) =~= self@.with_full_paths().include_files);
        paths
    }

    /// Converts all the paths in the config to full paths, relative to the
    /// directory of the config file.
    pub fn convert_paths_to_full_paths(&mut self)
        ensures
            final(self)@ == old(self)@.with_full_paths(),
    {
        let slide_dir = self.slide_directory();
        let output_dir = join(self.working_dir.as_str(), self.output_dir.as_str());
        let template_file = join(self.working_dir.as_str(), self.template_file.as_str());
        let include_files = self.include_paths();
        self.slide_dir = slide_dir;
        self.output_dir = output_dir;
        self.template_file = template_file;
        self.include_files = include_files;
    }

    /// Validates the slides that the configuration lists, checking that each
    /// is a file. `statuses` says what each of them names on disk, in their
    /// order; a slide without a status counts as missing. The first that is
    /// no file is refused, by the message of `validate_file_path`.
    pub fn validate_include_paths(&self, statuses: &Vec<PathStatus>) -> (r: Result<(), String>)
        ensures
            match r {
                Ok(_) => first_where(
                    with_statuses(self@.include_files, statuses@),
                    names_no_file(),
                ) == self.include_files.len(),
                Err(message) => {
                    let at = first_where(
                        with_statuses(self@.include_files, statuses@),
                        names_no_file(),
                    );
                    &&& 0 <= at < self.include_files.len()
                    &&& message@ == if status_at(statuses@, at) == PathStatus::Missing {
                        missing_file_message(self.include_files[at]@)
                    } else {
                        not_a_file_message(self.include_files[at]@)
                    }
                },
            },
    {
        let ghost listed = with_statuses(self@.include_files, statuses@);
        let mut i: usize = 0;
        while i < self.include_files.len()
            invariant
                i <= self.include_files.len(),
                listed == with_statuses(self@.include_files, statuses@),
                forall|j: int| 0 <= j < i ==> !names_no_file()(#[trigger] listed[j]),
            decreases self.include_files.len() - i,
        {
            let status = if i < statuses.len() {
                statuses[i]
            } else {
                PathStatus::Missing
            };
            assert(listed[i as int] == (self.include_files[i as int]@, status));
            match validate_file_path(self.include_files[i].as_str(), status) {
                Ok(_) => {},
                Err(message) => {
                    proof {
                        lemma_first_where_is(listed, names_no_file(), i as int);
                    }
                    return Err(message);
                },
            }
            i += 1;
        }
        proof {
            lemma_first_where_is(listed, names_no_file(), i as int);
        }
        Ok(())
    }
}

/// The message for a path that names nothing.
pub open spec fn does_not_exist_message(path: Seq<char>) -> Seq<char> {
    "`"@ + path + "` does not exist"@
}

/// What `dir_exists` answers for the path `s`, of which `status` says what it
/// names, and `read_error` what went wrong when it was opened as a
/// directory, if anything did.
pub open spec fn spec_dir_exists(
    s: Seq<char>,
    status: PathStatus,
    read_error: Option<Seq<char>>,
) -> Result<Seq<char>, Seq<char>> {
    if status == PathStatus::Directory {
        match read_error {
            None => Ok(s),
            Some(e) => Err("Could not read directory `"@ + s + "`: "@ + e),
        }
    } else if status == PathStatus::Missing {
        Err(does_not_exist_message(s))
    } else {
        Err("`"@ + s + "` is not a directory"@)
    }
}

/// What `file_exists` answers for the path `s`, of which `status` says what
/// it names, and `open_error` what went wrong when it was opened, if
/// anything did.
pub open spec fn spec_file_exists(
    s: Seq<char>,
    status: PathStatus,
    open_error: Option<Seq<char>>,
) -> Result<Seq<char>, Seq<char>> {
    if status == PathStatus::File {
        match open_error {
            None => Ok(s),
            Some(e) => Err("Could not open file: `"@ + e + "`"@),
        }
    } else if status == PathStatus::Missing {
        Err(does_not_exist_message(s))
    } else {
        Err("`"@ + s + "` is not a file"@)
    }
}

/// The test for an entry that could not be read.
pub open spec fn is_failed_entry() -> spec_fn(Option<Seq<char>>) -> bool {
    |entry: Option<Seq<char>>| entry is Some
}

/// What `validate_slide_dir` answers for the directory `s`. `entries` holds
/// one value for each entry of the directory: what went wrong when the entry
/// was read, if anything did. The first entry only shows that the directory
/// is not empty; of the others, the first that failed is reported.
pub open spec fn spec_validate_slide_dir(
    s: Seq<char>,
    status: PathStatus,
    read_error: Option<Seq<char>>,
    entries: Seq<Option<Seq<char>>>,
) -> Result<Seq<char>, Seq<char>> {
    match spec_dir_exists(s, status, read_error) {
        Err(message) => Err(message),
        Ok(_) => {
            let others = entries.skip(1);
            let failed = first_where(others, is_failed_entry());
            if entries.len() == 0 {
                Err("`"@ + s + "` is empty"@)
            } else if failed < others.len() {
                Err(others[failed]->0)
            } else {
                Ok(s)
            }
        },
    }
}

/// The view of an answer that is a path or a message.
pub open spec fn answer_view(r: Result<String, String>) -> Result<Seq<char>, Seq<char>> {
    match r {
        Ok(path) => Ok(path@),
        Err(message) => Err(message@),
    }
}

/// `text` after `before` and in front of `after`.
fn framed(before: &str, text: &str, after: &str) -> (message: String)
    ensures
        message@ == before@ + text@ + after@,
{
    let mut message = before.to_owned();
    message.append(text);
    message.append(after);
    message
}

/// Checks if the given path is a directory, exists and can be read, going by
/// what was found of it.
pub fn dir_exists(s: &str, status: PathStatus, read_error: &Option<String>) -> (r: Result<
    String,
    String,
>)
    ensures
        answer_view(r) == spec_dir_exists(s@, status, opt_view(*read_error)),
{
    if status == PathStatus::Directory {
        match read_error {
            None => Ok(s.to_owned()),
            Some(e) => {
                let mut message = framed("Could not read directory `", s, "`: ");
                message.append(e.as_str());
                Err(message)
            },
        }
    } else if status == PathStatus::Missing {
        Err(framed("`", s, "` does not exist"))
    } else {
        Err(framed("`", s, "` is not a directory"))
    }
}

/// Checks if the given path is a file, exists and can be read, going by what
/// was found of it.
pub fn file_exists(s: &str, status: PathStatus, open_error: &Option<String>) -> (r: Result<
    String,
    String,
>)
    ensures
        answer_view(r) == spec_file_exists(s@, status, opt_view(*open_error)),
{
    if status == PathStatus::File {
        match open_error {
            None => Ok(s.to_owned()),
            Some(e) => {
                Err(framed("Could not open file: `", e.as_str(), "`"))
            },
        }
    } else if status == PathStatus::Missing {
        Err(framed("`", s, "` does not exist"))
    } else {
        Err(framed("`", s, "` is not a file"))
    }
}

/// Checks if the slide directory is a directory, exists, can be read and
/// holds something, going by what was found of it.
pub fn validate_slide_dir(
    slide_dir: &str,
    status: PathStatus,
    read_error: &Option<String>,
    entries: &Vec<Option<String>>,
) -> (r: Result<String, String>)
    ensures
        answer_view(r) == spec_validate_slide_dir(
            slide_dir@,
            status,
            opt_view(*read_error),
            opts_view(entries@),
        ),
{
    let path = match dir_exists(slide_dir, status, read_error) {
        Err(message) => {
            return Err(message);
        },
        Ok(path) => path,
    };
    if entries.len() == 0 {
        return Err(framed("`", slide_dir, "` is empty"));
    }
    let ghost others = opts_view(entries@).skip(1);
    let mut i: usize = 1;
    while i < entries.len()
        invariant
            1 <= i <= entries.len(),
            spec_dir_exists(slide_dir@, status, opt_view(*read_error)) is Ok,
            others == opts_view(entries@).skip(1),
            forall|j: int| 0 <= j < i - 1 ==> !is_failed_entry()(#[trigger] others[j]),
        decreases entries.len() - i,
    {
        assert(others[i - 1] == opt_view(entries[i as int]));
        match &entries[i] {
            Some(e) => {
                proof {
                    lemma_first_where_is(others, is_failed_entry(), i - 1);
                }
                return Err(e.clone());
            },
            None => {},
        }
        i += 1;
    }
    proof {
        lemma_first_where_is(others, is_failed_entry(), i - 1);
    }
    Ok(path)
}

impl PresentationConfig {
    /// Creates a new `PresentationConfig` from its parts.
    pub fn new(
        title: String,
        output_dir: String,
        output_filename: String,
        template_file: String,
        slides: Vec<SlideFile>,
    ) -> (config: Self)
        ensures
            config@ == (PresentationConfigView {
                title: title@,
                output_dir: output_dir@,
                output_filename: output_filename@,
                template_file: template_file@,
                slides: views(slides@),
            }),
    {
        PresentationConfig { title, output_dir, output_filename, template_file, slides }
    }

    /// The presentation that a configuration file describes, once its slides
    /// are ready: the output directory and the template are seen from the
    /// directory of the config file.
    pub fn from_config_file(config: PresentationConfigFile, slides: Vec<SlideFile>) -> (r: Self)
        ensures
            r@ == (PresentationConfigView {
                title: config.title@,
                output_dir: spec_join(config.working_dir@, config.output_dir@),
                output_filename: config.output_file@,
                template_file: spec_join(config.working_dir@, config.template_file@),
                slides: views(slides@),
            }),
    {
        let output_dir = join(config.working_dir.as_str(), config.output_dir.as_str());
        let template_file = join(config.working_dir.as_str(), config.template_file.as_str());
        PresentationConfig {
            title: config.title,
            output_dir,
            output_filename: config.output_file,
            template_file,
            slides,
        }
    }

    /// The presentation that the arguments of the command line describe, once
    /// its slides are ready: the output directory and the template are seen
    /// from the working directory `cwd`, and a presentation without a title
    /// is called `Untitled Presentation`.
    pub fn from_cli(
        cwd: &str,
        title: Option<String>,
        template_file: &str,
        output_dir: &str,
        output_file: String,
        slides: Vec<SlideFile>,
    ) -> (r: Self)
        ensures
            r@ == (PresentationConfigView {
                title: match title {
                    Some(t) => t@,
                    None => default_title(),
                },
                output_dir: spec_join(cwd@, output_dir@),
                output_filename: output_file@,
                template_file: spec_join(cwd@, template_file@),
                slides: views(slides@),
            }),
    {
        let title = match title {
            Some(title) => title,
            None => "Untitled Presentation".to_owned(),
        };
        PresentationConfig {
            title,
            output_dir: join(cwd, output_dir),
            output_filename: output_file,
            template_file: join(cwd, template_file),
            slides,
        }
    }
}

} // verus!
