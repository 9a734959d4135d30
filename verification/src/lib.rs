//! Assembles an ordered set of markdown slides into one rendered document and
//! relocates the local images they reference, so that the result can be moved
//! as a whole.
//!
//! The work goes through these steps, each in a module of its own:
//!
//! - `discovery` finds the slides among the entries of a directory and puts
//!   them in order, by the integer or by the name that their file names start
//!   with (`index`, `natural`, `ordering`);
//! - `parsing` reads the image references out of a slide's markdown and tells
//!   local from remote ones;
//! - `slide` gives each local image of a slide its place below the output
//!   directory, rewrites the references and renders the slide;
//! - `presentation` says what the template engine is to be asked, takes its
//!   answer, and lays out what has to be written and copied to package the
//!   whole;
//! - `ui` turns the values of the command line or of a configuration file
//!   into a presentation.
//!
//! The library reads and writes no file and runs no template engine. What
//! is on disk is handed to it as plain values, and what has to be done there,
//! or asked of the engine, is handed back as values too. `paths` and `text`
//! hold what it needs to work on paths as text, `seqs` a few facts about
//! sequences, and `errors` what it reports.

pub mod discovery;
pub mod errors;
pub mod index;
pub mod natural;
pub mod ordering;
pub mod parsing;
pub mod paths;
pub mod presentation;
pub mod seqs;
pub mod slide;
pub mod text;
pub mod ui;
