//! Diagnostics pipeline of a Twee v3 compiler: what the parser found is
//! filtered by the allow and deny lists, ordered by source position and laid
//! out as a report, and the run is judged a success or a failure.
//!
//! The parser itself, the terminal and the file system stay outside. The
//! parser's findings come in as plain values ([`findings`], [`context`],
//! [`code_map`]), and the report goes out as plain values ([`diagnostic`]).
//!
//! - [`issue`] classifies the warnings and joins the errors to them;
//!   [`order`] holds the comparison by place and [`sort`] the stable sort.
//! - [`report`] lays one issue out, [`linter`] a whole run.
//! - [`suggest`] proposes a passage of similar name for a dead link and the
//!   mended link for one with white space in it; [`text`] searches and trims.
//! - [`story_files`] answers what a renderer asks of the sources.
//! - [`config`] lays the command line over the configuration file and
//!   [`paths`] reads its format paths; [`story_format`] and [`output`] find
//!   the declaration of a story format and fill its page.
//!
//! Every function is verified against its contract. One answer is taken on
//! trust and named: the similarity of two names as `strsim` computes it
//! ([`suggest::jaro_winkler_bits`]).
pub mod code_map;
pub mod config;
pub mod context;
pub mod diagnostic;
pub mod findings;
pub mod issue;
pub mod linter;
pub mod order;
pub mod output;
pub mod paths;
pub mod report;
pub mod sort;
pub mod story_files;
pub mod story_format;
pub mod suggest;
pub mod text;

pub use config::CliConfig;
pub use config::Config;
pub use config::ConfigFile;
pub use findings::StoryResult;
pub use issue::Issue;
pub use story_files::StoryFiles;
pub use story_format::StoryFormat;
