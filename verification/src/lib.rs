//! Smart find: finds files below a set of folders by name, size and time,
//! and looks inside them for fixed strings and regular expressions.
//!
//! The library holds the rules of a search and leaves the reading of the
//! file system to its user:
//!
//! - [`escape`] translates globs and fixed strings into regular
//!   expressions, and [`matcher`] compiles and runs them;
//! - [`find_files`] walks the folders of a search breadth-first, told by
//!   its user what each folder holds; [`walk`] states the rules of the walk
//!   and their laws;
//! - [`patterns`] finds the matches of all search patterns in a line,
//!   [`colour`] colours them, [`output_line`] lays out a line of output, and
//!   [`grep_in_file`] searches the lines of a file and keeps track of the
//!   lines to show around a match;
//! - [`command_options`] and [`config_json`] hold the request and the prune
//!   rules.

pub mod colour;
pub mod command_options;
pub mod config_json;
pub mod escape;
pub mod find_files;
pub mod grep_in_file;
pub mod lines;
pub mod matcher;
pub mod output_line;
pub mod patterns;
pub mod text;
pub mod walk;

pub use colour::colour_match_line;
pub use command_options::CommandOptions;
pub use config_json::AppConfig;
pub use config_json::ConfigJson;
pub use find_files::FindFiles;
pub use find_files::PathToScan;
pub use grep_in_file::GrepInFile;
pub use patterns::GrepMatch;
pub use patterns::GrepPatterns;
