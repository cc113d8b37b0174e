//! The configuration of one search: how it is resolved from the argument
//! list and the environment, and which search it selects.

use crate::search::{
    found, found_ignoring_case, matches_exactly, matches_ignoring_case, search,
    search_case_insensitive,
};
use crate::selection::selects;
use crate::text::{line_views, lines_of};
use vstd::prelude::*;

verus! {

/// The name of the environment variable whose presence, whatever its value,
/// makes the search case-insensitive.
pub const CASE_INSENSITIVE: &'static str = "CASE_INSENSITIVE";

/// Why no configuration could be resolved.
#[derive(Debug, Clone, Copy, PartialEq, Eq)]
pub enum ConfigError {
    /// Fewer than three arguments were given. The program's name, the query
    /// and the file's name are all needed.
    NotEnoughArguments,
}

impl ConfigError {
    /// The fixed message that describes this error.
    pub fn message(&self) -> (text: &'static str)
        ensures
            text@ == "not enough arguments"@,
    {
        "not enough arguments"
    }
}

/// What to search for, in which file, and under which case policy.
#[derive(Debug, PartialEq, Eq)]
pub struct Config {
    pub query: String,
    pub filename: String,
    pub case_sensitive: bool,
}

/// A [`Config`] as mathematical values.
pub struct ConfigView {
    pub query: Seq<char>,
    pub filename: Seq<char>,
    pub case_sensitive: bool,
}

impl View for Config {
    type V = ConfigView;

    open spec fn view(&self) -> ConfigView {
        ConfigView {
            query: self.query@,
            filename: self.filename@,
            case_sensitive: self.case_sensitive,
        }
    }
}

/// The test a line passes under the case policy of `config`.
pub open spec fn matches_under(config: ConfigView) -> spec_fn(Seq<char>) -> bool {
    if config.case_sensitive {
        matches_exactly(config.query)
    } else {
        matches_ignoring_case(config.query)
    }
}

/// The lines that a run with `config` reports for a file that holds
/// `contents`: what the search selected by the case policy finds.
pub open spec fn reported(config: ConfigView, contents: Seq<char>) -> Seq<Seq<char>> {
    if config.case_sensitive {
        found(config.query, contents)
    } else {
        found_ignoring_case(config.query, contents)
    }
}

impl Config {
    /// Resolves a configuration from the argument list `args`, whose first
    /// entry is the program's name, and from `is_set`, which tells whether
    /// the environment holds a variable of a given name.
    ///
    /// With fewer than three arguments there is nothing to resolve, and the
    /// environment is not consulted. Otherwise the query and the file's name
    /// are the second and the third argument as they stand, further
    /// arguments are ignored, and the search is case-sensitive unless
    /// `is_set` answers that [`CASE_INSENSITIVE`] is present.
    pub fn new<F: Fn(&str) -> bool>(args: &[String], is_set: F) -> (result: Result<
        Config,
        ConfigError,
    >)
        requires
            is_set.requires((CASE_INSENSITIVE,)),
        ensures
            args@.len() < 3 <==> result is Err,
            result is Err ==> result->Err_0 == ConfigError::NotEnoughArguments,
            result is Ok ==> result->Ok_0@.query == args@[1]@,
            result is Ok ==> result->Ok_0@.filename == args@[2]@,
            result is Ok ==> is_set.ensures((CASE_INSENSITIVE,), !result->Ok_0@.case_sensitive),
    {
        if args.len() < 3 {
            return Err(ConfigError::NotEnoughArguments);
        }
        let query = args[1].clone();
        let filename = args[2].clone();
        let case_sensitive = !is_set(CASE_INSENSITIVE);
        Ok(Config { query, filename, case_sensitive })
    }
}

/// Runs the search that `config` selects over `contents`, the text of the
/// file that `config` names, and returns the lines to report, in order:
/// the exact search where `config` is case-sensitive, the case-insensitive
/// one where it is not. That no line matches is no failure.
pub fn run<'a>(config: &Config, contents: &'a str) -> (lines: Vec<&'a str>)
    ensures
        line_views(lines@) == reported(config@, contents@),
        selects(line_views(lines@), lines_of(contents@), matches_under(config@)),
{
    if config.case_sensitive {
        search(config.query.as_str(), contents)
    } else {
        search_case_insensitive(config.query.as_str(), contents)
    }
}

} // verus!
