//! The settings of one search, drawn from the invocation's arguments.
use vstd::prelude::*;

verus! {

/// An argument that the invocation must supply.
#[derive(Debug, Clone, Copy, PartialEq, Eq, Structural)]
pub enum Argument {
    Query,
    FilePath,
}

/// Why the settings could not be drawn from the arguments.
#[derive(Debug, Clone, Copy, PartialEq, Eq, Structural)]
pub enum ConfigError {
    MissingArgument(Argument),
}

impl ConfigError {
    /// A sentence that tells the user what is missing.
    pub fn message(&self) -> (r: &'static str)
        ensures
            *self == ConfigError::MissingArgument(Argument::Query) ==> r@
                == "Didn't get a query string"@,
            *self == ConfigError::MissingArgument(Argument::FilePath) ==> r@
                == "Didn't get a file path"@,
    {
        match self {
            ConfigError::MissingArgument(Argument::Query) => "Didn't get a query string",
            ConfigError::MissingArgument(Argument::FilePath) => "Didn't get a file path",
        }
    }
}

/// What to search for, where, and whether letter case is ignored.
#[derive(Debug)]
pub struct Config {
    pub query: String,
    pub file_path: String,
    pub ignore_case: bool,
}

impl Config {
    /// Draws the settings from `args`, whose first element names the program and is passed
    /// over; the next two are the query and the file path. `ignore_case` is whether the
    /// environment asks for case-insensitive search.
    pub fn build(args: &[String], ignore_case: bool) -> (r: Result<Config, ConfigError>)
        ensures
            args@.len() < 2 ==> r == Err::<Config, ConfigError>(
                ConfigError::MissingArgument(Argument::Query),
            ),
            args@.len() == 2 ==> r == Err::<Config, ConfigError>(
                ConfigError::MissingArgument(Argument::FilePath),
            ),
            args@.len() >= 3 ==> r is Ok,
            r matches Ok(c) ==> c.query@ == args@[1]@ && c.file_path@ == args@[2]@
                && c.ignore_case == ignore_case,
    {
        if args.len() < 2 {
            return Err(ConfigError::MissingArgument(Argument::Query));
        }
        let query = args[1].clone();
        if args.len() < 3 {
            return Err(ConfigError::MissingArgument(Argument::FilePath));
        }
        let file_path = args[2].clone();
        Ok(Config { query, file_path, ignore_case })
    }
}

} // verus!
