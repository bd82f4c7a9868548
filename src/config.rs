//! The configuration of one search, taken from the command line.

use vstd::prelude::*;

verus! {

/// What went wrong while building a configuration.
#[derive(Debug, PartialEq, Eq, Structural)]
pub enum ConfigError {
    /// The query or the file name was not given.
    MissingArguments,
}

impl ConfigError {
    /// A message for the user.
    pub fn message(&self) -> (r: &'static str)
        ensures
            r@ == "Some arguments appear to be missing"@,
    {
        match self {
            ConfigError::MissingArguments => "Some arguments appear to be missing",
        }
    }
}

/// One search: the term searched for, the file searched, and whether case
/// matters.
pub struct Config {
    pub query: String,
    pub filename: String,
    pub case_sensitive: bool,
}

impl Config {
    /// Builds a configuration from the program's arguments (the program's own
    /// path, then the query, then the file name; more are ignored).
    /// `case_insensitive` tells whether case-insensitive search was asked for;
    /// otherwise the search is case-sensitive.
    pub fn new(args: &[String], case_insensitive: bool) -> (r: Result<Config, ConfigError>)
        ensures
            r is Err <==> args.len() < 3,
            r is Err ==> r->Err_0 == ConfigError::MissingArguments,
            r matches Ok(c) ==> {
                &&& c.query@ == args@[1]@
                &&& c.filename@ == args@[2]@
                &&& c.case_sensitive == !case_insensitive
            },
    {
        if args.len() < 3 {
            return Err(ConfigError::MissingArguments);
        }
        let query = args[1].clone();
        let filename = args[2].clone();
        Ok(Config { query, filename, case_sensitive: !case_insensitive })
    }
}

} // verus!
