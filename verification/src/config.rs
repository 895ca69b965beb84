//! Building and validating the configuration of one search run from the raw
//! argument list: the query, the file path, and the case-sensitivity flag.

use vstd::prelude::*;

use crate::fold::fold_seq;
use crate::fold::lower_str;

verus! {

/// The validated inputs of one search run.
#[derive(Debug)]
pub struct Config {
    /// The text to look for.
    pub query: String,
    /// The path of the file to search; whether it can be read is only found
    /// out when it is opened.
    pub filename: String,
    /// When set, lines must contain the query exactly; when unset, matching
    /// is case-insensitive. Unset by default.
    pub case_sensitive: bool,
}

/// Why an argument list was rejected.
#[derive(Debug, PartialEq, Eq)]
pub enum ConfigError {
    /// Fewer than three tokens: the program name, the query and the file
    /// path are all needed.
    TooFewArguments,
    /// More than four tokens: nothing is accepted after the flag.
    TooManyArguments,
    /// The fourth token, carried here verbatim, is not a recognized flag
    /// value.
    InvalidFlagValue(String),
}

/// The case-folded flag values that set the flag to true.
pub open spec fn is_truthy(folded: Seq<char>) -> bool {
    folded == "true"@ || folded == "yes"@ || folded == "y"@
}

/// The case-folded flag values that set the flag to false.
pub open spec fn is_falsy(folded: Seq<char>) -> bool {
    folded == "false"@ || folded == "no"@ || folded == "n"@
}

impl Config {
    /// Parses the optional final argument: its case-folded form must read
    /// true/yes/y or false/no/n; anything else is rejected, and the rejection
    /// carries the offending token.
    pub fn parse_final_arg(arg: String) -> (r: Result<bool, ConfigError>)
        ensures
            is_truthy(fold_seq(arg@)) ==> r == Ok::<bool, ConfigError>(true),
            is_falsy(fold_seq(arg@)) ==> r == Ok::<bool, ConfigError>(false),
            !is_truthy(fold_seq(arg@)) && !is_falsy(fold_seq(arg@)) ==> (r matches Err(
                ConfigError::InvalidFlagValue(t),
            ) && t == arg),
    {
        proof {
            reveal_strlit("true");
            reveal_strlit("yes");
            reveal_strlit("y");
            reveal_strlit("false");
            reveal_strlit("no");
            reveal_strlit("n");
            assert("true"@.len() == 4 && "yes"@.len() == 3 && "y"@.len() == 1);
            assert("false"@.len() == 5 && "no"@.len() == 2 && "n"@.len() == 1);
            assert("y"@[0] == 'y' && "n"@[0] == 'n');
        }
        let folded = lower_str(arg.as_str());
        if folded == String::from_str("true") || folded == String::from_str("yes") || folded
            == String::from_str("y") {
            Ok(true)
        } else if folded == String::from_str("false") || folded == String::from_str("no") || folded
            == String::from_str("n") {
            Ok(false)
        } else {
            Err(ConfigError::InvalidFlagValue(arg))
        }
    }

    /// Builds a configuration from exactly three or four tokens: program
    /// name, query, file path, and the optional case flag, which defaults to
    /// unset.
    pub fn parse_args(args: &[String]) -> (r: Result<Config, ConfigError>)
        requires
            args@.len() >= 3,
        ensures
            args@.len() == 3 ==> (r matches Ok(c) && c.query == args@[1] && c.filename == args@[2]
                && c.case_sensitive == false),
            args@.len() == 4 && is_truthy(fold_seq(args@[3]@)) ==> (r matches Ok(c) && c.query
                == args@[1] && c.filename == args@[2] && c.case_sensitive == true),
            args@.len() == 4 && is_falsy(fold_seq(args@[3]@)) ==> (r matches Ok(c) && c.query
                == args@[1] && c.filename == args@[2] && c.case_sensitive == false),
            args@.len() == 4 && !is_truthy(fold_seq(args@[3]@)) && !is_falsy(fold_seq(args@[3]@))
                ==> (r matches Err(ConfigError::InvalidFlagValue(t)) && t == args@[3]),
            args@.len() > 4 ==> r == Err::<Config, ConfigError>(ConfigError::TooManyArguments),
    {
        let query = args[1].clone();
        let filename = args[2].clone();
        if args.len() == 3 {
            return Ok(Config { query, filename, case_sensitive: false });
        } else if args.len() == 4 {
            return match Self::parse_final_arg(args[3].clone()) {
                Err(e) => Err(e),
                Ok(flag) => Ok(Config { query, filename, case_sensitive: flag }),
            };
        }
        Err(ConfigError::TooManyArguments)
    }

    /// Validates the argument count, then parses: fewer than three tokens
    /// are too few, more than four too many, and in between the tokens are
    /// taken as query, file path and optional flag.
    pub fn build(args: &[String]) -> (r: Result<Config, ConfigError>)
        ensures
            args@.len() < 3 ==> r == Err::<Config, ConfigError>(ConfigError::TooFewArguments),
            args@.len() == 3 ==> (r matches Ok(c) && c.query == args@[1] && c.filename == args@[2]
                && c.case_sensitive == false),
            args@.len() == 4 && is_truthy(fold_seq(args@[3]@)) ==> (r matches Ok(c) && c.query
                == args@[1] && c.filename == args@[2] && c.case_sensitive == true),
            args@.len() == 4 && is_falsy(fold_seq(args@[3]@)) ==> (r matches Ok(c) && c.query
                == args@[1] && c.filename == args@[2] && c.case_sensitive == false),
            args@.len() == 4 && !is_truthy(fold_seq(args@[3]@)) && !is_falsy(fold_seq(args@[3]@))
                ==> (r matches Err(ConfigError::InvalidFlagValue(t)) && t == args@[3]),
            args@.len() > 4 ==> r == Err::<Config, ConfigError>(ConfigError::TooManyArguments),
    {
        if args.len() < 3 {
            return Err(ConfigError::TooFewArguments);
        }
        Self::parse_args(args)
    }
}

} // verus!
