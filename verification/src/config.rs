//! Resolving the command-line arguments into a search configuration.

use vstd::prelude::*;
use crate::text::str_eq;

verus! {

/// The configuration of one run: what to search for, where, and how to
/// compare. Immutable once built.
#[derive(Debug)]
pub struct Config {
    pub query: String,
    pub file_path: String,
    pub ignore_case: bool,
}

impl Config {
    /// Resolves an argument list (the program name at index 0) into a
    /// configuration.
    ///
    /// The flag slot is always index 1 and the query and file path are
    /// always read from indices 2 and 3, so a caller must never pass
    /// exactly three arguments: that count would read past the end of the
    /// list. With four arguments the second must be the literal flag `-c`,
    /// which turns lowercased comparison off; any further arguments are
    /// ignored.
    pub fn build(args: &[String]) -> (r: Result<Config, &'static str>)
        requires
            args@.len() != 3,
        ensures
            r is Ok <==> (args@.len() >= 4 && (args@.len() == 4 ==> args@[1]@ == "-c"@)),
            r matches Ok(c) ==> {
                &&& c.query@ == args@[2]@
                &&& c.file_path@ == args@[3]@
                &&& c.ignore_case == (args@.len() != 4)
            },
            args@.len() < 3 ==> (r matches Err(e) && e@ == "not enough arguments"@),
            (args@.len() == 4 && args@[1]@ != "-c"@) ==> (r matches Err(e) && e@
                == "Usage: minigrep [-c] <query> <file>"@),
    {
        if args.len() < 3 {
            return Err("not enough arguments");
        }
        let mut ignore_case = true;
        if args.len() == 4 {
            if str_eq(args[1].as_str(), "-c") {
                ignore_case = false;
            } else {
                return Err("Usage: minigrep [-c] <query> <file>");
            }
        }
        let query = args[2].clone();
        let file_path = args[3].clone();
        Ok(Config { query, file_path, ignore_case })
    }
}

} // verus!
