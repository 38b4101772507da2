//! Command-line argument parsing: at most one flag or session name.

use vstd::prelude::*;

use crate::error::Error;
use crate::text::str_eq;

verus! {

/// What the user asked for on the command line.
#[derive(Debug, Clone, Copy, PartialEq, Eq, Structural)]
pub enum Action {
    Add,
    Help,
    List,
}

/// Parses given arguments and checks for arguments conditions.
#[derive(Debug)]
pub struct Args {
    pub action: Option<Action>,
    pub session: Option<String>,
}

/// The argument is a help flag.
pub open spec fn is_help_flag(w: Seq<char>) -> bool {
    w == "-h"@ || w == "--help"@
}

/// The argument is an add flag.
pub open spec fn is_add_flag(w: Seq<char>) -> bool {
    w == "-a"@ || w == "--add"@
}

/// The argument is a list flag.
pub open spec fn is_list_flag(w: Seq<char>) -> bool {
    w == "-l"@ || w == "--list"@
}

impl Args {
    /// Parses the arguments as handed to the process, program name
    /// first: at most one flag or session name is accepted.
    pub fn parse(args: Vec<String>) -> (r: Result<Args, Error>)
        ensures
            args@.len() > 2 ==> (r matches Err(e) && e matches Error::Msg(m) && m@
                == "Invalid number of arguments"@),
            args@.len() <= 1 ==> (r matches Ok(a) && a.action is None && a.session is None),
            args@.len() == 2 ==> {
                let w = args@[1]@;
                &&& is_help_flag(w) ==> (r matches Ok(a) && a.action == Some(Action::Help)
                    && a.session is None)
                &&& is_add_flag(w) ==> (r matches Ok(a) && a.action == Some(Action::Add)
                    && a.session is None)
                &&& is_list_flag(w) ==> (r matches Ok(a) && a.action == Some(Action::List)
                    && a.session is None)
                &&& !is_help_flag(w) && !is_add_flag(w) && !is_list_flag(w) ==> (r matches Ok(a)
                    && a.action is None && (a.session matches Some(n) && n@ == w))
            },
    {
        proof {
            broadcast use vstd::string::group_string_axioms;

            reveal_strlit("-h");
            reveal_strlit("--help");
            reveal_strlit("-a");
            reveal_strlit("--add");
            reveal_strlit("-l");
            reveal_strlit("--list");
            assert("-h"@[1] == 'h' && "-a"@[1] == 'a' && "-l"@[1] == 'l');
            assert("--help"@[2] == 'h' && "--add"@[2] == 'a' && "--list"@[2] == 'l');
        }
        if args.len() > 2 {
            return Err(Error::Msg(String::from_str("Invalid number of arguments")));
        }
        if args.len() <= 1 {
            return Ok(Args { action: None, session: None });
        }
        let a = &args[1];
        if str_eq(a.as_str(), "-h") || str_eq(a.as_str(), "--help") {
            Ok(Args { action: Some(Action::Help), session: None })
        } else if str_eq(a.as_str(), "-a") || str_eq(a.as_str(), "--add") {
            Ok(Args { action: Some(Action::Add), session: None })
        } else if str_eq(a.as_str(), "-l") || str_eq(a.as_str(), "--list") {
            Ok(Args { action: Some(Action::List), session: None })
        } else {
            Ok(Args { action: None, session: Some(a.clone()) })
        }
    }
}

} // verus!
