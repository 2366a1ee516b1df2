//! The command-line arguments of the program.

use vstd::prelude::*;

verus! {

/// The command-line arguments passed into the program.
#[derive(Debug)]
pub struct Args {
    /// The file to be edited.
    pub file: String,
}

/// Why the command-line arguments could not be taken.
#[derive(Debug, Clone, Copy, PartialEq, Eq, Structural)]
pub enum ArgsError {
    /// No file to edit was named.
    MissingFile,
}

impl ArgsError {
    /// What to tell the user.
    pub fn message(&self) -> (r: &'static str)
        ensures
            r@ == "Expected to be passed a file name"@,
    {
        "Expected to be passed a file name"
    }
}

impl Args {
    /// The arguments of the program, from the words of its command line:
    /// the first word is the name of the program, and the second is the
    /// file to edit, which has to be there. Further words are not looked at.
    pub fn parse_args(args: &Vec<String>) -> (r: Result<Args, ArgsError>)
        ensures
            args@.len() >= 2 ==> r is Ok && r->Ok_0.file@ == args@[1]@,
            args@.len() < 2 ==> r == Err::<Args, ArgsError>(ArgsError::MissingFile),
    {
        if args.len() >= 2 {
            Ok(Args { file: args[1].clone() })
        } else {
            Err(ArgsError::MissingFile)
        }
    }
}

} // verus!
