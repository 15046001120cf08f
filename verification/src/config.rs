//! The validated configuration: which inputs to read and how to number lines.

use vstd::prelude::*;

verus! {

/// An error found while validating the command-line arguments.
#[derive(Debug, PartialEq, Eq)]
pub enum ArgError {
    /// Numbering every line and numbering only nonblank lines were both
    /// requested; the two modes are mutually exclusive.
    ConflictingNumberFlags,
}

impl ArgError {
    /// A human-readable description of the error, for the usage message.
    pub fn message(&self) -> (m: String)
        ensures
            m@ == "the options to number all lines and to number only nonblank lines cannot be combined"@,
    {
        String::from_str("the options to number all lines and to number only nonblank lines cannot be combined")
    }
}

/// The configuration of one run: the input names, in order, and the numbering
/// mode. `"-"` among the inputs names standard input. At most one of the two
/// numbering flags is set.
#[derive(Debug)]
pub struct Config {
    pub files: Vec<String>,
    pub number_lines: bool,
    pub number_nonblank_lines: bool,
}

impl Config {
    /// The two numbering modes exclude each other, and there is always at
    /// least one input to read.
    pub open spec fn wf(&self) -> bool {
        &&& !(self.number_lines && self.number_nonblank_lines)
        &&& self.files@.len() > 0
    }

    /// The input names, as sequences of characters.
    pub open spec fn spec_files(&self) -> Seq<Seq<char>> {
        self.files@.map_values(|s: String| s@)
    }

    /// Validates the raw argument values into a configuration. The two
    /// numbering flags conflict; when no input is named, standard input
    /// (written `"-"`) is read.
    pub fn new(files: Vec<String>, number_lines: bool, number_nonblank_lines: bool) -> (r: Result<
        Config,
        ArgError,
    >)
        ensures
            r is Err <==> (number_lines && number_nonblank_lines),
            r matches Ok(c) ==> {
                &&& c.wf()
                &&& c.number_lines == number_lines
                &&& c.number_nonblank_lines == number_nonblank_lines
                &&& files@.len() > 0 ==> c.spec_files() == files@.map_values(|s: String| s@)
                &&& files@.len() == 0 ==> c.spec_files() =~= seq!["-"@]
            },
    {
        if number_lines && number_nonblank_lines {
            Err(ArgError::ConflictingNumberFlags)
        } else {
            let mut files = files;
            if files.len() == 0 {
                files.push(String::from_str("-"));
            }
            Ok(Config { files, number_lines, number_nonblank_lines })
        }
    }
}

} // verus!
