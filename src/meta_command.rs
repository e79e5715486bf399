//! Meta-commands: administrative directives that start with a `.`.
use vstd::prelude::*;

verus! {

/// The type of a meta-command.
#[derive(Clone, Copy, Debug, PartialEq, Eq, Structural)]
pub enum MetaCommandType {
    Exit,
}

/// Why a line is not a meta-command.
#[derive(Debug, PartialEq)]
pub enum MetaCommandError {
    UnrecognizedCommand(String),
}

/// The description of an unrecognized meta-command `line`.
pub open spec fn meta_error_text(line: Seq<char>) -> Seq<char> {
    "unrecognized command '"@ + line + "'"@
}

impl MetaCommandError {
    /// A description of the failure, for diagnostics.
    pub fn describe(&self) -> (r: String)
        ensures
            match self {
                MetaCommandError::UnrecognizedCommand(line) => r@ == meta_error_text(line@),
            },
    {
        match self {
            MetaCommandError::UnrecognizedCommand(line) => {
                let mut s = String::from_str("unrecognized command '");
                s.append(line.as_str());
                s.append("'");
                s
            },
        }
    }
}

/// Interprets a whole line as a meta-command: only `.exit` is one.
pub fn do_meta_command(input_line: &str) -> (r: Result<MetaCommandType, MetaCommandError>)
    ensures
        match r {
            Ok(c) => input_line@ == ".exit"@ && c == MetaCommandType::Exit,
            Err(MetaCommandError::UnrecognizedCommand(line)) => input_line@ != ".exit"@
                && line@ == input_line@,
        },
{
    if String::from_str(input_line) == String::from_str(".exit") {
        Ok(MetaCommandType::Exit)
    } else {
        Err(MetaCommandError::UnrecognizedCommand(String::from_str(input_line)))
    }
}

} // verus!
