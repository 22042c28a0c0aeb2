//! The errors of each stage: lexing, parsing, assembling and running.
use vstd::prelude::*;
use crate::text::{concat3, concat4, decimal, decimal_digits, hex, hex_text};

verus! {

#[derive(Debug)]
pub enum SimError {
    Lex { line: usize, col: usize, msg: String },
    Parse { line: usize, msg: String },
    Assemble { msg: String },
    Runtime { rip: u64, msg: String },
}

/// An error as the contracts state it: the stage, the position and the message.
pub enum Fault {
    Lex { line: usize, col: usize, msg: Seq<char> },
    Parse { line: usize, msg: Seq<char> },
    Assemble { msg: Seq<char> },
    Runtime { rip: u64, msg: Seq<char> },
}

impl View for SimError {
    type V = Fault;

    open spec fn view(&self) -> Fault {
        match self {
            SimError::Lex { line, col, msg } => Fault::Lex { line: *line, col: *col, msg: msg@ },
            SimError::Parse { line, msg } => Fault::Parse { line: *line, msg: msg@ },
            SimError::Assemble { msg } => Fault::Assemble { msg: msg@ },
            SimError::Runtime { rip, msg } => Fault::Runtime { rip: *rip, msg: msg@ },
        }
    }
}

/// One line naming the stage, the position and the message of an error.
pub open spec fn fault_text(f: Fault) -> Seq<char> {
    match f {
        Fault::Lex { line, col, msg } => "lex error at "@ + decimal_digits(line as nat) + ":"@
            + decimal_digits(col as nat) + ": "@ + msg,
        Fault::Parse { line, msg } => "parse error at line "@ + decimal_digits(line as nat) + ": "@ + msg,
        Fault::Assemble { msg } => "assemble error: "@ + msg,
        Fault::Runtime { rip, msg } => "runtime error at rip="@ + hex_text(rip as nat) + ": "@ + msg,
    }
}

impl SimError {
    /// The error's message, without the stage and position.
    pub open spec fn message(&self) -> Seq<char> {
        match self {
            SimError::Lex { msg, .. } => msg@,
            SimError::Parse { msg, .. } => msg@,
            SimError::Assemble { msg } => msg@,
            SimError::Runtime { msg, .. } => msg@,
        }
    }

    /// One line naming the stage, the position and the message.
    pub fn to_string(&self) -> (s: String)
        ensures
            s@ == fault_text(self@),
    {
        match self {
            SimError::Lex { line, col, msg } => {
                let pos = concat3(decimal(*line as u64).as_str(), ":", decimal(*col as u64).as_str());
                concat4("lex error at ", pos.as_str(), ": ", msg.as_str())
            },
            SimError::Parse { line, msg } => {
                concat4("parse error at line ", decimal(*line as u64).as_str(), ": ", msg.as_str())
            },
            SimError::Assemble { msg } => {
                let mut s = "assemble error: ".to_owned();
                s.append(msg.as_str());
                s
            },
            SimError::Runtime { rip, msg } => {
                concat4("runtime error at rip=", hex(*rip).as_str(), ": ", msg.as_str())
            },
        }
    }
}

} // verus!
