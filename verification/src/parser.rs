//! The parser of the command language.

pub mod ast;
pub mod grammar;
pub mod command;
pub mod laws;

use vstd::prelude::*;
use crate::parser::ast::{Command, KindView};
use crate::parser::command::parse_command;
use crate::parser::grammar::spec_parse;
use crate::text::concat;

verus! {

/// What can go wrong when reading a command.
#[derive(Debug)]
pub enum Error {
    /// The text is not a command; the message says why.
    Syntax(String),
}

impl Error {
    /// The message of the error.
    pub fn message(&self) -> (s: String)
        ensures
            self matches Error::Syntax(m) && s@ == m@,
    {
        match self {
            Error::Syntax(m) => m.clone(),
        }
    }
}

/// Reads one command from `input`: the typed command, or a syntax error
/// whose message starts with `Erro de sintaxe: `.
pub fn parse(input: &str) -> (r: Result<Command, Error>)
    ensures
        match r {
            Ok(command) => spec_parse(input@) == Ok::<KindView, Seq<char>>(command@),
            Err(Error::Syntax(message)) => spec_parse(input@) == Err::<KindView, Seq<char>>(
                message@,
            ),
        },
{
    match parse_command(input) {
        Ok(command) => Ok(command),
        Err(reason) => Err(Error::Syntax(concat("Erro de sintaxe: ", reason.as_str()))),
    }
}

} // verus!
