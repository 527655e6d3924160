//! Parsing a whole script: a sequence of semicolon-terminated commands.

use super::parse::Command;
use super::parser;
use super::parser::ParseError;
use vstd::prelude::*;
use vstd::utf8::encode_utf8;

verus! {

/// Parses a script's full contents into its commands, in order,
/// consuming all of it; [`parser::parse_ok`] states what success
/// guarantees of the commands and of the input's shape.
pub fn parse_src(contents: String) -> (r: Result<Vec<Command>, ParseError>)
    ensures
        r matches Ok(cmds) ==> parser::parse_ok(encode_utf8(contents@), cmds@),
{
    parser::parse(contents.as_str())
}

} // verus!
