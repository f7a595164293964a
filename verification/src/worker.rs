//! What the worker of one connection does with the text it has read.

use crate::command::match_line;
use crate::command::parse_line;
use crate::command::Command;
use crate::token::chars_of;
use vstd::prelude::*;

verus! {

/// Whether `data` ends with a line break: a whole line has arrived.
pub open spec fn is_full_line(data: Seq<char>) -> bool {
    data.len() > 0 && data.last() == '\n'
}

/// The request that the worker hands to the owner of the canvas, if any:
/// the one that `data` writes, provided that `data` is a whole line. On
/// anything else the worker hangs up, and nothing is sent to the client.
pub open spec fn handoff(data: Seq<char>) -> Option<Command> {
    if is_full_line(data) {
        match parse_line(data) {
            Ok(cmd) => Some(cmd),
            Err(_) => None,
        }
    } else {
        None
    }
}

/// Decides what becomes of a connection from the text read from it, up to
/// and including the first line break, or up to the end of the stream.
pub fn process(data: &str) -> (next: Option<Command>)
    ensures
        next == handoff(data@),
{
    let line = chars_of(data);
    if line.len() == 0 || line[line.len() - 1] != '\n' {
        return None;
    }
    match match_line(&line) {
        Ok(cmd) => Some(cmd),
        Err(_) => None,
    }
}

} // verus!
