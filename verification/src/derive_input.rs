//! The input of the derive for scenes: it takes no arguments.
use vstd::prelude::*;

verus! {

/// The parsed arguments of the scene derive; there are none.
#[derive(Clone, Copy, PartialEq, Eq, Structural, Debug)]
pub struct Ast {}

/// Parses the derive's argument tokens, given by their text. The grammar
/// takes no token, so parsing succeeds exactly on an empty input; any token
/// left over is an error.
pub fn parse(tokens: &Vec<String>) -> (ast: Option<Ast>)
    ensures
        ast is Some <==> tokens@.len() == 0,
{
    if tokens.len() == 0 {
        Some(Ast {})
    } else {
        None
    }
}

} // verus!
