//! The build request a front end submits: a command word with the parsed
//! instruction sequence. Transports and serialization live with the caller.

use vstd::prelude::*;
use crate::instruction::Instruction;

verus! {

/// One request to the build service.
#[derive(Debug, Clone, PartialEq, Eq)]
pub struct TugRequest {
    pub command: String,
    pub instructions: Option<Vec<Instruction>>,
    pub image: Option<String>,
}

/// The view of the `build` command word.
pub open spec fn build_command() -> Seq<char> {
    seq!['b', 'u', 'i', 'l', 'd']
}

/// The request a build submission carries: the `build` command with the
/// parsed instructions, and no image field.
pub fn build_request(instructions: Vec<Instruction>) -> (r: TugRequest)
    ensures
        r.command@ == build_command(),
        r.instructions == Some(instructions),
        r.image is None,
{
    let command = String::from_str("build");
    proof {
        reveal_strlit("build");
        assert(command@ =~= build_command());
    }
    TugRequest { command, instructions: Some(instructions), image: None }
}

} // verus!
