//! The build instruction model: one variant per build directive, with a
//! spec-level view whose payloads are character sequences.

use vstd::prelude::*;

verus! {

/// One build step. Payloads are immutable once parsed; a build script is an
/// ordered sequence of these, applied in file order.
#[derive(Debug, Clone, PartialEq, Eq)]
pub enum Instruction {
    FromImage(String),
    Run(String),
    Copy { src: String, dest: String },
    Cmd(String),
    Workdir(String),
    Expose(u16),
    Env { key: String, value: String },
    EntryPoint(String),
    Add { src: String, dest: String },
}

/// The mathematical model of an [`Instruction`]: the same variants over
/// character sequences.
pub enum InstructionV {
    FromImage(Seq<char>),
    Run(Seq<char>),
    Copy { src: Seq<char>, dest: Seq<char> },
    Cmd(Seq<char>),
    Workdir(Seq<char>),
    Expose(u16),
    Env { key: Seq<char>, value: Seq<char> },
    EntryPoint(Seq<char>),
    Add { src: Seq<char>, dest: Seq<char> },
}

impl View for Instruction {
    type V = InstructionV;

    open spec fn view(&self) -> InstructionV {
        match self {
            Instruction::FromImage(s) => InstructionV::FromImage(s@),
            Instruction::Run(s) => InstructionV::Run(s@),
            Instruction::Copy { src, dest } => InstructionV::Copy { src: src@, dest: dest@ },
            Instruction::Cmd(s) => InstructionV::Cmd(s@),
            Instruction::Workdir(s) => InstructionV::Workdir(s@),
            Instruction::Expose(p) => InstructionV::Expose(*p),
            Instruction::Env { key, value } => InstructionV::Env { key: key@, value: value@ },
            Instruction::EntryPoint(s) => InstructionV::EntryPoint(s@),
            Instruction::Add { src, dest } => InstructionV::Add { src: src@, dest: dest@ },
        }
    }
}

impl DeepView for Instruction {
    type V = InstructionV;

    open spec fn deep_view(&self) -> InstructionV {
        self.view()
    }
}

} // verus!
