//! Frisbee: a compiler and bytecode toolchain for an actor-flavoured language.
use vstd::prelude::*;

pub mod alias;
pub mod ast;
pub mod codegen;
pub mod errors;
pub mod loader;
pub mod parsing;
pub mod runtime;
pub mod semantic_checker;
pub mod symbols;
pub mod text;
pub mod types;

verus! {

/// The listing of `bytecode` (see `codegen::disassemble::disassembly`);
/// none when it cannot be listed.
pub fn disassemble_bytecode(bytecode: &[u8]) -> (r: Option<Vec<codegen::disassemble::DisasmLine>>)
    requires
        bytecode@.len() + 65539 <= usize::MAX,
    ensures
        match codegen::disassemble::disassembly(bytecode@) {
            Some(ls) => r matches Some(v) && codegen::disassemble::lines_model(v@) == ls,
            None => r is None,
        },
{
    codegen::disassemble(bytecode)
}

} // verus!
