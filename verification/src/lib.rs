//! Lowering of an SSA control-flow graph to register-machine bytecode, and
//! linking of the per-function bytecode objects into one flat program.

pub mod abi;
pub mod arithmetic;
pub mod artefact;
pub mod calls;
pub mod cli;
pub mod errors;
pub mod field;
pub mod growth;
pub mod growth_proofs;
pub mod joins;
pub mod laws;
pub mod lowering;
pub mod opcode;
pub mod phi;
pub mod resolver;
pub mod scheduler;
pub mod ssa;
pub mod state;
pub mod wellformed;
