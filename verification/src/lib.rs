//! A per-function translator from a stack-machine bytecode to a typed,
//! block-structured intermediate representation (IR).
//!
//! One function body — a linear sequence of typed stack instructions with
//! nested structured control — is translated into an IR function made of
//! basic blocks with typed parameters.  Merge points receive their values
//! through block parameters, the IR's analogue of SSA phi nodes.  The
//! translator consults an [`environ::Environment`] to resolve module-scoped
//! entities (globals, memories, tables, callees) and preserves the
//! bytecode's exact trapping semantics through dedicated IR instructions.

pub mod environ;
pub mod errors;
pub mod eval;
pub mod ir;
pub mod laws;
pub mod state;
pub mod translate;
pub mod types;

use vstd::prelude::*;

verus! {

} // verus!
