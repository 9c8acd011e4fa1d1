//! A script-function calling core: argument marshalling, borrowed host
//! bindings, and the bookkeeping around calling a script-defined function.

mod binding;
mod bloom;
mod dynamic;
mod engine;
mod error;
mod func_args;
mod module;
mod scope;
mod script;
mod state;

pub use bloom::BloomFilterU64;
pub use dynamic::{Dynamic, Variant};
pub use engine::{Engine, MAX_CALL_STACK_DEPTH};
pub use error::{EvalAltResult, Position};
pub use func_args::{
    BorrowToken, BorrowedFuncArgs, BorrowedOpaquePointer, BorrowedScopeEntry, BorrowedScopeValue,
    FuncArgs,
};
pub use module::{Module, ModuleView};
pub use scope::Scope;
pub use script::{EncapsulatedEnviron, EvalFrame, RhaiResult, ScriptFuncDef};
pub use state::{
    ActiveBorrowedValue, Caches, FnResolutionCache, FnResolutionCacheEntry, GlobalRuntimeState,
};
