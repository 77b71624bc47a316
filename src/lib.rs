//! Expansion engine for stream-producing coroutines: a scope-sensitive rewrite
//! of `#[for_await]` loops, `.await` and `yield`, argument parsing for the
//! `stream` / `try_stream` attributes, lifetime resynthesis for signatures, and
//! the step functions of the runtime adapters that drive generated coroutines.
pub mod args;
pub mod attrs;
pub mod elision;
pub mod expand;
pub mod future;
pub mod names;
pub mod scope;
pub mod signature;
pub mod stream;
pub mod syntax;
pub mod try_stream;
pub mod visitor;
