//! The front end of the `batch-impl` DSL: the token-level passes that
//! turn a macro's input into the specs its grammar reads (angle pairing,
//! `@` constants, `#` directives, bare `where`/`impl` rewriting, `A<>`
//! expansion, the entries' segmentation), each with its contract over the
//! tokens' mathematical view.
pub mod angle;
pub mod at_refs;
pub mod blocks;
pub mod bound_refs;
pub mod consts;
pub mod diag;
pub mod directives;
pub mod display;
pub mod empty_generics;
pub mod entry;
pub mod fresh;
pub mod levels;
pub mod refs;
pub mod scan;
pub mod stream;
pub mod text;
pub mod token;
pub mod trailing;
pub mod ty;
pub mod trait_bounds;
pub mod trait_items;
pub mod varseg;
pub mod where_process;
