//! The `@` constant system: built-in type families (`@u*`, `@num`, range
//! families such as `@u8..u128`), trait-aware selectors, and user constants.
pub mod ctx;
pub mod expand;
pub mod range;
pub mod table;
pub mod value_refs;
