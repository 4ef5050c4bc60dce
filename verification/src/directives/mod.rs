//! The `#` directive layer: where directives sit and their forms, the
//! argument parsers of the directives, the expansions of `#name`, `#fill`,
//! `#delegate`, `#blanket` and open extensions, and what the impl entry
//! does with directives.
pub mod blanket_helpers;
pub mod blanket_wrappers;
pub mod delegate;
pub mod items;
pub mod dispatch;
pub mod expand;
pub mod name_list;
pub mod reject;
pub mod walk;
