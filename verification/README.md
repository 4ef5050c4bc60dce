# batch_impl

The front end of the `batch-impl` DSL (one line of DSL, expanded into many
`impl` blocks), as a library verified with Verus: token streams are modelled
as the library's own `Tok` trees, and every pass states what it returns in
its `ensures` over their mathematical view (`TokV`).

## What is here, and what is not

The crate holds the token-level work that runs before the spec grammar:
the `#path:` prefix, the `@` constants, the pairing of `<...>`, the `#`
directives (`#name`, `#fill`, `#delegate`, `#blanket` and open
extensions, over the library's own reading of the annotated trait), the
`where` rewrite, the `A<>` expansion, the impl entry's spec splitting and
`batch_trait!`'s segmentation; the grammar's lexical atoms (which tokens
open a block, the type prefixes, the `N..M` range atom, `#[...]`, lone
splats, stray punctuation); and the grammar's type expressions (`Ty`) with
how each is written back as tokens.

It does not hold the spec grammar's parser (space and `.` application,
`[..]` lists, tuples, splats) nor the impl generation with its ceiling on
the number of impls, nor the combinators and operator table they rest
on. So the four macro entries
(`batch_impl`, `batch_impl_only`, `batch_trait`, `batch_preview`) produce
no impls here: `app/` runs the front end and stops where the grammar
would take over.

## Layout

- `src/token.rs`, `src/text.rs`, `src/diag.rs`, `src/display.rs`: the token
  model and its view, text helpers, diagnostics, printing.
- `src/angle.rs`: pairing of `<...>` into groups and its inverse.
- `src/varseg.rs`, `src/where_process.rs`: variadic-segment marking in
  `impl{...}` templates; bare `impl`/`where` collection.
- `src/consts/`: the `@` constant system (built-in families, ranges, the
  `batch_trait!` user table, reference checks).
- `src/directives/`: the `#` directives (name lists, `#delegate`,
  `#blanket` wrapper lists and helpers, dispatch, rejection, the trait
  items as the expansions write them, and the expansions themselves).
- `src/entry/`: the macro entries' token-level work (`#path:` prefix,
  `batch_trait!` segments, impl-entry specs, `batch_preprocess_test!`
  parts, documentation-only entries).
- `src/stream.rs`: the pass order as a typestate.
- `src/ty.rs`: the grammar's type expressions and their tokens.
- `src/at_refs.rs`, `src/refs.rs`, `src/blocks.rs`, `src/trailing.rs`,
  `src/scan.rs`, `src/levels.rs`, `src/fresh.rs`: position references, the
  spec grammar's lexical recognition, trailing attachments, the token
  cursor, precedence levels, fresh parameter names.
- `src/empty_generics.rs`, `src/trait_items.rs`, `src/trait_bounds.rs`,
  `src/bound_refs.rs`: what the passes read of the annotated trait.
- `app/`: the `proc_macro2`/`syn` side — conversions between token
  streams and `Tok`, and reading a trait's syntax tree into the library's
  `TraitDef`.
- `tests/`: tests of the library on concrete inputs.

Laws that relate several passes are public proof functions named `law_*`.

## Collections

Two tables are plain vectors where a hash collection would be the usual
choice, so that their contracts can be proved:

- `UserConsts` (the `batch_trait!` constants) is a vector of `(name,
  value)` pairs whose view is a `Map` in which a later definition of a
  name replaces the earlier one, as a `HashMap::insert` does.
- The binder stack of `Collector` (the lifetimes each enclosing
  `for<...>` declares) is a vector of name vectors, read as sets.

Both are keyed by `String`. With a `String` key, Verus accepts the calls
into `HashMap`/`HashSet` but proves nothing about what they hold, so a
lookup or a membership test could not be tied to the table's contents.
