//! Reference-visibility validation inside constant values: circular,
//! forward and unknown references are intercepted at the definition site
//! (under lazy expansion a circular reference would recurse forever).
use vstd::prelude::*;

use crate::consts::ctx::UserConsts;
use crate::consts::expand::{ident_in, ident_text};
use crate::consts::range::{endpoint_spec, split_range_endpoint};
use crate::consts::table::{builtin_named, named_spec};
use crate::diag::{Diag, depth_err, depth_msg};
use crate::text::{cat2, cat5};
use crate::token::{
    MAX_NEST_DEPTH, Tok, TokV, dotdot_at, group_tok_view, is_dotdot_at, is_punct, is_punct_at,
    punct_at, punct_v, tvs,
};

verus! {

broadcast use group_tok_view;

/// Whether `@name` (with `star` for `@name*`, `range` for `@name..`) is a
/// visible reference: the segment marker `@trait`, a built-in family, a
/// range endpoint followed by `..`, or an already defined user constant.
pub open spec fn ref_known(
    name: Seq<char>,
    star: bool,
    range: bool,
    table: Map<Seq<char>, Seq<TokV>>,
) -> bool {
    let lookup = if star {
        name + "*"@
    } else {
        name
    };
    ||| name == "trait"@
    ||| named_spec(lookup) is Some
    ||| range && endpoint_spec(name) is Some
    ||| table.contains_key(name)
}

pub open spec fn refs_spec(
    s: Seq<TokV>,
    table: Map<Seq<char>, Seq<TokV>>,
    def: Seq<char>,
    depth: nat,
) -> Result<(), Seq<char>>
    decreases s, s.len() + 1,
{
    if depth > MAX_NEST_DEPTH {
        Err(depth_msg(" in a constant value"@))
    } else {
        refs_from(s, 0, table, def, depth)
    }
}

pub open spec fn refs_from(
    s: Seq<TokV>,
    i: int,
    table: Map<Seq<char>, Seq<TokV>>,
    def: Seq<char>,
    depth: nat,
) -> Result<(), Seq<char>>
    decreases s, s.len() - i,
{
    if i < 0 || i >= s.len() {
        Ok(())
    } else if punct_v(s[i], '@') {
        if dotdot_at(s, i + 1) {
            let j: int = if punct_at(s, i + 3, '=') {
                i + 4
            } else {
                i + 3
            };
            if ident_in(s, j) && endpoint_spec(ident_text(s[j])) is Some {
                refs_from(s, j + 1, table, def, depth)
            } else {
                Err("batch-impl: constant `@"@ + def
                    + "` references an invalid open-left range (write `@..u128`, `@..i64`, `@..f64`)"@)
            }
        } else if !ident_in(s, i + 1) {
            Err(
                "batch-impl: inside a constant value, `@` must be followed by a constant name (e.g. `@u*`, `@u8..u128`)"@,
            )
        } else {
            let name = ident_text(s[i + 1]);
            let star = punct_at(s, i + 2, '*');
            if !ref_known(name, star, punct_at(s, i + 2, '.'), table) {
                Err("batch-impl: constant `@"@ + def + "` references unknown `@"@ + name
                    + "` (undefined or defined later; inside a constant definition, only built-in constants or previously defined constants can be referenced)"@)
            } else {
                refs_from(s, i + if star { 3int } else { 2int }, table, def, depth)
            }
        }
    } else {
        match s[i] {
            TokV::Group(_, inner) => if depth + 1 > MAX_NEST_DEPTH {
                Err(depth_msg(" in a constant value"@))
            } else {
                match refs_spec(inner, table, def, depth + 1) {
                    Err(e) => Err(e),
                    Ok(_) => refs_from(s, i + 1, table, def, depth),
                }
            },
            _ => refs_from(s, i + 1, table, def, depth),
        }
    }
}

/// Validates `@` reference visibility inside a constant value: each name
/// after `@` must be a built-in constant or an already defined user
/// constant. Recurses into all groups.
pub fn check_value_refs(tokens: &[Tok], table: &UserConsts, def_name: &str) -> (r: Result<(), Diag>)
    ensures
        match r {
            Ok(_) => refs_spec(tvs(tokens@), table@, def_name@, 0) is Ok,
            Err(d) => refs_spec(tvs(tokens@), table@, def_name@, 0) == Err::<(), Seq<char>>(d@),
        },
{
    check_value_refs_at(tokens, table, def_name, 0)
}

fn check_value_refs_at(tokens: &[Tok], table: &UserConsts, def_name: &str, depth: usize) -> (r: Result<
    (),
    Diag,
>)
    ensures
        match r {
            Ok(_) => refs_spec(tvs(tokens@), table@, def_name@, depth as nat) is Ok,
            Err(d) => refs_spec(tvs(tokens@), table@, def_name@, depth as nat) == Err::<
                (),
                Seq<char>,
            >(d@),
        },
    decreases MAX_NEST_DEPTH + 1 - depth,
{
    if depth > MAX_NEST_DEPTH {
        return Err(depth_err(" in a constant value"));
    }
    let ghost s = tvs(tokens@);
    let n = tokens.len();
    let mut i: usize = 0;
    while i < n
        invariant
            n == tokens@.len(),
            depth <= MAX_NEST_DEPTH,
            s == tvs(tokens@),
            refs_spec(s, table@, def_name@, depth as nat) == refs_from(
                s,
                i as int,
                table@,
                def_name@,
                depth as nat,
            ),
        decreases n - i,
    {
        if is_punct(&tokens[i], '@') {
            if i + 1 < n && is_dotdot_at(tokens, i + 1) {
                let mut j = i + 3;
                if is_punct_at(tokens, j, '=') {
                    j += 1;
                }
                let ok = j < n && match &tokens[j] {
                    Tok::Ident(end) => split_range_endpoint(end.as_str()).is_some(),
                    _ => false,
                };
                if !ok {
                    return Err(Diag {
                        message: crate::text::cat3(
                            "batch-impl: constant `@",
                            def_name,
                            "` references an invalid open-left range (write `@..u128`, `@..i64`, `@..f64`)",
                        ),
                    });
                }
                i = j + 1;
                continue;
            }
            let name = match if i + 1 < n { Some(&tokens[i + 1]) } else { None } {
                Some(Tok::Ident(name)) => name,
                _ => {
                    return Err(Diag {
                        message: String::from_str(
                            "batch-impl: inside a constant value, `@` must be followed by a constant name (e.g. `@u*`, `@u8..u128`)",
                        ),
                    });
                },
            };
            let star = i + 2 < n && is_punct_at(tokens, i + 2, '*');
            let lookup = if star { cat2(name.as_str(), "*") } else { name.clone() };
            let is_range = i + 2 < n && is_punct_at(tokens, i + 2, '.');
            let known = crate::token::text_is(name, "trait") || builtin_named(lookup.as_str()).is_some()
                || (is_range && split_range_endpoint(name.as_str()).is_some()) || table.contains_key(
                name.as_str(),
            );
            if !known {
                let m = cat5(
                    "batch-impl: constant `@",
                    def_name,
                    "` references unknown `@",
                    name.as_str(),
                    "` (undefined or defined later; inside a constant definition, only built-in constants or previously defined constants can be referenced)",
                );
                return Err(Diag { message: m });
            }
            i += if star { 3 } else { 2 };
        } else {
            match &tokens[i] {
                Tok::Group(_, g) => {
                    if depth + 1 > MAX_NEST_DEPTH {
                        return Err(depth_err(" in a constant value"));
                    }
                    match check_value_refs_at(g.as_slice(), table, def_name, depth + 1) {
                        Err(e) => return Err(e),
                        Ok(_) => {},
                    }
                },
                _ => {},
            }
            i += 1;
        }
    }
    Ok(())
}

} // verus!
