//! Range-family constants: endpoint parsing, width validation, and the
//! open-ended (`@..u128` / `@u16..`) resolution on top of the full form.
use vstd::prelude::*;

use crate::text::{cat3, cat5, parse_unsigned, parse_unsigned_exec, strs_view};

verus! {

/// The legal widths of a numeric family: `u`/`i` are 8..=128 by powers of
/// two, `f` is 32/64.
pub open spec fn legal_width(fam: char, w: nat) -> bool {
    ||| (fam == 'u' || fam == 'i') && (w == 8 || w == 16 || w == 32 || w == 64 || w == 128)
    ||| fam == 'f' && (w == 32 || w == 64)
}

/// A range endpoint `u8` / `i32` / `f64` as (family, width).
pub open spec fn endpoint_spec(s: Seq<char>) -> Option<(char, u32)> {
    if s.len() == 0 {
        None
    } else {
        match parse_unsigned(s.drop_first(), u32::MAX as nat) {
            Some(w) => if legal_width(s[0], w) {
                Some((s[0], w as u32))
            } else {
                None
            },
            None => None,
        }
    }
}

/// The widths of a family in ascending order.
pub open spec fn family_widths(fam: char) -> Seq<u32> {
    if fam == 'u' || fam == 'i' {
        seq![8u32, 16u32, 32u32, 64u32, 128u32]
    } else {
        seq![32u32, 64u32]
    }
}

/// The type name of a family member (`u` + `16` = `u16`).
pub open spec fn type_name_v(fam: char, w: u32) -> Seq<char> {
    if fam == 'u' {
        if w == 8 { "u8"@ } else if w == 16 { "u16"@ } else if w == 32 { "u32"@ } else if w == 64 {
            "u64"@
        } else { "u128"@ }
    } else if fam == 'i' {
        if w == 8 { "i8"@ } else if w == 16 { "i16"@ } else if w == 32 { "i32"@ } else if w == 64 {
            "i64"@
        } else { "i128"@ }
    } else {
        if w == 32 { "f32"@ } else { "f64"@ }
    }
}

/// The members of `fam` whose width lies in `w1..=w2`, among the first `k`
/// family widths.
pub open spec fn range_names(fam: char, w1: u32, w2: u32, k: int) -> Seq<Seq<char>>
    decreases k,
{
    if k <= 0 {
        Seq::empty()
    } else {
        let w = family_widths(fam)[k - 1];
        let prev = range_names(fam, w1, w2, k - 1);
        if w1 <= w && w <= w2 {
            prev.push(type_name_v(fam, w))
        } else {
            prev
        }
    }
}

pub open spec fn invalid_width_msg(name: Seq<char>) -> Seq<char> {
    "`@"@ + name + "` has an invalid width (legal: u/i are 8/16/32/64/128, f is 32/64)"@
}

/// `@start..end`: the inclusive family range, or the reason it is illegal.
pub open spec fn builtin_range_spec(start: Seq<char>, end: Seq<char>) -> Result<
    Seq<Seq<char>>,
    Seq<char>,
> {
    match endpoint_spec(start) {
        None => Err(invalid_width_msg(start)),
        Some((f1, w1)) => match endpoint_spec(end) {
            None => Err(invalid_width_msg(end)),
            Some((f2, w2)) => if f1 != f2 {
                Err("range endpoint families mismatch: `"@ + start + "` and `"@ + end + "`"@)
            } else if w1 > w2 {
                Err("range start is greater than end: `"@ + start + ".."@ + end + "`"@)
            } else {
                Ok(range_names(f1, w1, w2, family_widths(f1).len() as int))
            },
        },
    }
}

/// The text of an optional string slice.
pub open spec fn opt_str_view(o: Option<&str>) -> Option<Seq<char>> {
    match o {
        Some(s) => Some(s@),
        None => None,
    }
}

/// The smallest and largest width of a family.
pub open spec fn family_bounds(fam: char) -> (u32, u32) {
    if fam == 'f' {
        (32, 64)
    } else {
        (8, 128)
    }
}

/// `@start..` / `@..end` / `@start..end`: the omitted endpoint resolves to
/// the family minimum (start) or maximum (end) of the anchoring endpoint,
/// then the full validation of [`builtin_range_spec`] runs.
pub open spec fn builtin_range_open_spec(start: Option<Seq<char>>, end: Option<Seq<char>>) -> Result<
    Seq<Seq<char>>,
    Seq<char>,
> {
    let anchor = match start {
        Some(s) => Some(s),
        None => end,
    };
    match anchor {
        None => Err("`@..` names no family"@),
        Some(a) => match endpoint_spec(a) {
            None => Err(invalid_width_msg(a)),
            Some((fam, _)) => {
                let s = match start {
                    Some(s) => s,
                    None => type_name_v(fam, family_bounds(fam).0),
                };
                let e = match end {
                    Some(e) => e,
                    None => type_name_v(fam, family_bounds(fam).1),
                };
                builtin_range_spec(s, e)
            },
        },
    }
}

/// Parses a range-family endpoint (`u8` / `i32` / `f64`) into (family,
/// width); an illegal width (`u9`, `f8`) or family gives `None`.
pub fn split_range_endpoint(s: &str) -> (r: Option<(char, u32)>)
    ensures
        r == endpoint_spec(s@),
{
    let n = s.unicode_len();
    if n == 0 {
        return None;
    }
    let fam = s.get_char(0);
    let width_str = s.substring_char(1, n);
    assert(width_str@ =~= s@.drop_first());
    let width = match parse_unsigned_exec(width_str, u32::MAX as u64) {
        Some(w) => w as u32,
        None => return None,
    };
    let legal = if fam == 'u' || fam == 'i' {
        width == 8 || width == 16 || width == 32 || width == 64 || width == 128
    } else if fam == 'f' {
        width == 32 || width == 64
    } else {
        false
    };
    if legal {
        Some((fam, width))
    } else {
        None
    }
}

/// The name of a family member (`family_member_name('u', 16)` = `"u16"`).
pub fn family_member_name(fam: char, w: u32) -> (r: String)
    ensures
        r@ == type_name_v(fam, w),
{
    let lit = if fam == 'u' {
        if w == 8 { "u8" } else if w == 16 { "u16" } else if w == 32 { "u32" } else if w == 64 {
            "u64"
        } else { "u128" }
    } else if fam == 'i' {
        if w == 8 { "i8" } else if w == 16 { "i16" } else if w == 32 { "i32" } else if w == 64 {
            "i64"
        } else { "i128" }
    } else {
        if w == 32 { "f32" } else { "f64" }
    };
    String::from_str(lit)
}

fn family_width_at(fam: char, k: usize) -> (w: u32)
    requires
        k < family_widths(fam).len(),
    ensures
        w == family_widths(fam)[k as int],
{
    if fam == 'u' || fam == 'i' {
        if k == 0 { 8 } else if k == 1 { 16 } else if k == 2 { 32 } else if k == 3 { 64 } else { 128 }
    } else {
        if k == 0 { 32 } else { 64 }
    }
}

fn invalid_width(name: &str) -> (m: String)
    ensures
        m@ == invalid_width_msg(name@),
{
    cat3("`@", name, "` has an invalid width (legal: u/i are 8/16/32/64/128, f is 32/64)")
}

/// Built-in range families: `@u8..u128` (inclusive) is the type list in
/// ascending width. Illegal endpoints, mismatched families, or start > end
/// are errors (the caller builds the diagnostic around the message).
pub fn builtin_range(start: &str, end: &str) -> (r: Result<Vec<String>, String>)
    ensures
        r matches Ok(v) ==> builtin_range_spec(start@, end@) == Ok::<Seq<Seq<char>>, Seq<char>>(
            strs_view(v@),
        ),
        r matches Err(m) ==> builtin_range_spec(start@, end@) == Err::<Seq<Seq<char>>, Seq<char>>(
            m@,
        ),
{
    let (fam1, w1) = match split_range_endpoint(start) {
        Some(p) => p,
        None => return Err(invalid_width(start)),
    };
    let (fam2, w2) = match split_range_endpoint(end) {
        Some(p) => p,
        None => return Err(invalid_width(end)),
    };
    if fam1 != fam2 {
        return Err(cat5("range endpoint families mismatch: `", start, "` and `", end, "`"));
    }
    if w1 > w2 {
        let mut m = cat3("range start is greater than end: `", start, "..");
        m.append(end);
        m.append("`");
        return Err(m);
    }
    let n: usize = if fam1 == 'u' || fam1 == 'i' { 5 } else { 2 };
    let mut out: Vec<String> = Vec::new();
    let mut k: usize = 0;
    while k < n
        invariant
            k <= n,
            n == family_widths(fam1).len(),
            strs_view(out@) == range_names(fam1, w1, w2, k as int),
        decreases n - k,
    {
        let w = family_width_at(fam1, k);
        if w >= w1 && w <= w2 {
            let name = family_member_name(fam1, w);
            let ghost old_out = out@;
            out.push(name);
            assert(strs_view(out@) =~= strs_view(old_out).push(type_name_v(fam1, w)));
        }
        k += 1;
    }
    Ok(out)
}

/// Range families with omitted endpoints: `@..u128` (family minimum) /
/// `@u16..` (family maximum). At least one concrete endpoint must anchor
/// the family; the omitted side resolves to the family's minimum (start)
/// or maximum (end), then [`builtin_range`] validates.
pub fn builtin_range_open(start: Option<&str>, end: Option<&str>) -> (r: Result<
    Vec<String>,
    String,
>)
    ensures
        r matches Ok(v) ==> builtin_range_open_spec(opt_str_view(start), opt_str_view(end))
            == Ok::<Seq<Seq<char>>, Seq<char>>(strs_view(v@)),
        r matches Err(m) ==> builtin_range_open_spec(opt_str_view(start), opt_str_view(end))
            == Err::<Seq<Seq<char>>, Seq<char>>(m@),
{
    let anchor = match start {
        Some(s) => s,
        None => match end {
            Some(e) => e,
            None => return Err(String::from_str("`@..` names no family")),
        },
    };
    let fam = match split_range_endpoint(anchor) {
        Some((f, _)) => f,
        None => return Err(invalid_width(anchor)),
    };
    let (min_w, max_w): (u32, u32) = if fam == 'f' { (32, 64) } else { (8, 128) };
    let s_owned = match start {
        Some(s) => String::from_str(s),
        None => family_member_name(fam, min_w),
    };
    let e_owned = match end {
        Some(e) => String::from_str(e),
        None => family_member_name(fam, max_w),
    };
    builtin_range(s_owned.as_str(), e_owned.as_str())
}

} // verus!

verus! {

/// With both endpoints given, the open form is exactly the full form: the
/// same list, or the same error.
pub proof fn law_open_range_with_both_endpoints(start: Seq<char>, end: Seq<char>)
    ensures
        builtin_range_open_spec(Some(start), Some(end)) == builtin_range_spec(start, end),
{
}

/// An omitted start resolves to the family minimum and an omitted end to
/// the family maximum of the anchoring endpoint.
pub proof fn law_open_range_fills_family_bounds(anchor: Seq<char>)
    requires
        endpoint_spec(anchor) is Some,
    ensures
        builtin_range_open_spec(None, Some(anchor)) == builtin_range_spec(
            family_min_name_v(anchor),
            anchor,
        ),
        builtin_range_open_spec(Some(anchor), None) == builtin_range_spec(
            anchor,
            family_max_name_v(anchor),
        ),
{
}

/// The smallest member of the family of an endpoint.
pub open spec fn family_min_name_v(anchor: Seq<char>) -> Seq<char> {
    let fam = endpoint_spec(anchor)->Some_0.0;
    type_name_v(fam, family_bounds(fam).0)
}

/// The largest member of the family of an endpoint.
pub open spec fn family_max_name_v(anchor: Seq<char>) -> Seq<char> {
    let fam = endpoint_spec(anchor)->Some_0.0;
    type_name_v(fam, family_bounds(fam).1)
}

proof fn lemma_range_names_bounds(fam: char, w1: u32, w2: u32)
    requires
        legal_width(fam, w1 as nat),
        legal_width(fam, w2 as nat),
        w1 <= w2,
    ensures
        ({
            let r = range_names(fam, w1, w2, family_widths(fam).len() as int);
            r.len() > 0 && r[0] == type_name_v(fam, w1) && r.last() == type_name_v(fam, w2)
        }),
{
    reveal_with_fuel(range_names, 6);
}

/// An accepted range is inclusive at both ends: its first member is the
/// start's family member and its last member the end's.
pub proof fn law_range_is_inclusive(start: Seq<char>, end: Seq<char>)
    requires
        builtin_range_spec(start, end) is Ok,
    ensures
        ({
            let r = builtin_range_spec(start, end)->Ok_0;
            let (f, w1) = endpoint_spec(start)->Some_0;
            let (_, w2) = endpoint_spec(end)->Some_0;
            r.len() > 0 && r[0] == type_name_v(f, w1) && r.last() == type_name_v(f, w2)
        }),
{
    let (f, w1) = endpoint_spec(start)->Some_0;
    let (_, w2) = endpoint_spec(end)->Some_0;
    lemma_range_names_bounds(f, w1, w2);
}

} // verus!
