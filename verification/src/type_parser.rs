//! The type-string parser: `"int32"`, `"timestamp[us, UTC]"`,
//! `"list<utf8>"`, `"decimal128(10, 2)"`, `"map<utf8, int32>"`, ...
//! Each function computes, on a character range of the input, what its
//! counterpart in `type_spec` defines (`try_parse_generic` computes
//! `generic`, `parse_bare_type` computes `bare_type`, and so on).
use vstd::prelude::*;

use crate::arrow_type::{ArrowType, IntervalUnit, SpecType, TimeUnit, UnionMode, unit_in};
use crate::error::{SchemaError, SpecError};
use crate::schema_def::{ArrowFieldDef, SpecField, fields_view};
use crate::text::{
    Text, all_ws, decimal, find, int_to_string, lemma_find, lemma_rfind,
    lemma_subrange_of_subrange, lemma_trim_padded, parse_i32, parse_u32, rfind, str2, str3, str4,
    trim,
};
use crate::type_spec::{
    Outcome, bare_type, bracketed, close_from, generic, match_close, named_fields, paren_int,
    parens, parse_trimmed, parse_type, precision_scale, split_from, split_top, split_two,
};

verus! {

broadcast use lemma_subrange_of_subrange;

/// The executable counterpart of `Outcome`.
pub enum Step<T> {
    Done(T),
    Fail(String),
    Abort,
}

pub open spec fn step_type(r: Step<ArrowType>) -> Outcome<SpecType> {
    match r {
        Step::Done(t) => Outcome::Done(t@),
        Step::Fail(m) => Outcome::Fail(m@),
        Step::Abort => Outcome::Abort,
    }
}

pub open spec fn step_opt_type(r: Step<Option<ArrowType>>) -> Outcome<Option<SpecType>> {
    match r {
        Step::Done(Some(t)) => Outcome::Done(Some(t@)),
        Step::Done(None) => Outcome::Done(None),
        Step::Fail(m) => Outcome::Fail(m@),
        Step::Abort => Outcome::Abort,
    }
}

pub open spec fn step_fields(r: Step<Vec<ArrowFieldDef>>) -> Outcome<Seq<SpecField>> {
    match r {
        Step::Done(v) => Outcome::Done(fields_view(v@)),
        Step::Fail(m) => Outcome::Fail(m@),
        Step::Abort => Outcome::Abort,
    }
}

pub open spec fn ranges_view(t: &Text, v: Seq<(usize, usize)>) -> Seq<Seq<char>> {
    v.map_values(|r: (usize, usize)| t.sub(r.0 as int, r.1 as int))
}

pub open spec fn ranges_within(v: Seq<(usize, usize)>, lo: int, hi: int) -> bool {
    forall|k: int| 0 <= k < v.len() ==> lo <= (#[trigger] v[k]).0 <= v[k].1 <= hi
}

// ---------------------------------------------------------------------------
// Delimiters
// ---------------------------------------------------------------------------

/// The `>` that closes the `<` at `a` (absolute positions in `[lo, hi)`).
fn find_matching_close(t: &Text, lo: usize, hi: usize, a: usize) -> (r: Option<usize>)
    requires
        t.wf(),
        t.range(lo, hi),
        lo <= a < hi,
        t.chars@[a as int] == '<',
    ensures
        match r {
            Some(e) => lo <= e < hi && match_close(t.sub(lo as int, hi as int), a - lo) == Some(
                e - lo,
            ),
            None => match_close(t.sub(lo as int, hi as int), a - lo) is None,
        },
{
    let ghost s = t.sub(lo as int, hi as int);
    let mut depth: u32 = 0;
    let mut i: usize = a;
    while i < hi
        invariant
            t.wf(),
            lo <= a <= i <= hi <= t.chars@.len(),
            t.chars@[a as int] == '<',
            s == t.sub(lo as int, hi as int),
            depth <= i - a,
            i == a ==> depth == 0,
            i > a ==> depth >= 1,
            close_from(s, i - lo, depth as int) == match_close(s, a - lo),
        decreases hi - i,
    {
        let c = t.chars[i];
        if c == '<' {
            depth = depth + 1;
        } else if c == '>' {
            if depth == 1 {
                return Some(i);
            }
            depth = depth - 1;
        }
        i = i + 1;
    }
    None
}

/// The ranges of the top-level comma-separated pieces of `[lo, hi)`.
fn split_all_top_level_commas(t: &Text, lo: usize, hi: usize) -> (r: Vec<(usize, usize)>)
    requires
        t.wf(),
        t.range(lo, hi),
    ensures
        ranges_view(t, r@) == split_top(t.sub(lo as int, hi as int)),
        ranges_within(r@, lo as int, hi as int),
        r@.len() >= 1,
        r@.len() <= hi - lo + 1,
{
    let ghost s = t.sub(lo as int, hi as int);
    let mut parts: Vec<(usize, usize)> = Vec::new();
    let mut depth: i64 = 0;
    let mut start: usize = lo;
    let mut i: usize = lo;
    while i < hi
        invariant
            t.wf(),
            lo <= start <= i <= hi <= t.chars@.len(),
            s == t.sub(lo as int, hi as int),
            -(i - lo) <= depth <= i - lo,
            ranges_within(parts@, lo as int, i as int),
            parts@.len() <= i - lo,
            split_top(s) == ranges_view(t, parts@) + split_from(
                s,
                i - lo,
                depth as int,
                start - lo,
            ),
        decreases hi - i,
    {
        let c = t.chars[i];
        let ghost prev = parts@;
        if c == '<' || c == '[' || c == '(' {
            depth = depth + 1;
        } else if c == '>' || c == ']' || c == ')' {
            depth = depth - 1;
        } else if c == ',' && depth == 0 {
            parts.push((start, i));
            proof {
                assert(ranges_view(t, parts@) =~= ranges_view(t, prev) + seq![
                    s.subrange(start - lo, i - lo),
                ]);
                assert(ranges_view(t, prev) + (seq![s.subrange(start - lo, i - lo)] + split_from(
                    s,
                    i - lo + 1,
                    depth as int,
                    i - lo + 1,
                )) =~= ranges_view(t, parts@) + split_from(s, i - lo + 1, depth as int, i - lo + 1));
            }
            start = i + 1;
        }
        i = i + 1;
    }
    let ghost prev = parts@;
    parts.push((start, hi));
    proof {
        assert(ranges_view(t, parts@) =~= ranges_view(t, prev) + seq![
            s.subrange(start - lo, hi - lo),
        ]);
    }
    parts
}

/// The two top-level arguments of `map<K, V>` / `dictionary<I, V>`.
fn split_top_level_comma(t: &Text, lo: usize, hi: usize) -> (r: Result<((usize, usize), (usize, usize)), String>)
    requires
        t.wf(),
        t.range(lo, hi),
    ensures
        match r {
            Ok((a, b)) => {
                &&& lo <= a.0 <= a.1 <= hi
                &&& lo <= b.0 <= b.1 <= hi
                &&& split_two(t.sub(lo as int, hi as int)) == Ok::<_, Seq<char>>(
                    (t.sub(a.0 as int, a.1 as int), t.sub(b.0 as int, b.1 as int)),
                )
            },
            Err(m) => split_two(t.sub(lo as int, hi as int)) == Err::<(Seq<char>, Seq<char>), _>(
                m@,
            ),
        },
{
    let parts = split_all_top_level_commas(t, lo, hi);
    assert(ranges_view(t, parts@).len() == parts@.len());
    if parts.len() != 2 {
        let n = int_to_string(parts.len() as i64);
        let m = str4(
            "expected exactly 2 comma-separated type arguments, got ",
            n.as_str(),
            ": ",
            t.slice(lo, hi),
        );
        return Err(m);
    }
    let a = parts[0];
    let b = parts[1];
    proof {
        assert(ranges_view(t, parts@)[0] == t.sub(a.0 as int, a.1 as int));
        assert(ranges_view(t, parts@)[1] == t.sub(b.0 as int, b.1 as int));
    }
    Ok((a, b))
}

/// The `(N)` suffix of `fixed_size_list<T>(N)`, in `[lo, hi)`.
#[verifier::spinoff_prover]
#[verifier::rlimit(40)]
fn parse_paren_int(t: &Text, lo: usize, hi: usize, context: &str) -> (r: Result<i32, String>)
    requires
        t.wf(),
        t.range(lo, hi),
    ensures
        match r {
            Ok(n) => paren_int(t.sub(lo as int, hi as int), context@) == Ok::<i32, Seq<char>>(n),
            Err(m) => paren_int(t.sub(lo as int, hi as int), context@) == Err::<i32, _>(m@),
        },
{
    let ghost s = t.sub(lo as int, hi as int);
    let (a, b) = t.trim_range(lo, hi);
    if !(b - a >= 1 && t.chars[a] == '(' && t.chars[b - 1] == ')') {
        proof {
            let ts = trim(s);
            assert(ts == t.sub(a as int, b as int));
            if ts.len() >= 1 {
                assert(ts[0] == t.chars@[a as int]);
                assert(ts[ts.len() - 1] == t.chars@[b - 1]);
            }
        }
        return Err(str3(context, " requires (N) suffix, got: ", t.slice(a, b)));
    }
    proof {
        let ts = trim(s);
        assert(ts.subrange(1, ts.len() - 1) == t.sub(a + 1, b - 1));
    }
    let (c, d) = t.trim_range(a + 1, b - 1);
    match parse_i32(t.slice(c, d)) {
        Some(n) => Ok(n),
        None => Err(str3(context, ": invalid size: ", t.slice(a + 1, b - 1))),
    }
}

/// `(precision, scale)` of `decimal128(..)` / `decimal256(..)`, in `[lo, hi)`.
fn parse_precision_scale(t: &Text, lo: usize, hi: usize) -> (r: Result<(u8, i8), String>)
    requires
        t.wf(),
        t.range(lo, hi),
    ensures
        match r {
            Ok(v) => precision_scale(t.sub(lo as int, hi as int)) == Ok::<(u8, i8), Seq<char>>(v),
            Err(m) => precision_scale(t.sub(lo as int, hi as int)) == Err::<(u8, i8), _>(m@),
        },
{
    let ghost s = t.sub(lo as int, hi as int);
    let c = match t.find(lo, hi, ',') {
        None => {
            return Err(str3("decimal requires (precision, scale), got: (", t.slice(lo, hi), ")"));
        },
        Some(c) => c,
    };
    if t.find(c + 1, hi, ',').is_some() {
        return Err(str3("decimal requires (precision, scale), got: (", t.slice(lo, hi), ")"));
    }
    let (a0, b0) = t.trim_range(lo, c);
    let p = match parse_u32(t.slice(a0, b0)) {
        None => {
            return Err(str2("invalid precision: ", t.slice(a0, b0)));
        },
        Some(p) => p,
    };
    let (a1, b1) = t.trim_range(c + 1, hi);
    let sc = match parse_i32(t.slice(a1, b1)) {
        None => {
            return Err(str2("invalid scale: ", t.slice(a1, b1)));
        },
        Some(sc) => sc,
    };
    if p > 255 {
        let n = int_to_string(p as i64);
        return Err(str3("decimal precision ", n.as_str(), " out of range (max 255)"));
    }
    if sc < -128 || sc > 127 {
        let n = int_to_string(sc as i64);
        return Err(str3("decimal scale ", n.as_str(), " out of range (-128..=127)"));
    }
    Ok((p as u8, sc as i8))
}

/// A bare type name in `[lo, hi)`.
fn parse_bare_type(t: &Text, lo: usize, hi: usize) -> (r: Step<ArrowType>)
    requires
        t.wf(),
        t.range(lo, hi),
    ensures
        step_type(r) == bare_type(t.sub(lo as int, hi as int)),
{
    if t.eq_lit(lo, hi, "null") {
        Step::Done(ArrowType::Null)
    } else if t.eq_lit(lo, hi, "bool") || t.eq_lit(lo, hi, "boolean") {
        Step::Done(ArrowType::Boolean)
    } else if t.eq_lit(lo, hi, "int8") {
        Step::Done(ArrowType::Int8)
    } else if t.eq_lit(lo, hi, "int16") {
        Step::Done(ArrowType::Int16)
    } else if t.eq_lit(lo, hi, "int32") {
        Step::Done(ArrowType::Int32)
    } else if t.eq_lit(lo, hi, "int64") {
        Step::Done(ArrowType::Int64)
    } else if t.eq_lit(lo, hi, "uint8") {
        Step::Done(ArrowType::UInt8)
    } else if t.eq_lit(lo, hi, "uint16") {
        Step::Done(ArrowType::UInt16)
    } else if t.eq_lit(lo, hi, "uint32") {
        Step::Done(ArrowType::UInt32)
    } else if t.eq_lit(lo, hi, "uint64") {
        Step::Done(ArrowType::UInt64)
    } else if t.eq_lit(lo, hi, "float16") || t.eq_lit(lo, hi, "half") {
        Step::Done(ArrowType::Float16)
    } else if t.eq_lit(lo, hi, "float32") || t.eq_lit(lo, hi, "float") {
        Step::Done(ArrowType::Float32)
    } else if t.eq_lit(lo, hi, "float64") || t.eq_lit(lo, hi, "double") {
        Step::Done(ArrowType::Float64)
    } else if t.eq_lit(lo, hi, "utf8") || t.eq_lit(lo, hi, "string") {
        Step::Done(ArrowType::Utf8)
    } else if t.eq_lit(lo, hi, "large_utf8") || t.eq_lit(lo, hi, "large_string") {
        Step::Done(ArrowType::LargeUtf8)
    } else if t.eq_lit(lo, hi, "binary") {
        Step::Done(ArrowType::Binary)
    } else if t.eq_lit(lo, hi, "large_binary") {
        Step::Done(ArrowType::LargeBinary)
    } else if t.eq_lit(lo, hi, "date32") {
        Step::Done(ArrowType::Date32)
    } else if t.eq_lit(lo, hi, "date64") {
        Step::Done(ArrowType::Date64)
    } else {
        Step::Fail(str2("unknown type: ", t.slice(lo, hi)))
    }
}

/// The time unit named in `[lo, hi)`, or the rejection message.
fn unit_or_fail(t: &Text, lo: usize, hi: usize) -> (r: Result<TimeUnit, String>)
    requires
        t.wf(),
        t.range(lo, hi),
    ensures
        match r {
            Ok(u) => crate::arrow_type::parse_unit(t.sub(lo as int, hi as int)) == Some(u),
            Err(m) => crate::arrow_type::parse_unit(t.sub(lo as int, hi as int)) is None && m@
                == "invalid time unit: "@ + t.sub(lo as int, hi as int),
        },
{
    let (a, b) = t.trim_range(lo, hi);
    match unit_in(t, a, b) {
        Some(u) => Ok(u),
        None => Err(str2("invalid time unit: ", t.slice(lo, hi))),
    }
}

/// A bracketed type in `[lo, hi)` (trimmed, non-empty).
fn try_parse_bracketed(t: &Text, lo: usize, hi: usize) -> (r: Step<Option<ArrowType>>)
    requires
        t.wf(),
        t.range(lo, hi),
    ensures
        step_opt_type(r) == bracketed(t.sub(lo as int, hi as int)),
{
    let ghost s = t.sub(lo as int, hi as int);
    let bs = match t.find(lo, hi, '[') {
        None => {
            return Step::Done(None);
        },
        Some(bs) => bs,
    };
    let be = match t.rfind(lo, hi, ']') {
        None => {
            return Step::Fail(str2("unmatched '[' in type: ", t.slice(lo, hi)));
        },
        Some(be) => be,
    };
    if be < bs {
        return Step::Abort;
    }
    proof {
        lemma_find(s, '[');
        lemma_rfind(s, ']');
    }
    let ghost params = t.sub(bs + 1, be as int);
    if t.eq_lit(lo, bs, "timestamp") {
        match t.find(bs + 1, be, ',') {
            None => match unit_or_fail(t, bs + 1, be) {
                Ok(unit) => Step::Done(Some(ArrowType::Timestamp { unit, timezone: None })),
                Err(m) => Step::Fail(m),
            },
            Some(c) => match unit_or_fail(t, bs + 1, c) {
                Ok(unit) => {
                    let (a, b) = t.trim_range(c + 1, be);
                    let tz = t.slice_string(a, b);
                    Step::Done(Some(ArrowType::Timestamp { unit, timezone: Some(tz) }))
                },
                Err(m) => Step::Fail(m),
            },
        }
    } else if t.eq_lit(lo, bs, "time32") {
        match unit_or_fail(t, bs + 1, be) {
            Ok(unit) => Step::Done(Some(ArrowType::Time32 { unit })),
            Err(m) => Step::Fail(m),
        }
    } else if t.eq_lit(lo, bs, "time64") {
        match unit_or_fail(t, bs + 1, be) {
            Ok(unit) => Step::Done(Some(ArrowType::Time64 { unit })),
            Err(m) => Step::Fail(m),
        }
    } else if t.eq_lit(lo, bs, "duration") {
        match unit_or_fail(t, bs + 1, be) {
            Ok(unit) => Step::Done(Some(ArrowType::Duration { unit })),
            Err(m) => Step::Fail(m),
        }
    } else if t.eq_lit(lo, bs, "interval") {
        let (a, b) = t.trim_range(bs + 1, be);
        if t.eq_lit(a, b, "year_month") {
            Step::Done(Some(ArrowType::Interval { unit: IntervalUnit::YearMonth }))
        } else if t.eq_lit(a, b, "day_time") {
            Step::Done(Some(ArrowType::Interval { unit: IntervalUnit::DayTime }))
        } else if t.eq_lit(a, b, "month_day_nano") {
            Step::Done(Some(ArrowType::Interval { unit: IntervalUnit::MonthDayNano }))
        } else {
            Step::Fail(str2("invalid interval unit: ", t.slice(bs + 1, be)))
        }
    } else {
        Step::Fail(str2("unknown bracketed type: ", t.slice(lo, bs)))
    }
}

/// A parenthesized type in `[lo, hi)` (trimmed, non-empty).
fn try_parse_parens(t: &Text, lo: usize, hi: usize) -> (r: Step<Option<ArrowType>>)
    requires
        t.wf(),
        t.range(lo, hi),
    ensures
        step_opt_type(r) == parens(t.sub(lo as int, hi as int)),
{
    let ghost s = t.sub(lo as int, hi as int);
    let ps = match t.find(lo, hi, '(') {
        None => {
            return Step::Done(None);
        },
        Some(ps) => ps,
    };
    let pe = match t.rfind(lo, hi, ')') {
        None => {
            return Step::Fail(str2("unmatched '(' in type: ", t.slice(lo, hi)));
        },
        Some(pe) => pe,
    };
    if pe < ps {
        return Step::Abort;
    }
    proof {
        lemma_find(s, '(');
        lemma_rfind(s, ')');
    }
    if t.eq_lit(lo, ps, "decimal128") {
        match parse_precision_scale(t, ps + 1, pe) {
            Ok((precision, scale)) => Step::Done(Some(ArrowType::Decimal128 { precision, scale })),
            Err(m) => Step::Fail(m),
        }
    } else if t.eq_lit(lo, ps, "decimal256") {
        match parse_precision_scale(t, ps + 1, pe) {
            Ok((precision, scale)) => Step::Done(Some(ArrowType::Decimal256 { precision, scale })),
            Err(m) => Step::Fail(m),
        }
    } else if t.eq_lit(lo, ps, "fixed_size_binary") {
        let (a, b) = t.trim_range(ps + 1, pe);
        match parse_i32(t.slice(a, b)) {
            None => Step::Fail(
                str2("invalid byte_width for fixed_size_binary: ", t.slice(ps + 1, pe)),
            ),
            Some(w) => if w <= 0 {
                let n = int_to_string(w as i64);
                Step::Fail(str2("fixed_size_binary byte_width must be positive, got ", n.as_str()))
            } else {
                Step::Done(Some(ArrowType::FixedSizeBinary { byte_width: w }))
            },
        }
    } else {
        Step::Fail(str2("unknown parameterized type: ", t.slice(lo, ps)))
    }
}

pub open spec fn prepend(xs: Seq<SpecField>, o: Outcome<Seq<SpecField>>) -> Outcome<Seq<SpecField>> {
    match o {
        Outcome::Done(rest) => Outcome::Done(xs + rest),
        Outcome::Fail(m) => Outcome::Fail(m),
        Outcome::Abort => Outcome::Abort,
    }
}

/// A type string in `[lo, hi)`; surrounding whitespace is ignored.
pub(crate) fn parse_in(t: &Text, lo: usize, hi: usize) -> (r: Step<ArrowType>)
    requires
        t.wf(),
        t.range(lo, hi),
    ensures
        step_type(r) == parse_type(t.sub(lo as int, hi as int)),
    decreases hi - lo, 3nat, 0nat,
{
    let (a, b) = t.trim_range(lo, hi);
    if a == b {
        return Step::Fail("empty type string".to_owned());
    }
    parse_trimmed_in(t, a, b)
}

/// A trimmed, non-empty type string in `[lo, hi)`.
fn parse_trimmed_in(t: &Text, lo: usize, hi: usize) -> (r: Step<ArrowType>)
    requires
        t.wf(),
        t.range(lo, hi),
    ensures
        step_type(r) == parse_trimmed(t.sub(lo as int, hi as int)),
    decreases hi - lo, 2nat, 0nat,
{
    match try_parse_generic(t, lo, hi) {
        Step::Done(Some(r)) => {
            return Step::Done(r);
        },
        Step::Fail(m) => {
            return Step::Fail(m);
        },
        Step::Abort => {
            return Step::Abort;
        },
        Step::Done(None) => {},
    }
    match try_parse_bracketed(t, lo, hi) {
        Step::Done(Some(r)) => {
            return Step::Done(r);
        },
        Step::Fail(m) => {
            return Step::Fail(m);
        },
        Step::Abort => {
            return Step::Abort;
        },
        Step::Done(None) => {},
    }
    match try_parse_parens(t, lo, hi) {
        Step::Done(Some(r)) => {
            return Step::Done(r);
        },
        Step::Fail(m) => {
            return Step::Fail(m);
        },
        Step::Abort => {
            return Step::Abort;
        },
        Step::Done(None) => {},
    }
    parse_bare_type(t, lo, hi)
}

/// A generic type (`list<T>`, `map<K, V>`, `struct<...>`, ...) in `[lo, hi)`.
fn try_parse_generic(t: &Text, lo: usize, hi: usize) -> (r: Step<Option<ArrowType>>)
    requires
        t.wf(),
        t.range(lo, hi),
    ensures
        step_opt_type(r) == generic(t.sub(lo as int, hi as int)),
    decreases hi - lo, 1nat, 0nat,
{
    let ghost s = t.sub(lo as int, hi as int);
    let a = match t.find(lo, hi, '<') {
        None => {
            return Step::Done(None);
        },
        Some(a) => a,
    };
    proof {
        lemma_find(s, '<');
    }
    let e = match find_matching_close(t, lo, hi, a) {
        None => {
            return Step::Fail(str2("unmatched '<' in type: ", t.slice(lo, hi)));
        },
        Some(e) => e,
    };
    proof {
        lemma_match_close_bounds(s, a - lo);
    }
    if t.eq_lit(lo, a, "list") {
        match parse_in(t, a + 1, e) {
            Step::Done(et) => Step::Done(
                Some(ArrowType::List { element: Box::new(ArrowFieldDef::new("item", et)) }),
            ),
            Step::Fail(m) => Step::Fail(m),
            Step::Abort => Step::Abort,
        }
    } else if t.eq_lit(lo, a, "large_list") {
        match parse_in(t, a + 1, e) {
            Step::Done(et) => Step::Done(
                Some(ArrowType::LargeList { element: Box::new(ArrowFieldDef::new("item", et)) }),
            ),
            Step::Fail(m) => Step::Fail(m),
            Step::Abort => Step::Abort,
        }
    } else if t.eq_lit(lo, a, "fixed_size_list") {
        match parse_in(t, a + 1, e) {
            Step::Done(et) => match parse_paren_int(t, e + 1, hi, "fixed_size_list") {
                Err(m) => Step::Fail(m),
                Ok(size) => if size <= 0 {
                    let n = int_to_string(size as i64);
                    Step::Fail(str2("fixed_size_list size must be positive, got ", n.as_str()))
                } else {
                    Step::Done(
                        Some(
                            ArrowType::FixedSizeList {
                                element: Box::new(ArrowFieldDef::new("item", et)),
                                size,
                            },
                        ),
                    )
                },
            },
            Step::Fail(m) => Step::Fail(m),
            Step::Abort => Step::Abort,
        }
    } else if t.eq_lit(lo, a, "map") {
        match split_top_level_comma(t, a + 1, e) {
            Err(m) => Step::Fail(m),
            Ok((k, v)) => match parse_in(t, k.0, k.1) {
                Step::Done(kt) => match parse_in(t, v.0, v.1) {
                    Step::Done(vt) => Step::Done(
                        Some(
                            ArrowType::MapType {
                                key: Box::new(ArrowFieldDef::new("key", kt).with_nullable(false)),
                                value: Box::new(ArrowFieldDef::new("value", vt)),
                                keys_sorted: false,
                            },
                        ),
                    ),
                    Step::Fail(m) => Step::Fail(m),
                    Step::Abort => Step::Abort,
                },
                Step::Fail(m) => Step::Fail(m),
                Step::Abort => Step::Abort,
            },
        }
    } else if t.eq_lit(lo, a, "dictionary") {
        match split_top_level_comma(t, a + 1, e) {
            Err(m) => Step::Fail(m),
            Ok((k, v)) => match parse_in(t, k.0, k.1) {
                Step::Done(it) => match parse_in(t, v.0, v.1) {
                    Step::Done(vt) => Step::Done(
                        Some(
                            ArrowType::Dictionary {
                                index_type: Box::new(it),
                                value_type: Box::new(vt),
                            },
                        ),
                    ),
                    Step::Fail(m) => Step::Fail(m),
                    Step::Abort => Step::Abort,
                },
                Step::Fail(m) => Step::Fail(m),
                Step::Abort => Step::Abort,
            },
        }
    } else if t.eq_lit(lo, a, "struct") {
        match parse_named_fields(t, a + 1, e, "struct") {
            Step::Done(fields) => Step::Done(Some(ArrowType::Struct { fields })),
            Step::Fail(m) => Step::Fail(m),
            Step::Abort => Step::Abort,
        }
    } else if t.eq_lit(lo, a, "union") {
        match parse_named_fields(t, a + 1, e, "union") {
            Step::Done(fields) => Step::Done(
                Some(ArrowType::Union { fields, mode: UnionMode::Dense }),
            ),
            Step::Fail(m) => Step::Fail(m),
            Step::Abort => Step::Abort,
        }
    } else {
        Step::Fail(str2("unknown generic type: ", t.slice(lo, a)))
    }
}

proof fn lemma_match_close_bounds(s: Seq<char>, a: int)
    requires
        0 <= a < s.len(),
        s[a] == '<',
    ensures
        match_close(s, a) matches Some(e) ==> a < e < s.len(),
{
    crate::type_spec::lemma_match_close(s, a);
}

/// The `name: type` fields of `struct<...>` / `union<...>`, whose inside is
/// `[lo, hi)`.
fn parse_named_fields(t: &Text, lo: usize, hi: usize, context: &str) -> (r: Step<Vec<ArrowFieldDef>>)
    requires
        t.wf(),
        t.range(lo, hi),
    ensures
        step_fields(r) == named_fields(t.sub(lo as int, hi as int), 0, context@),
    decreases hi - lo, 4nat, 0nat,
{
    let ghost inner = t.sub(lo as int, hi as int);
    let parts = split_all_top_level_commas(t, lo, hi);
    let mut acc: Vec<ArrowFieldDef> = Vec::new();
    let mut k: usize = 0;
    while k < parts.len()
        invariant
            t.wf(),
            t.range(lo, hi),
            inner == t.sub(lo as int, hi as int),
            ranges_view(t, parts@) == split_top(inner),
            ranges_within(parts@, lo as int, hi as int),
            k <= parts@.len(),
            named_fields(inner, 0, context@) == prepend(
                fields_view(acc@),
                named_fields(inner, k as int, context@),
            ),
        decreases parts@.len() - k,
    {
        let (pa, pb) = parts[k];
        proof {
            assert(ranges_view(t, parts@)[k as int] == t.sub(pa as int, pb as int));
            assert(parts@[k as int] == (pa, pb));
        }
        let (a, b) = t.trim_range(pa, pb);
        let c = match t.find(a, b, ':') {
            None => {
                return Step::Fail(str3(context, " field must be 'name: type', got: ", t.slice(a, b)));
            },
            Some(c) => c,
        };
        proof {
            lemma_find(t.sub(a as int, b as int), ':');
        }
        let (na, nb) = t.trim_range(a, c);
        let (ta, tb) = t.trim_range(c + 1, b);
        match parse_in(t, ta, tb) {
            Step::Fail(m) => {
                return Step::Fail(m);
            },
            Step::Abort => {
                return Step::Abort;
            },
            Step::Done(ty) => {
                let ghost before = fields_view(acc@);
                let f = ArrowFieldDef::new(t.slice(na, nb), ty);
                acc.push(f);
                proof {
                    assert(fields_view(acc@) =~= before.push(f@)) by {
                        assert forall|i: int| 0 <= i < acc@.len() implies #[trigger] fields_view(
                            acc@,
                        )[i] == before.push(f@)[i] by {
                            if i < acc@.len() - 1 {
                                assert(acc@[i] == old_acc_at(acc@, i));
                            }
                        }
                    }
                    match named_fields(inner, k + 1, context@) {
                        Outcome::Done(rest) => {
                            assert(before + (seq![f@] + rest) =~= before.push(f@) + rest);
                        },
                        _ => {},
                    }
                }
            },
        }
        k = k + 1;
    }
    proof {
        assert(fields_view(acc@) + Seq::<SpecField>::empty() =~= fields_view(acc@));
    }
    Step::Done(acc)
}

spec fn old_acc_at(v: Seq<ArrowFieldDef>, i: int) -> ArrowFieldDef {
    v[i]
}

/// The result that `parse_type_string` gives on `s`, when it does not panic.
pub open spec fn parse_type_result(s: Seq<char>) -> Result<SpecType, SpecError> {
    match parse_type(s) {
        Outcome::Done(t) => Ok(t),
        Outcome::Fail(m) => Err(SpecError::InvalidType(m)),
        Outcome::Abort => Err(SpecError::InvalidType(Seq::empty())),
    }
}

pub open spec fn result_type_view(r: Result<ArrowType, SchemaError>) -> Result<SpecType, SpecError> {
    match r {
        Ok(t) => Ok(t@),
        Err(e) => Err(e@),
    }
}

/// Parse a type string like `"int32"`, `"timestamp[us, UTC]"`, `"list<utf8>"`,
/// `"decimal128(10, 2)"`, `"map<utf8, int32>"`.
pub fn parse_type_string(input: &str) -> (r: Result<ArrowType, SchemaError>)
    requires
        input@.len() < 0x7fff_ffff,
        !(parse_type(input@) is Abort),
    ensures
        result_type_view(r) == parse_type_result(input@),
{
    match try_parse_type_string(input) {
        Some(r) => r,
        None => Err(SchemaError::InvalidType(String::new())),
    }
}

/// `parse_type_string`, or `None` on the inputs on which it would slice out
/// of bounds (a `]` or `)` before the first `[` or `(`).
pub fn try_parse_type_string(input: &str) -> (r: Option<Result<ArrowType, SchemaError>>)
    requires
        input@.len() < 0x7fff_ffff,
    ensures
        r is None <==> parse_type(input@) is Abort,
        r matches Some(res) ==> result_type_view(res) == parse_type_result(input@),
{
    let t = Text::new(input);
    proof {
        assert(t.sub(0, t.chars@.len() as int) =~= input@);
    }
    match parse_in(&t, 0, t.len()) {
        Step::Done(ty) => Some(Ok(ty)),
        Step::Fail(m) => Some(Err(SchemaError::InvalidType(m))),
        Step::Abort => None,
    }
}

/// Whitespace around a type string is ignored: padding it with whitespace
/// on either side gives the same result.
pub proof fn law_parse_ignores_surrounding_whitespace(a: Seq<char>, s: Seq<char>, b: Seq<char>)
    requires
        all_ws(a),
        all_ws(b),
    ensures
        parse_type_result(a + s + b) == parse_type_result(s),
{
    lemma_trim_padded(a, s, b);
}

} // verus!
