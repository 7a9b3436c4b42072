//! What parsing a type string means: the grammar of `int32`,
//! `timestamp[us, UTC]`, `list<utf8>`, `decimal128(10, 2)`,
//! `map<utf8, int32>`, `struct<name: type, ...>` and the rest, over
//! character sequences, including the error message of each rejection.
use vstd::prelude::*;

use crate::arrow_type::{IntervalUnit, SpecType, UnionMode, parse_unit};
use crate::schema_def::{SpecField, new_field};
use crate::text::{
    decimal, find, join, lemma_find, lemma_trim, parse_i32_spec, parse_u32_spec, rfind, trim,
};

verus! {

/// The outcome of parsing: a value, a rejection with its message, or an
/// input on which the parser slices out of bounds and panics.
pub enum Outcome<T> {
    Done(T),
    Fail(Seq<char>),
    Abort,
}

// ---------------------------------------------------------------------------
// Delimiters
// ---------------------------------------------------------------------------

pub open spec fn is_open(c: char) -> bool {
    c == '<' || c == '[' || c == '('
}

pub open spec fn is_close(c: char) -> bool {
    c == '>' || c == ']' || c == ')'
}

/// Scan for the `>` that closes the `<` nesting level entered so far.
pub open spec fn close_from(s: Seq<char>, i: int, depth: int) -> Option<int>
    decreases s.len() - i,
{
    if i < 0 || i >= s.len() {
        None
    } else if s[i] == '<' {
        close_from(s, i + 1, depth + 1)
    } else if s[i] == '>' {
        if depth - 1 == 0 {
            Some(i)
        } else {
            close_from(s, i + 1, depth - 1)
        }
    } else {
        close_from(s, i + 1, depth)
    }
}

/// The `>` matching the `<` at position `a`.
pub open spec fn match_close(s: Seq<char>, a: int) -> Option<int> {
    close_from(s, a, 0)
}

pub proof fn lemma_close_from(s: Seq<char>, i: int, depth: int)
    requires
        0 <= i,
    ensures
        close_from(s, i, depth) matches Some(e) ==> i <= e < s.len() && s[e] == '>',
    decreases s.len() - i,
{
    if 0 <= i < s.len() {
        if s[i] == '<' {
            lemma_close_from(s, i + 1, depth + 1);
        } else if s[i] == '>' {
            lemma_close_from(s, i + 1, depth - 1);
        } else {
            lemma_close_from(s, i + 1, depth);
        }
    }
}

pub proof fn lemma_match_close(s: Seq<char>, a: int)
    requires
        0 <= a < s.len(),
        s[a] == '<',
    ensures
        match_close(s, a) matches Some(e) ==> a < e < s.len() && s[e] == '>',
{
    lemma_close_from(s, a + 1, 1);
}

/// Pieces of `s` between the commas that stand outside any `<>`, `[]`,
/// `()` nesting, scanning from `i` with the current piece starting at `start`.
pub open spec fn split_from(s: Seq<char>, i: int, depth: int, start: int) -> Seq<Seq<char>>
    decreases s.len() - i,
{
    if i < 0 || i >= s.len() {
        seq![s.subrange(start, s.len() as int)]
    } else if is_open(s[i]) {
        split_from(s, i + 1, depth + 1, start)
    } else if is_close(s[i]) {
        split_from(s, i + 1, depth - 1, start)
    } else if s[i] == ',' && depth == 0 {
        seq![s.subrange(start, i)] + split_from(s, i + 1, depth, i + 1)
    } else {
        split_from(s, i + 1, depth, start)
    }
}

/// `s` split at its top-level commas.
pub open spec fn split_top(s: Seq<char>) -> Seq<Seq<char>> {
    split_from(s, 0, 0, 0)
}

pub proof fn lemma_split_from(s: Seq<char>, i: int, depth: int, start: int)
    requires
        0 <= start <= i <= s.len(),
    ensures
        split_from(s, i, depth, start).len() >= 1,
        forall|k: int|
            0 <= k < split_from(s, i, depth, start).len() ==> #[trigger] split_from(
                s,
                i,
                depth,
                start,
            )[k].len() <= s.len() - start,
    decreases s.len() - i,
{
    if i < s.len() {
        if is_open(s[i]) {
            lemma_split_from(s, i + 1, depth + 1, start);
        } else if is_close(s[i]) {
            lemma_split_from(s, i + 1, depth - 1, start);
        } else if s[i] == ',' && depth == 0 {
            lemma_split_from(s, i + 1, depth, i + 1);
            let rest = split_from(s, i + 1, depth, i + 1);
            let all = seq![s.subrange(start, i)] + rest;
            assert forall|k: int| 0 <= k < all.len() implies #[trigger] all[k].len() <= s.len()
                - start by {
                if k > 0 {
                    assert(all[k] == rest[k - 1]);
                }
            }
        } else {
            lemma_split_from(s, i + 1, depth, start);
        }
    }
}

pub proof fn lemma_split_top(s: Seq<char>)
    ensures
        split_top(s).len() >= 1,
        forall|k: int| 0 <= k < split_top(s).len() ==> #[trigger] split_top(s)[k].len() <= s.len(),
{
    lemma_split_from(s, 0, 0, 0);
}

/// The bracket depth before position `i`: the brackets of any kind opened
/// in `s[..i]` minus those closed.
pub open spec fn depth_at(s: Seq<char>, i: int) -> int
    decreases i,
{
    if i <= 0 || i > s.len() {
        0
    } else if is_open(s[i - 1]) {
        depth_at(s, i - 1) + 1
    } else if is_close(s[i - 1]) {
        depth_at(s, i - 1) - 1
    } else {
        depth_at(s, i - 1)
    }
}

/// A comma outside any bracket.
pub open spec fn top_comma(s: Seq<char>, j: int) -> bool {
    0 <= j < s.len() && s[j] == ',' && depth_at(s, j) == 0
}

/// The number of commas outside brackets from position `i` on, when the
/// depth at `i` is `d`.
pub open spec fn top_commas_from(s: Seq<char>, i: int, d: int) -> nat
    decreases s.len() - i,
{
    if i < 0 || i >= s.len() {
        0
    } else if is_open(s[i]) {
        top_commas_from(s, i + 1, d + 1)
    } else if is_close(s[i]) {
        top_commas_from(s, i + 1, d - 1)
    } else if s[i] == ',' && d == 0 {
        1 + top_commas_from(s, i + 1, d)
    } else {
        top_commas_from(s, i + 1, d)
    }
}

/// The number of commas outside brackets in `s`.
pub open spec fn top_commas(s: Seq<char>) -> nat {
    top_commas_from(s, 0, 0)
}

proof fn lemma_join_cons(a: Seq<char>, rest: Seq<Seq<char>>, sep: Seq<char>)
    requires
        rest.len() >= 1,
    ensures
        join(seq![a] + rest, sep) == a + sep + join(rest, sep),
    decreases rest.len(),
{
    let all = seq![a] + rest;
    if rest.len() == 1 {
        assert(all.drop_last() =~= seq![a]);
        assert(all.last() == rest[0]);
        assert(join(seq![a], sep) == a);
        assert(join(rest, sep) == rest[0]);
    } else {
        assert(all.drop_last() =~= seq![a] + rest.drop_last());
        lemma_join_cons(a, rest.drop_last(), sep);
        assert(all.last() == rest.last());
        assert(a + sep + join(rest.drop_last(), sep) + sep + rest.last() =~= a + sep + (join(
            rest.drop_last(),
            sep,
        ) + sep + rest.last()));
    }
}

proof fn lemma_split_join(s: Seq<char>, i: int, d: int, start: int)
    requires
        0 <= start <= i <= s.len(),
    ensures
        join(split_from(s, i, d, start), ","@) == s.subrange(start, s.len() as int),
        split_from(s, i, d, start).len() == 1 + top_commas_from(s, i, d),
    decreases s.len() - i,
{
    if i < s.len() {
        if is_open(s[i]) {
            lemma_split_join(s, i + 1, d + 1, start);
        } else if is_close(s[i]) {
            lemma_split_join(s, i + 1, d - 1, start);
        } else if s[i] == ',' && d == 0 {
            lemma_split_join(s, i + 1, d, i + 1);
            lemma_split_from(s, i + 1, d, i + 1);
            let rest = split_from(s, i + 1, d, i + 1);
            lemma_join_cons(s.subrange(start, i), rest, ","@);
            reveal_strlit(",");
            assert(s.subrange(start, i) + ","@ + s.subrange(i + 1, s.len() as int) =~= s.subrange(
                start,
                s.len() as int,
            ));
        } else {
            lemma_split_join(s, i + 1, d, start);
        }
    } else {
        assert(join(seq![s.subrange(start, s.len() as int)], ","@) == s.subrange(
            start,
            s.len() as int,
        ));
    }
}

/// The first piece of the split ends at the first comma outside brackets,
/// or at the end.
proof fn lemma_split_first(s: Seq<char>, i: int, d: int) -> (c: int)
    requires
        0 <= i <= s.len(),
        d == depth_at(s, i),
        forall|j: int| 0 <= j < i ==> !top_comma(s, j),
    ensures
        i <= c <= s.len(),
        c == s.len() || top_comma(s, c),
        forall|j: int| 0 <= j < c ==> !top_comma(s, j),
        split_from(s, i, d, 0)[0] == s.subrange(0, c),
    decreases s.len() - i,
{
    if i < s.len() {
        if s[i] == ',' && d == 0 {
            assert(split_from(s, i, d, 0)[0] == s.subrange(0, i));
            i
        } else {
            let d2 = if is_open(s[i]) {
                d + 1
            } else if is_close(s[i]) {
                d - 1
            } else {
                d
            };
            assert(depth_at(s, i + 1) == d2);
            assert forall|j: int| 0 <= j < i + 1 implies !top_comma(s, j) by {
                if j == i {
                    assert(!(s[i] == ',' && depth_at(s, i) == 0));
                }
            }
            assert(split_from(s, i, d, 0) == split_from(s, i + 1, d2, 0));
            lemma_split_first(s, i + 1, d2)
        }
    } else {
        assert(split_from(s, i, d, 0)[0] == s.subrange(0, s.len() as int));
        s.len() as int
    }
}

/// Splitting at the commas outside brackets loses nothing: the pieces,
/// joined with commas, give back the string, and there is one piece more
/// than there are such commas.
pub proof fn law_split_top(s: Seq<char>)
    ensures
        join(split_top(s), ","@) == s,
        split_top(s).len() == 1 + top_commas(s),
{
    lemma_split_join(s, 0, 0, 0);
    assert(s.subrange(0, s.len() as int) =~= s);
}

/// The two arguments of `map<K, V>` and `dictionary<I, V>`: there are two
/// exactly when one comma stands outside brackets; the first argument is
/// what precedes that comma and the second what follows it.
pub proof fn law_split_two(s: Seq<char>)
    ensures
        split_two(s) is Ok <==> top_commas(s) == 1,
        split_two(s) matches Ok((a, b)) ==> {
            &&& a + ","@ + b == s
            &&& top_comma(s, a.len() as int)
            &&& forall|j: int| 0 <= j < a.len() ==> !top_comma(s, j)
        },
{
    law_split_top(s);
    if split_top(s).len() == 2 {
        let parts = split_top(s);
        lemma_join_cons(parts[0], seq![parts[1]], ","@);
        assert(parts =~= seq![parts[0]] + seq![parts[1]]);
        assert(join(seq![parts[1]], ","@) == parts[1]);
        let c = lemma_split_first(s, 0, 0);
        reveal_strlit(",");
        assert(parts[0].len() == c);
        assert(s.len() == parts[0].len() + 1 + parts[1].len());
    }
}

// ---------------------------------------------------------------------------
// Small pieces
// ---------------------------------------------------------------------------

/// The two arguments of `map<K, V>` / `dictionary<I, V>`.
pub open spec fn split_two(s: Seq<char>) -> Result<(Seq<char>, Seq<char>), Seq<char>> {
    let parts = split_top(s);
    if parts.len() != 2 {
        Err(
            "expected exactly 2 comma-separated type arguments, got "@ + decimal(parts.len() as int)
                + ": "@ + s,
        )
    } else {
        Ok((parts[0], parts[1]))
    }
}

/// The `(N)` that follows `fixed_size_list<T>`.
pub open spec fn paren_int(rest: Seq<char>, context: Seq<char>) -> Result<i32, Seq<char>> {
    let s = trim(rest);
    if !(s.len() >= 1 && s[0] == '(' && s[s.len() - 1] == ')') {
        Err(context + " requires (N) suffix, got: "@ + s)
    } else {
        let inner = s.subrange(1, s.len() - 1);
        match parse_i32_spec(trim(inner)) {
            Some(n) => Ok(n),
            None => Err(context + ": invalid size: "@ + inner),
        }
    }
}

/// `(precision, scale)` of a decimal type.
pub open spec fn precision_scale(params: Seq<char>) -> Result<(u8, i8), Seq<char>> {
    let bad_shape = Err("decimal requires (precision, scale), got: ("@ + params + ")"@);
    match find(params, ',') {
        None => bad_shape,
        Some(c) => {
            let p0 = params.subrange(0, c);
            let p1 = params.subrange(c + 1, params.len() as int);
            if find(p1, ',') is Some {
                bad_shape
            } else {
                match parse_u32_spec(trim(p0)) {
                    None => Err("invalid precision: "@ + trim(p0)),
                    Some(p) => match parse_i32_spec(trim(p1)) {
                        None => Err("invalid scale: "@ + trim(p1)),
                        Some(sc) => if p > 255 {
                            Err(
                                "decimal precision "@ + decimal(p as int)
                                    + " out of range (max 255)"@,
                            )
                        } else if sc < -128 || sc > 127 {
                            Err("decimal scale "@ + decimal(sc as int) + " out of range (-128..=127)"@)
                        } else {
                            Ok((p as u8, sc as i8))
                        },
                    },
                }
            }
        },
    }
}

/// Bare type names without parameters.
pub open spec fn bare_type(s: Seq<char>) -> Outcome<SpecType> {
    if s == "null"@ {
        Outcome::Done(SpecType::Null)
    } else if s == "bool"@ || s == "boolean"@ {
        Outcome::Done(SpecType::Boolean)
    } else if s == "int8"@ {
        Outcome::Done(SpecType::Int8)
    } else if s == "int16"@ {
        Outcome::Done(SpecType::Int16)
    } else if s == "int32"@ {
        Outcome::Done(SpecType::Int32)
    } else if s == "int64"@ {
        Outcome::Done(SpecType::Int64)
    } else if s == "uint8"@ {
        Outcome::Done(SpecType::UInt8)
    } else if s == "uint16"@ {
        Outcome::Done(SpecType::UInt16)
    } else if s == "uint32"@ {
        Outcome::Done(SpecType::UInt32)
    } else if s == "uint64"@ {
        Outcome::Done(SpecType::UInt64)
    } else if s == "float16"@ || s == "half"@ {
        Outcome::Done(SpecType::Float16)
    } else if s == "float32"@ || s == "float"@ {
        Outcome::Done(SpecType::Float32)
    } else if s == "float64"@ || s == "double"@ {
        Outcome::Done(SpecType::Float64)
    } else if s == "utf8"@ || s == "string"@ {
        Outcome::Done(SpecType::Utf8)
    } else if s == "large_utf8"@ || s == "large_string"@ {
        Outcome::Done(SpecType::LargeUtf8)
    } else if s == "binary"@ {
        Outcome::Done(SpecType::Binary)
    } else if s == "large_binary"@ {
        Outcome::Done(SpecType::LargeBinary)
    } else if s == "date32"@ {
        Outcome::Done(SpecType::Date32)
    } else if s == "date64"@ {
        Outcome::Done(SpecType::Date64)
    } else {
        Outcome::Fail("unknown type: "@ + s)
    }
}

/// Types with square brackets: `timestamp[us, UTC]`, `time32[ms]`,
/// `time64[ns]`, `duration[ns]`, `interval[year_month]`.
pub open spec fn bracketed(t: Seq<char>) -> Outcome<Option<SpecType>> {
    match find(t, '[') {
        None => Outcome::Done(None),
        Some(bs) => match rfind(t, ']') {
            None => Outcome::Fail("unmatched '[' in type: "@ + t),
            Some(be) => if be < bs {
                Outcome::Abort
            } else {
                let prefix = t.subrange(0, bs);
                let params = t.subrange(bs + 1, be);
                if prefix == "timestamp"@ {
                    let (p0, tz) = match find(params, ',') {
                        None => (params, None),
                        Some(c) => (
                            params.subrange(0, c),
                            Some(trim(params.subrange(c + 1, params.len() as int))),
                        ),
                    };
                    match parse_unit(p0) {
                        None => Outcome::Fail("invalid time unit: "@ + p0),
                        Some(unit) => Outcome::Done(Some(SpecType::Timestamp { unit, timezone: tz })),
                    }
                } else if prefix == "time32"@ {
                    match parse_unit(params) {
                        None => Outcome::Fail("invalid time unit: "@ + params),
                        Some(unit) => Outcome::Done(Some(SpecType::Time32 { unit })),
                    }
                } else if prefix == "time64"@ {
                    match parse_unit(params) {
                        None => Outcome::Fail("invalid time unit: "@ + params),
                        Some(unit) => Outcome::Done(Some(SpecType::Time64 { unit })),
                    }
                } else if prefix == "duration"@ {
                    match parse_unit(params) {
                        None => Outcome::Fail("invalid time unit: "@ + params),
                        Some(unit) => Outcome::Done(Some(SpecType::Duration { unit })),
                    }
                } else if prefix == "interval"@ {
                    let p = trim(params);
                    if p == "year_month"@ {
                        Outcome::Done(Some(SpecType::Interval { unit: IntervalUnit::YearMonth }))
                    } else if p == "day_time"@ {
                        Outcome::Done(Some(SpecType::Interval { unit: IntervalUnit::DayTime }))
                    } else if p == "month_day_nano"@ {
                        Outcome::Done(Some(SpecType::Interval { unit: IntervalUnit::MonthDayNano }))
                    } else {
                        Outcome::Fail("invalid interval unit: "@ + params)
                    }
                } else {
                    Outcome::Fail("unknown bracketed type: "@ + prefix)
                }
            },
        },
    }
}

/// Types with parentheses: `decimal128(10, 2)`, `decimal256(38, 10)`,
/// `fixed_size_binary(256)`.
pub open spec fn parens(t: Seq<char>) -> Outcome<Option<SpecType>> {
    match find(t, '(') {
        None => Outcome::Done(None),
        Some(ps) => match rfind(t, ')') {
            None => Outcome::Fail("unmatched '(' in type: "@ + t),
            Some(pe) => if pe < ps {
                Outcome::Abort
            } else {
                let prefix = t.subrange(0, ps);
                let params = t.subrange(ps + 1, pe);
                if prefix == "decimal128"@ {
                    match precision_scale(params) {
                        Ok((precision, scale)) => Outcome::Done(
                            Some(SpecType::Decimal128 { precision, scale }),
                        ),
                        Err(m) => Outcome::Fail(m),
                    }
                } else if prefix == "decimal256"@ {
                    match precision_scale(params) {
                        Ok((precision, scale)) => Outcome::Done(
                            Some(SpecType::Decimal256 { precision, scale }),
                        ),
                        Err(m) => Outcome::Fail(m),
                    }
                } else if prefix == "fixed_size_binary"@ {
                    match parse_i32_spec(trim(params)) {
                        None => Outcome::Fail("invalid byte_width for fixed_size_binary: "@ + params),
                        Some(w) => if w <= 0 {
                            Outcome::Fail(
                                "fixed_size_binary byte_width must be positive, got "@ + decimal(
                                    w as int,
                                ),
                            )
                        } else {
                            Outcome::Done(Some(SpecType::FixedSizeBinary { byte_width: w }))
                        },
                    }
                } else {
                    Outcome::Fail("unknown parameterized type: "@ + prefix)
                }
            },
        },
    }
}

pub open spec fn item_field(t: SpecType) -> SpecField {
    new_field("item"@, t)
}

pub open spec fn key_field(t: SpecType) -> SpecField {
    SpecField { nullable: false, ..new_field("key"@, t) }
}

pub open spec fn value_field(t: SpecType) -> SpecField {
    new_field("value"@, t)
}

// ---------------------------------------------------------------------------
// The recursive grammar
// ---------------------------------------------------------------------------

/// `parse_type_string`: parse a type string (surrounding whitespace is
/// ignored).
pub open spec fn parse_type(s: Seq<char>) -> Outcome<SpecType>
    decreases s.len(), 3int, 0int,
{
    proof {
        lemma_trim(s);
    }
    let t = trim(s);
    if t.len() == 0 {
        Outcome::Fail("empty type string"@)
    } else {
        parse_trimmed(t)
    }
}

/// Parse a non-empty trimmed type string: generic types first, then
/// bracketed, then parenthesized, then bare names.
pub open spec fn parse_trimmed(t: Seq<char>) -> Outcome<SpecType>
    decreases t.len(), 2int, 0int,
{
    match generic(t) {
        Outcome::Done(Some(r)) => Outcome::Done(r),
        Outcome::Fail(m) => Outcome::Fail(m),
        Outcome::Abort => Outcome::Abort,
        Outcome::Done(None) => match bracketed(t) {
            Outcome::Done(Some(r)) => Outcome::Done(r),
            Outcome::Fail(m) => Outcome::Fail(m),
            Outcome::Abort => Outcome::Abort,
            Outcome::Done(None) => match parens(t) {
                Outcome::Done(Some(r)) => Outcome::Done(r),
                Outcome::Fail(m) => Outcome::Fail(m),
                Outcome::Abort => Outcome::Abort,
                Outcome::Done(None) => bare_type(t),
            },
        },
    }
}

/// Generic types with angle brackets: `list<T>`, `large_list<T>`,
/// `fixed_size_list<T>(N)`, `map<K, V>`, `dictionary<I, V>`,
/// `struct<name: T, ...>`, `union<name: T, ...>`.
pub open spec fn generic(t: Seq<char>) -> Outcome<Option<SpecType>>
    decreases t.len(), 1int, 0int,
{
    match find(t, '<') {
        None => Outcome::Done(None),
        Some(a) => {
            proof {
                lemma_find(t, '<');
                lemma_match_close(t, a);
            }
            let prefix = t.subrange(0, a);
            match match_close(t, a) {
                None => Outcome::Fail("unmatched '<' in type: "@ + t),
                Some(e) => {
                    let inner = t.subrange(a + 1, e);
                    proof {
                        lemma_split_top(inner);
                    }
                    if prefix == "list"@ {
                        match parse_type(inner) {
                            Outcome::Done(et) => Outcome::Done(
                                Some(SpecType::List { element: Box::new(item_field(et)) }),
                            ),
                            Outcome::Fail(m) => Outcome::Fail(m),
                            Outcome::Abort => Outcome::Abort,
                        }
                    } else if prefix == "large_list"@ {
                        match parse_type(inner) {
                            Outcome::Done(et) => Outcome::Done(
                                Some(SpecType::LargeList { element: Box::new(item_field(et)) }),
                            ),
                            Outcome::Fail(m) => Outcome::Fail(m),
                            Outcome::Abort => Outcome::Abort,
                        }
                    } else if prefix == "fixed_size_list"@ {
                        match parse_type(inner) {
                            Outcome::Done(et) => match paren_int(
                                t.subrange(e + 1, t.len() as int),
                                "fixed_size_list"@,
                            ) {
                                Err(m) => Outcome::Fail(m),
                                Ok(size) => if size <= 0 {
                                    Outcome::Fail(
                                        "fixed_size_list size must be positive, got "@ + decimal(
                                            size as int,
                                        ),
                                    )
                                } else {
                                    Outcome::Done(
                                        Some(
                                            SpecType::FixedSizeList {
                                                element: Box::new(item_field(et)),
                                                size,
                                            },
                                        ),
                                    )
                                },
                            },
                            Outcome::Fail(m) => Outcome::Fail(m),
                            Outcome::Abort => Outcome::Abort,
                        }
                    } else if prefix == "map"@ {
                        match split_two(inner) {
                            Err(m) => Outcome::Fail(m),
                            Ok((ks, vs)) => match parse_type(ks) {
                                Outcome::Done(kt) => match parse_type(vs) {
                                    Outcome::Done(vt) => Outcome::Done(
                                        Some(
                                            SpecType::MapType {
                                                key: Box::new(key_field(kt)),
                                                value: Box::new(value_field(vt)),
                                                keys_sorted: false,
                                            },
                                        ),
                                    ),
                                    Outcome::Fail(m) => Outcome::Fail(m),
                                    Outcome::Abort => Outcome::Abort,
                                },
                                Outcome::Fail(m) => Outcome::Fail(m),
                                Outcome::Abort => Outcome::Abort,
                            },
                        }
                    } else if prefix == "dictionary"@ {
                        match split_two(inner) {
                            Err(m) => Outcome::Fail(m),
                            Ok((ks, vs)) => match parse_type(ks) {
                                Outcome::Done(it) => match parse_type(vs) {
                                    Outcome::Done(vt) => Outcome::Done(
                                        Some(
                                            SpecType::Dictionary {
                                                index_type: Box::new(it),
                                                value_type: Box::new(vt),
                                            },
                                        ),
                                    ),
                                    Outcome::Fail(m) => Outcome::Fail(m),
                                    Outcome::Abort => Outcome::Abort,
                                },
                                Outcome::Fail(m) => Outcome::Fail(m),
                                Outcome::Abort => Outcome::Abort,
                            },
                        }
                    } else if prefix == "struct"@ {
                        match named_fields(inner, 0, "struct"@) {
                            Outcome::Done(fields) => Outcome::Done(
                                Some(SpecType::Struct { fields }),
                            ),
                            Outcome::Fail(m) => Outcome::Fail(m),
                            Outcome::Abort => Outcome::Abort,
                        }
                    } else if prefix == "union"@ {
                        match named_fields(inner, 0, "union"@) {
                            Outcome::Done(fields) => Outcome::Done(
                                Some(SpecType::Union { fields, mode: UnionMode::Dense }),
                            ),
                            Outcome::Fail(m) => Outcome::Fail(m),
                            Outcome::Abort => Outcome::Abort,
                        }
                    } else {
                        Outcome::Fail("unknown generic type: "@ + prefix)
                    }
                },
            }
        },
    }
}

/// The fields `name: type` of `struct<...>` / `union<...>`, from the `k`-th
/// top-level piece of `inner` on.
pub open spec fn named_fields(inner: Seq<char>, k: int, context: Seq<char>) -> Outcome<
    Seq<SpecField>,
>
    decreases inner.len(), 4int, split_top(inner).len() - k,
{
    let parts = split_top(inner);
    if k < 0 || k >= parts.len() {
        Outcome::Done(Seq::empty())
    } else {
        proof {
            lemma_split_top(inner);
            lemma_trim(parts[k]);
        }
        let part = trim(parts[k]);
        match find(part, ':') {
            None => Outcome::Fail(context + " field must be 'name: type', got: "@ + part),
            Some(c) => {
                proof {
                    lemma_find(part, ':');
                    lemma_trim(part.subrange(c + 1, part.len() as int));
                }
                let name = trim(part.subrange(0, c));
                let ty = trim(part.subrange(c + 1, part.len() as int));
                match parse_type(ty) {
                    Outcome::Fail(m) => Outcome::Fail(m),
                    Outcome::Abort => Outcome::Abort,
                    Outcome::Done(t) => match named_fields(inner, k + 1, context) {
                        Outcome::Done(rest) => Outcome::Done(seq![new_field(name, t)] + rest),
                        Outcome::Fail(m) => Outcome::Fail(m),
                        Outcome::Abort => Outcome::Abort,
                    },
                }
            },
        }
    }
}

} // verus!
