//! Printing a type and parsing it back: the type-string syntax that
//! `ArrowType::to_string` prints is the one that `parse_type_string` reads.
use vstd::prelude::*;

use crate::arrow_type::{
    IntervalUnit, SpecType, TimeUnit, law_time_unit_roundtrip, parse_unit, type_display,
    unit_display,
};
use crate::error::SpecError;
use crate::type_parser::parse_type_result;
use crate::text::{
    all_digits, all_ws, decimal, decimal_int, digit_char, digits_value, find, is_digit, is_trimmed,
    is_ws, lemma_find, lemma_rfind, lemma_trim, lemma_trim_around, lemma_trim_split, lemma_trim_padded, nat_digits, parse_i32_spec,
    parse_u32_spec, rfind, trim,
};
use crate::type_spec::{
    Outcome, bare_type, bracketed, close_from, generic, is_close, is_open, item_field, key_field,
    lemma_match_close, lemma_split_top, match_close, paren_int, parens, parse_trimmed, parse_type,
    precision_scale, split_from, split_top, split_two, value_field,
};

verus! {

// ---------------------------------------------------------------------------
// Searching
// ---------------------------------------------------------------------------

/// `c` does not occur in `s`.
pub open spec fn lacks(s: Seq<char>, c: char) -> bool {
    forall|k: int| 0 <= k < s.len() ==> s[k] != c
}

/// `s` holds no bracket of any kind.
pub open spec fn no_brackets(s: Seq<char>) -> bool {
    forall|k: int| 0 <= k < s.len() ==> !is_open(#[trigger] s[k]) && !is_close(s[k])
}

proof fn lemma_find_at(s: Seq<char>, c: char, p: int)
    requires
        0 <= p < s.len(),
        s[p] == c,
        forall|m: int| 0 <= m < p ==> s[m] != c,
    ensures
        find(s, c) == Some(p),
{
    lemma_find(s, c);
}

proof fn lemma_find_none(s: Seq<char>, c: char)
    requires
        lacks(s, c),
    ensures
        find(s, c) is None,
{
    lemma_find(s, c);
}

proof fn lemma_rfind_last(s: Seq<char>, c: char)
    requires
        s.len() > 0,
        s[s.len() - 1] == c,
    ensures
        rfind(s, c) == Some(s.len() - 1),
{
}

// ---------------------------------------------------------------------------
// Numbers
// ---------------------------------------------------------------------------

proof fn lemma_nat_digits(n: nat)
    ensures
        all_digits(nat_digits(n)),
        digits_value(nat_digits(n)) == n,
    decreases n,
{
    let s = nat_digits(n);
    if n < 10 {
        assert(s.drop_last() =~= Seq::<char>::empty());
        assert(digit_char(n as int) as int == '0' as int + n);
        assert(digits_value(s) == digits_value(s.drop_last()) * 10 + (s.last() as int - '0' as int));
    } else {
        lemma_nat_digits(n / 10);
        let q = nat_digits(n / 10);
        assert(s.drop_last() =~= q);
        let d = (n % 10) as int;
        assert(s.last() == digit_char(d));
        assert(digit_char(d) as int == '0' as int + d);
        assert(n == (n / 10) * 10 + d);
        assert(digits_value(s) == digits_value(s.drop_last()) * 10 + (s.last() as int - '0' as int));
        assert(digits_value(q) == n / 10);
    }
}

/// What a decimal string is made of: digits, after a `-` for a negative
/// number.
pub proof fn lemma_decimal(n: int)
    ensures
        decimal(n).len() > 0,
        decimal_int(decimal(n), true) == Some(n),
        n >= 0 ==> decimal_int(decimal(n), false) == Some(n),
        forall|k: int|
            0 <= k < decimal(n).len() ==> is_digit(#[trigger] decimal(n)[k]) || (k == 0
                && decimal(n)[k] == '-'),
{
    if n < 0 {
        let m = (-n) as nat;
        lemma_nat_digits(m);
        let s = decimal(n);
        assert(s.drop_first() =~= nat_digits(m));
        assert forall|k: int| 0 <= k < s.len() implies is_digit(#[trigger] s[k]) || (k == 0
            && s[k] == '-') by {
            if k > 0 {
                assert(s[k] == nat_digits(m)[k - 1]);
            }
        }
    } else {
        lemma_nat_digits(n as nat);
        assert(is_digit(decimal(n)[0]));
    }
}

/// A decimal string holds no bracket, comma or whitespace, and is trimmed.
pub proof fn lemma_decimal_plain(n: int)
    ensures
        no_brackets(decimal(n)),
        lacks(decimal(n), ','),
        forall|k: int| 0 <= k < decimal(n).len() ==> !is_ws(#[trigger] decimal(n)[k]),
        is_trimmed(decimal(n)),
{
    lemma_decimal(n);
}

// ---------------------------------------------------------------------------
// Nesting
// ---------------------------------------------------------------------------

pub open spec fn angle_step(c: char) -> int {
    if c == '<' {
        1
    } else if c == '>' {
        -1
    } else {
        0
    }
}

/// How much deeper in `<>` the end of `x` is than its start.
pub open spec fn angle_net(x: Seq<char>) -> int
    decreases x.len(),
{
    if x.len() == 0 {
        0
    } else {
        angle_step(x[0]) + angle_net(x.drop_first())
    }
}

/// Scanning `x` from `<>` depth `d`, the depth stays at one or more.
pub open spec fn angle_stays(x: Seq<char>, d: int) -> bool
    decreases x.len(),
{
    x.len() == 0 || (d + angle_step(x[0]) >= 1 && angle_stays(x.drop_first(), d + angle_step(x[0])))
}

pub open spec fn bracket_step(c: char) -> int {
    if is_open(c) {
        1
    } else if is_close(c) {
        -1
    } else {
        0
    }
}

/// How much deeper in brackets of any kind the end of `x` is than its start.
pub open spec fn bracket_net(x: Seq<char>) -> int
    decreases x.len(),
{
    if x.len() == 0 {
        0
    } else {
        bracket_step(x[0]) + bracket_net(x.drop_first())
    }
}

/// Scanning `x` from bracket depth `d`, no comma stands at depth zero.
pub open spec fn commas_nested(x: Seq<char>, d: int) -> bool
    decreases x.len(),
{
    x.len() == 0 || ((x[0] == ',' ==> d != 0) && commas_nested(
        x.drop_first(),
        d + bracket_step(x[0]),
    ))
}

/// Scanning `x` from bracket depth `d`, every comma stands at depth one or
/// more.
pub open spec fn commas_above(x: Seq<char>, d: int) -> bool
    decreases x.len(),
{
    x.len() == 0 || ((x[0] == ',' ==> d > 0) && commas_above(
        x.drop_first(),
        d + bracket_step(x[0]),
    ))
}

/// Starting deeper keeps every comma at depth one or more.
proof fn lemma_commas_above(x: Seq<char>, d: int, e: int)
    requires
        commas_above(x, d),
        d <= e,
    ensures
        commas_above(x, e),
        commas_nested(x, e),
    decreases x.len(),
{
    if x.len() > 0 {
        lemma_commas_above(x.drop_first(), d + bracket_step(x[0]), e + bracket_step(x[0]));
    }
}

/// A piece without `<` or `>` keeps the `<>` depth.
proof fn lemma_angle_free(x: Seq<char>, d: int)
    requires
        lacks(x, '<'),
        lacks(x, '>'),
    ensures
        angle_net(x) == 0,
        d >= 1 ==> angle_stays(x, d),
    decreases x.len(),
{
    if x.len() > 0 {
        assert(x[0] != '<' && x[0] != '>');
        assert forall|k: int| 0 <= k < x.drop_first().len() implies x.drop_first()[k] != '<'
            && x.drop_first()[k] != '>' by {
            assert(x.drop_first()[k] == x[k + 1]);
        }
        lemma_angle_free(x.drop_first(), d);
    }
}

proof fn lemma_angle_add(a: Seq<char>, b: Seq<char>, d: int)
    ensures
        angle_net(a + b) == angle_net(a) + angle_net(b),
        angle_stays(a, d) && angle_stays(b, d + angle_net(a)) ==> angle_stays(a + b, d),
    decreases a.len(),
{
    if a.len() > 0 {
        assert((a + b).drop_first() =~= a.drop_first() + b);
        assert((a + b)[0] == a[0]);
        lemma_angle_add(a.drop_first(), b, d + angle_step(a[0]));
    } else {
        assert(a + b =~= b);
    }
}

proof fn lemma_bracket_add(a: Seq<char>, b: Seq<char>, d: int)
    ensures
        bracket_net(a + b) == bracket_net(a) + bracket_net(b),
        commas_nested(a, d) && commas_nested(b, d + bracket_net(a)) ==> commas_nested(a + b, d),
    decreases a.len(),
{
    if a.len() > 0 {
        assert((a + b).drop_first() =~= a.drop_first() + b);
        assert((a + b)[0] == a[0]);
        lemma_bracket_add(a.drop_first(), b, d + bracket_step(a[0]));
    } else {
        assert(a + b =~= b);
    }
}

/// A piece without brackets is flat.
proof fn lemma_flat(x: Seq<char>, d: int)
    requires
        no_brackets(x),
    ensures
        angle_net(x) == 0,
        d >= 1 ==> angle_stays(x, d),
        bracket_net(x) == 0,
        (d != 0 || lacks(x, ',')) ==> commas_nested(x, d),
    decreases x.len(),
{
    if x.len() > 0 {
        assert(!is_open(x[0]) && !is_close(x[0]));
        lemma_flat(x.drop_first(), d);
    }
}

/// A piece without brackets followed by one bracket.
proof fn lemma_flat_then(x: Seq<char>, d: int)
    requires
        x.len() > 0,
        no_brackets(x.drop_last()),
        lacks(x.drop_last(), ','),
        x[x.len() - 1] != ',',
    ensures
        angle_net(x) == angle_step(x[x.len() - 1]),
        bracket_net(x) == bracket_step(x[x.len() - 1]),
        d >= 1 && d + angle_step(x[x.len() - 1]) >= 1 ==> angle_stays(x, d),
        commas_nested(x, d),
{
    let c = x[x.len() - 1];
    let one = seq![c];
    assert(one.drop_first() =~= Seq::<char>::empty());
    assert(one[0] == c);
    assert(angle_net(Seq::<char>::empty()) == 0);
    assert(bracket_net(Seq::<char>::empty()) == 0);
    assert(angle_stays(Seq::<char>::empty(), d + angle_step(c)));
    assert(commas_nested(Seq::<char>::empty(), d + bracket_step(c)));
    assert(angle_net(one) == angle_step(c));
    assert(bracket_net(one) == bracket_step(c));
    assert(d + angle_step(c) >= 1 ==> angle_stays(one, d));
    assert(commas_nested(one, d));
    assert(x =~= x.drop_last() + one);
    lemma_flat(x.drop_last(), d);
    lemma_angle_add(x.drop_last(), one, d);
    lemma_bracket_add(x.drop_last(), one, d);
}

/// Scanning a piece that keeps the `<>` depth at one or more finds no
/// closing `>` in it.
proof fn lemma_close_scan(s: Seq<char>, i: int, d: int, x: Seq<char>)
    requires
        0 <= i,
        i + x.len() <= s.len(),
        s.subrange(i, i + x.len()) == x,
        angle_stays(x, d),
    ensures
        close_from(s, i, d) == close_from(s, i + x.len(), d + angle_net(x)),
    decreases x.len(),
{
    if x.len() > 0 {
        assert(s[i] == x[0]);
        assert(s.subrange(i + 1, i + x.len()) =~= x.drop_first());
        lemma_close_scan(s, i + 1, d + angle_step(x[0]), x.drop_first());
    }
}

/// Scanning a piece whose commas are nested does not split it.
proof fn lemma_split_scan(s: Seq<char>, i: int, d: int, start: int, x: Seq<char>)
    requires
        0 <= i,
        i + x.len() <= s.len(),
        s.subrange(i, i + x.len()) == x,
        commas_nested(x, d),
    ensures
        split_from(s, i, d, start) == split_from(s, i + x.len(), d + bracket_net(x), start),
    decreases x.len(),
{
    if x.len() > 0 {
        assert(s[i] == x[0]);
        assert(s.subrange(i + 1, i + x.len()) =~= x.drop_first());
        lemma_split_scan(s, i + 1, d + bracket_step(x[0]), start, x.drop_first());
    }
}

// ---------------------------------------------------------------------------
// The printed form
// ---------------------------------------------------------------------------

/// A timezone that can stand in a printed type below its top level: no
/// surrounding whitespace and no `<` or `>`; inside an argument of a map or
/// dictionary (`paired`), also it opens as many brackets as it closes and
/// none of its commas stands where more brackets have closed than opened
/// since its start.
pub open spec fn tz_fits(z: Seq<char>, paired: bool) -> bool {
    &&& is_trimmed(z)
    &&& lacks(z, '<')
    &&& lacks(z, '>')
    &&& paired ==> bracket_net(z) == 0 && commas_above(z, 1)
}

/// The types that `to_string` prints in a form that parses back where they
/// stand below the top level, `paired` inside an argument of a map or
/// dictionary: no struct or union (printed as their kind alone), list
/// elements named `item` and nullable, map keys named `key` and not
/// nullable, map values named `value` and nullable, unsorted map keys, no
/// metadata on these fields, positive sizes, and timezones that fit where
/// they stand (`tz_fits`).
pub open spec fn prints_in(t: SpecType, paired: bool) -> bool
    decreases t,
{
    match t {
        SpecType::FixedSizeBinary { byte_width } => byte_width > 0,
        SpecType::Timestamp { timezone, .. } => match timezone {
            Some(z) => tz_fits(z, paired),
            None => true,
        },
        SpecType::List { element } => *element == item_field(element.arrow_type) && prints_in(
            element.arrow_type,
            paired,
        ),
        SpecType::LargeList { element } => *element == item_field(element.arrow_type) && prints_in(
            element.arrow_type,
            paired,
        ),
        SpecType::FixedSizeList { element, size } => size > 0 && *element == item_field(
            element.arrow_type,
        ) && prints_in(element.arrow_type, paired),
        SpecType::Struct { .. } => false,
        SpecType::MapType { key, value, keys_sorted } => !keys_sorted && *key == key_field(
            key.arrow_type,
        ) && *value == value_field(value.arrow_type) && prints_in(key.arrow_type, true) && prints_in(
            value.arrow_type,
            true,
        ),
        SpecType::Union { .. } => false,
        SpecType::Dictionary { index_type, value_type } => prints_in(*index_type, true) && prints_in(
            *value_type,
            true,
        ),
        _ => true,
    }
}

/// What prints back inside an argument of a map or dictionary prints back
/// elsewhere too.
proof fn lemma_prints_in_unpaired(t: SpecType)
    requires
        prints_in(t, true),
    ensures
        prints_in(t, false),
    decreases t,
{
    match t {
        SpecType::List { element } => {
            lemma_prints_in_unpaired(element.arrow_type);
        },
        SpecType::LargeList { element } => {
            lemma_prints_in_unpaired(element.arrow_type);
        },
        SpecType::FixedSizeList { element, .. } => {
            lemma_prints_in_unpaired(element.arrow_type);
        },
        _ => {},
    }
}

/// `x` is trimmed and balanced in `<>` from depth `d`; where `paired`, also
/// balanced in brackets of every kind from depth `e`, with its commas inside
/// brackets.
pub open spec fn shaped_in(x: Seq<char>, paired: bool, d: int, e: int) -> bool {
    &&& x.len() > 0
    &&& is_trimmed(x)
    &&& angle_net(x) == 0
    &&& angle_stays(x, d)
    &&& paired ==> bracket_net(x) == 0 && commas_nested(x, e)
}

/// `x` is trimmed and balanced from `<>` depth `d` and bracket depth `e`.
pub open spec fn shaped(x: Seq<char>, d: int, e: int) -> bool {
    &&& x.len() > 0
    &&& is_trimmed(x)
    &&& angle_net(x) == 0
    &&& angle_stays(x, d)
    &&& bracket_net(x) == 0
    &&& commas_nested(x, e)
}

/// `open + inner + close`, where `open` ends in the bracket that `close`
/// closes and `inner` is balanced.
proof fn lemma_wrapped(
    open: Seq<char>,
    inner: Seq<char>,
    close: Seq<char>,
    paired: bool,
    d: int,
    e: int,
)
    requires
        d >= 1,
        e >= 0,
        open.len() > 0,
        !is_ws(open[0]),
        no_brackets(open.drop_last()),
        lacks(open.drop_last(), ','),
        is_open(open[open.len() - 1]),
        angle_net(inner) == 0,
        angle_stays(inner, d + angle_step(open[open.len() - 1])),
        paired ==> bracket_net(inner) == 0 && commas_nested(inner, e + 1),
        close.len() == 1,
        is_close(close[0]),
        angle_step(close[0]) == -angle_step(open[open.len() - 1]),
    ensures
        shaped_in(open + inner + close, paired, d, e),
{
    let o = open[open.len() - 1];
    lemma_flat_then(open, d);
    lemma_flat_then(open, e);
    let d1 = d + angle_step(o);
    assert(close.drop_last() =~= Seq::<char>::empty());
    lemma_flat_then(close, d1);
    lemma_flat_then(close, e + 1);
    lemma_angle_add(open, inner, d);
    lemma_bracket_add(open, inner, e);
    lemma_angle_add(open + inner, close, d);
    lemma_bracket_add(open + inner, close, e);
    let w = open + inner + close;
    assert(w[0] == open[0]);
    assert(w[w.len() - 1] == close[0]);
}

/// `open + flat + close` with no bracket in `flat`.
proof fn lemma_wrapped_flat(open: Seq<char>, flat: Seq<char>, close: Seq<char>, d: int, e: int)
    requires
        d >= 1,
        e >= 0,
        open.len() > 0,
        !is_ws(open[0]),
        no_brackets(open.drop_last()),
        lacks(open.drop_last(), ','),
        is_open(open[open.len() - 1]),
        open[open.len() - 1] != '<',
        no_brackets(flat),
        close.len() == 1,
        is_close(close[0]),
        close[0] != '>',
    ensures
        shaped(open + flat + close, d, e),
{
    lemma_flat(flat, d);
    lemma_flat(flat, e + 1);
    lemma_wrapped(open, flat, close, true, d, e);
}

/// A printed unit is a short plain word.
proof fn lemma_unit_plain(u: TimeUnit)
    ensures
        unit_display(u).len() > 0,
        no_brackets(unit_display(u)),
        lacks(unit_display(u), ','),
        is_trimmed(unit_display(u)),
{
    reveal_strlit("s");
    reveal_strlit("ms");
    reveal_strlit("us");
    reveal_strlit("ns");
}

/// The types without parameters.
pub open spec fn is_bare(t: SpecType) -> bool {
    match t {
        SpecType::Null | SpecType::Boolean | SpecType::Int8 | SpecType::Int16 | SpecType::Int32
        | SpecType::Int64 | SpecType::UInt8 | SpecType::UInt16 | SpecType::UInt32
        | SpecType::UInt64 | SpecType::Float16 | SpecType::Float32 | SpecType::Float64
        | SpecType::Utf8 | SpecType::LargeUtf8 | SpecType::Binary | SpecType::LargeBinary
        | SpecType::Date32 | SpecType::Date64 => true,
        _ => false,
    }
}

/// The printed form of a type without parameters is a plain word.
proof fn lemma_bare_plain(t: SpecType)
    requires
        is_bare(t),
    ensures
        type_display(t).len() > 0,
        no_brackets(type_display(t)),
        lacks(type_display(t), ','),
        is_trimmed(type_display(t)),
{
    reveal_strlit("null");
    reveal_strlit("boolean");
    reveal_strlit("int8");
    reveal_strlit("int16");
    reveal_strlit("int32");
    reveal_strlit("int64");
    reveal_strlit("uint8");
    reveal_strlit("uint16");
    reveal_strlit("uint32");
    reveal_strlit("uint64");
    reveal_strlit("float16");
    reveal_strlit("float32");
    reveal_strlit("float64");
    reveal_strlit("utf8");
    reveal_strlit("large_utf8");
    reveal_strlit("binary");
    reveal_strlit("large_binary");
    reveal_strlit("date32");
    reveal_strlit("date64");
}

/// A time, duration or timestamp type without a timezone.
pub open spec fn with_unit(t: SpecType) -> bool {
    ||| t is Time32
    ||| t is Time64
    ||| t is Duration
    ||| t matches SpecType::Timestamp { timezone: None, .. }
}

proof fn lemma_shape_units(t: SpecType, d: int, e: int)
    requires
        d >= 1,
        e >= 0,
        with_unit(t),
    ensures
        shaped(type_display(t), d, e),
{
    reveal_strlit("]");
    reveal_strlit(", ");
    match t {
        SpecType::Time32 { unit } => {
            reveal_strlit("time32[");
            lemma_unit_plain(unit);
            lemma_wrapped_flat("time32["@, unit_display(unit), "]"@, d, e);
        },
        SpecType::Time64 { unit } => {
            reveal_strlit("time64[");
            lemma_unit_plain(unit);
            lemma_wrapped_flat("time64["@, unit_display(unit), "]"@, d, e);
        },
        SpecType::Duration { unit } => {
            reveal_strlit("duration[");
            lemma_unit_plain(unit);
            lemma_wrapped_flat("duration["@, unit_display(unit), "]"@, d, e);
        },
        SpecType::Timestamp { unit, timezone } => {
            reveal_strlit("timestamp[");
            lemma_unit_plain(unit);
            lemma_wrapped_flat("timestamp["@, unit_display(unit), "]"@, d, e);
        },
        _ => {},
    }
}

proof fn lemma_shape_numbers(t: SpecType, d: int, e: int)
    requires
        t is FixedSizeBinary ==> t->byte_width > 0,
        d >= 1,
        e >= 0,
        t is FixedSizeBinary || t is Decimal128 || t is Decimal256,
    ensures
        shaped(type_display(t), d, e),
{
    reveal_strlit(")");
    reveal_strlit(", ");
    match t {
        SpecType::FixedSizeBinary { byte_width } => {
            reveal_strlit("fixed_size_binary(");
            lemma_decimal_plain(byte_width as int);
            lemma_wrapped_flat("fixed_size_binary("@, decimal(byte_width as int), ")"@, d, e);
        },
        SpecType::Decimal128 { precision, scale } => {
            reveal_strlit("decimal128(");
            let inner = decimal(precision as int) + ", "@ + decimal(scale as int);
            lemma_decimal_plain(precision as int);
            lemma_decimal_plain(scale as int);
            assert(no_brackets(inner));
            lemma_wrapped_flat("decimal128("@, inner, ")"@, d, e);
            assert(type_display(t) =~= "decimal128("@ + inner + ")"@);
        },
        SpecType::Decimal256 { precision, scale } => {
            reveal_strlit("decimal256(");
            let inner = decimal(precision as int) + ", "@ + decimal(scale as int);
            lemma_decimal_plain(precision as int);
            lemma_decimal_plain(scale as int);
            assert(no_brackets(inner));
            lemma_wrapped_flat("decimal256("@, inner, ")"@, d, e);
            assert(type_display(t) =~= "decimal256("@ + inner + ")"@);
        },
        _ => {},
    }
}

/// The word of an interval unit.
pub open spec fn interval_word(u: IntervalUnit) -> Seq<char> {
    match u {
        IntervalUnit::YearMonth => "year_month"@,
        IntervalUnit::DayTime => "day_time"@,
        IntervalUnit::MonthDayNano => "month_day_nano"@,
    }
}

proof fn lemma_interval_display(u: IntervalUnit)
    ensures
        type_display(SpecType::Interval { unit: u }) == "interval["@ + interval_word(u) + "]"@,
        no_brackets(interval_word(u)),
        lacks(interval_word(u), ','),
        interval_word(u).len() > 0,
        is_trimmed(interval_word(u)),
{
    reveal_strlit("interval[");
    reveal_strlit("]");
    reveal_strlit("year_month");
    reveal_strlit("day_time");
    reveal_strlit("month_day_nano");
    reveal_strlit("interval[year_month]");
    reveal_strlit("interval[day_time]");
    reveal_strlit("interval[month_day_nano]");
    assert(type_display(SpecType::Interval { unit: u }) =~= "interval["@ + interval_word(u) + "]"@);
}

proof fn lemma_shape_interval(u: IntervalUnit, d: int, e: int)
    requires
        d >= 1,
        e >= 0,
    ensures
        shaped(type_display(SpecType::Interval { unit: u }), d, e),
{
    reveal_strlit("interval[");
    reveal_strlit("]");
    lemma_interval_display(u);
    lemma_wrapped_flat("interval["@, interval_word(u), "]"@, d, e);
}

/// `open + inner + ">"` for a printed element type `inner`.
proof fn lemma_shape_angle(open: Seq<char>, inner: Seq<char>, paired: bool, d: int, e: int)
    requires
        d >= 1,
        e >= 0,
        open.len() > 0,
        !is_ws(open[0]),
        no_brackets(open.drop_last()),
        lacks(open.drop_last(), ','),
        open[open.len() - 1] == '<',
        shaped_in(inner, paired, d + 1, e + 1),
    ensures
        shaped_in(open + inner + ">"@, paired, d, e),
{
    reveal_strlit(">");
    lemma_wrapped(open, inner, ">"@, paired, d, e);
}

/// `open + k + ", " + v + ">"` for printed types `k` and `v`.
proof fn lemma_shape_pair(open: Seq<char>, k: Seq<char>, v: Seq<char>, d: int, e: int)
    requires
        d >= 1,
        e >= 0,
        open.len() > 0,
        !is_ws(open[0]),
        no_brackets(open.drop_last()),
        lacks(open.drop_last(), ','),
        open[open.len() - 1] == '<',
        shaped(k, d + 1, e + 1),
        shaped(v, d + 1, e + 1),
    ensures
        shaped(open + k + ", "@ + v + ">"@, d, e),
{
    reveal_strlit(">");
    reveal_strlit(", ");
    assert(no_brackets(", "@));
    lemma_flat(", "@, d + 1);
    lemma_flat(", "@, e + 1);
    lemma_angle_add(k, ", "@, d + 1);
    lemma_bracket_add(k, ", "@, e + 1);
    lemma_angle_add(k + ", "@, v, d + 1);
    lemma_bracket_add(k + ", "@, v, e + 1);
    lemma_wrapped(open, k + ", "@ + v, ">"@, true, d, e);
    assert(open + k + ", "@ + v + ">"@ =~= open + (k + ", "@ + v) + ">"@);
}

proof fn lemma_shape_fixed_list(inner: Seq<char>, size: i32, paired: bool, d: int, e: int)
    requires
        d >= 1,
        e >= 0,
        size > 0,
        shaped_in(inner, paired, d + 1, e + 1),
    ensures
        shaped_in(
            "fixed_size_list<"@ + inner + ">("@ + decimal(size as int) + ")"@,
            paired,
            d,
            e,
        ),
{
    reveal_strlit("fixed_size_list<");
    reveal_strlit(">(");
    reveal_strlit(">");
    reveal_strlit("(");
    reveal_strlit(")");
    lemma_shape_angle("fixed_size_list<"@, inner, paired, d, e);
    let n = decimal(size as int);
    lemma_decimal_plain(size as int);
    lemma_wrapped_flat("("@, n, ")"@, d, e);
    let a = "fixed_size_list<"@ + inner + ">"@;
    let b = "("@ + n + ")"@;
    lemma_angle_add(a, b, d);
    lemma_bracket_add(a, b, e);
    let s = "fixed_size_list<"@ + inner + ">("@ + n + ")"@;
    assert(s =~= a + b);
    assert(s[0] == a[0]);
    assert(s[s.len() - 1] == b[b.len() - 1]);
}

/// A printed timestamp with a timezone that fits where it stands.
proof fn lemma_shape_timestamp(u: TimeUnit, z: Seq<char>, paired: bool, d: int, e: int)
    requires
        tz_fits(z, paired),
        d >= 1,
        e >= 0,
    ensures
        shaped_in(
            type_display(SpecType::Timestamp { unit: u, timezone: Some(z) }),
            paired,
            d,
            e,
        ),
{
    reveal_strlit("timestamp[");
    reveal_strlit("]");
    reveal_strlit(", ");
    lemma_unit_plain(u);
    let head = unit_display(u) + ", "@;
    assert(no_brackets(head));
    lemma_flat(head, d);
    lemma_flat(head, e + 1);
    lemma_angle_free(z, d);
    if paired {
        lemma_commas_above(z, 1, e + 1);
    }
    lemma_angle_add(head, z, d);
    lemma_bracket_add(head, z, e + 1);
    lemma_wrapped("timestamp["@, head + z, "]"@, paired, d, e);
    assert(type_display(SpecType::Timestamp { unit: u, timezone: Some(z) }) =~= "timestamp["@ + (
    head + z) + "]"@);
}

/// The printed form of a type is trimmed and its `<>` close what they open;
/// inside an argument of a map or dictionary it also opens as many brackets
/// of every kind as it closes, and its commas stand inside brackets.
proof fn lemma_display_shape(t: SpecType, paired: bool, d: int, e: int)
    requires
        prints_in(t, paired),
        d >= 1,
        e >= 0,
    ensures
        shaped_in(type_display(t), paired, d, e),
    decreases t,
{
    if is_bare(t) {
        lemma_bare_plain(t);
        lemma_flat(type_display(t), d);
        lemma_flat(type_display(t), e);
    } else {
        match t {
            SpecType::FixedSizeBinary { .. } | SpecType::Decimal128 { .. }
            | SpecType::Decimal256 { .. } => {
                lemma_shape_numbers(t, d, e);
            },
            SpecType::Timestamp { unit, timezone: Some(z) } => {
                lemma_shape_timestamp(unit, z, paired, d, e);
            },
            SpecType::Time32 { .. } | SpecType::Time64 { .. } | SpecType::Duration { .. }
            | SpecType::Timestamp { .. } => {
                lemma_shape_units(t, d, e);
            },
            SpecType::Interval { unit } => {
                lemma_shape_interval(unit, d, e);
            },
            SpecType::List { element } => {
                reveal_strlit("list<");
                lemma_display_shape(element.arrow_type, paired, d + 1, e + 1);
                lemma_shape_angle("list<"@, type_display(element.arrow_type), paired, d, e);
            },
            SpecType::LargeList { element } => {
                reveal_strlit("large_list<");
                lemma_display_shape(element.arrow_type, paired, d + 1, e + 1);
                lemma_shape_angle("large_list<"@, type_display(element.arrow_type), paired, d, e);
            },
            SpecType::FixedSizeList { element, size } => {
                lemma_display_shape(element.arrow_type, paired, d + 1, e + 1);
                lemma_shape_fixed_list(type_display(element.arrow_type), size, paired, d, e);
            },
            SpecType::MapType { key, value, .. } => {
                reveal_strlit("map<");
                lemma_display_shape(key.arrow_type, true, d + 1, e + 1);
                lemma_display_shape(value.arrow_type, true, d + 1, e + 1);
                lemma_shape_pair(
                    "map<"@,
                    type_display(key.arrow_type),
                    type_display(value.arrow_type),
                    d,
                    e,
                );
            },
            SpecType::Dictionary { index_type, value_type } => {
                reveal_strlit("dictionary<");
                lemma_display_shape(*index_type, true, d + 1, e + 1);
                lemma_display_shape(*value_type, true, d + 1, e + 1);
                lemma_shape_pair(
                    "dictionary<"@,
                    type_display(*index_type),
                    type_display(*value_type),
                    d,
                    e,
                );
            },
            _ => {},
        }
    }
}

// ---------------------------------------------------------------------------
// Parsing the printed form
// ---------------------------------------------------------------------------

/// A trimmed, non-empty string is parsed as it stands.
proof fn lemma_parse_trimmed(x: Seq<char>)
    requires
        x.len() > 0,
        is_trimmed(x),
    ensures
        trim(x) == x,
        parse_type(x) == parse_trimmed(x),
{
    reveal_strlit("");
    assert(all_ws(Seq::<char>::empty()));
    lemma_trim_around(Seq::empty(), x, Seq::empty());
    assert(Seq::<char>::empty() + x + Seq::<char>::empty() =~= x);
}

/// `x` after a space parses as `x` does.
proof fn lemma_parse_spaced(x: Seq<char>)
    ensures
        parse_type(" "@ + x) == parse_type(x),
{
    reveal_strlit(" ");
    assert(all_ws(" "@));
    assert(all_ws(Seq::<char>::empty()));
    lemma_trim_padded(" "@, x, Seq::empty());
    assert(" "@ + x + Seq::<char>::empty() =~= " "@ + x);
}

/// The `>` that closes `open + inner + ">" + rest` at the end of `open`.
proof fn lemma_close_after(open: Seq<char>, inner: Seq<char>, rest: Seq<char>)
    requires
        open.len() > 0,
        open[open.len() - 1] == '<',
        angle_net(inner) == 0,
        angle_stays(inner, 1),
    ensures
        match_close(open + inner + ">"@ + rest, open.len() - 1) == Some((open.len() + inner.len()) as int),
{
    reveal_strlit(">");
    let s = open + inner + ">"@ + rest;
    let a = open.len() - 1;
    assert(s[a] == '<');
    assert(s.subrange(a + 1, a + 1 + inner.len()) =~= inner);
    lemma_close_scan(s, a + 1, 1, inner);
    assert(s[open.len() + inner.len() as int] == '>');
}

/// The first `<` of `open + rest` ends `open`.
proof fn lemma_first_angle(open: Seq<char>, rest: Seq<char>)
    requires
        open.len() > 0,
        open[open.len() - 1] == '<',
        lacks(open.drop_last(), '<'),
    ensures
        find(open + rest, '<') == Some(open.len() - 1),
{
    let s = open + rest;
    assert forall|m: int| 0 <= m < open.len() - 1 implies s[m] != '<' by {
        assert(s[m] == open.drop_last()[m]);
    }
    lemma_find_at(s, '<', open.len() - 1);
}

/// The list type of an element type.
pub open spec fn list_of(large: bool, et: SpecType) -> SpecType {
    if large {
        SpecType::LargeList { element: Box::new(item_field(et)) }
    } else {
        SpecType::List { element: Box::new(item_field(et)) }
    }
}

/// The printed form of a list type, with its parts.
#[verifier::spinoff_prover]
#[verifier::rlimit(60)]
proof fn lemma_list_parts(large: bool, et: SpecType)
    requires
        prints_in(et, false),
    ensures
        ({
            let open = if large {
                "large_list<"@
            } else {
                "list<"@
            };
            let inner = type_display(et);
            let d = type_display(list_of(large, et));
            &&& trim(d) == d
            &&& d.len() > 0
            &&& find(d, '<') == Some(open.len() - 1)
            &&& match_close(d, open.len() - 1) == Some((open.len() + inner.len()) as int)
            &&& d.subrange(0, open.len() - 1) == (if large {
                "large_list"@
            } else {
                "list"@
            })
            &&& d.subrange(open.len() as int, open.len() + inner.len() as int) == inner
        }),
{
    reveal_strlit("list<");
    reveal_strlit("large_list<");
    reveal_strlit("list");
    reveal_strlit("large_list");
    reveal_strlit(">");
    let t = list_of(large, et);
    let inner = type_display(et);
    assert(prints_in(t, false));
    lemma_display_shape(t, false, 1, 0);
    lemma_display_shape(et, false, 1, 0);
    let open = if large {
        "large_list<"@
    } else {
        "list<"@
    };
    let d = type_display(t);
    assert(d =~= open + inner + ">"@);
    lemma_parse_trimmed(d);
    lemma_generic_parts(open, inner);
    assert(open.drop_last() =~= (if large {
        "large_list"@
    } else {
        "list"@
    }));
}

#[verifier::spinoff_prover]
#[verifier::rlimit(100)]
proof fn lemma_parse_list(large: bool, et: SpecType)
    requires
        prints_in(et, false),
        parse_type(type_display(et)) == Outcome::Done(et),
    ensures
        parse_type(type_display(list_of(large, et))) == Outcome::Done(list_of(large, et)),
{
    lemma_generic_names();
    lemma_list_parts(large, et);
    let d = type_display(list_of(large, et));
    assert(generic(d) == Outcome::Done(Some(list_of(large, et))));
}

/// The map or dictionary type of two types.
pub open spec fn pair_of(dict: bool, kt: SpecType, vt: SpecType) -> SpecType {
    if dict {
        SpecType::Dictionary { index_type: Box::new(kt), value_type: Box::new(vt) }
    } else {
        SpecType::MapType {
            key: Box::new(key_field(kt)),
            value: Box::new(value_field(vt)),
            keys_sorted: false,
        }
    }
}

/// Two printed types with a comma between them split at that comma.
proof fn lemma_split_pair(k: Seq<char>, v: Seq<char>)
    requires
        bracket_net(k) == 0,
        commas_nested(k, 0),
        bracket_net(v) == 0,
        commas_nested(v, 0),
    ensures
        split_top(k + ", "@ + v) == seq![k, " "@ + v],
{
    reveal_strlit(", ");
    reveal_strlit(" ");
    let inner = k + ", "@ + v;
    let sp = " "@ + v;
    assert(inner.subrange(0, k.len() as int) =~= k);
    lemma_split_scan(inner, 0, 0, 0, k);
    assert(inner[k.len() as int] == ',');
    assert(no_brackets(" "@));
    lemma_flat(" "@, 0);
    lemma_bracket_add(" "@, v, 0);
    let j: int = k.len() as int + 1;
    assert(inner.subrange(j, j + sp.len() as int) =~= sp);
    lemma_split_scan(inner, j, 0, j, sp);
    assert(inner.subrange(j, inner.len() as int) =~= sp);
    assert(split_from(inner, inner.len() as int, 0, j) == seq![inner.subrange(j, inner.len() as int)]);
    assert(split_top(inner) =~= seq![k, sp]);
}

/// Where the parser finds the parts of `open + inner + ">"`.
proof fn lemma_generic_parts(open: Seq<char>, inner: Seq<char>)
    requires
        open.len() > 0,
        open[open.len() - 1] == '<',
        lacks(open.drop_last(), '<'),
        angle_net(inner) == 0,
        angle_stays(inner, 1),
    ensures
        find(open + inner + ">"@, '<') == Some(open.len() - 1),
        match_close(open + inner + ">"@, open.len() - 1) == Some((open.len() + inner.len()) as int),
        (open + inner + ">"@).subrange(0, open.len() - 1) == open.drop_last(),
        (open + inner + ">"@).subrange(open.len() as int, open.len() + inner.len() as int) == inner,
{
    reveal_strlit(">");
    let d = open + inner + ">"@;
    lemma_first_angle(open, inner + ">"@);
    assert(open + (inner + ">"@) =~= d);
    lemma_close_after(open, inner, Seq::empty());
    assert(d + Seq::<char>::empty() =~= d);
    assert(d.subrange(0, open.len() - 1) =~= open.drop_last());
    assert(d.subrange(open.len() as int, open.len() + inner.len() as int) =~= inner);
}

/// The printed form of a map or dictionary, with its parts.
#[verifier::spinoff_prover]
#[verifier::rlimit(60)]
proof fn lemma_pair_parts(dict: bool, kt: SpecType, vt: SpecType)
    requires
        prints_in(kt, true),
        prints_in(vt, true),
    ensures
        ({
            let open = if dict {
                "dictionary<"@
            } else {
                "map<"@
            };
            let inner = type_display(kt) + ", "@ + type_display(vt);
            let d = type_display(pair_of(dict, kt, vt));
            &&& d == open + inner + ">"@
            &&& trim(d) == d
            &&& d.len() > 0
            &&& find(d, '<') == Some(open.len() - 1)
            &&& match_close(d, open.len() - 1) == Some((open.len() + inner.len()) as int)
            &&& d.subrange(0, open.len() - 1) == (if dict {
                "dictionary"@
            } else {
                "map"@
            })
            &&& d.subrange(open.len() as int, open.len() + inner.len() as int) == inner
            &&& split_two(inner) == Ok::<(Seq<char>, Seq<char>), Seq<char>>(
                (type_display(kt), " "@ + type_display(vt)),
            )
        }),
{
    reveal_strlit("map<");
    reveal_strlit("dictionary<");
    reveal_strlit("map");
    reveal_strlit("dictionary");
    reveal_strlit(">");
    reveal_strlit(", ");
    let t = pair_of(dict, kt, vt);
    let k = type_display(kt);
    let v = type_display(vt);
    assert(prints_in(t, false));
    lemma_display_shape(t, false, 1, 0);
    lemma_display_shape(kt, true, 1, 0);
    lemma_display_shape(vt, true, 1, 0);
    let open = if dict {
        "dictionary<"@
    } else {
        "map<"@
    };
    let inner = k + ", "@ + v;
    let d = type_display(t);
    assert(d =~= open + inner + ">"@);
    assert(no_brackets(", "@));
    lemma_flat(", "@, 1);
    lemma_angle_add(k, ", "@, 1);
    lemma_angle_add(k + ", "@, v, 1);
    lemma_parse_trimmed(d);
    lemma_generic_parts(open, inner);
    assert(open.drop_last() =~= (if dict {
        "dictionary"@
    } else {
        "map"@
    }));
    lemma_split_pair(k, v);
}

#[verifier::spinoff_prover]
#[verifier::rlimit(100)]
proof fn lemma_parse_pair(dict: bool, kt: SpecType, vt: SpecType)
    requires
        prints_in(kt, true),
        prints_in(vt, true),
        parse_type(type_display(kt)) == Outcome::Done(kt),
        parse_type(type_display(vt)) == Outcome::Done(vt),
    ensures
        parse_type(type_display(pair_of(dict, kt, vt))) == Outcome::Done(pair_of(dict, kt, vt)),
{
    lemma_generic_names();
    lemma_pair_parts(dict, kt, vt);
    lemma_parse_spaced(type_display(vt));
    let d = type_display(pair_of(dict, kt, vt));
    assert(generic(d) == Outcome::Done(Some(pair_of(dict, kt, vt))));
}

/// The names of the generic types differ from each other.
proof fn lemma_generic_names()
    ensures
        "map"@ != "list"@,
        "map"@ != "large_list"@,
        "map"@ != "fixed_size_list"@,
        "dictionary"@ != "list"@,
        "dictionary"@ != "large_list"@,
        "dictionary"@ != "fixed_size_list"@,
        "dictionary"@ != "map"@,
        "large_list"@ != "list"@,
        "fixed_size_list"@ != "list"@,
        "fixed_size_list"@ != "large_list"@,
{
    reveal_strlit("list");
    reveal_strlit("large_list");
    reveal_strlit("fixed_size_list");
    reveal_strlit("map");
    reveal_strlit("dictionary");
    assert("map"@.len() != "list"@.len());
    assert("map"@.len() != "large_list"@.len());
    assert("map"@.len() != "fixed_size_list"@.len());
    assert("dictionary"@.len() != "list"@.len());
    assert("dictionary"@[0] != "large_list"@[0]);
    assert("dictionary"@.len() != "fixed_size_list"@.len());
    assert("dictionary"@.len() != "map"@.len());
    assert("large_list"@.len() != "list"@.len());
    assert("fixed_size_list"@.len() != "list"@.len());
    assert("fixed_size_list"@.len() != "large_list"@.len());
}

/// A decimal string parses back to its number.
proof fn lemma_parse_decimal(n: int)
    ensures
        trim(decimal(n)) == decimal(n),
        i32::MIN <= n <= i32::MAX ==> parse_i32_spec(trim(decimal(n))) == Some(n as i32),
        0 <= n <= u32::MAX ==> parse_u32_spec(trim(decimal(n))) == Some(n as u32),
{
    lemma_decimal(n);
    lemma_decimal_plain(n);
    lemma_parse_trimmed(decimal(n));
}

/// The fixed-size list type of an element type.
pub open spec fn fixed_list_of(et: SpecType, size: i32) -> SpecType {
    SpecType::FixedSizeList { element: Box::new(item_field(et)), size }
}

#[verifier::spinoff_prover]
#[verifier::rlimit(60)]
proof fn lemma_fixed_list_parts(et: SpecType, size: i32)
    requires
        prints_in(et, false),
        size > 0,
    ensures
        ({
            let open = "fixed_size_list<"@;
            let inner = type_display(et);
            let d = type_display(fixed_list_of(et, size));
            let e = (open.len() + inner.len()) as int;
            &&& trim(d) == d
            &&& d.len() > 0
            &&& find(d, '<') == Some(open.len() - 1)
            &&& match_close(d, open.len() - 1) == Some(e)
            &&& d.subrange(0, open.len() - 1) == "fixed_size_list"@
            &&& d.subrange(open.len() as int, e) == inner
            &&& paren_int(d.subrange(e + 1, d.len() as int), "fixed_size_list"@) == Ok::<
                i32,
                Seq<char>,
            >(size)
        }),
{
    reveal_strlit("fixed_size_list<");
    reveal_strlit("fixed_size_list");
    reveal_strlit(">(");
    reveal_strlit(">");
    reveal_strlit("(");
    reveal_strlit(")");
    let t = fixed_list_of(et, size);
    assert(prints_in(t, false));
    lemma_display_shape(t, false, 1, 0);
    lemma_display_shape(et, false, 1, 0);
    let open = "fixed_size_list<"@;
    let inner = type_display(et);
    let n = decimal(size as int);
    let rest = "("@ + n + ")"@;
    let d = type_display(t);
    assert(d =~= open + inner + ">"@ + rest);
    lemma_parse_trimmed(d);
    lemma_first_angle(open, inner + ">"@ + rest);
    assert(open + (inner + ">"@ + rest) =~= d);
    lemma_close_after(open, inner, rest);
    let e = (open.len() + inner.len()) as int;
    assert(d.subrange(0, open.len() - 1) =~= "fixed_size_list"@);
    assert(d.subrange(open.len() as int, e) =~= inner);
    assert(d.subrange(e + 1, d.len() as int) =~= rest);
    lemma_decimal_plain(size as int);
    lemma_decimal(size as int);
    assert(is_trimmed(rest));
    lemma_parse_trimmed(rest);
    assert(rest.subrange(1, rest.len() - 1) =~= n);
    lemma_parse_decimal(size as int);
}

#[verifier::spinoff_prover]
#[verifier::rlimit(100)]
proof fn lemma_parse_fixed_list(et: SpecType, size: i32)
    requires
        prints_in(et, false),
        size > 0,
        parse_type(type_display(et)) == Outcome::Done(et),
    ensures
        parse_type(type_display(fixed_list_of(et, size))) == Outcome::Done(fixed_list_of(et, size)),
{
    lemma_generic_names();
    lemma_fixed_list_parts(et, size);
    let d = type_display(fixed_list_of(et, size));
    assert(generic(d) == Outcome::Done(Some(fixed_list_of(et, size))));
}

/// Where the parser finds the parts of `open + params + close`, a type
/// with a bracketed parameter list and no `<`.
proof fn lemma_flat_parts(open: Seq<char>, params: Seq<char>, close: Seq<char>)
    requires
        open.len() > 0,
        no_brackets(open.drop_last()),
        is_open(open[open.len() - 1]),
        open[open.len() - 1] != '<',
        no_brackets(params),
        close.len() == 1,
        is_close(close[0]),
        close[0] != '>',
    ensures
        ({
            let d = open + params + close;
            let a = open.len() - 1;
            &&& find(d, '<') is None
            &&& find(d, open[a]) == Some(a)
            &&& rfind(d, close[0]) == Some(d.len() - 1)
            &&& d.subrange(0, a) == open.drop_last()
            &&& d.subrange(a + 1, d.len() - 1) == params
        }),
{
    let d = open + params + close;
    let a = open.len() - 1;
    let o = open[a];
    assert forall|m: int| 0 <= m < d.len() implies d[m] != '<' by {
        if m < a {
            assert(d[m] == open.drop_last()[m]);
        } else if m > a && m < open.len() + params.len() {
            assert(d[m] == params[m - open.len()]);
        }
    }
    lemma_find_none(d, '<');
    assert forall|m: int| 0 <= m < a implies d[m] != o by {
        assert(d[m] == open.drop_last()[m]);
    }
    lemma_find_at(d, o, a);
    lemma_rfind_last(d, close[0]);
    assert(d.subrange(0, a) =~= open.drop_last());
    assert(d.subrange(a + 1, d.len() - 1) =~= params);
}

/// The names of the bracketed types differ from each other.
proof fn lemma_bracketed_names()
    ensures
        "time32"@ != "timestamp"@,
        "time64"@ != "timestamp"@,
        "time64"@ != "time32"@,
        "duration"@ != "timestamp"@,
        "duration"@ != "time32"@,
        "duration"@ != "time64"@,
        "interval"@ != "timestamp"@,
        "interval"@ != "time32"@,
        "interval"@ != "time64"@,
        "interval"@ != "duration"@,
        "decimal256"@ != "decimal128"@,
        "fixed_size_binary"@ != "decimal128"@,
        "fixed_size_binary"@ != "decimal256"@,
{
    reveal_strlit("timestamp");
    reveal_strlit("time32");
    reveal_strlit("time64");
    reveal_strlit("duration");
    reveal_strlit("interval");
    reveal_strlit("decimal128");
    reveal_strlit("decimal256");
    reveal_strlit("fixed_size_binary");
    assert("time32"@.len() != "timestamp"@.len());
    assert("time64"@.len() != "timestamp"@.len());
    assert("time64"@[5] != "time32"@[5]);
    assert("duration"@.len() != "timestamp"@.len());
    assert("duration"@.len() != "time32"@.len());
    assert("duration"@.len() != "time64"@.len());
    assert("interval"@.len() != "timestamp"@.len());
    assert("interval"@.len() != "time32"@.len());
    assert("interval"@.len() != "time64"@.len());
    assert("interval"@[0] != "duration"@[0]);
    assert("decimal256"@[7] != "decimal128"@[7]);
    assert("fixed_size_binary"@.len() != "decimal128"@.len());
    assert("fixed_size_binary"@.len() != "decimal256"@.len());
}

/// The printed form of a type with a unit, with its parts.
#[verifier::spinoff_prover]
#[verifier::rlimit(60)]
proof fn lemma_units_parts(t: SpecType)
    requires
        with_unit(t),
    ensures
        ({
            let d = type_display(t);
            let a = unit_kind(t).len() as int;
            &&& trim(d) == d
            &&& d.len() > 0
            &&& find(d, '<') is None
            &&& find(d, '[') == Some(a)
            &&& rfind(d, ']') == Some(d.len() - 1)
            &&& d.subrange(0, a) == unit_kind(t)
            &&& d.subrange(a + 1, d.len() - 1) == unit_params(t)
            &&& d.len() == a + 2 + unit_params(t).len()
        }),
{
    reveal_strlit("]");
    reveal_strlit("time32[");
    reveal_strlit("time64[");
    reveal_strlit("duration[");
    reveal_strlit("timestamp[");
    reveal_strlit("time32");
    reveal_strlit("time64");
    reveal_strlit("duration");
    reveal_strlit("timestamp");
    reveal_strlit(", ");
    lemma_shape_units(t, 1, 0);
    let d = type_display(t);
    lemma_parse_trimmed(d);
    let open = match t {
        SpecType::Time32 { .. } => "time32["@,
        SpecType::Time64 { .. } => "time64["@,
        SpecType::Duration { .. } => "duration["@,
        _ => "timestamp["@,
    };
    let params = unit_params(t);
    match t {
        SpecType::Time32 { unit } => {
            lemma_unit_plain(unit);
        },
        SpecType::Time64 { unit } => {
            lemma_unit_plain(unit);
        },
        SpecType::Duration { unit } => {
            lemma_unit_plain(unit);
        },
        SpecType::Timestamp { unit, timezone } => {
            lemma_unit_plain(unit);
        },
        _ => {},
    }
    assert(no_brackets(params));
    assert(d =~= open + params + "]"@);
    assert(open.drop_last() =~= unit_kind(t));
    lemma_flat_parts(open, params, "]"@);
}

/// The name of a type with a unit.
pub open spec fn unit_kind(t: SpecType) -> Seq<char> {
    match t {
        SpecType::Time32 { .. } => "time32"@,
        SpecType::Time64 { .. } => "time64"@,
        SpecType::Duration { .. } => "duration"@,
        _ => "timestamp"@,
    }
}

/// What stands between the brackets of a type with a unit.
pub open spec fn unit_params(t: SpecType) -> Seq<char> {
    match t {
        SpecType::Time32 { unit } => unit_display(unit),
        SpecType::Time64 { unit } => unit_display(unit),
        SpecType::Duration { unit } => unit_display(unit),
        SpecType::Timestamp { unit, timezone } => match timezone {
            None => unit_display(unit),
            Some(z) => unit_display(unit) + ", "@ + z,
        },
        _ => Seq::empty(),
    }
}

/// What stands after the unit of a timestamp: its timezone, if any.
proof fn lemma_timezone_parts(u: TimeUnit, z: Seq<char>)
    requires
        is_trimmed(z),
    ensures
        ({
            let params = unit_display(u) + ", "@ + z;
            let c = unit_display(u).len() as int;
            &&& find(params, ',') == Some(c)
            &&& params.subrange(0, c) == unit_display(u)
            &&& trim(params.subrange(c + 1, params.len() as int)) == z
        }),
{
    reveal_strlit(", ");
    reveal_strlit(" ");
    lemma_unit_plain(u);
    let ud = unit_display(u);
    let params = ud + ", "@ + z;
    let c = ud.len() as int;
    assert forall|m: int| 0 <= m < c implies params[m] != ',' by {
        assert(params[m] == ud[m]);
    }
    lemma_find_at(params, ',', c);
    assert(params.subrange(0, c) =~= ud);
    assert(params.subrange(c + 1, params.len() as int) =~= " "@ + z + Seq::<char>::empty());
    assert(all_ws(" "@));
    assert(all_ws(Seq::<char>::empty()));
    lemma_trim_around(" "@, z, Seq::empty());
}

#[verifier::spinoff_prover]
#[verifier::rlimit(100)]
proof fn lemma_parse_units(t: SpecType)
    requires
        with_unit(t),
    ensures
        parse_type(type_display(t)) == Outcome::Done(t),
{
    lemma_bracketed_names();
    lemma_units_parts(t);
    let d = type_display(t);
    let params = unit_params(t);
    let a = unit_kind(t).len() as int;
    reveal_strlit("time32");
    reveal_strlit("time64");
    reveal_strlit("duration");
    reveal_strlit("timestamp");
    assert(a < d.len() - 1);
    assert(d.subrange(a + 1, d.len() - 1) == params);
    match t {
        SpecType::Time32 { unit } => {
            law_time_unit_roundtrip(unit);
            assert(d.subrange(0, a) == "time32"@);
            assert(parse_unit(params) == Some(unit));
            assert(bracketed(d) == Outcome::Done(Some(t)));
        },
        SpecType::Time64 { unit } => {
            law_time_unit_roundtrip(unit);
            assert(bracketed(d) == Outcome::Done(Some(t)));
        },
        SpecType::Duration { unit } => {
            law_time_unit_roundtrip(unit);
            assert(bracketed(d) == Outcome::Done(Some(t)));
        },
        SpecType::Timestamp { unit, timezone } => {
            law_time_unit_roundtrip(unit);
            lemma_unit_plain(unit);
            lemma_find_none(params, ',');
            assert(bracketed(d) == Outcome::Done(Some(t)));
        },
        _ => {},
    }
    assert(generic(d) == Outcome::<Option<SpecType>>::Done(None));
    assert(bracketed(d) == Outcome::Done(Some(t)));
}

#[verifier::spinoff_prover]
#[verifier::rlimit(100)]
proof fn lemma_parse_interval(u: IntervalUnit)
    ensures
        parse_type(type_display(SpecType::Interval { unit: u })) == Outcome::Done(
            SpecType::Interval { unit: u },
        ),
{
    let t = SpecType::Interval { unit: u };
    lemma_bracketed_names();
    lemma_interval_display(u);
    lemma_shape_interval(u, 1, 0);
    let d = type_display(t);
    lemma_parse_trimmed(d);
    reveal_strlit("interval[");
    reveal_strlit("interval");
    reveal_strlit("]");
    reveal_strlit("year_month");
    reveal_strlit("day_time");
    reveal_strlit("month_day_nano");
    let w = interval_word(u);
    lemma_flat_parts("interval["@, w, "]"@);
    assert("interval["@.drop_last() =~= "interval"@);
    lemma_parse_trimmed(w);
    assert("day_time"@.len() != "year_month"@.len());
    assert("month_day_nano"@.len() != "year_month"@.len());
    assert("month_day_nano"@.len() != "day_time"@.len());
    assert(generic(d) == Outcome::<Option<SpecType>>::Done(None));
    assert(bracketed(d) == Outcome::Done(Some(t)));
}

/// What stands between the parentheses of a decimal type.
proof fn lemma_decimal_params(p: u8, sc: i8)
    ensures
        precision_scale(decimal(p as int) + ", "@ + decimal(sc as int)) == Ok::<
            (u8, i8),
            Seq<char>,
        >((p, sc)),
{
    reveal_strlit(", ");
    reveal_strlit(" ");
    let dp = decimal(p as int);
    let ds = decimal(sc as int);
    let params = dp + ", "@ + ds;
    lemma_decimal_plain(p as int);
    lemma_decimal_plain(sc as int);
    let c = dp.len() as int;
    assert forall|m: int| 0 <= m < c implies params[m] != ',' by {
        assert(params[m] == dp[m]);
    }
    lemma_find_at(params, ',', c);
    assert(params.subrange(0, c) =~= dp);
    let p1 = params.subrange(c + 1, params.len() as int);
    assert(p1 =~= " "@ + ds + Seq::<char>::empty());
    assert(lacks(p1, ',')) by {
        assert forall|m: int| 0 <= m < p1.len() implies p1[m] != ',' by {
            if m > 0 {
                assert(p1[m] == ds[m - 1]);
            }
        }
    }
    lemma_find_none(p1, ',');
    assert(all_ws(" "@));
    assert(all_ws(Seq::<char>::empty()));
    lemma_trim_around(" "@, ds, Seq::empty());
    lemma_parse_decimal(p as int);
    lemma_parse_decimal(sc as int);
}

/// The name of a type with numbers in parentheses.
pub open spec fn number_kind(t: SpecType) -> Seq<char> {
    match t {
        SpecType::Decimal128 { .. } => "decimal128"@,
        SpecType::Decimal256 { .. } => "decimal256"@,
        _ => "fixed_size_binary"@,
    }
}

/// What stands between the parentheses of a type with numbers.
pub open spec fn number_params(t: SpecType) -> Seq<char> {
    match t {
        SpecType::Decimal128 { precision, scale } => decimal(precision as int) + ", "@ + decimal(
            scale as int,
        ),
        SpecType::Decimal256 { precision, scale } => decimal(precision as int) + ", "@ + decimal(
            scale as int,
        ),
        SpecType::FixedSizeBinary { byte_width } => decimal(byte_width as int),
        _ => Seq::empty(),
    }
}

/// The printed form of a type with numbers, with its parts.
#[verifier::spinoff_prover]
#[verifier::rlimit(100)]
proof fn lemma_numbers_parts(t: SpecType)
    requires
        t is FixedSizeBinary ==> t->byte_width > 0,
        t is FixedSizeBinary || t is Decimal128 || t is Decimal256,
    ensures
        ({
            let d = type_display(t);
            let a = number_kind(t).len() as int;
            &&& trim(d) == d
            &&& d.len() > 0
            &&& find(d, '<') is None
            &&& find(d, '[') is None
            &&& find(d, '(') == Some(a)
            &&& rfind(d, ')') == Some(d.len() - 1)
            &&& d.subrange(0, a) == number_kind(t)
            &&& d.subrange(a + 1, d.len() - 1) == number_params(t)
            &&& d.len() == a + 2 + number_params(t).len()
        }),
{
    reveal_strlit(")");
    reveal_strlit("decimal128(");
    reveal_strlit("decimal256(");
    reveal_strlit("fixed_size_binary(");
    reveal_strlit("decimal128");
    reveal_strlit("decimal256");
    reveal_strlit("fixed_size_binary");
    reveal_strlit(", ");
    lemma_shape_numbers(t, 1, 0);
    let d = type_display(t);
    lemma_parse_trimmed(d);
    let open = match t {
        SpecType::Decimal128 { .. } => "decimal128("@,
        SpecType::Decimal256 { .. } => "decimal256("@,
        _ => "fixed_size_binary("@,
    };
    let params = number_params(t);
    match t {
        SpecType::Decimal128 { precision, scale } => {
            lemma_decimal_plain(precision as int);
            lemma_decimal_plain(scale as int);
        },
        SpecType::Decimal256 { precision, scale } => {
            lemma_decimal_plain(precision as int);
            lemma_decimal_plain(scale as int);
        },
        SpecType::FixedSizeBinary { byte_width } => {
            lemma_decimal_plain(byte_width as int);
        },
        _ => {},
    }
    assert(no_brackets(params));
    assert(d =~= open + params + ")"@);
    assert(open.drop_last() =~= number_kind(t));
    lemma_flat_parts(open, params, ")"@);
    assert forall|m: int| 0 <= m < d.len() implies d[m] != '[' by {
        assert(!is_open(d[m]) || d[m] == '(' || d[m] == '<' || d[m] == '[');
        if m < open.len() - 1 {
            assert(d[m] == open.drop_last()[m]);
        } else if m >= open.len() && m < open.len() + params.len() {
            assert(d[m] == params[m - open.len()]);
        }
    }
    lemma_find_none(d, '[');
}

#[verifier::spinoff_prover]
#[verifier::rlimit(100)]
proof fn lemma_parse_numbers(t: SpecType)
    requires
        t is FixedSizeBinary ==> t->byte_width > 0,
        t is FixedSizeBinary || t is Decimal128 || t is Decimal256,
    ensures
        parse_type(type_display(t)) == Outcome::Done(t),
{
    lemma_bracketed_names();
    lemma_numbers_parts(t);
    let d = type_display(t);
    reveal_strlit("decimal128");
    reveal_strlit("decimal256");
    reveal_strlit("fixed_size_binary");
    match t {
        SpecType::Decimal128 { precision, scale } => {
            lemma_decimal_params(precision, scale);
        },
        SpecType::Decimal256 { precision, scale } => {
            lemma_decimal_params(precision, scale);
        },
        SpecType::FixedSizeBinary { byte_width } => {
            lemma_parse_decimal(byte_width as int);
        },
        _ => {},
    }
    assert(generic(d) == Outcome::<Option<SpecType>>::Done(None));
    assert(bracketed(d) == Outcome::<Option<SpecType>>::Done(None));
    assert(parens(d) == Outcome::Done(Some(t)));
}

/// The names of the types without parameters.
#[verifier::spinoff_prover]
proof fn lemma_bare_names(t: SpecType)
    requires
        is_bare(t),
    ensures
        bare_type(type_display(t)) == Outcome::Done(t),
{
    match t {
        SpecType::Null => {
            reveal_strlit("null");
        },
        SpecType::Boolean => {
            reveal_strlit("boolean");
            reveal_strlit("null");
            assert("boolean"@.len() != "null"@.len());
            reveal_strlit("bool");
            assert("boolean"@.len() != "bool"@.len());
        },
        SpecType::Int8 => {
            reveal_strlit("int8");
            reveal_strlit("null");
            assert("int8"@[0] != "null"@[0]);
            reveal_strlit("bool");
            assert("int8"@[0] != "bool"@[0]);
            reveal_strlit("boolean");
            assert("int8"@.len() != "boolean"@.len());
        },
        SpecType::Int16 => {
            reveal_strlit("int16");
            reveal_strlit("null");
            assert("int16"@.len() != "null"@.len());
            reveal_strlit("bool");
            assert("int16"@.len() != "bool"@.len());
            reveal_strlit("boolean");
            assert("int16"@.len() != "boolean"@.len());
            reveal_strlit("int8");
            assert("int16"@.len() != "int8"@.len());
        },
        SpecType::Int32 => {
            reveal_strlit("int32");
            reveal_strlit("null");
            assert("int32"@.len() != "null"@.len());
            reveal_strlit("bool");
            assert("int32"@.len() != "bool"@.len());
            reveal_strlit("boolean");
            assert("int32"@.len() != "boolean"@.len());
            reveal_strlit("int8");
            assert("int32"@.len() != "int8"@.len());
            reveal_strlit("int16");
            assert("int32"@[3] != "int16"@[3]);
        },
        SpecType::Int64 => {
            reveal_strlit("int64");
            reveal_strlit("null");
            assert("int64"@.len() != "null"@.len());
            reveal_strlit("bool");
            assert("int64"@.len() != "bool"@.len());
            reveal_strlit("boolean");
            assert("int64"@.len() != "boolean"@.len());
            reveal_strlit("int8");
            assert("int64"@.len() != "int8"@.len());
            reveal_strlit("int16");
            assert("int64"@[3] != "int16"@[3]);
            reveal_strlit("int32");
            assert("int64"@[3] != "int32"@[3]);
        },
        SpecType::UInt8 => {
            reveal_strlit("uint8");
            reveal_strlit("null");
            assert("uint8"@.len() != "null"@.len());
            reveal_strlit("bool");
            assert("uint8"@.len() != "bool"@.len());
            reveal_strlit("boolean");
            assert("uint8"@.len() != "boolean"@.len());
            reveal_strlit("int8");
            assert("uint8"@.len() != "int8"@.len());
            reveal_strlit("int16");
            assert("uint8"@[0] != "int16"@[0]);
            reveal_strlit("int32");
            assert("uint8"@[0] != "int32"@[0]);
            reveal_strlit("int64");
            assert("uint8"@[0] != "int64"@[0]);
        },
        SpecType::UInt16 => {
            reveal_strlit("uint16");
            reveal_strlit("null");
            assert("uint16"@.len() != "null"@.len());
            reveal_strlit("bool");
            assert("uint16"@.len() != "bool"@.len());
            reveal_strlit("boolean");
            assert("uint16"@.len() != "boolean"@.len());
            reveal_strlit("int8");
            assert("uint16"@.len() != "int8"@.len());
            reveal_strlit("int16");
            assert("uint16"@.len() != "int16"@.len());
            reveal_strlit("int32");
            assert("uint16"@.len() != "int32"@.len());
            reveal_strlit("int64");
            assert("uint16"@.len() != "int64"@.len());
            reveal_strlit("uint8");
            assert("uint16"@.len() != "uint8"@.len());
        },
        SpecType::UInt32 => {
            reveal_strlit("uint32");
            reveal_strlit("null");
            assert("uint32"@.len() != "null"@.len());
            reveal_strlit("bool");
            assert("uint32"@.len() != "bool"@.len());
            reveal_strlit("boolean");
            assert("uint32"@.len() != "boolean"@.len());
            reveal_strlit("int8");
            assert("uint32"@.len() != "int8"@.len());
            reveal_strlit("int16");
            assert("uint32"@.len() != "int16"@.len());
            reveal_strlit("int32");
            assert("uint32"@.len() != "int32"@.len());
            reveal_strlit("int64");
            assert("uint32"@.len() != "int64"@.len());
            reveal_strlit("uint8");
            assert("uint32"@.len() != "uint8"@.len());
            reveal_strlit("uint16");
            assert("uint32"@[4] != "uint16"@[4]);
        },
        SpecType::UInt64 => {
            reveal_strlit("uint64");
            reveal_strlit("null");
            assert("uint64"@.len() != "null"@.len());
            reveal_strlit("bool");
            assert("uint64"@.len() != "bool"@.len());
            reveal_strlit("boolean");
            assert("uint64"@.len() != "boolean"@.len());
            reveal_strlit("int8");
            assert("uint64"@.len() != "int8"@.len());
            reveal_strlit("int16");
            assert("uint64"@.len() != "int16"@.len());
            reveal_strlit("int32");
            assert("uint64"@.len() != "int32"@.len());
            reveal_strlit("int64");
            assert("uint64"@.len() != "int64"@.len());
            reveal_strlit("uint8");
            assert("uint64"@.len() != "uint8"@.len());
            reveal_strlit("uint16");
            assert("uint64"@[4] != "uint16"@[4]);
            reveal_strlit("uint32");
            assert("uint64"@[4] != "uint32"@[4]);
        },
        SpecType::Float16 => {
            reveal_strlit("float16");
            reveal_strlit("null");
            assert("float16"@.len() != "null"@.len());
            reveal_strlit("bool");
            assert("float16"@.len() != "bool"@.len());
            reveal_strlit("boolean");
            assert("float16"@[0] != "boolean"@[0]);
            reveal_strlit("int8");
            assert("float16"@.len() != "int8"@.len());
            reveal_strlit("int16");
            assert("float16"@.len() != "int16"@.len());
            reveal_strlit("int32");
            assert("float16"@.len() != "int32"@.len());
            reveal_strlit("int64");
            assert("float16"@.len() != "int64"@.len());
            reveal_strlit("uint8");
            assert("float16"@.len() != "uint8"@.len());
            reveal_strlit("uint16");
            assert("float16"@.len() != "uint16"@.len());
            reveal_strlit("uint32");
            assert("float16"@.len() != "uint32"@.len());
            reveal_strlit("uint64");
            assert("float16"@.len() != "uint64"@.len());
        },
        SpecType::Float32 => {
            reveal_strlit("float32");
            reveal_strlit("null");
            assert("float32"@.len() != "null"@.len());
            reveal_strlit("bool");
            assert("float32"@.len() != "bool"@.len());
            reveal_strlit("boolean");
            assert("float32"@[0] != "boolean"@[0]);
            reveal_strlit("int8");
            assert("float32"@.len() != "int8"@.len());
            reveal_strlit("int16");
            assert("float32"@.len() != "int16"@.len());
            reveal_strlit("int32");
            assert("float32"@.len() != "int32"@.len());
            reveal_strlit("int64");
            assert("float32"@.len() != "int64"@.len());
            reveal_strlit("uint8");
            assert("float32"@.len() != "uint8"@.len());
            reveal_strlit("uint16");
            assert("float32"@.len() != "uint16"@.len());
            reveal_strlit("uint32");
            assert("float32"@.len() != "uint32"@.len());
            reveal_strlit("uint64");
            assert("float32"@.len() != "uint64"@.len());
            reveal_strlit("float16");
            assert("float32"@[5] != "float16"@[5]);
            reveal_strlit("half");
            assert("float32"@.len() != "half"@.len());
        },
        SpecType::Float64 => {
            reveal_strlit("float64");
            reveal_strlit("null");
            assert("float64"@.len() != "null"@.len());
            reveal_strlit("bool");
            assert("float64"@.len() != "bool"@.len());
            reveal_strlit("boolean");
            assert("float64"@[0] != "boolean"@[0]);
            reveal_strlit("int8");
            assert("float64"@.len() != "int8"@.len());
            reveal_strlit("int16");
            assert("float64"@.len() != "int16"@.len());
            reveal_strlit("int32");
            assert("float64"@.len() != "int32"@.len());
            reveal_strlit("int64");
            assert("float64"@.len() != "int64"@.len());
            reveal_strlit("uint8");
            assert("float64"@.len() != "uint8"@.len());
            reveal_strlit("uint16");
            assert("float64"@.len() != "uint16"@.len());
            reveal_strlit("uint32");
            assert("float64"@.len() != "uint32"@.len());
            reveal_strlit("uint64");
            assert("float64"@.len() != "uint64"@.len());
            reveal_strlit("float16");
            assert("float64"@[5] != "float16"@[5]);
            reveal_strlit("half");
            assert("float64"@.len() != "half"@.len());
            reveal_strlit("float32");
            assert("float64"@[5] != "float32"@[5]);
            reveal_strlit("float");
            assert("float64"@.len() != "float"@.len());
        },
        SpecType::Utf8 => {
            reveal_strlit("utf8");
            reveal_strlit("null");
            assert("utf8"@[0] != "null"@[0]);
            reveal_strlit("bool");
            assert("utf8"@[0] != "bool"@[0]);
            reveal_strlit("boolean");
            assert("utf8"@.len() != "boolean"@.len());
            reveal_strlit("int8");
            assert("utf8"@[0] != "int8"@[0]);
            reveal_strlit("int16");
            assert("utf8"@.len() != "int16"@.len());
            reveal_strlit("int32");
            assert("utf8"@.len() != "int32"@.len());
            reveal_strlit("int64");
            assert("utf8"@.len() != "int64"@.len());
            reveal_strlit("uint8");
            assert("utf8"@.len() != "uint8"@.len());
            reveal_strlit("uint16");
            assert("utf8"@.len() != "uint16"@.len());
            reveal_strlit("uint32");
            assert("utf8"@.len() != "uint32"@.len());
            reveal_strlit("uint64");
            assert("utf8"@.len() != "uint64"@.len());
            reveal_strlit("float16");
            assert("utf8"@.len() != "float16"@.len());
            reveal_strlit("half");
            assert("utf8"@[0] != "half"@[0]);
            reveal_strlit("float32");
            assert("utf8"@.len() != "float32"@.len());
            reveal_strlit("float");
            assert("utf8"@.len() != "float"@.len());
            reveal_strlit("float64");
            assert("utf8"@.len() != "float64"@.len());
            reveal_strlit("double");
            assert("utf8"@.len() != "double"@.len());
        },
        SpecType::LargeUtf8 => {
            reveal_strlit("large_utf8");
            reveal_strlit("null");
            assert("large_utf8"@.len() != "null"@.len());
            reveal_strlit("bool");
            assert("large_utf8"@.len() != "bool"@.len());
            reveal_strlit("boolean");
            assert("large_utf8"@.len() != "boolean"@.len());
            reveal_strlit("int8");
            assert("large_utf8"@.len() != "int8"@.len());
            reveal_strlit("int16");
            assert("large_utf8"@.len() != "int16"@.len());
            reveal_strlit("int32");
            assert("large_utf8"@.len() != "int32"@.len());
            reveal_strlit("int64");
            assert("large_utf8"@.len() != "int64"@.len());
            reveal_strlit("uint8");
            assert("large_utf8"@.len() != "uint8"@.len());
            reveal_strlit("uint16");
            assert("large_utf8"@.len() != "uint16"@.len());
            reveal_strlit("uint32");
            assert("large_utf8"@.len() != "uint32"@.len());
            reveal_strlit("uint64");
            assert("large_utf8"@.len() != "uint64"@.len());
            reveal_strlit("float16");
            assert("large_utf8"@.len() != "float16"@.len());
            reveal_strlit("half");
            assert("large_utf8"@.len() != "half"@.len());
            reveal_strlit("float32");
            assert("large_utf8"@.len() != "float32"@.len());
            reveal_strlit("float");
            assert("large_utf8"@.len() != "float"@.len());
            reveal_strlit("float64");
            assert("large_utf8"@.len() != "float64"@.len());
            reveal_strlit("double");
            assert("large_utf8"@.len() != "double"@.len());
            reveal_strlit("utf8");
            assert("large_utf8"@.len() != "utf8"@.len());
            reveal_strlit("string");
            assert("large_utf8"@.len() != "string"@.len());
        },
        SpecType::Binary => {
            reveal_strlit("binary");
            reveal_strlit("null");
            assert("binary"@.len() != "null"@.len());
            reveal_strlit("bool");
            assert("binary"@.len() != "bool"@.len());
            reveal_strlit("boolean");
            assert("binary"@.len() != "boolean"@.len());
            reveal_strlit("int8");
            assert("binary"@.len() != "int8"@.len());
            reveal_strlit("int16");
            assert("binary"@.len() != "int16"@.len());
            reveal_strlit("int32");
            assert("binary"@.len() != "int32"@.len());
            reveal_strlit("int64");
            assert("binary"@.len() != "int64"@.len());
            reveal_strlit("uint8");
            assert("binary"@.len() != "uint8"@.len());
            reveal_strlit("uint16");
            assert("binary"@[0] != "uint16"@[0]);
            reveal_strlit("uint32");
            assert("binary"@[0] != "uint32"@[0]);
            reveal_strlit("uint64");
            assert("binary"@[0] != "uint64"@[0]);
            reveal_strlit("float16");
            assert("binary"@.len() != "float16"@.len());
            reveal_strlit("half");
            assert("binary"@.len() != "half"@.len());
            reveal_strlit("float32");
            assert("binary"@.len() != "float32"@.len());
            reveal_strlit("float");
            assert("binary"@.len() != "float"@.len());
            reveal_strlit("float64");
            assert("binary"@.len() != "float64"@.len());
            reveal_strlit("double");
            assert("binary"@[0] != "double"@[0]);
            reveal_strlit("utf8");
            assert("binary"@.len() != "utf8"@.len());
            reveal_strlit("string");
            assert("binary"@[0] != "string"@[0]);
            reveal_strlit("large_utf8");
            assert("binary"@.len() != "large_utf8"@.len());
            reveal_strlit("large_string");
            assert("binary"@.len() != "large_string"@.len());
        },
        SpecType::LargeBinary => {
            reveal_strlit("large_binary");
            reveal_strlit("null");
            assert("large_binary"@.len() != "null"@.len());
            reveal_strlit("bool");
            assert("large_binary"@.len() != "bool"@.len());
            reveal_strlit("boolean");
            assert("large_binary"@.len() != "boolean"@.len());
            reveal_strlit("int8");
            assert("large_binary"@.len() != "int8"@.len());
            reveal_strlit("int16");
            assert("large_binary"@.len() != "int16"@.len());
            reveal_strlit("int32");
            assert("large_binary"@.len() != "int32"@.len());
            reveal_strlit("int64");
            assert("large_binary"@.len() != "int64"@.len());
            reveal_strlit("uint8");
            assert("large_binary"@.len() != "uint8"@.len());
            reveal_strlit("uint16");
            assert("large_binary"@.len() != "uint16"@.len());
            reveal_strlit("uint32");
            assert("large_binary"@.len() != "uint32"@.len());
            reveal_strlit("uint64");
            assert("large_binary"@.len() != "uint64"@.len());
            reveal_strlit("float16");
            assert("large_binary"@.len() != "float16"@.len());
            reveal_strlit("half");
            assert("large_binary"@.len() != "half"@.len());
            reveal_strlit("float32");
            assert("large_binary"@.len() != "float32"@.len());
            reveal_strlit("float");
            assert("large_binary"@.len() != "float"@.len());
            reveal_strlit("float64");
            assert("large_binary"@.len() != "float64"@.len());
            reveal_strlit("double");
            assert("large_binary"@.len() != "double"@.len());
            reveal_strlit("utf8");
            assert("large_binary"@.len() != "utf8"@.len());
            reveal_strlit("string");
            assert("large_binary"@.len() != "string"@.len());
            reveal_strlit("large_utf8");
            assert("large_binary"@.len() != "large_utf8"@.len());
            reveal_strlit("large_string");
            assert("large_binary"@[6] != "large_string"@[6]);
            reveal_strlit("binary");
            assert("large_binary"@.len() != "binary"@.len());
        },
        SpecType::Date32 => {
            reveal_strlit("date32");
            reveal_strlit("null");
            assert("date32"@.len() != "null"@.len());
            reveal_strlit("bool");
            assert("date32"@.len() != "bool"@.len());
            reveal_strlit("boolean");
            assert("date32"@.len() != "boolean"@.len());
            reveal_strlit("int8");
            assert("date32"@.len() != "int8"@.len());
            reveal_strlit("int16");
            assert("date32"@.len() != "int16"@.len());
            reveal_strlit("int32");
            assert("date32"@.len() != "int32"@.len());
            reveal_strlit("int64");
            assert("date32"@.len() != "int64"@.len());
            reveal_strlit("uint8");
            assert("date32"@.len() != "uint8"@.len());
            reveal_strlit("uint16");
            assert("date32"@[0] != "uint16"@[0]);
            reveal_strlit("uint32");
            assert("date32"@[0] != "uint32"@[0]);
            reveal_strlit("uint64");
            assert("date32"@[0] != "uint64"@[0]);
            reveal_strlit("float16");
            assert("date32"@.len() != "float16"@.len());
            reveal_strlit("half");
            assert("date32"@.len() != "half"@.len());
            reveal_strlit("float32");
            assert("date32"@.len() != "float32"@.len());
            reveal_strlit("float");
            assert("date32"@.len() != "float"@.len());
            reveal_strlit("float64");
            assert("date32"@.len() != "float64"@.len());
            reveal_strlit("double");
            assert("date32"@[1] != "double"@[1]);
            reveal_strlit("utf8");
            assert("date32"@.len() != "utf8"@.len());
            reveal_strlit("string");
            assert("date32"@[0] != "string"@[0]);
            reveal_strlit("large_utf8");
            assert("date32"@.len() != "large_utf8"@.len());
            reveal_strlit("large_string");
            assert("date32"@.len() != "large_string"@.len());
            reveal_strlit("binary");
            assert("date32"@[0] != "binary"@[0]);
            reveal_strlit("large_binary");
            assert("date32"@.len() != "large_binary"@.len());
        },
        SpecType::Date64 => {
            reveal_strlit("date64");
            reveal_strlit("null");
            assert("date64"@.len() != "null"@.len());
            reveal_strlit("bool");
            assert("date64"@.len() != "bool"@.len());
            reveal_strlit("boolean");
            assert("date64"@.len() != "boolean"@.len());
            reveal_strlit("int8");
            assert("date64"@.len() != "int8"@.len());
            reveal_strlit("int16");
            assert("date64"@.len() != "int16"@.len());
            reveal_strlit("int32");
            assert("date64"@.len() != "int32"@.len());
            reveal_strlit("int64");
            assert("date64"@.len() != "int64"@.len());
            reveal_strlit("uint8");
            assert("date64"@.len() != "uint8"@.len());
            reveal_strlit("uint16");
            assert("date64"@[0] != "uint16"@[0]);
            reveal_strlit("uint32");
            assert("date64"@[0] != "uint32"@[0]);
            reveal_strlit("uint64");
            assert("date64"@[0] != "uint64"@[0]);
            reveal_strlit("float16");
            assert("date64"@.len() != "float16"@.len());
            reveal_strlit("half");
            assert("date64"@.len() != "half"@.len());
            reveal_strlit("float32");
            assert("date64"@.len() != "float32"@.len());
            reveal_strlit("float");
            assert("date64"@.len() != "float"@.len());
            reveal_strlit("float64");
            assert("date64"@.len() != "float64"@.len());
            reveal_strlit("double");
            assert("date64"@[1] != "double"@[1]);
            reveal_strlit("utf8");
            assert("date64"@.len() != "utf8"@.len());
            reveal_strlit("string");
            assert("date64"@[0] != "string"@[0]);
            reveal_strlit("large_utf8");
            assert("date64"@.len() != "large_utf8"@.len());
            reveal_strlit("large_string");
            assert("date64"@.len() != "large_string"@.len());
            reveal_strlit("binary");
            assert("date64"@[0] != "binary"@[0]);
            reveal_strlit("large_binary");
            assert("date64"@.len() != "large_binary"@.len());
            reveal_strlit("date32");
            assert("date64"@[4] != "date32"@[4]);
        },
        _ => {},
    }
}

#[verifier::spinoff_prover]
#[verifier::rlimit(60)]
proof fn lemma_parse_bare(t: SpecType)
    requires
        is_bare(t),
    ensures
        parse_type(type_display(t)) == Outcome::Done(t),
{
    let d = type_display(t);
    lemma_bare_plain(t);
    lemma_parse_trimmed(d);
    assert(lacks(d, '<'));
    assert(lacks(d, '['));
    assert(lacks(d, '('));
    lemma_find_none(d, '<');
    lemma_find_none(d, '[');
    lemma_find_none(d, '(');
    lemma_bare_names(t);
    assert(generic(d) == Outcome::<Option<SpecType>>::Done(None));
    assert(bracketed(d) == Outcome::<Option<SpecType>>::Done(None));
    assert(parens(d) == Outcome::<Option<SpecType>>::Done(None));
}

// ---------------------------------------------------------------------------
// The law
// ---------------------------------------------------------------------------

/// The types whose printed form parses back to them: a timestamp whose
/// timezone has no surrounding whitespace and no `<` (other brackets may
/// stand in it), and every other type that prints back where it stands
/// below the top level (`prints_in`).
pub open spec fn displays_back(t: SpecType) -> bool {
    match t {
        SpecType::Timestamp { timezone: Some(z), .. } => is_trimmed(z) && lacks(z, '<'),
        _ => prints_in(t, false),
    }
}

/// What prints back below the top level prints back at the top level.
proof fn lemma_displays_back(t: SpecType, paired: bool)
    requires
        prints_in(t, paired),
    ensures
        displays_back(t),
{
    if paired {
        lemma_prints_in_unpaired(t);
    }
}

proof fn lemma_roundtrip(t: SpecType)
    requires
        displays_back(t),
    ensures
        parse_type(type_display(t)) == Outcome::Done(t),
    decreases t,
{
    if is_bare(t) {
        lemma_parse_bare(t);
    } else {
        match t {
            SpecType::FixedSizeBinary { .. } | SpecType::Decimal128 { .. }
            | SpecType::Decimal256 { .. } => {
                lemma_parse_numbers(t);
            },
            SpecType::Timestamp { unit, timezone: Some(z) } => {
                lemma_parse_timestamp(unit, z);
            },
            SpecType::Time32 { .. } | SpecType::Time64 { .. } | SpecType::Duration { .. }
            | SpecType::Timestamp { .. } => {
                lemma_parse_units(t);
            },
            SpecType::Interval { unit } => {
                lemma_parse_interval(unit);
            },
            SpecType::List { element } => {
                lemma_displays_back(element.arrow_type, false);
                lemma_roundtrip(element.arrow_type);
                lemma_parse_list(false, element.arrow_type);
                assert(t == list_of(false, element.arrow_type));
            },
            SpecType::LargeList { element } => {
                lemma_displays_back(element.arrow_type, false);
                lemma_roundtrip(element.arrow_type);
                lemma_parse_list(true, element.arrow_type);
                assert(t == list_of(true, element.arrow_type));
            },
            SpecType::FixedSizeList { element, size } => {
                lemma_displays_back(element.arrow_type, false);
                lemma_roundtrip(element.arrow_type);
                lemma_parse_fixed_list(element.arrow_type, size);
                assert(t == fixed_list_of(element.arrow_type, size));
            },
            SpecType::MapType { key, value, .. } => {
                lemma_displays_back(key.arrow_type, true);
                lemma_displays_back(value.arrow_type, true);
                lemma_roundtrip(key.arrow_type);
                lemma_roundtrip(value.arrow_type);
                lemma_parse_pair(false, key.arrow_type, value.arrow_type);
                assert(t == pair_of(false, key.arrow_type, value.arrow_type));
            },
            SpecType::Dictionary { index_type, value_type } => {
                lemma_displays_back(*index_type, true);
                lemma_displays_back(*value_type, true);
                lemma_roundtrip(*index_type);
                lemma_roundtrip(*value_type);
                lemma_parse_pair(true, *index_type, *value_type);
                assert(t == pair_of(true, *index_type, *value_type));
            },
            _ => {},
        }
    }
}

#[verifier::spinoff_prover]
#[verifier::rlimit(100)]
proof fn lemma_parse_timestamp(u: TimeUnit, z: Seq<char>)
    requires
        is_trimmed(z),
        lacks(z, '<'),
    ensures
        parse_type(type_display(SpecType::Timestamp { unit: u, timezone: Some(z) })) == Outcome::Done(
            SpecType::Timestamp { unit: u, timezone: Some(z) },
        ),
{
    let t = SpecType::Timestamp { unit: u, timezone: Some(z) };
    reveal_strlit("timestamp[");
    reveal_strlit("timestamp");
    reveal_strlit("]");
    reveal_strlit(", ");
    lemma_bracketed_names();
    lemma_unit_plain(u);
    let ud = unit_display(u);
    let open = "timestamp["@;
    let params = ud + ", "@ + z;
    let d = type_display(t);
    assert(d =~= open + params + "]"@);
    assert(d[0] == 't');
    assert(d[d.len() - 1] == ']');
    lemma_parse_trimmed(d);
    assert forall|m: int| 0 <= m < d.len() implies d[m] != '<' by {
        if m < open.len() {
            assert(d[m] == open[m]);
        } else if m < open.len() + ud.len() {
            assert(d[m] == ud[m - open.len()]);
        } else if m < open.len() + ud.len() + 2 {
            assert(d[m] == ", "@[m - open.len() - ud.len()]);
        } else if m < d.len() - 1 {
            assert(d[m] == z[m - open.len() - ud.len() - 2]);
        }
    }
    lemma_find_none(d, '<');
    assert forall|m: int| 0 <= m < 9 implies d[m] != '[' by {
        assert(d[m] == open[m]);
    }
    lemma_find_at(d, '[', 9);
    lemma_rfind_last(d, ']');
    assert(d.subrange(0, 9) =~= "timestamp"@);
    assert(d.subrange(10, d.len() - 1) =~= params);
    law_time_unit_roundtrip(u);
    lemma_timezone_parts(u, z);
    assert(generic(d) == Outcome::<Option<SpecType>>::Done(None));
    assert(bracketed(d) == Outcome::Done(Some(t)));
}

/// Printing a type and parsing the printed string gives the type back, for
/// every type that printing writes in full (`displays_back`): all types but
/// structs and unions, whose nested fields carry the names, nullability and
/// empty metadata that the parser gives them, with positive sizes, unsorted
/// map keys, and timezones without surrounding whitespace and without `<`;
/// below the top level also without `>`, and, inside an argument of a map or
/// dictionary, with as many opening as closing brackets and no comma where
/// more brackets have closed than opened since the start of the timezone.
pub proof fn law_print_then_parse(t: SpecType)
    requires
        displays_back(t),
    ensures
        parse_type_result(type_display(t)) == Ok::<SpecType, SpecError>(t),
{
    lemma_roundtrip(t);
}

// ---------------------------------------------------------------------------
// Parsed types print back
// ---------------------------------------------------------------------------

/// No struct or union, at any depth.
pub open spec fn no_struct_or_union(t: SpecType) -> bool
    decreases t,
{
    match t {
        SpecType::Struct { .. } | SpecType::Union { .. } => false,
        SpecType::List { element } => no_struct_or_union(element.arrow_type),
        SpecType::LargeList { element } => no_struct_or_union(element.arrow_type),
        SpecType::FixedSizeList { element, .. } => no_struct_or_union(element.arrow_type),
        SpecType::MapType { key, value, .. } => no_struct_or_union(key.arrow_type)
            && no_struct_or_union(value.arrow_type),
        SpecType::Dictionary { index_type, value_type } => no_struct_or_union(*index_type)
            && no_struct_or_union(*value_type),
        _ => true,
    }
}

/// Every timezone of `t` that stands below the top level holds no `>`;
/// inside an argument of a map or dictionary (`paired`), it also opens as
/// many brackets as it closes and none of its commas stands where more
/// brackets have closed than opened since its start.
pub open spec fn zones_fit(t: SpecType, paired: bool) -> bool
    decreases t,
{
    match t {
        SpecType::Timestamp { timezone, .. } => match timezone {
            Some(z) => lacks(z, '>') && (paired ==> bracket_net(z) == 0 && commas_above(z, 1)),
            None => true,
        },
        SpecType::List { element } => zones_fit(element.arrow_type, paired),
        SpecType::LargeList { element } => zones_fit(element.arrow_type, paired),
        SpecType::FixedSizeList { element, .. } => zones_fit(element.arrow_type, paired),
        SpecType::MapType { key, value, .. } => zones_fit(key.arrow_type, true) && zones_fit(
            value.arrow_type,
            true,
        ),
        SpecType::Dictionary { index_type, value_type } => zones_fit(*index_type, true)
            && zones_fit(*value_type, true),
        _ => true,
    }
}

/// The timezones below the top level of `t` fit where they stand.
pub open spec fn nested_zones_fit(t: SpecType) -> bool {
    match t {
        SpecType::Timestamp { .. } => true,
        _ => zones_fit(t, false),
    }
}

proof fn lemma_lacks_sub(a: Seq<char>, c: char, i: int, j: int)
    requires
        lacks(a, c),
        0 <= i <= j <= a.len(),
    ensures
        lacks(a.subrange(i, j), c),
{
    assert forall|k: int| 0 <= k < j - i implies a.subrange(i, j)[k] != c by {
        assert(a.subrange(i, j)[k] == a[i + k]);
    }
}

/// What parsing gives prints back where it stands below the top level, when
/// it holds no struct or union and its timezones fit there.
#[verifier::spinoff_prover]
#[verifier::rlimit(100)]
proof fn lemma_parsed_in_full(s: Seq<char>, paired: bool)
    requires
        parse_type(s) is Done,
        no_struct_or_union(parse_type(s)->Done_0),
        zones_fit(parse_type(s)->Done_0, paired),
    ensures
        prints_in(parse_type(s)->Done_0, paired),
    decreases s.len(),
{
    let t = parse_type(s)->Done_0;
    match t {
        SpecType::Timestamp { timezone: Some(z), .. } => {
            lemma_parsed_timestamp_tz(s);
        },
        _ => {},
    }
    lemma_trim(s);
    let tt = trim(s);
    assert(parse_trimmed(tt) == Outcome::Done(t));
    lemma_trim_split(s);
    if generic(tt) is Done && generic(tt)->Done_0 is Some {
        lemma_generic_parts_parsed(tt);
        let a = find(tt, '<')->0;
        let e = match_close(tt, a)->0;
        let inner = tt.subrange(a + 1, e);
        let prefix = tt.subrange(0, a);
        if prefix == "list"@ || prefix == "large_list"@ || prefix == "fixed_size_list"@ {
            lemma_parsed_in_full(inner, paired);
        } else if prefix == "map"@ || prefix == "dictionary"@ {
            lemma_split_top(inner);
            let parts = split_top(inner);
            if parts.len() == 2 {
                assert(parts[0].len() <= inner.len() && parts[1].len() <= inner.len());
                if parse_type(parts[0]) is Done {
                    if parse_type(parts[1]) is Done {
                        lemma_parsed_in_full(parts[0], true);
                        lemma_parsed_in_full(parts[1], true);
                    }
                }
            }
        }
    }
}

/// The parts that `generic` finds, and that they are shorter than the input.
proof fn lemma_generic_parts_parsed(tt: Seq<char>)
    requires
        generic(tt) is Done,
        generic(tt)->Done_0 is Some,
    ensures
        find(tt, '<') is Some,
        match_close(tt, find(tt, '<')->0) is Some,
        0 <= find(tt, '<')->0 < match_close(tt, find(tt, '<')->0)->0 < tt.len(),
{
    lemma_find(tt, '<');
    let a = find(tt, '<')->0;
    lemma_match_close(tt, a);
}

/// A timestamp that `bracketed` reads has a trimmed timezone.
proof fn lemma_bracketed_tz(tt: Seq<char>)
    requires
        bracketed(tt) is Done,
        bracketed(tt)->Done_0 matches Some(SpecType::Timestamp { timezone: Some(z), .. }),
    ensures
        bracketed(tt)->Done_0 matches Some(SpecType::Timestamp { timezone: Some(z), .. })
            && is_trimmed(z),
{
    let bs = find(tt, '[')->0;
    let be = rfind(tt, ']')->0;
    let params = tt.subrange(bs + 1, be);
    let c = find(params, ',')->0;
    lemma_trim_split(params.subrange(c + 1, params.len() as int));
}

/// A timestamp that parsing reads at the top level has a trimmed timezone
/// without `<`.
proof fn lemma_parsed_timestamp_tz(s: Seq<char>)
    requires
        parse_type(s) matches Outcome::Done(SpecType::Timestamp { timezone: Some(z), .. }),
    ensures
        parse_type(s) matches Outcome::Done(SpecType::Timestamp { timezone: Some(z), .. })
            && is_trimmed(z) && lacks(z, '<'),
{
    lemma_trim(s);
    let tt = trim(s);
    lemma_find(tt, '<');
    if generic(tt) is Done && generic(tt)->Done_0 is Some {
        lemma_generic_parts_parsed(tt);
    }
    assert(generic(tt) == Outcome::<Option<SpecType>>::Done(None));
    assert(lacks(tt, '<'));
    lemma_bracketed_tz(tt);
    lemma_find(tt, '[');
    lemma_rfind(tt, ']');
    let bs = find(tt, '[')->0;
    let be = rfind(tt, ']')->0;
    let params = tt.subrange(bs + 1, be);
    lemma_lacks_sub(tt, '<', bs + 1, be);
    lemma_find(params, ',');
    let c = find(params, ',')->0;
    let x = params.subrange(c + 1, params.len() as int);
    lemma_lacks_sub(params, '<', c + 1, params.len() as int);
    lemma_trim(x);
    lemma_lacks_sub(x, '<', crate::text::trim_lo(x), crate::text::trim_hi(x));
}

/// A type that parsing gives prints in a form that parses back to it, when
/// it holds no struct or union and its timezones below the top level fit
/// where they stand (`nested_zones_fit`): `list<timestamp[us, a)]>`, for
/// one, parses, prints and parses back to the same type. Parsing
/// `map<timestamp[us, a(]x), int32>` gives a map whose key timezone `a(`
/// leaves a bracket open, and its printed form
/// `map<timestamp[us, a(], int32>` does not parse.
pub proof fn law_parse_print_parse(s: Seq<char>)
    requires
        parse_type(s) is Done,
        no_struct_or_union(parse_type(s)->Done_0),
        nested_zones_fit(parse_type(s)->Done_0),
    ensures
        parse_type_result(type_display(parse_type(s)->Done_0)) == Ok::<SpecType, SpecError>(
            parse_type(s)->Done_0,
        ),
{
    let t = parse_type(s)->Done_0;
    match t {
        SpecType::Timestamp { timezone: Some(z), .. } => {
            lemma_parsed_timestamp_tz(s);
        },
        _ => {
            lemma_parsed_in_full(s, false);
        },
    }
    law_print_then_parse(t);
}

} // verus!
