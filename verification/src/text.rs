//! Character-level helpers shared by the type-string parser, the validator
//! and the code generators: a char view of an input string, whitespace
//! trimming, searching, literal comparison, and integer parsing/printing.
use vstd::prelude::*;
use vstd::string::*;

verus! {

// ---------------------------------------------------------------------------
// Whitespace
// ---------------------------------------------------------------------------

/// The characters that carry the Unicode `White_Space` property.
pub open spec fn is_ws(c: char) -> bool {
    let u = c as int;
    ||| 0x9 <= u <= 0xD
    ||| u == 0x20
    ||| u == 0x85
    ||| u == 0xA0
    ||| u == 0x1680
    ||| 0x2000 <= u <= 0x200A
    ||| u == 0x2028
    ||| u == 0x2029
    ||| u == 0x202F
    ||| u == 0x205F
    ||| u == 0x3000
}

/// `char::is_whitespace`: true exactly for the characters with the Unicode
/// `White_Space` property, which `is_ws` lists.
#[verifier::external_body]
pub(crate) fn char_is_whitespace(c: char) -> (r: bool)
    ensures
        r == is_ws(c),
{
    c.is_whitespace()
}

/// Index of the first non-whitespace character at or after `i`.
pub open spec fn skip_ws(s: Seq<char>, i: int) -> int
    decreases s.len() - i,
{
    if 0 <= i < s.len() && is_ws(s[i]) {
        skip_ws(s, i + 1)
    } else {
        i
    }
}

/// End of `s[lo..j]` once trailing whitespace is dropped (never below `lo`).
pub open spec fn back_ws(s: Seq<char>, lo: int, j: int) -> int
    decreases j - lo,
{
    if lo < j && j <= s.len() && is_ws(s[j - 1]) {
        back_ws(s, lo, j - 1)
    } else {
        j
    }
}

pub open spec fn trim_lo(s: Seq<char>) -> int {
    skip_ws(s, 0)
}

pub open spec fn trim_hi(s: Seq<char>) -> int {
    back_ws(s, trim_lo(s), s.len() as int)
}

/// `str::trim`: `s` without leading and trailing whitespace.
pub open spec fn trim(s: Seq<char>) -> Seq<char> {
    s.subrange(trim_lo(s), trim_hi(s))
}

pub proof fn lemma_skip_ws(s: Seq<char>, i: int)
    requires
        0 <= i <= s.len(),
    ensures
        i <= skip_ws(s, i) <= s.len(),
        forall|k: int| i <= k < skip_ws(s, i) ==> is_ws(#[trigger] s[k]),
        skip_ws(s, i) < s.len() ==> !is_ws(s[skip_ws(s, i)]),
    decreases s.len() - i,
{
    if i < s.len() && is_ws(s[i]) {
        lemma_skip_ws(s, i + 1);
    }
}

pub proof fn lemma_back_ws(s: Seq<char>, lo: int, j: int)
    requires
        0 <= lo <= j <= s.len(),
    ensures
        lo <= back_ws(s, lo, j) <= j,
        forall|k: int| back_ws(s, lo, j) <= k < j ==> is_ws(#[trigger] s[k]),
        lo < back_ws(s, lo, j) ==> !is_ws(s[back_ws(s, lo, j) - 1]),
    decreases j - lo,
{
    if lo < j && is_ws(s[j - 1]) {
        lemma_back_ws(s, lo, j - 1);
    }
}

pub proof fn lemma_trim(s: Seq<char>)
    ensures
        0 <= trim_lo(s) <= trim_hi(s) <= s.len(),
        trim(s).len() <= s.len(),
        trim(s).len() == trim_hi(s) - trim_lo(s),
{
    lemma_skip_ws(s, 0);
    lemma_back_ws(s, trim_lo(s), s.len() as int);
}

/// Every character is whitespace.
pub open spec fn all_ws(s: Seq<char>) -> bool {
    forall|i: int| 0 <= i < s.len() ==> is_ws(#[trigger] s[i])
}

/// `t` is trimmed: it neither starts nor ends with whitespace.
pub open spec fn is_trimmed(t: Seq<char>) -> bool {
    t.len() > 0 ==> !is_ws(t[0]) && !is_ws(t[t.len() - 1])
}

/// Trimming removes exactly the whitespace around a trimmed core.
pub proof fn lemma_trim_around(a: Seq<char>, t: Seq<char>, b: Seq<char>)
    requires
        all_ws(a),
        all_ws(b),
        is_trimmed(t),
    ensures
        trim(a + t + b) == t,
{
    let s = a + t + b;
    lemma_skip_ws(s, 0);
    let lo = trim_lo(s);
    if t.len() == 0 {
        assert forall|k: int| 0 <= k < s.len() implies is_ws(#[trigger] s[k]) by {
            if k < a.len() {
                assert(s[k] == a[k]);
            } else {
                assert(s[k] == b[k - a.len()]);
            }
        }
        assert(lo == s.len());
        lemma_back_ws(s, lo, s.len() as int);
        assert(trim(s) =~= t);
    } else {
        assert(s[a.len() as int] == t[0]);
        if lo < a.len() {
            assert(s[lo] == a[lo]);
        }
        if lo > a.len() {
            assert(is_ws(s[a.len() as int]));
        }
        assert(lo == a.len());
        let e = a.len() + t.len();
        lemma_back_ws(s, lo, s.len() as int);
        let hi = trim_hi(s);
        assert(s[e - 1] == t[t.len() - 1]);
        if hi < e {
            assert(is_ws(s[e - 1]));
        }
        if hi > e {
            assert(s[hi - 1] == b[hi - 1 - e]);
        }
        assert(hi == e);
        assert(trim(s) =~= t);
    }
}

/// `s` is its trimmed part between two runs of whitespace.
pub proof fn lemma_trim_split(s: Seq<char>)
    ensures
        all_ws(s.subrange(0, trim_lo(s))),
        all_ws(s.subrange(trim_hi(s), s.len() as int)),
        is_trimmed(trim(s)),
        s == s.subrange(0, trim_lo(s)) + trim(s) + s.subrange(trim_hi(s), s.len() as int),
{
    lemma_skip_ws(s, 0);
    lemma_back_ws(s, trim_lo(s), s.len() as int);
    lemma_trim(s);
    let lo = trim_lo(s);
    let hi = trim_hi(s);
    if trim(s).len() > 0 {
        assert(trim(s)[0] == s[lo]);
        assert(trim(s)[trim(s).len() - 1] == s[hi - 1]);
    }
    assert(s =~= s.subrange(0, lo) + trim(s) + s.subrange(hi, s.len() as int));
}

/// Whitespace around a string does not change what trimming gives.
pub proof fn lemma_trim_padded(a: Seq<char>, s: Seq<char>, b: Seq<char>)
    requires
        all_ws(a),
        all_ws(b),
    ensures
        trim(a + s + b) == trim(s),
{
    lemma_trim_split(s);
    let pre = s.subrange(0, trim_lo(s));
    let post = s.subrange(trim_hi(s), s.len() as int);
    assert(a + s + b =~= (a + pre) + trim(s) + (post + b));
    assert(all_ws(a + pre)) by {
        assert forall|i: int| 0 <= i < (a + pre).len() implies is_ws(#[trigger] (a + pre)[i]) by {
            if i < a.len() {
                assert((a + pre)[i] == a[i]);
            } else {
                assert((a + pre)[i] == pre[i - a.len()]);
            }
        }
    }
    assert(all_ws(post + b)) by {
        assert forall|i: int| 0 <= i < (post + b).len() implies is_ws(#[trigger] (post + b)[i]) by {
            if i < post.len() {
                assert((post + b)[i] == post[i]);
            } else {
                assert((post + b)[i] == b[i - post.len()]);
            }
        }
    }
    lemma_trim_around(a + pre, trim(s), post + b);
}

// ---------------------------------------------------------------------------
// The char view of an input string
// ---------------------------------------------------------------------------

/// An input string together with its characters, so that parsers can index
/// characters in constant time and still cut substrings out of the source.
pub struct Text<'a> {
    pub src: &'a str,
    pub chars: Vec<char>,
}

impl<'a> Text<'a> {
    pub open spec fn wf(&self) -> bool {
        &&& self.chars@ == self.src@
        &&& self.chars@.len() < 0x7fff_ffff
    }

    pub open spec fn sub(&self, lo: int, hi: int) -> Seq<char> {
        self.chars@.subrange(lo, hi)
    }

    pub open spec fn range(&self, lo: usize, hi: usize) -> bool {
        lo <= hi <= self.chars@.len()
    }

    pub fn new(src: &'a str) -> (t: Text<'a>)
        requires
            src@.len() < 0x7fff_ffff,
        ensures
            t.wf(),
            t.src == src,
    {
        let n = src.unicode_len();
        let mut chars: Vec<char> = Vec::new();
        let mut i: usize = 0;
        while i < n
            invariant
                n == src@.len(),
                i <= n,
                chars@ == src@.subrange(0, i as int),
            decreases n - i,
        {
            chars.push(src.get_char(i));
            i = i + 1;
        }
        assert(chars@ =~= src@);
        Text { src, chars }
    }

    pub fn len(&self) -> (n: usize)
        ensures
            n == self.chars@.len(),
    {
        self.chars.len()
    }

    /// The substring `[lo, hi)` as a `&str`.
    pub fn slice(&self, lo: usize, hi: usize) -> (r: &'a str)
        requires
            self.wf(),
            self.range(lo, hi),
        ensures
            r@ == self.sub(lo as int, hi as int),
    {
        self.src.substring_char(lo, hi)
    }

    /// The substring `[lo, hi)` as an owned `String`.
    pub fn slice_string(&self, lo: usize, hi: usize) -> (r: String)
        requires
            self.wf(),
            self.range(lo, hi),
        ensures
            r@ == self.sub(lo as int, hi as int),
    {
        self.slice(lo, hi).to_owned()
    }

    /// Trim whitespace from `[lo, hi)`; the result is a sub-range.
    pub fn trim_range(&self, lo: usize, hi: usize) -> (r: (usize, usize))
        requires
            self.range(lo, hi),
        ensures
            lo <= r.0 <= r.1 <= hi,
            self.sub(r.0 as int, r.1 as int) == trim(self.sub(lo as int, hi as int)),
            r.0 - lo == trim_lo(self.sub(lo as int, hi as int)),
            r.1 - lo == trim_hi(self.sub(lo as int, hi as int)),
    {
        let ghost s = self.sub(lo as int, hi as int);
        let mut a: usize = lo;
        while a < hi && char_is_whitespace(self.chars[a])
            invariant
                lo <= a <= hi <= self.chars@.len(),
                s == self.sub(lo as int, hi as int),
                skip_ws(s, a - lo) == skip_ws(s, 0),
            decreases hi - a,
        {
            a = a + 1;
        }
        let mut b: usize = hi;
        while b > a && char_is_whitespace(self.chars[b - 1])
            invariant
                lo <= a <= b <= hi <= self.chars@.len(),
                s == self.sub(lo as int, hi as int),
                a - lo == trim_lo(s),
                back_ws(s, a - lo, b - lo) == back_ws(s, a - lo, hi - lo),
            decreases b - a,
        {
            b = b - 1;
        }
        proof {
            lemma_trim(s);
            assert(self.sub(a as int, b as int) =~= s.subrange(a - lo, b - lo));
        }
        (a, b)
    }

    /// First index in `[lo, hi)` holding `c`.
    pub fn find(&self, lo: usize, hi: usize, c: char) -> (r: Option<usize>)
        requires
            self.range(lo, hi),
        ensures
            match r {
                Some(i) => lo <= i < hi && find(self.sub(lo as int, hi as int), c) == Some(i - lo),
                None => find(self.sub(lo as int, hi as int), c) is None,
            },
    {
        let ghost s = self.sub(lo as int, hi as int);
        let mut i: usize = lo;
        while i < hi
            invariant
                lo <= i <= hi <= self.chars@.len(),
                s == self.sub(lo as int, hi as int),
                find_from(s, c, i - lo) == find(s, c),
            decreases hi - i,
        {
            if self.chars[i] == c {
                return Some(i);
            }
            i = i + 1;
        }
        None
    }

    /// Last index in `[lo, hi)` holding `c`.
    pub fn rfind(&self, lo: usize, hi: usize, c: char) -> (r: Option<usize>)
        requires
            self.range(lo, hi),
        ensures
            match r {
                Some(i) => lo <= i < hi && rfind(self.sub(lo as int, hi as int), c) == Some(i - lo),
                None => rfind(self.sub(lo as int, hi as int), c) is None,
            },
    {
        let ghost s = self.sub(lo as int, hi as int);
        let mut j: usize = hi;
        while j > lo
            invariant
                lo <= j <= hi <= self.chars@.len(),
                s == self.sub(lo as int, hi as int),
                rfind_to(s, c, j - lo) == rfind(s, c),
            decreases j - lo,
        {
            if self.chars[j - 1] == c {
                return Some(j - 1);
            }
            j = j - 1;
        }
        None
    }

    /// Whether `[lo, hi)` spells exactly `lit`.
    pub fn eq_lit(&self, lo: usize, hi: usize, lit: &str) -> (r: bool)
        requires
            self.range(lo, hi),
        ensures
            r == (self.sub(lo as int, hi as int) == lit@),
    {
        let n = lit.unicode_len();
        if hi - lo != n {
            proof {
                assert(self.sub(lo as int, hi as int).len() != lit@.len());
            }
            return false;
        }
        let mut k: usize = 0;
        while k < n
            invariant
                n == lit@.len(),
                hi - lo == n,
                lo <= hi <= self.chars@.len(),
                k <= n,
                forall|m: int| 0 <= m < k ==> self.chars@[lo + m] == lit@[m],
            decreases n - k,
        {
            if self.chars[lo + k] != lit.get_char(k) {
                proof {
                    assert(self.sub(lo as int, hi as int)[k as int] != lit@[k as int]);
                }
                return false;
            }
            k = k + 1;
        }
        proof {
            assert(self.sub(lo as int, hi as int) =~= lit@);
        }
        true
    }
}

// ---------------------------------------------------------------------------
// Searching
// ---------------------------------------------------------------------------

pub open spec fn find_from(s: Seq<char>, c: char, i: int) -> Option<int>
    decreases s.len() - i,
{
    if i < 0 || i >= s.len() {
        None
    } else if s[i] == c {
        Some(i)
    } else {
        find_from(s, c, i + 1)
    }
}

/// `str::find` on a char: the first position of `c` in `s`.
pub open spec fn find(s: Seq<char>, c: char) -> Option<int> {
    find_from(s, c, 0)
}

pub open spec fn rfind_to(s: Seq<char>, c: char, j: int) -> Option<int>
    decreases j,
{
    if j <= 0 || j > s.len() {
        None
    } else if s[j - 1] == c {
        Some(j - 1)
    } else {
        rfind_to(s, c, j - 1)
    }
}

/// `str::rfind` on a char: the last position of `c` in `s`.
pub open spec fn rfind(s: Seq<char>, c: char) -> Option<int> {
    rfind_to(s, c, s.len() as int)
}

pub proof fn lemma_find_from(s: Seq<char>, c: char, i: int)
    requires
        0 <= i,
    ensures
        match find_from(s, c, i) {
            Some(k) => i <= k < s.len() && s[k] == c && forall|m: int| i <= m < k ==> s[m] != c,
            None => forall|m: int| i <= m < s.len() ==> s[m] != c,
        },
    decreases s.len() - i,
{
    if i < s.len() && s[i] != c {
        lemma_find_from(s, c, i + 1);
    }
}

pub proof fn lemma_find(s: Seq<char>, c: char)
    ensures
        match find(s, c) {
            Some(k) => 0 <= k < s.len() && s[k] == c && forall|m: int| 0 <= m < k ==> s[m] != c,
            None => forall|m: int| 0 <= m < s.len() ==> s[m] != c,
        },
{
    lemma_find_from(s, c, 0);
}

pub proof fn lemma_rfind_to(s: Seq<char>, c: char, j: int)
    requires
        j <= s.len(),
    ensures
        match rfind_to(s, c, j) {
            Some(k) => 0 <= k < j && s[k] == c && forall|m: int| k < m < j ==> s[m] != c,
            None => forall|m: int| 0 <= m < j ==> s[m] != c,
        },
    decreases j,
{
    if j > 0 && s[j - 1] != c {
        lemma_rfind_to(s, c, j - 1);
    }
}

pub proof fn lemma_rfind(s: Seq<char>, c: char)
    ensures
        match rfind(s, c) {
            Some(k) => 0 <= k < s.len() && s[k] == c && forall|m: int| k < m < s.len() ==> s[m] != c,
            None => forall|m: int| 0 <= m < s.len() ==> s[m] != c,
        },
{
    lemma_rfind_to(s, c, s.len() as int);
}

// ---------------------------------------------------------------------------
// Integers
// ---------------------------------------------------------------------------

pub open spec fn is_digit(c: char) -> bool {
    '0' <= c <= '9'
}

pub open spec fn all_digits(s: Seq<char>) -> bool {
    s.len() > 0 && forall|i: int| 0 <= i < s.len() ==> is_digit(#[trigger] s[i])
}

/// The value of a string of decimal digits.
pub open spec fn digits_value(s: Seq<char>) -> int
    decreases s.len(),
{
    if s.len() == 0 {
        0
    } else {
        digits_value(s.drop_last()) * 10 + (s.last() as int - '0' as int)
    }
}

/// The integer that a decimal literal denotes, as Rust's integer `FromStr`
/// reads it: an optional `+` (or, when `signed`, `-`) and then one or more
/// ASCII digits, with nothing else around them. The range of the target type
/// is checked separately.
pub open spec fn decimal_int(s: Seq<char>, signed: bool) -> Option<int> {
    if s.len() > 0 && s[0] == '+' {
        if all_digits(s.drop_first()) {
            Some(digits_value(s.drop_first()))
        } else {
            None
        }
    } else if signed && s.len() > 0 && s[0] == '-' {
        if all_digits(s.drop_first()) {
            Some(-digits_value(s.drop_first()))
        } else {
            None
        }
    } else if all_digits(s) {
        Some(digits_value(s))
    } else {
        None
    }
}

/// `s.parse::<i32>()` as an option.
pub open spec fn parse_i32_spec(s: Seq<char>) -> Option<i32> {
    match decimal_int(s, true) {
        Some(v) => if i32::MIN <= v <= i32::MAX {
            Some(v as i32)
        } else {
            None
        },
        None => None,
    }
}

/// `s.parse::<u32>()` as an option.
pub open spec fn parse_u32_spec(s: Seq<char>) -> Option<u32> {
    match decimal_int(s, false) {
        Some(v) => if 0 <= v <= u32::MAX {
            Some(v as u32)
        } else {
            None
        },
        None => None,
    }
}

/// `<i32 as FromStr>::from_str`: succeeds exactly on an optional sign and
/// one or more ASCII digits whose value fits in `i32`, and gives that value.
#[verifier::external_body]
pub(crate) fn parse_i32(s: &str) -> (r: Option<i32>)
    ensures
        r == parse_i32_spec(s@),
{
    s.parse::<i32>().ok()
}

/// `<u32 as FromStr>::from_str`: succeeds exactly on an optional `+` and
/// one or more ASCII digits whose value fits in `u32`, and gives that value.
#[verifier::external_body]
pub(crate) fn parse_u32(s: &str) -> (r: Option<u32>)
    ensures
        r == parse_u32_spec(s@),
{
    s.parse::<u32>().ok()
}

pub open spec fn digit_char(d: int) -> char {
    (('0' as int) + d) as char
}

/// Decimal digits of a non-negative integer, without leading zeros.
pub open spec fn nat_digits(n: nat) -> Seq<char>
    decreases n,
{
    if n < 10 {
        seq![digit_char(n as int)]
    } else {
        nat_digits(n / 10).push(digit_char((n % 10) as int))
    }
}

/// How an integer is printed by `Display`: its decimal digits, after a `-`
/// when it is negative.
pub open spec fn decimal(n: int) -> Seq<char> {
    if n < 0 {
        seq!['-'] + nat_digits((-n) as nat)
    } else {
        nat_digits(n as nat)
    }
}

/// `<i64 as Display>::fmt` through `to_string`: the decimal form of `n`.
#[verifier::external_body]
pub(crate) fn int_to_string(n: i64) -> (r: String)
    ensures
        r@ == decimal(n as int),
{
    n.to_string()
}

/// `<usize as Display>::fmt` through `to_string`: the decimal form of `n`.
#[verifier::external_body]
pub(crate) fn usize_to_string(n: usize) -> (r: String)
    ensures
        r@ == decimal(n as int),
{
    n.to_string()
}

// ---------------------------------------------------------------------------
// String building
// ---------------------------------------------------------------------------

pub fn str2(a: &str, b: &str) -> (r: String)
    ensures
        r@ == a@ + b@,
{
    let mut r = a.to_owned();
    r.append(b);
    r
}

pub fn str3(a: &str, b: &str, c: &str) -> (r: String)
    ensures
        r@ == a@ + b@ + c@,
{
    let mut r = a.to_owned();
    r.append(b);
    r.append(c);
    r
}

pub fn str4(a: &str, b: &str, c: &str, d: &str) -> (r: String)
    ensures
        r@ == a@ + b@ + c@ + d@,
{
    let mut r = a.to_owned();
    r.append(b);
    r.append(c);
    r.append(d);
    r
}

pub fn str5(a: &str, b: &str, c: &str, d: &str, e: &str) -> (r: String)
    ensures
        r@ == a@ + b@ + c@ + d@ + e@,
{
    let mut r = a.to_owned();
    r.append(b);
    r.append(c);
    r.append(d);
    r.append(e);
    r
}

/// Join strings with a separator.
pub open spec fn join(parts: Seq<Seq<char>>, sep: Seq<char>) -> Seq<char>
    decreases parts.len(),
{
    if parts.len() == 0 {
        Seq::empty()
    } else if parts.len() == 1 {
        parts[0]
    } else {
        join(parts.drop_last(), sep) + sep + parts.last()
    }
}

pub open spec fn views(v: Seq<String>) -> Seq<Seq<char>> {
    v.map_values(|s: String| s@)
}

/// `[String]::join`.
pub fn join_strings(parts: &Vec<String>, sep: &str) -> (r: String)
    ensures
        r@ == join(views(parts@), sep@),
{
    let mut r = String::new();
    let ghost vs = views(parts@);
    let mut i: usize = 0;
    while i < parts.len()
        invariant
            i <= parts@.len(),
            vs == views(parts@),
            r@ == join(vs.take(i as int), sep@),
        decreases parts@.len() - i,
    {
        proof {
            assert(vs.take(i + 1).drop_last() =~= vs.take(i as int));
        }
        if i > 0 {
            r.append(sep);
        } else {
            assert(r@ =~= Seq::<char>::empty());
        }
        r.append(parts[i].as_str());
        proof {
            assert(vs.take(i + 1).last() == parts@[i as int]@);
            if i == 0 {
                assert(r@ =~= vs.take(1)[0]);
            }
        }
        i = i + 1;
    }
    proof {
        assert(vs.take(parts@.len() as int) =~= vs);
    }
    r
}

} // verus!

verus! {

/// A piece of a piece is a piece of the whole.
pub broadcast proof fn lemma_subrange_of_subrange(s: Seq<char>, lo: int, hi: int, x: int, y: int)
    requires
        0 <= lo <= hi <= s.len(),
        0 <= x <= y <= hi - lo,
    ensures
        #[trigger] s.subrange(lo, hi).subrange(x, y) == s.subrange(lo + x, lo + y),
{
    assert(s.subrange(lo, hi).subrange(x, y) =~= s.subrange(lo + x, lo + y));
}

} // verus!

verus! {

/// Whether two strings are equal.
pub fn str_eq(a: &str, b: &str) -> (r: bool)
    ensures
        r == (a@ == b@),
{
    let n = a.unicode_len();
    if n != b.unicode_len() {
        return false;
    }
    let mut k: usize = 0;
    while k < n
        invariant
            n == a@.len(),
            n == b@.len(),
            k <= n,
            forall|m: int| 0 <= m < k ==> a@[m] == b@[m],
        decreases n - k,
    {
        if a.get_char(k) != b.get_char(k) {
            return false;
        }
        k = k + 1;
    }
    assert(a@ =~= b@);
    true
}

} // verus!
