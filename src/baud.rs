//! Baud-rate settings: a plain integer, or a decimal number of megabaud
//! written with an `m` after it (`1.5m` is 1_500_000).
use vstd::prelude::*;
use vstd::string::*;

verus! {

/// The characters with the Unicode `White_Space` property.
pub open spec fn is_white_space(c: char) -> bool {
    ||| '\u{9}' <= c && c <= '\u{d}'
    ||| c == ' ' || c == '\u{85}' || c == '\u{a0}' || c == '\u{1680}'
    ||| '\u{2000}' <= c && c <= '\u{200a}'
    ||| c == '\u{2028}' || c == '\u{2029}' || c == '\u{202f}' || c == '\u{205f}' || c == '\u{3000}'
}

/// The text without its leading white space.
pub open spec fn trim_start(s: Seq<char>) -> Seq<char>
    decreases s.len(),
{
    if s.len() > 0 && is_white_space(s[0]) {
        trim_start(s.drop_first())
    } else {
        s
    }
}

/// The text without its trailing white space.
pub open spec fn trim_end(s: Seq<char>) -> Seq<char>
    decreases s.len(),
{
    if s.len() > 0 && is_white_space(s.last()) {
        trim_end(s.drop_last())
    } else {
        s
    }
}

/// The text without its leading and trailing white space.
pub open spec fn trim_text(s: Seq<char>) -> Seq<char> {
    trim_end(trim_start(s))
}

/// What `str::to_lowercase` makes of a text.
pub uninterp spec fn lower_of(s: Seq<char>) -> Seq<char>;

/// Whether a character has the Unicode `White_Space` property.
pub fn is_white_space_char(c: char) -> (r: bool)
    ensures
        r == is_white_space(c),
{
    ('\u{9}' <= c && c <= '\u{d}') || c == ' ' || c == '\u{85}' || c == '\u{a0}' || c == '\u{1680}'
        || ('\u{2000}' <= c && c <= '\u{200a}') || c == '\u{2028}' || c == '\u{2029}' || c == '\u{202f}'
        || c == '\u{205f}' || c == '\u{3000}'
}

/// The text without its leading and trailing white space.
pub fn trimmed(s: &str) -> (r: &str)
    ensures
        r@ == trim_text(s@),
{
    let n = s.unicode_len();
    let mut i: usize = 0;
    assert(s@.skip(0) =~= s@);
    while i < n && is_white_space_char(s.get_char(i))
        invariant
            i <= n,
            n == s@.len(),
            trim_start(s@) == trim_start(s@.skip(i as int)),
        decreases n - i,
    {
        assert(s@.skip(i as int).drop_first() =~= s@.skip(i + 1));
        i = i + 1;
    }
    assert(s@.skip(i as int) =~= s@.subrange(i as int, n as int));
    let mut j: usize = n;
    while j > i && is_white_space_char(s.get_char(j - 1))
        invariant
            i <= j <= n,
            n == s@.len(),
            trim_end(s@.subrange(i as int, n as int)) == trim_end(s@.subrange(i as int, j as int)),
        decreases j,
    {
        assert(s@.subrange(i as int, j as int).drop_last() =~= s@.subrange(i as int, j - 1));
        j = j - 1;
    }
    s.substring_char(i, j)
}

/// The lower-case form of an ASCII character: `A` to `Z` become `a` to `z`.
pub open spec fn ascii_lower(c: char) -> char {
    if 'A' <= c && c <= 'Z' {
        ((c as u32) + 32) as char
    } else {
        c
    }
}

/// Relies on `str::to_lowercase`: the lower-case form of the text, which on
/// ASCII text lowers `A` to `Z` and keeps every other character.
#[verifier::external_body]
pub(crate) fn lowercase(s: &str) -> (r: String)
    ensures
        r@ == lower_of(s@),
        (forall|i: int| 0 <= i < s@.len() ==> (#[trigger] s@[i] as u32) < 128) ==> r@ == s@.map_values(
            |c: char| ascii_lower(c),
        ),
{
    s.to_lowercase()
}

/// One past the largest `u32`: where running values stop growing.
pub const CAP: u64 = 4294967296;

pub open spec fn is_digit(c: char) -> bool {
    '0' <= c && c <= '9'
}

pub open spec fn all_digits(s: Seq<char>) -> bool {
    forall|i: int| 0 <= i < s.len() ==> is_digit(#[trigger] s[i])
}

/// The number that a run of decimal digits denotes.
pub open spec fn digits_value(s: Seq<char>) -> nat
    decreases s.len(),
{
    if s.len() == 0 {
        0
    } else {
        digits_value(s.drop_last()) * 10 + (s.last() as int - 48) as nat
    }
}

/// The text without one leading `+`.
pub open spec fn without_plus(s: Seq<char>) -> Seq<char> {
    if s.len() > 0 && s[0] == '+' {
        s.drop_first()
    } else {
        s
    }
}

/// The text without all of its trailing `m`s.
pub open spec fn strip_m(s: Seq<char>) -> Seq<char>
    decreases s.len(),
{
    if s.len() > 0 && s.last() == 'm' {
        strip_m(s.drop_last())
    } else {
        s
    }
}

pub open spec fn saturate(x: nat) -> u32 {
    if x > u32::MAX {
        u32::MAX
    } else {
        x as u32
    }
}

/// The first six fraction digits, zeros filling in where there are fewer.
pub open spec fn micro_digits(f: Seq<char>) -> Seq<char> {
    if f.len() >= 6 {
        f.take(6)
    } else {
        f + Seq::new((6 - f.len()) as nat, |i: int| '0')
    }
}

/// `int_part.frac` millions, rounded down, saturated to `u32`.
pub open spec fn scaled(int_part: Seq<char>, frac: Seq<char>) -> u32 {
    saturate(digits_value(int_part) * 1_000_000 + digits_value(micro_digits(frac)))
}

/// `p` is the decimal point of `d`: digits before it and after it.
pub open spec fn is_point_at(d: Seq<char>, p: int) -> bool {
    0 <= p < d.len() && d[p] == '.' && all_digits(d.take(p)) && all_digits(d.skip(p + 1))
}

/// A plain integer baud rate, an optional `+` before its digits.
pub open spec fn plain_baud(s: Seq<char>) -> Option<u32> {
    let d = without_plus(s);
    if d.len() > 0 && all_digits(d) && digits_value(d) <= u32::MAX {
        Some(digits_value(d) as u32)
    } else {
        None
    }
}

/// A decimal number of megabaud (the text before its `m`), with at least
/// one digit and at most one decimal point.
pub open spec fn mega_baud(body: Seq<char>) -> Option<u32> {
    let d = without_plus(body);
    if d.len() > 0 && all_digits(d) {
        Some(scaled(d, Seq::empty()))
    } else if d.len() > 1 && exists|p: int| is_point_at(d, p) {
        let p = choose|p: int| is_point_at(d, p);
        Some(scaled(d.take(p), d.skip(p + 1)))
    } else {
        None
    }
}

/// The baud rate that a trimmed, lower-case setting denotes, if any.
pub open spec fn baud_value(t: Seq<char>) -> Option<u32> {
    if t.len() > 0 && t.last() == 'm' {
        mega_baud(strip_m(t))
    } else {
        plain_baud(t)
    }
}

fn chars_of(s: &str) -> (v: Vec<char>)
    ensures
        v@ == s@,
{
    let n = s.unicode_len();
    let mut v: Vec<char> = Vec::new();
    let mut i: usize = 0;
    while i < n
        invariant
            i <= n,
            n == s@.len(),
            v@ == s@.subrange(0, i as int),
        decreases n - i,
    {
        v.push(s.get_char(i));
        i = i + 1;
        assert(v@ =~= s@.subrange(0, i as int));
    }
    assert(v@ =~= s@);
    v
}

fn digit_at(v: &Vec<char>, i: usize) -> (r: u64)
    requires
        i < v.len(),
        is_digit(v@[i as int]),
    ensures
        r == v@[i as int] as int - 48,
        r < 10,
{
    (v[i] as u32 - 48) as u64
}

/// The first index in `from..to` that holds no digit, or `to`.
fn first_non_digit(v: &Vec<char>, from: usize, to: usize) -> (p: usize)
    requires
        from <= to <= v.len(),
    ensures
        from <= p <= to,
        all_digits(v@.subrange(from as int, p as int)),
        p < to ==> !is_digit(v@[p as int]),
{
    let mut p = from;
    while p < to && '0' <= v[p] && v[p] <= '9'
        invariant
            from <= p <= to <= v.len(),
            all_digits(v@.subrange(from as int, p as int)),
        decreases to - p,
    {
        p = p + 1;
        assert forall|i: int| 0 <= i < p - from implies is_digit(#[trigger] v@.subrange(from as int, p as int)[i]) by {
            if i < p - 1 - from {
                assert(v@.subrange(from as int, p as int)[i] == v@.subrange(from as int, p - 1)[i]);
            }
        }
    }
    p
}

fn all_digits_in(v: &Vec<char>, from: usize, to: usize) -> (r: bool)
    requires
        from <= to <= v.len(),
    ensures
        r == all_digits(v@.subrange(from as int, to as int)),
{
    let p = first_non_digit(v, from, to);
    if p < to {
        assert(v@.subrange(from as int, to as int)[p - from] == v@[p as int]);
    }
    p == to
}

/// The value of the digits in `from..to`, capped at `CAP`.
fn value_capped(v: &Vec<char>, from: usize, to: usize) -> (r: u64)
    requires
        from <= to <= v.len(),
        all_digits(v@.subrange(from as int, to as int)),
    ensures
        r == if digits_value(v@.subrange(from as int, to as int)) >= CAP {
            CAP as nat
        } else {
            digits_value(v@.subrange(from as int, to as int))
        },
{
    let mut acc: u64 = 0;
    let mut i = from;
    assert(v@.subrange(from as int, from as int) =~= Seq::<char>::empty());
    while i < to
        invariant
            from <= i <= to <= v.len(),
            all_digits(v@.subrange(from as int, to as int)),
            acc <= CAP,
            acc == if digits_value(v@.subrange(from as int, i as int)) >= CAP {
                CAP as nat
            } else {
                digits_value(v@.subrange(from as int, i as int))
            },
        decreases to - i,
    {
        let ghost before = digits_value(v@.subrange(from as int, i as int));
        assert(v@.subrange(from as int, to as int)[i - from] == v@[i as int]);
        let d = digit_at(v, i);
        acc = acc * 10 + d;
        if acc > CAP {
            acc = CAP;
        }
        i = i + 1;
        let ghost next = v@.subrange(from as int, i as int);
        assert(next.drop_last() =~= v@.subrange(from as int, i - 1));
        assert(digits_value(next) == before * 10 + d);
        assert(before >= CAP ==> before * 10 + d >= CAP) by (nonlinear_arith);
    }
    acc
}

/// The value of the first six fraction digits in `from..to`, zeros filling in.
fn micro_value(v: &Vec<char>, from: usize, to: usize) -> (r: u64)
    requires
        from <= to <= v.len(),
        all_digits(v@.subrange(from as int, to as int)),
    ensures
        r == digits_value(micro_digits(v@.subrange(from as int, to as int))),
        r < 1_000_000,
{
    let ghost f = v@.subrange(from as int, to as int);
    let ghost m = micro_digits(f);
    assert(m.len() == 6);
    let mut acc: u64 = 0;
    let mut k: usize = 0;
    let mut bound: u64 = 1;
    assert(m.take(0) =~= Seq::<char>::empty());
    while k < 6
        invariant
            k <= 6,
            from <= to <= v.len(),
            f == v@.subrange(from as int, to as int),
            m == micro_digits(f),
            m.len() == 6,
            all_digits(f),
            acc == digits_value(m.take(k as int)),
            acc < bound,
            bound == if k == 0 { 1u64 } else if k == 1 { 10u64 } else if k == 2 { 100u64 } else if k == 3 { 1000u64 } else if k == 4 { 10_000u64 } else if k == 5 { 100_000u64 } else { 1_000_000u64 },
        decreases 6 - k,
    {
        let d: u64 = if k < to - from {
            assert(f[k as int] == v@[from + k]);
            digit_at(v, from + k)
        } else {
            0
        };
        assert(m[k as int] as int - 48 == d);
        assert(m.take(k + 1).drop_last() =~= m.take(k as int));
        assert(acc * 10 + d < bound * 10) by (nonlinear_arith)
            requires acc < bound, d < 10;
        acc = acc * 10 + d;
        bound = bound * 10;
        k = k + 1;
    }
    assert(m.take(6) =~= m);
    acc
}

fn mega_value(v: &Vec<char>, start: usize, end: usize) -> (r: Option<u32>)
    requires
        start <= end <= v.len(),
    ensures
        r == mega_baud(v@.subrange(start as int, end as int)),
{
    let ghost body = v@.subrange(start as int, end as int);
    let s = if start < end && v[start] == '+' { start + 1 } else { start };
    let ghost d = v@.subrange(s as int, end as int);
    assert(without_plus(body) =~= d);
    let p = first_non_digit(v, s, end);
    if p == end {
        assert(d =~= v@.subrange(s as int, p as int));
        if s < end {
            let ip = value_capped(v, s, end);
            assert(micro_digits(Seq::<char>::empty()) =~= seq!['0', '0', '0', '0', '0', '0']);
            assert(digits_value(micro_digits(Seq::<char>::empty())) == 0) by {
                reveal_with_fuel(digits_value, 7);
            }
            assert(ip * 1_000_000 <= CAP * 1_000_000) by (nonlinear_arith)
                requires ip <= CAP;
            assert(digits_value(d) >= CAP ==> digits_value(d) * 1_000_000 > u32::MAX) by (nonlinear_arith);
            let x = ip * 1_000_000;
            if x > 4294967295u64 {
                Some(4294967295u32)
            } else {
                Some(x as u32)
            }
        } else {
            None
        }
    } else {
        let ghost q = p - s;
        assert(d[q] == v@[p as int]);
        assert(d.take(q) =~= v@.subrange(s as int, p as int));
        assert(!is_digit(d[q]));
        assert forall|k: int| is_point_at(d, k) implies k == q by {
            if k < q {
                assert(d.take(q)[k] == d[k]);
            }
            if q < k {
                assert(d.take(k)[q] == d[q]);
            }
        }
        if v[p] == '.' && all_digits_in(v, p + 1, end) && end - s > 1 {
            assert(d.skip(q + 1) =~= v@.subrange(p + 1, end as int));
            assert(is_point_at(d, q));
            let ip = value_capped(v, s, p);
            let fp = micro_value(v, p + 1, end);
            assert(ip * 1_000_000 <= CAP * 1_000_000) by (nonlinear_arith)
                requires ip <= CAP;
            let ghost iv = digits_value(d.take(q));
            assert(iv >= CAP ==> iv * 1_000_000 > u32::MAX) by (nonlinear_arith);
            let x = ip * 1_000_000 + fp;
            if x > 4294967295u64 {
                Some(4294967295u32)
            } else {
                Some(x as u32)
            }
        } else {
            if v[p] == '.' && end - s > 1 {
                assert(d.skip(q + 1) =~= v@.subrange(p + 1, end as int));
            }
            assert(!all_digits(d)) by {
                assert(!is_digit(d[q]));
            }
            None
        }
    }
}

/// The baud rate that an already trimmed, lower-case setting denotes, if any.
pub fn parse_normalized_baud(t: &str) -> (r: Option<u32>)
    ensures
        r == baud_value(t@),
{
    let v = chars_of(t);
    let n = v.len();
    if n > 0 && v[n - 1] == 'm' {
        let mut end = n;
        assert(v@.subrange(0, n as int) =~= v@);
        while end > 0 && v[end - 1] == 'm'
            invariant
                end <= n == v.len(),
                strip_m(v@.subrange(0, end as int)) == strip_m(v@),
            decreases end,
        {
            assert(v@.subrange(0, end as int).drop_last() =~= v@.subrange(0, end - 1));
            end = end - 1;
        }
        mega_value(&v, 0, end)
    } else {
        let s: usize = if n > 0 && v[0] == '+' { 1 } else { 0 };
        assert(without_plus(v@) =~= v@.subrange(s as int, n as int));
        if s < n && all_digits_in(&v, s, n) {
            let x = value_capped(&v, s, n);
            if x <= 4294967295u64 {
                Some(x as u32)
            } else {
                None
            }
        } else {
            None
        }
    }
}

/// The error text for a setting that is no baud rate.
pub open spec fn invalid_baud_text(s: Seq<char>) -> Seq<char> {
    "Invalid baud rate format: "@ + s
}

/// Reads a baud-rate setting: surrounding white space is ignored and `M`
/// counts as `m`.
pub fn parse_baud_rate(baud_rate: &str) -> (r: Result<u32, String>)
    ensures
        match r {
            Ok(v) => baud_value(lower_of(trim_text(baud_rate@))) == Some(v),
            Err(e) => baud_value(lower_of(trim_text(baud_rate@))) is None && e@ == invalid_baud_text(baud_rate@),
        },
{
    let lowered = lowercase(trimmed(baud_rate));
    match parse_normalized_baud(lowered.as_str()) {
        Some(v) => Ok(v),
        None => {
            let mut e = String::from_str("Invalid baud rate format: ");
            e.append(baud_rate);
            Err(e)
        },
    }
}

} // verus!
