//! Decimal numbers read from model output: signed 32-bit integers, and
//! scores held as fixed-point millionths.
use vstd::prelude::*;

verus! {

/// Whether `c` is an ASCII decimal digit.
pub open spec fn is_digit(c: char) -> bool {
    '0' <= c && c <= '9'
}

/// Whether every character of `s` is an ASCII decimal digit.
pub open spec fn all_digits(s: Seq<char>) -> bool {
    forall|i: int| 0 <= i < s.len() ==> is_digit(#[trigger] s[i])
}

/// The value of the decimal digits `s`, most significant first.
pub open spec fn digits_value(s: Seq<char>) -> int
    decreases s.len(),
{
    if s.len() == 0 {
        0
    } else {
        digits_value(s.drop_last()) * 10 + (s.last() as int - '0' as int)
    }
}

/// The integer that `s` spells: an optional `+` or `-`, then one or more digits.
pub open spec fn int_value(s: Seq<char>) -> Option<int> {
    if s.len() > 0 && (s[0] == '+' || s[0] == '-') {
        let d = s.drop_first();
        if d.len() > 0 && all_digits(d) {
            Some(if s[0] == '-' { -digits_value(d) } else { digits_value(d) })
        } else {
            None
        }
    } else if s.len() > 0 && all_digits(s) {
        Some(digits_value(s))
    } else {
        None
    }
}

/// What `str::parse::<i32>` accepts: an integer in the range of `i32`.
pub open spec fn i32_value(s: Seq<char>) -> Option<i32> {
    match int_value(s) {
        Some(v) => if i32::MIN <= v <= i32::MAX {
            Some(v as i32)
        } else {
            None
        },
        None => None,
    }
}

proof fn lemma_digits_nonneg(s: Seq<char>)
    requires
        all_digits(s),
    ensures
        digits_value(s) >= 0,
    decreases s.len(),
{
    if s.len() > 0 {
        assert(all_digits(s.drop_last())) by {
            assert forall|i: int| 0 <= i < s.drop_last().len() implies is_digit(
                #[trigger] s.drop_last()[i],
            ) by {
                assert(s.drop_last()[i] == s[i]);
            }
        }
        lemma_digits_nonneg(s.drop_last());
        assert(is_digit(s[s.len() - 1]));
    }
}

proof fn lemma_digits_prefix_le(s: Seq<char>, k: int)
    requires
        all_digits(s),
        0 <= k <= s.len(),
    ensures
        digits_value(s.take(k)) <= digits_value(s),
    decreases s.len() - k,
{
    if k < s.len() {
        lemma_digits_prefix_le(s, k + 1);
        let t = s.take(k + 1);
        assert(t.drop_last() =~= s.take(k));
        assert(all_digits(s.take(k))) by {
            assert forall|i: int| 0 <= i < s.take(k).len() implies is_digit(
                #[trigger] s.take(k)[i],
            ) by {
                assert(s.take(k)[i] == s[i]);
            }
        }
        lemma_digits_nonneg(s.take(k));
        assert(is_digit(s[k]));
        assert(t.last() == s[k]);
    } else {
        assert(s.take(k) =~= s);
    }
}

/// The value of the digits `s`, or `None` where it exceeds `limit`.
fn digits_upto(s: &Vec<char>, limit: i64) -> (r: Option<i64>)
    requires
        all_digits(s@),
        0 <= limit < 0x0800_0000_0000_0000,
    ensures
        r is Some <==> digits_value(s@) <= limit,
        r is Some ==> r->0 == digits_value(s@),
{
    let mut acc: i64 = 0;
    let mut i: usize = 0;
    while i < s.len()
        invariant
            all_digits(s@),
            0 <= limit < 0x0800_0000_0000_0000,
            i <= s.len(),
            0 <= acc <= limit,
            acc == digits_value(s@.take(i as int)),
        decreases s.len() - i,
    {
        proof {
            let t = s@.take(i + 1);
            assert(t.drop_last() =~= s@.take(i as int));
            assert(t.last() == s@[i as int]);
            assert(is_digit(s@[i as int]));
            assert(acc * 10 <= limit * 10) by (nonlinear_arith)
                requires acc <= limit;
        }
        acc = acc * 10 + (s[i] as u32 - '0' as u32) as i64;
        if acc > limit {
            proof {
                lemma_digits_prefix_le(s@, i + 1);
            }
            return None;
        }
        i = i + 1;
    }
    proof {
        assert(s@.take(i as int) =~= s@);
    }
    Some(acc)
}

fn is_digit_char(c: char) -> (r: bool)
    ensures
        r == is_digit(c),
{
    '0' <= c && c <= '9'
}

fn all_digits_in(s: &Vec<char>, lo: usize) -> (r: bool)
    requires
        lo <= s.len(),
    ensures
        r == all_digits(s@.skip(lo as int)),
{
    let mut i: usize = lo;
    while i < s.len()
        invariant
            lo <= i <= s.len(),
            forall|k: int| lo <= k < i ==> is_digit(#[trigger] s@[k]),
        decreases s.len() - i,
    {
        if !is_digit_char(s[i]) {
            proof {
                assert(s@.skip(lo as int)[i - lo] == s@[i as int]);
            }
            return false;
        }
        i = i + 1;
    }
    proof {
        assert forall|k: int| 0 <= k < s@.skip(lo as int).len() implies is_digit(
            #[trigger] s@.skip(lo as int)[k],
        ) by {
            assert(s@.skip(lo as int)[k] == s@[lo + k]);
        }
    }
    true
}

fn copy_from(s: &Vec<char>, lo: usize, hi: usize) -> (r: Vec<char>)
    requires
        lo <= hi <= s.len(),
    ensures
        r@ == s@.subrange(lo as int, hi as int),
{
    let mut out: Vec<char> = Vec::new();
    let mut k: usize = lo;
    while k < hi
        invariant
            lo <= k <= hi <= s.len(),
            out@ == s@.subrange(lo as int, k as int),
        decreases hi - k,
    {
        out.push(s[k]);
        proof {
            assert(out@ =~= s@.subrange(lo as int, k + 1));
        }
        k = k + 1;
    }
    out
}

/// Reads `s` as `str::parse::<i32>` does.
pub fn parse_i32(s: &Vec<char>) -> (r: Option<i32>)
    ensures
        r == i32_value(s@),
{
    if s.len() == 0 {
        return None;
    }
    let signed = s[0] == '+' || s[0] == '-';
    let lo: usize = if signed { 1 } else { 0 };
    if lo >= s.len() || !all_digits_in(s, lo) {
        proof {
            if signed {
                assert(s@.skip(1) =~= s@.drop_first());
            } else {
                assert(s@.skip(0) =~= s@);
            }
        }
        return None;
    }
    let d = copy_from(s, lo, s.len());
    proof {
        assert(d@ =~= s@.skip(lo as int));
        if signed {
            assert(s@.skip(1) =~= s@.drop_first());
        } else {
            assert(s@.skip(0) =~= s@);
        }
        lemma_digits_nonneg(d@);
    }
    match digits_upto(&d, 0x8000_0000) {
        None => None,
        Some(v) => {
            if s[0] == '-' {
                Some((-v) as i32)
            } else if v <= 0x7fff_ffff {
                Some(v as i32)
            } else {
                None
            }
        },
    }
}

/// Number of millionths in one whole unit of a score.
pub const SCORE_SCALE: i64 = 1_000_000;

/// The largest whole part a score may have.
pub const SCORE_WHOLE_LIMIT: i64 = 1_000_000_000_000;

/// The first six fractional digits of `f`, padded with zeros.
pub open spec fn six_digits(f: Seq<char>) -> Seq<char> {
    Seq::new(6, |i: int| if i < f.len() { f[i] } else { '0' })
}

/// The index of the first `.` in `s`, or its length.
pub open spec fn dot_index(s: Seq<char>) -> int
    decreases s.len(),
{
    if s.len() == 0 || s[0] == '.' {
        0
    } else {
        1 + dot_index(s.drop_first())
    }
}

/// The unsigned decimal `s` (digits, optionally a point and more digits, at
/// least one digit in all) in millionths: digits past the sixth after the
/// point are dropped, and a whole part over `SCORE_WHOLE_LIMIT` is refused.
pub open spec fn unsigned_micros(s: Seq<char>) -> Option<int> {
    let d = dot_index(s);
    let whole = s.take(d);
    let frac = if d < s.len() { s.skip(d + 1) } else { Seq::empty() };
    if whole.len() + frac.len() > 0 && all_digits(whole) && all_digits(frac) && digits_value(whole)
        <= SCORE_WHOLE_LIMIT {
        Some(digits_value(whole) * SCORE_SCALE + digits_value(six_digits(frac)))
    } else {
        None
    }
}

/// A score written as a decimal with an optional sign, in millionths.
pub open spec fn score_micros(s: Seq<char>) -> Option<int> {
    if s.len() > 0 && s[0] == '-' {
        match unsigned_micros(s.drop_first()) {
            Some(v) => Some(-v),
            None => None,
        }
    } else if s.len() > 0 && s[0] == '+' {
        unsigned_micros(s.drop_first())
    } else {
        unsigned_micros(s)
    }
}

proof fn lemma_dot_index(s: Seq<char>)
    ensures
        0 <= dot_index(s) <= s.len(),
        dot_index(s) < s.len() ==> s[dot_index(s)] == '.',
        forall|k: int| 0 <= k < dot_index(s) ==> s[k] != '.',
    decreases s.len(),
{
    if s.len() > 0 && s[0] != '.' {
        lemma_dot_index(s.drop_first());
        assert forall|k: int| 0 <= k < dot_index(s) implies s[k] != '.' by {
            if k > 0 {
                assert(s.drop_first()[k - 1] == s[k]);
            }
        }
    }
}

proof fn lemma_dot_index_of(s: Seq<char>, d: int)
    requires
        0 <= d <= s.len(),
        d < s.len() ==> s[d] == '.',
        forall|k: int| 0 <= k < d ==> s[k] != '.',
    ensures
        dot_index(s) == d,
{
    lemma_dot_index(s);
    if dot_index(s) < d {
        assert(s[dot_index(s)] == '.');
    }
    if d < dot_index(s) {
        assert(s[d] != '.');
    }
}

fn six_digits_value(s: &Vec<char>, lo: usize) -> (r: i64)
    requires
        lo <= s.len(),
        all_digits(s@.skip(lo as int)),
    ensures
        r == digits_value(six_digits(s@.skip(lo as int))),
        0 <= r < SCORE_SCALE,
{
    let ghost f = s@.skip(lo as int);
    let ghost six = six_digits(f);
    let mut acc: i64 = 0;
    let mut j: usize = 0;
    while j < 6
        invariant
            lo <= s.len(),
            f == s@.skip(lo as int),
            six == six_digits(f),
            all_digits(f),
            j <= 6,
            acc == digits_value(six.take(j as int)),
            0 <= acc < pow10(j as nat),
        decreases 6 - j,
    {
        let c = if j < s.len() - lo {
            s[lo + j]
        } else {
            '0'
        };
        proof {
            let t = six.take(j + 1);
            assert(t.drop_last() =~= six.take(j as int));
            assert(t.last() == six[j as int]);
            if j < f.len() {
                assert(f[j as int] == s@[lo + j]);
                assert(is_digit(f[j as int]));
            }
            assert(c == six[j as int]);
            assert(pow10((j + 1) as nat) == 10 * pow10(j as nat));
            reveal_with_fuel(pow10, 6);
            assert(pow10(j as nat) <= 100_000);
        }
        acc = acc * 10 + (c as u32 - '0' as u32) as i64;
        j = j + 1;
    }
    proof {
        assert(six.take(6) =~= six);
        reveal_with_fuel(pow10, 7);
        assert(pow10(6) == 1_000_000);
    }
    acc
}

/// `10` to the power `n`.
pub open spec fn pow10(n: nat) -> int
    decreases n,
{
    if n == 0 {
        1
    } else {
        10 * pow10((n - 1) as nat)
    }
}

fn unsigned_score(s: &Vec<char>, lo: usize) -> (r: Option<i64>)
    requires
        lo <= s.len(),
    ensures
        r is Some <==> unsigned_micros(s@.skip(lo as int)) is Some,
        r is Some ==> r->0 == unsigned_micros(s@.skip(lo as int))->0,
        r is Some ==> 0 <= r->0 <= SCORE_WHOLE_LIMIT * SCORE_SCALE + SCORE_SCALE,
{
    let ghost b = s@.skip(lo as int);
    let mut d: usize = lo;
    while d < s.len() && s[d] != '.'
        invariant
            lo <= d <= s.len(),
            b == s@.skip(lo as int),
            forall|k: int| lo <= k < d ==> s@[k] != '.',
        decreases s.len() - d,
    {
        d = d + 1;
    }
    proof {
        assert forall|k: int| 0 <= k < d - lo implies b[k] != '.' by {
            assert(b[k] == s@[lo + k]);
        }
        if d < s.len() {
            assert(b[d - lo] == s@[d as int]);
        }
        lemma_dot_index_of(b, d - lo);
    }
    let whole = copy_from(s, lo, d);
    let frac_lo: usize = if d < s.len() { d + 1 } else { s.len() };
    proof {
        assert(whole@ =~= b.take(d - lo));
        if d < s.len() {
            assert(s@.skip(frac_lo as int) =~= b.skip(d - lo + 1));
        } else {
            assert(s@.skip(frac_lo as int) =~= Seq::<char>::empty());
        }
        assert(all_digits(whole@) == all_digits(s@.subrange(lo as int, d as int)));
    }
    if whole.len() + (s.len() - frac_lo) == 0 {
        return None;
    }
    if !all_digits_in(&whole, 0) {
        proof {
            assert(whole@.skip(0) =~= whole@);
        }
        return None;
    }
    proof {
        assert(whole@.skip(0) =~= whole@);
    }
    if !all_digits_in(s, frac_lo) {
        return None;
    }
    match digits_upto(&whole, SCORE_WHOLE_LIMIT) {
        None => None,
        Some(w) => {
            let f = six_digits_value(s, frac_lo);
            proof {
                lemma_digits_nonneg(whole@);
                assert(0 <= w * SCORE_SCALE <= SCORE_WHOLE_LIMIT * SCORE_SCALE) by (nonlinear_arith)
                    requires 0 <= w <= SCORE_WHOLE_LIMIT, SCORE_SCALE == 1_000_000;
            }
            Some(w * SCORE_SCALE + f)
        },
    }
}

/// Reads a score as a decimal with an optional sign, in millionths.
pub fn parse_score(s: &Vec<char>) -> (r: Option<i64>)
    ensures
        r is Some <==> score_micros(s@) is Some,
        r is Some ==> r->0 == score_micros(s@)->0,
{
    if s.len() > 0 && (s[0] == '-' || s[0] == '+') {
        proof {
            assert(s@.skip(1) =~= s@.drop_first());
        }
        match unsigned_score(s, 1) {
            Some(v) => if s[0] == '-' {
                Some(-v)
            } else {
                Some(v)
            },
            None => None,
        }
    } else {
        proof {
            assert(s@.skip(0) =~= s@);
        }
        unsigned_score(s, 0)
    }
}

} // verus!
