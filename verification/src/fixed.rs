//! Fixed-point coordinates: every real quantity of the plotter (window edges,
//! integration bounds, sampled values, areas) is a signed count of
//! micro-units, one millionth of a real unit.  The module also holds the
//! verified parser that turns a field's text buffer into such a count.

use vstd::prelude::*;

verus! {

/// Micro-units in one real unit.
pub const SCALE: i64 = 1_000_000;

/// Largest magnitude a committed coordinate may have, in micro-units
/// (one billion real units).
pub const MAX_COORD: i64 = 1_000_000_000_000_000;

/// Whether a micro-unit value lies in the representable coordinate range.
pub open spec fn in_coord_range(v: int) -> bool {
    -(MAX_COORD as int) <= v <= MAX_COORD as int
}

/// Saturation of a raw micro-unit value into the representable range.
pub open spec fn clamped(v: int) -> int {
    if v > MAX_COORD as int {
        MAX_COORD as int
    } else if v < -(MAX_COORD as int) {
        -(MAX_COORD as int)
    } else {
        v
    }
}

/// Saturate a raw micro-unit value into the representable coordinate range.
pub fn clamp_coord(v: i64) -> (r: i64)
    ensures
        r == clamped(v as int),
{
    if v > MAX_COORD {
        MAX_COORD
    } else if v < -MAX_COORD {
        -MAX_COORD
    } else {
        v
    }
}

pub open spec fn is_digit_char(c: char) -> bool {
    '0' <= c <= '9'
}

pub open spec fn digit_value(c: char) -> int {
    c as int - '0' as int
}

pub open spec fn all_digits(s: Seq<char>) -> bool {
    forall|i: int| 0 <= i < s.len() ==> is_digit_char(#[trigger] s[i])
}

/// Value of a digit string read as a decimal integer.
pub open spec fn digits_value(s: Seq<char>) -> int
    decreases s.len(),
{
    if s.len() == 0 {
        0
    } else {
        digits_value(s.drop_last()) * 10 + digit_value(s.last())
    }
}

pub open spec fn pow10(n: nat) -> int
    decreases n,
{
    if n == 0 {
        1
    } else {
        10 * pow10((n - 1) as nat)
    }
}

/// Micro-unit value of the digits that follow the decimal point: the first
/// six places count, later places are truncated.
pub open spec fn frac_micro(s: Seq<char>) -> int {
    if s.len() >= 6 {
        digits_value(s.take(6))
    } else {
        digits_value(s) * pow10((6 - s.len()) as nat)
    }
}

/// Index of the first `.` in `s`, or `s.len()` if there is none.
pub open spec fn dot_position(s: Seq<char>) -> int
    decreases s.len(),
{
    if s.len() == 0 {
        0
    } else if s[0] == '.' {
        0
    } else {
        1 + dot_position(s.drop_first())
    }
}

/// Shape of an unsigned fixed-point literal: digits, at most one point,
/// at least one digit in all.
pub open spec fn unsigned_ok(s: Seq<char>) -> bool {
    let d = dot_position(s);
    &&& all_digits(s.take(d))
    &&& if d == s.len() {
        s.len() > 0
    } else {
        all_digits(s.skip(d + 1)) && s.len() >= 2
    }
}

/// Micro-unit value of an unsigned fixed-point literal.
pub open spec fn unsigned_micro(s: Seq<char>) -> int {
    let d = dot_position(s);
    if d == s.len() {
        digits_value(s) * SCALE as int
    } else {
        digits_value(s.take(d)) * SCALE as int + frac_micro(s.skip(d + 1))
    }
}

pub open spec fn parse_unsigned_spec(s: Seq<char>) -> Option<int> {
    if unsigned_ok(s) {
        if unsigned_micro(s) <= MAX_COORD as int {
            Some(unsigned_micro(s))
        } else {
            None
        }
    } else {
        None
    }
}

/// What a numeric field's text denotes: an optional sign, then an unsigned
/// fixed-point literal whose magnitude fits the coordinate range.
pub open spec fn parse_fixed_spec(s: Seq<char>) -> Option<int> {
    if s.len() > 0 && (s[0] == '-' || s[0] == '+') {
        match parse_unsigned_spec(s.skip(1)) {
            Some(v) => if s[0] == '-' { Some(-v) } else { Some(v) },
            None => None,
        }
    } else {
        parse_unsigned_spec(s)
    }
}

proof fn lemma_digits_value_bound(s: Seq<char>)
    requires
        all_digits(s),
    ensures
        0 <= digits_value(s) < pow10(s.len()),
    decreases s.len(),
{
    if s.len() > 0 {
        assert(all_digits(s.drop_last()));
        lemma_digits_value_bound(s.drop_last());
        let p = pow10((s.len() - 1) as nat);
        assert(digits_value(s.drop_last()) * 10 <= (p - 1) * 10) by (nonlinear_arith)
            requires
                digits_value(s.drop_last()) <= p - 1,
        ;
    }
}

proof fn lemma_pow10_pos(n: nat)
    ensures
        pow10(n) >= 1,
    decreases n,
{
    if n > 0 {
        lemma_pow10_pos((n - 1) as nat);
    }
}

proof fn lemma_pow10_mono(a: nat, b: nat)
    requires
        a <= b,
    ensures
        pow10(a) <= pow10(b),
    decreases b,
{
    lemma_pow10_pos(a);
    if a < b {
        lemma_pow10_mono(a, (b - 1) as nat);
    }
}

proof fn lemma_pow10_add(a: nat, b: nat)
    ensures
        pow10(a + b) == pow10(a) * pow10(b),
    decreases a,
{
    if a == 0 {
        assert(pow10(0 + b) == 1 * pow10(b));
    } else {
        lemma_pow10_add((a - 1) as nat, b);
        assert(pow10(a + b) == 10 * pow10(((a + b) - 1) as nat));
        assert(10 * (pow10((a - 1) as nat) * pow10(b)) == (10 * pow10((a - 1) as nat)) * pow10(b))
            by (nonlinear_arith);
    }
}

/// Appending a digit multiplies the value by ten and adds the digit.
proof fn lemma_digits_value_push(s: Seq<char>, c: char)
    ensures
        digits_value(s.push(c)) == digits_value(s) * 10 + digit_value(c),
{
    assert(s.push(c).drop_last() =~= s);
    assert(s.push(c).last() == c);
}

proof fn lemma_dot_position_in_range(s: Seq<char>)
    ensures
        0 <= dot_position(s) <= s.len(),
    decreases s.len(),
{
    if s.len() > 0 && s[0] != '.' {
        lemma_dot_position_in_range(s.drop_first());
    }
}

/// If no character before `k` is a point, the first point is at `k` or later.
proof fn lemma_dot_position_ge(s: Seq<char>, k: int)
    requires
        0 <= k <= s.len(),
        forall|j: int| 0 <= j < k ==> #[trigger] s[j] != '.',
    ensures
        dot_position(s) >= k,
    decreases k,
{
    lemma_dot_position_in_range(s);
    if k > 0 {
        assert(s[0] != '.');
        assert(forall|j: int| 0 <= j < k - 1 ==> #[trigger] s.drop_first()[j] != '.');
        lemma_dot_position_ge(s.drop_first(), k - 1);
    }
}

/// If no character before `k` is a point and `k` is the end or a point,
/// the first point is exactly at `k`.
proof fn lemma_dot_position_exact(s: Seq<char>, k: int)
    requires
        0 <= k <= s.len(),
        forall|j: int| 0 <= j < k ==> #[trigger] s[j] != '.',
        k == s.len() || s[k] == '.',
    ensures
        dot_position(s) == k,
    decreases k,
{
    if k == 0 {
    } else {
        assert(s[0] != '.');
        assert(forall|j: int| 0 <= j < k - 1 ==> #[trigger] s.drop_first()[j] != '.');
        if k - 1 < s.drop_first().len() {
            assert(s.drop_first()[k - 1] == s[k]);
        }
        lemma_dot_position_exact(s.drop_first(), k - 1);
    }
}

proof fn lemma_frac_micro_nonneg(s: Seq<char>)
    requires
        all_digits(s),
    ensures
        frac_micro(s) >= 0,
{
    if s.len() >= 6 {
        assert(all_digits(s.take(6)));
        lemma_digits_value_bound(s.take(6));
    } else {
        lemma_digits_value_bound(s);
        lemma_pow10_pos((6 - s.len()) as nat);
        assert(digits_value(s) * pow10((6 - s.len()) as nat) >= 0) by (nonlinear_arith)
            requires
                digits_value(s) >= 0,
                pow10((6 - s.len()) as nat) >= 1,
        ;
    }
}

proof fn lemma_dot_position_is_dot(s: Seq<char>)
    ensures
        dot_position(s) < s.len() ==> s[dot_position(s)] == '.',
    decreases s.len(),
{
    lemma_dot_position_in_range(s);
    if s.len() > 0 && s[0] != '.' {
        lemma_dot_position_is_dot(s.drop_first());
        lemma_dot_position_in_range(s.drop_first());
        let d = dot_position(s.drop_first());
        if d < s.drop_first().len() {
            assert(s.drop_first()[d] == s[d + 1]);
        }
    }
}

/// A character that is neither a digit nor a point, with no point before it,
/// spoils the literal.
proof fn lemma_non_digit_not_ok(u: Seq<char>, k: int)
    requires
        0 <= k < u.len(),
        !is_digit_char(u[k]),
        u[k] != '.',
        forall|j: int| 0 <= j < k ==> #[trigger] u[j] != '.',
    ensures
        !unsigned_ok(u),
{
    lemma_dot_position_ge(u, k);
    lemma_dot_position_in_range(u);
    lemma_dot_position_is_dot(u);
    let d = dot_position(u);
    if d < u.len() {
        assert(u[d] == '.');
        assert(d != k);
        assert(u.take(d)[k] == u[k]);
        assert(!all_digits(u.take(d)));
    } else {
        assert(u.take(d) =~= u);
        assert(!all_digits(u.take(d)));
    }
}

/// An integer part beyond the coordinate range puts the whole value beyond it.
proof fn lemma_int_part_over(u: Seq<char>)
    requires
        unsigned_ok(u),
        digits_value(u.take(dot_position(u))) > MAX_COORD as int / SCALE as int,
    ensures
        parse_unsigned_spec(u) is None,
{
    let d = dot_position(u);
    let dv = digits_value(u.take(d));
    assert(dv * SCALE as int > MAX_COORD as int) by (nonlinear_arith)
        requires
            dv > MAX_COORD as int / SCALE as int,
            SCALE == 1_000_000i64,
            MAX_COORD == 1_000_000_000_000_000i64,
    ;
    if d == u.len() {
        assert(u.take(d) =~= u);
    } else {
        lemma_frac_micro_nonneg(u.skip(d + 1));
    }
}

proof fn lemma_parse_unsigned_range(u: Seq<char>)
    ensures
        match parse_unsigned_spec(u) {
            Some(v) => 0 <= v <= MAX_COORD as int,
            None => true,
        },
{
    if unsigned_ok(u) {
        let d = dot_position(u);
        lemma_dot_position_in_range(u);
        lemma_digits_value_bound(u.take(d));
        assert(digits_value(u.take(d)) * SCALE as int >= 0) by (nonlinear_arith)
            requires
                digits_value(u.take(d)) >= 0,
                SCALE == 1_000_000i64,
        ;
        if d < u.len() {
            lemma_frac_micro_nonneg(u.skip(d + 1));
        } else {
            assert(u.take(d) =~= u);
        }
    }
}

/// A parsed fixed-point literal always lies in the coordinate range.
pub proof fn lemma_parse_fixed_in_range(s: Seq<char>)
    ensures
        match parse_fixed_spec(s) {
            Some(v) => in_coord_range(v),
            None => true,
        },
{
    if s.len() > 0 && (s[0] == '-' || s[0] == '+') {
        lemma_parse_unsigned_range(s.skip(1));
    } else {
        lemma_parse_unsigned_range(s);
    }
}

/// Parse a text buffer as a signed fixed-point literal in micro-units.
#[verifier::rlimit(100)]
pub fn parse_fixed(s: &Vec<char>) -> (r: Option<i64>)
    ensures
        match r {
            Some(v) => parse_fixed_spec(s@) == Some(v as int),
            None => parse_fixed_spec(s@) is None,
        },
{
    let n = s.len();
    let mut start: usize = 0;
    let mut neg = false;
    if n > 0 && (s[0] == '-' || s[0] == '+') {
        neg = s[0] == '-';
        start = 1;
    }
    let ghost u = s@.skip(start as int);
    proof {
        lemma_sign_split(s@, start as int, u);
    }

    // Integer part: scan digits up to the point or the end.
    let mut i: usize = start;
    let mut int_acc: i64 = 0;
    let mut too_big = false;
    while i < n && s[i] != '.'
        invariant
            start <= i <= n,
            n == s@.len(),
            u == s@.skip(start as int),
            start == 0 || start == 1,
            forall|j: int| start <= j < i ==> #[trigger] s@[j] != '.',
            all_digits(s@.subrange(start as int, i as int)),
            0 <= int_acc <= MAX_COORD,
            !too_big ==> int_acc == digits_value(s@.subrange(start as int, i as int)),
            too_big ==> digits_value(s@.subrange(start as int, i as int)) > MAX_COORD as int,
            parse_fixed_spec(s@) == parse_unsigned_result(s@, u),
        decreases n - i,
    {
        let c = s[i];
        let d: i64 = match c {
            '0' => 0,
            '1' => 1,
            '2' => 2,
            '3' => 3,
            '4' => 4,
            '5' => 5,
            '6' => 6,
            '7' => 7,
            '8' => 8,
            '9' => 9,
            _ => {
                proof {
                    let k = i - start;
                    assert(u[k] == c);
                    assert(!is_digit_char(c));
                    assert(forall|j: int| 0 <= j < k ==> #[trigger] u[j] != '.');
                    lemma_non_digit_not_ok(u, k);
                }
                return None;
            },
        };
        let ghost pre = s@.subrange(start as int, i as int);
        proof {
            assert(is_digit_char(c));
            assert(d == digit_value(c));
            assert(s@.subrange(start as int, i + 1) =~= pre.push(c));
            assert forall|j: int| 0 <= j < pre.push(c).len() implies is_digit_char(
                #[trigger] pre.push(c)[j],
            ) by {
                if j < pre.len() {
                    assert(pre.push(c)[j] == pre[j]);
                } else {
                    assert(pre.push(c)[j] == c);
                }
            }
            lemma_digits_value_push(pre, c);
            lemma_digits_value_bound(pre);
        }
        if too_big {
            // The value already exceeds the range; keep validating the shape.
            proof {
                let dv = digits_value(pre);
                assert(dv * 10 >= dv) by (nonlinear_arith)
                    requires
                        dv >= 0,
                ;
            }
        } else if int_acc > MAX_COORD / 10 || (int_acc == MAX_COORD / 10 && d > 0) {
            too_big = true;
        } else {
            int_acc = int_acc * 10 + d;
        }
        i += 1;
    }
    let ghost int_digits = s@.subrange(start as int, i as int);
    proof {
        let k = i - start;
        assert(forall|j: int| 0 <= j < k ==> #[trigger] u[j] != '.');
        if i < n {
            assert(u[k] == s@[i as int]);
        }
        lemma_dot_position_exact(u, k);
        assert(u.take(k) =~= int_digits);
    }

    if i == n && i == start {
        // No digits at all.
        proof {
            assert(!unsigned_ok(u));
        }
        return None;
    }

    // The point and the fraction, if present.
    let mut frac_acc: i64 = 0;
    let mut frac_len: usize = 0;
    if i < n {
        // s[i] is the point.
        if n - start < 2 {
            proof {
                assert(!unsigned_ok(u));
            }
            return None;
        }
        let mut j: usize = i + 1;
        while j < n
            invariant
                i + 1 <= j <= n,
                n == s@.len(),
                i < n,
                start <= i,
                start == 0 || start == 1,
                u == s@.skip(start as int),
                dot_position(u) == i - start,
                frac_len == j - i - 1,
                all_digits(s@.subrange(i + 1, j as int)),
                0 <= frac_acc,
                frac_len <= 6 ==> frac_acc == digits_value(s@.subrange(i + 1, j as int)),
                frac_len > 6 ==> frac_acc == digits_value(s@.subrange(i + 1, j as int).take(6)),
                frac_acc < SCALE,
                parse_fixed_spec(s@) == parse_unsigned_result(s@, u),
            decreases n - j,
        {
            let c = s[j];
            let d: i64 = match c {
                '0' => 0,
                '1' => 1,
                '2' => 2,
                '3' => 3,
                '4' => 4,
                '5' => 5,
                '6' => 6,
                '7' => 7,
                '8' => 8,
                '9' => 9,
                _ => {
                    proof {
                        let f = u.skip((i - start) + 1);
                        assert(f[(j - i - 1) as int] == c);
                        assert(!is_digit_char(c));
                        assert(!all_digits(f));
                        assert(dot_position(u) == i - start);
                        assert(!unsigned_ok(u));
                    }
                    return None;
                },
            };
            let ghost fpre = s@.subrange(i + 1, j as int);
            proof {
                assert(is_digit_char(c));
                assert(s@.subrange(i + 1, j + 1) =~= fpre.push(c));
                assert forall|m: int| 0 <= m < fpre.push(c).len() implies is_digit_char(
                    #[trigger] fpre.push(c)[m],
                ) by {
                    if m < fpre.len() {
                        assert(fpre.push(c)[m] == fpre[m]);
                    } else {
                        assert(fpre.push(c)[m] == c);
                    }
                }
            }
            if frac_len < 6 {
                proof {
                    assert(d == digit_value(c));
                    lemma_digits_value_push(fpre, c);
                    lemma_digits_value_bound(fpre);
                    lemma_pow10_mono(fpre.len() as nat, 5);
                    assert(pow10(5) == 100_000) by {
                        reveal_with_fuel(pow10, 6);
                    }
                }
                frac_acc = frac_acc * 10 + d;
            } else {
                proof {
                    assert(fpre.push(c).take(6) =~= fpre.take(6));
                    if frac_len == 6 {
                        assert(fpre.take(6) =~= fpre);
                    }
                }
            }
            frac_len += 1;
            j += 1;
        }
    }
    let ghost frac_digits = if i < n {
        u.skip((i - start) + 1)
    } else {
        Seq::<char>::empty()
    };
    proof {
        if i < n {
            assert(frac_digits =~= s@.subrange(i + 1, n as int));
        }
        assert(unsigned_ok(u)) by {
            if i < n {
                assert(u.len() >= 2);
            }
        }
    }

    // Scale the fraction to six places.
    let mut mult: i64 = 1;
    if frac_len < 6 {
        let mut k: usize = frac_len;
        while k < 6
            invariant
                frac_len <= k <= 6,
                1 <= mult,
                mult == pow10((k - frac_len) as nat),
                mult <= 1_000_000,
            decreases 6 - k,
        {
            proof {
                lemma_pow10_mono(((k + 1) - frac_len) as nat, 6);
                assert(pow10(6) == 1_000_000) by {
                    reveal_with_fuel(pow10, 7);
                }
                assert(pow10(((k + 1) - frac_len) as nat) == 10 * pow10((k - frac_len) as nat));
            }
            mult = mult * 10;
            k += 1;
        }
    }
    let frac_v: i64 = if frac_len >= 6 {
        frac_acc
    } else {
        proof {
            lemma_digits_value_bound(frac_digits);
            lemma_pow10_add(frac_len as nat, (6 - frac_len) as nat);
            assert(pow10(6) == 1_000_000) by {
                reveal_with_fuel(pow10, 7);
            }
            let p = pow10(frac_len as nat);
            let q = pow10((6 - frac_len) as nat);
            assert(frac_acc * q <= (p - 1) * q) by (nonlinear_arith)
                requires
                    frac_acc <= p - 1,
                    q >= 1,
            ;
            assert((p - 1) * q == p * q - q) by (nonlinear_arith);
            lemma_pow10_pos((6 - frac_len) as nat);
            assert(frac_acc * q >= 0) by (nonlinear_arith)
                requires
                    frac_acc >= 0,
                    q >= 1,
            ;
        }
        frac_acc * mult
    };
    proof {
        if i < n {
            if frac_len >= 6 {
                if frac_len == 6 {
                    assert(frac_digits.take(6) =~= frac_digits);
                }
            }
            assert(frac_micro(frac_digits) == frac_v as int);
        }
        assert(0 <= frac_v < SCALE);
    }

    if too_big {
        proof {
            assert(digits_value(int_digits) > MAX_COORD as int / SCALE as int);
            lemma_int_part_over(u);
        }
        return None;
    }
    if int_acc > MAX_COORD / SCALE {
        proof {
            lemma_int_part_over(u);
        }
        return None;
    }
    proof {
        assert(int_acc * SCALE as int <= MAX_COORD as int && int_acc * SCALE as int >= 0)
            by (nonlinear_arith)
            requires
                0 <= int_acc <= MAX_COORD as int / SCALE as int,
                SCALE == 1_000_000i64,
                MAX_COORD == 1_000_000_000_000_000i64,
        ;
    }
    let v: i64 = int_acc * SCALE + frac_v;
    proof {
        if i < n {
            assert(v as int == unsigned_micro(u));
        } else {
            assert(u.take(dot_position(u)) =~= u);
            assert(v as int == unsigned_micro(u));
        }
    }
    if v > MAX_COORD {
        return None;
    }
    if neg {
        Some(-v)
    } else {
        Some(v)
    }
}

/// How the signed literal reduces to the unsigned one after the sign.
spec fn parse_unsigned_result(s: Seq<char>, u: Seq<char>) -> Option<int> {
    match parse_unsigned_spec(u) {
        Some(v) => if s.len() > 0 && s[0] == '-' { Some(-v) } else { Some(v) },
        None => None,
    }
}

proof fn lemma_sign_split(s: Seq<char>, start: int, u: Seq<char>)
    requires
        start == if s.len() > 0 && (s[0] == '-' || s[0] == '+') { 1int } else { 0int },
        u == s.skip(start),
    ensures
        parse_fixed_spec(s) == parse_unsigned_result(s, u),
{
    if start == 0 {
        assert(s.skip(0) =~= s);
    }
}

} // verus!
