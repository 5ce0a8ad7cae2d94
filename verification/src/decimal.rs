//! Exact parsing of the market feed's decimal price text into a fixed-point
//! integer with eight decimal places.  A price string is a run of digits,
//! optionally followed by `.` and a second run of digits; fractional digits
//! beyond the eighth are truncated.  The integer part must stay below
//! `INT_CAP` so that the fixed-point value fits in a `u64`; anything else is
//! rejected, and a rejected sample counts as a transient fetch failure.

use vstd::prelude::*;

verus! {

/// Fixed-point scale: one price unit is 1e-8.
pub const PRICE_SCALE: u64 = 100_000_000;

/// Exclusive bound on the integer part of a parsed price.
pub const INT_CAP: u64 = 10_000_000_000;

pub open spec fn is_digit(c: char) -> bool {
    48 <= c as int && c as int <= 57
}

pub open spec fn digit_val(c: char) -> int {
    c as int - 48
}

pub open spec fn all_digits(s: Seq<char>) -> bool {
    forall|i: int| 0 <= i < s.len() ==> is_digit(#[trigger] s[i])
}

/// The number denoted by a run of decimal digits, most significant first.
pub open spec fn digits_val(s: Seq<char>) -> int
    decreases s.len(),
{
    if s.len() == 0 {
        0int
    } else {
        digits_val(s.drop_last()) * 10 + digit_val(s.last())
    }
}

pub open spec fn pow10(n: nat) -> int
    decreases n,
{
    if n == 0 {
        1int
    } else {
        10 * pow10((n - 1) as nat)
    }
}

/// The value of a fractional digit run, scaled to eight decimal places and
/// truncated beyond the eighth digit.
pub open spec fn frac_val(s: Seq<char>) -> int {
    if s.len() >= 8 {
        digits_val(s.take(8))
    } else {
        digits_val(s) * pow10((8 - s.len()) as nat)
    }
}

/// `i` splits `s` into a nonempty digit run, a dot, and a nonempty digit run.
pub open spec fn dot_split_at(s: Seq<char>, i: int) -> bool {
    &&& 1 <= i <= s.len() - 2
    &&& s[i] == '.'
    &&& all_digits(s.take(i))
    &&& all_digits(s.skip(i + 1))
}

/// What `parse_price` returns: the fixed-point value of a well-formed
/// decimal string whose integer part is below `INT_CAP`, and `None`
/// otherwise.
pub open spec fn spec_parse_price(s: Seq<char>) -> Option<u64> {
    if s.len() > 0 && all_digits(s) {
        if digits_val(s) < INT_CAP {
            Some((digits_val(s) * PRICE_SCALE) as u64)
        } else {
            None
        }
    } else if exists|i: int| dot_split_at(s, i) {
        let i = choose|i: int| dot_split_at(s, i);
        if digits_val(s.take(i)) < INT_CAP {
            Some((digits_val(s.take(i)) * PRICE_SCALE + frac_val(s.skip(i + 1))) as u64)
        } else {
            None
        }
    } else {
        None
    }
}

pub proof fn lemma_digits_val_bounds(s: Seq<char>)
    requires
        all_digits(s),
    ensures
        0 <= digits_val(s) < pow10(s.len()),
    decreases s.len(),
{
    if s.len() > 0 {
        assert(all_digits(s.drop_last()));
        lemma_digits_val_bounds(s.drop_last());
        assert(is_digit(s.last()));
    }
}

proof fn lemma_digits_val_step(s: Seq<char>, k: int)
    requires
        0 <= k < s.len(),
    ensures
        digits_val(s.take(k + 1)) == digits_val(s.take(k)) * 10 + digit_val(s[k]),
{
    assert(s.take(k + 1).drop_last() =~= s.take(k));
    assert(s.take(k + 1).last() == s[k]);
}

proof fn lemma_pow10_adds(a: nat, b: nat)
    ensures
        pow10(a + b) == pow10(a) * pow10(b),
    decreases a,
{
    if a > 0 {
        lemma_pow10_adds((a - 1) as nat, b);
        assert(pow10(a + b) == 10 * pow10((a + b - 1) as nat));
        assert(10 * (pow10((a - 1) as nat) * pow10(b)) == (10 * pow10((a - 1) as nat)) * pow10(
            b,
        )) by (nonlinear_arith);
    }
}

/// Every position of a split string other than the dot itself holds a digit.
proof fn lemma_split_props(s: Seq<char>, i: int, k: int)
    requires
        dot_split_at(s, i),
        0 <= k < s.len(),
        k != i,
    ensures
        is_digit(s[k]),
{
    if k < i {
        assert(s.take(i)[k] == s[k]);
    } else {
        assert(s.skip(i + 1)[k - i - 1] == s[k]);
    }
}

/// A character that is neither a digit nor a dot rules the string out.
proof fn lemma_bad_char(s: Seq<char>, k: int)
    requires
        0 <= k < s.len(),
        !is_digit(s[k]),
        s[k] != '.',
    ensures
        !all_digits(s),
        forall|i: int| !dot_split_at(s, i),
{
    assert forall|i: int| !dot_split_at(s, i) by {
        if dot_split_at(s, i) {
            if i == k {
            } else {
                lemma_split_props(s, i, k);
            }
        }
    }
}

/// A dot at the very start or the very end admits no split, and a string
/// holding any dot is not a pure digit run.
proof fn lemma_dot_at_edge(s: Seq<char>, k: int)
    requires
        0 <= k < s.len(),
        s[k] == '.',
        k == 0 || k == s.len() - 1,
    ensures
        !all_digits(s),
        forall|i: int| !dot_split_at(s, i),
{
    assert(!is_digit(s[k]));
    assert forall|i: int| !dot_split_at(s, i) by {
        if dot_split_at(s, i) {
            if i == k {
            } else {
                lemma_split_props(s, i, k);
            }
        }
    }
}

/// Two dots admit no split.
proof fn lemma_two_dots(s: Seq<char>, k1: int, k2: int)
    requires
        0 <= k1 < k2 < s.len(),
        s[k1] == '.',
        s[k2] == '.',
    ensures
        !all_digits(s),
        forall|i: int| !dot_split_at(s, i),
{
    assert(!is_digit(s[k1]));
    assert forall|i: int| !dot_split_at(s, i) by {
        if dot_split_at(s, i) {
            if i != k1 {
                lemma_split_props(s, i, k1);
            } else {
                lemma_split_props(s, i, k2);
            }
        }
    }
}

/// The split position of a string is unique.
proof fn lemma_dot_unique(s: Seq<char>, i: int, j: int)
    requires
        dot_split_at(s, i),
        dot_split_at(s, j),
    ensures
        i == j,
{
    if i != j {
        lemma_split_props(s, i, j);
        assert(!is_digit(s[j]));
    }
}

fn is_digit_exec(c: char) -> (b: bool)
    ensures
        b == is_digit(c),
{
    let u = c as u32;
    48 <= u && u <= 57
}

/// The value of the digit run `s[from..to]`, or `None` when it reaches
/// `INT_CAP`.
fn scan_digits(s: &str, from: usize, to: usize) -> (r: Option<u64>)
    requires
        from <= to <= s@.len(),
        all_digits(s@.subrange(from as int, to as int)),
    ensures
        ({
            let v = digits_val(s@.subrange(from as int, to as int));
            match r {
                Some(x) => v < INT_CAP && x == v,
                None => v >= INT_CAP,
            }
        }),
{
    let ghost sub = s@.subrange(from as int, to as int);
    let mut acc: u64 = 0;
    let mut i: usize = from;
    while i < to
        invariant
            from <= i <= to <= s@.len(),
            sub == s@.subrange(from as int, to as int),
            all_digits(sub),
            acc <= INT_CAP,
            digits_val(sub.take(i - from)) < INT_CAP ==> acc == digits_val(sub.take(i - from)),
            digits_val(sub.take(i - from)) >= INT_CAP ==> acc == INT_CAP,
        decreases to - i,
    {
        let ghost k = i - from;
        let c = s.get_char(i);
        proof {
            assert(sub[k] == s@[i as int]);
            assert(is_digit(sub[k]));
            assert(all_digits(sub.take(k)));
            lemma_digits_val_bounds(sub.take(k));
            lemma_digits_val_step(sub, k);
        }
        let d: u64 = (c as u64) - 48;
        if acc >= INT_CAP {
            proof {
                assert(digits_val(sub.take(k)) >= INT_CAP);
                assert(digits_val(sub.take(k + 1)) >= digits_val(sub.take(k)));
            }
        } else {
            let t: u64 = acc * 10 + d;
            if t >= INT_CAP {
                acc = INT_CAP;
            } else {
                acc = t;
            }
        }
        i = i + 1;
    }
    proof {
        assert(sub.take(to - from) =~= sub);
    }
    if acc >= INT_CAP {
        None
    } else {
        Some(acc)
    }
}

fn pow10_u64(k: usize) -> (r: u64)
    requires
        k <= 8,
    ensures
        r as int == pow10(k as nat),
{
    proof {
        reveal_with_fuel(pow10, 9);
    }
    if k == 0 {
        1
    } else if k == 1 {
        10
    } else if k == 2 {
        100
    } else if k == 3 {
        1_000
    } else if k == 4 {
        10_000
    } else if k == 5 {
        100_000
    } else if k == 6 {
        1_000_000
    } else if k == 7 {
        10_000_000
    } else {
        100_000_000
    }
}

/// The scaled value of the fractional digit run `s[from..to]`.
fn frac_to_val(s: &str, from: usize, to: usize) -> (v: u64)
    requires
        from < to <= s@.len(),
        all_digits(s@.subrange(from as int, to as int)),
    ensures
        v as int == frac_val(s@.subrange(from as int, to as int)),
        v < PRICE_SCALE,
{
    let ghost sub = s@.subrange(from as int, to as int);
    let m = to - from;
    if m >= 8 {
        proof {
            assert(s@.subrange(from as int, from as int + 8) =~= sub.take(8));
            assert(all_digits(sub.take(8)));
            lemma_digits_val_bounds(sub.take(8));
            reveal_with_fuel(pow10, 9);
        }
        let r = scan_digits(s, from, from + 8);
        r.unwrap()
    } else {
        proof {
            lemma_digits_val_bounds(sub);
            assert(pow10(sub.len()) <= pow10(8)) by {
                lemma_pow10_adds(sub.len(), (8 - sub.len()) as nat);
                lemma_pow10_bounds((8 - sub.len()) as nat);
                assert(pow10(8) == pow10(sub.len()) * pow10((8 - sub.len()) as nat));
                assert(pow10(sub.len()) * 1 <= pow10(sub.len()) * pow10(
                    (8 - sub.len()) as nat,
                )) by (nonlinear_arith)
                    requires
                        pow10(sub.len()) >= 0,
                        pow10((8 - sub.len()) as nat) >= 1,
                ;
            }
            reveal_with_fuel(pow10, 9);
        }
        let v0 = scan_digits(s, from, to).unwrap();
        let p = pow10_u64(8 - m);
        proof {
            lemma_pow10_adds(m as nat, (8 - m) as nat);
            assert(v0 * p < PRICE_SCALE) by (nonlinear_arith)
                requires
                    0 <= v0 as int,
                    (v0 as int) < pow10(m as nat),
                    p as int == pow10((8 - m) as nat),
                    p >= 1,
                    pow10(m as nat) * pow10((8 - m) as nat) == 100_000_000,
            ;
        }
        v0 * p
    }
}

proof fn lemma_pow10_bounds(n: nat)
    ensures
        pow10(n) >= 1,
    decreases n,
{
    if n > 0 {
        lemma_pow10_bounds((n - 1) as nat);
    }
}

/// A fractional digit run's scaled value stays below one whole unit.
pub proof fn lemma_frac_val_bound(s: Seq<char>)
    requires
        all_digits(s),
    ensures
        0 <= frac_val(s) < 100_000_000,
{
    reveal_with_fuel(pow10, 9);
    if s.len() >= 8 {
        assert(all_digits(s.take(8)));
        lemma_digits_val_bounds(s.take(8));
    } else {
        lemma_digits_val_bounds(s);
        lemma_pow10_adds(s.len(), (8 - s.len()) as nat);
        lemma_pow10_bounds((8 - s.len()) as nat);
        assert(digits_val(s) * pow10((8 - s.len()) as nat) <= (pow10(s.len()) - 1) * pow10(
            (8 - s.len()) as nat,
        )) by (nonlinear_arith)
            requires
                digits_val(s) <= pow10(s.len()) - 1,
                pow10((8 - s.len()) as nat) >= 1,
        ;
        assert((pow10(s.len()) - 1) * pow10((8 - s.len()) as nat) == pow10(s.len()) * pow10(
            (8 - s.len()) as nat,
        ) - pow10((8 - s.len()) as nat)) by (nonlinear_arith);
        assert(digits_val(s) * pow10((8 - s.len()) as nat) >= 0) by (nonlinear_arith)
            requires
                digits_val(s) >= 0,
                pow10((8 - s.len()) as nat) >= 1,
        ;
    }
}

/// Any parsed price lies below the fixed-point range bound.
pub proof fn lemma_parse_price_bound(s: Seq<char>)
    ensures
        spec_parse_price(s) matches Some(v) ==> v < 1_000_000_000_000_000_000u64,
{
    if s.len() > 0 && all_digits(s) {
        if digits_val(s) < INT_CAP {
            lemma_digits_val_bounds(s);
        }
    } else if exists|i: int| dot_split_at(s, i) {
        let i = choose|i: int| dot_split_at(s, i);
        if digits_val(s.take(i)) < INT_CAP {
            lemma_digits_val_bounds(s.take(i));
            lemma_frac_val_bound(s.skip(i + 1));
        }
    }
}

/// Parse a decimal price string into fixed-point units of 1e-8, exactly as
/// `spec_parse_price` describes.
pub fn parse_price(s: &str) -> (r: Option<u64>)
    ensures
        r == spec_parse_price(s@),
{
    let n = s.unicode_len();
    if n == 0 {
        proof {
            assert(forall|i: int| !dot_split_at(s@, i));
        }
        return None;
    }
    let mut i: usize = 0;
    let mut dot: Option<usize> = None;
    while i < n
        invariant
            n == s@.len(),
            i <= n,
            match dot {
                None => all_digits(s@.take(i as int)),
                Some(d) => {
                    &&& 1 <= d < i
                    &&& s@[d as int] == '.'
                    &&& all_digits(s@.take(d as int))
                    &&& all_digits(s@.subrange(d as int + 1, i as int))
                },
            },
        decreases n - i,
    {
        let c = s.get_char(i);
        if is_digit_exec(c) {
            proof {
                match dot {
                    None => {
                        assert forall|j: int| 0 <= j < i as int + 1 implies is_digit(
                            #[trigger] s@.take(i as int + 1)[j],
                        ) by {
                            assert(s@.take(i as int + 1)[j] == s@[j]);
                            if j < i as int {
                                assert(s@.take(i as int)[j] == s@[j]);
                            }
                        }
                    },
                    Some(d) => {
                        assert forall|j: int| 0 <= j < i as int + 1 - (d as int + 1) implies
                            is_digit(#[trigger] s@.subrange(d as int + 1, i as int + 1)[j]) by {
                            assert(s@.subrange(d as int + 1, i as int + 1)[j] == s@[d + 1 + j]);
                            if d + 1 + j < i as int {
                                assert(s@.subrange(d as int + 1, i as int)[j] == s@[d + 1 + j]);
                            }
                        }
                    },
                }
            }
        } else if c == '.' {
            if i == 0 {
                proof {
                    lemma_dot_at_edge(s@, 0);
                }
                return None;
            }
            match dot {
                None => {
                    dot = Some(i);
                },
                Some(d) => {
                    proof {
                        lemma_two_dots(s@, d as int, i as int);
                    }
                    return None;
                },
            }
        } else {
            proof {
                lemma_bad_char(s@, i as int);
            }
            return None;
        }
        i = i + 1;
    }
    match dot {
        None => {
            proof {
                assert(s@.take(n as int) =~= s@);
                assert(s@.subrange(0, n as int) =~= s@);
            }
            let v = scan_digits(s, 0, n);
            match v {
                Some(x) => Some(x * PRICE_SCALE),
                None => None,
            }
        },
        Some(d) => {
            if d + 1 == n {
                proof {
                    lemma_dot_at_edge(s@, d as int);
                }
                None
            } else {
                proof {
                    assert(s@.subrange(d as int + 1, n as int) =~= s@.skip(d as int + 1));
                    assert(dot_split_at(s@, d as int));
                    assert(!is_digit(s@[d as int]));
                    let j = choose|j: int| dot_split_at(s@, j);
                    lemma_dot_unique(s@, j, d as int);
                    assert(s@.subrange(0, d as int) =~= s@.take(d as int));
                }
                let iv = scan_digits(s, 0, d);
                match iv {
                    Some(x) => {
                        let fv = frac_to_val(s, d + 1, n);
                        proof {
                            lemma_digits_val_bounds(s@.take(d as int));
                        }
                        Some(x * PRICE_SCALE + fv)
                    },
                    None => None,
                }
            }
        },
    }
}

} // verus!
