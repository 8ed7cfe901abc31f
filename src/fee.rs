use vstd::prelude::*;

verus! {

/// Whole parts at and beyond this bound give a fee past the range of `i32`.
pub const WHOLE_CAP: u64 = 100_000_000;

pub open spec fn is_digit(c: char) -> bool {
    '0' <= c && c <= '9'
}

pub open spec fn digit_value(c: char) -> nat {
    (c as int - '0' as int) as nat
}

pub open spec fn all_digits(s: Seq<char>) -> bool {
    forall|i: int| 0 <= i < s.len() ==> is_digit(#[trigger] s[i])
}

/// The number that a run of decimal digits writes.
pub open spec fn digits_value(s: Seq<char>) -> nat
    decreases s.len(),
{
    if s.len() == 0 {
        0
    } else {
        10 * digits_value(s.drop_last()) + digit_value(s.last())
    }
}

/// How many decimal digits `s` starts with.
pub open spec fn digit_run(s: Seq<char>) -> nat
    decreases s.len(),
{
    if s.len() > 0 && is_digit(s[0]) {
        1 + digit_run(s.drop_first())
    } else {
        0
    }
}

pub open spec fn sign_len(s: Seq<char>) -> int {
    if s.len() > 0 && (s[0] == '+' || s[0] == '-') {
        1
    } else {
        0
    }
}

pub open spec fn is_negative(s: Seq<char>) -> bool {
    s.len() > 0 && s[0] == '-'
}

/// The text after an optional sign.
pub open spec fn unsigned_part(s: Seq<char>) -> Seq<char> {
    s.subrange(sign_len(s), s.len() as int)
}

/// The digits before the decimal point.
pub open spec fn whole_part(s: Seq<char>) -> Seq<char> {
    unsigned_part(s).subrange(0, digit_run(unsigned_part(s)) as int)
}

/// What follows the decimal point, if there is one.
pub open spec fn fraction_part(s: Seq<char>) -> Seq<char> {
    let b = unsigned_part(s);
    let k = digit_run(b) as int;
    if k < b.len() {
        b.subrange(k + 1, b.len() as int)
    } else {
        Seq::empty()
    }
}

/// `s` is a plain decimal number: an optional sign, digits, and optionally a
/// point followed by digits, with at least one digit in all.
pub open spec fn is_decimal_text(s: Seq<char>) -> bool {
    let b = unsigned_part(s);
    let k = digit_run(b) as int;
    &&& (k == b.len() || (b[k] == '.' && all_digits(b.subrange(k + 1, b.len() as int))))
    &&& whole_part(s).len() + fraction_part(s).len() > 0
}

/// The magnitude in hundredths, rounded half away from zero.
pub open spec fn cents_magnitude(s: Seq<char>) -> int {
    let f = fraction_part(s);
    digits_value(whole_part(s)) * 100 + (if f.len() > 0 {
        digit_value(f[0]) * 10
    } else {
        0
    }) + (if f.len() > 1 {
        digit_value(f[1]) as int
    } else {
        0
    }) + (if f.len() > 2 && '5' <= f[2] {
        1int
    } else {
        0
    })
}

pub open spec fn clamp_i32(v: int) -> i32 {
    if v > i32::MAX {
        i32::MAX
    } else if v < i32::MIN {
        i32::MIN
    } else {
        v as i32
    }
}

/// A fee written in major currency units, as minor units: a hundred times the
/// number, rounded to the nearest unit with halves away from zero, and held to
/// the range of `i32`.
pub open spec fn fee_cents_of(s: Seq<char>) -> Option<i32> {
    if is_decimal_text(s) {
        Some(
            clamp_i32(
                if is_negative(s) {
                    -cents_magnitude(s)
                } else {
                    cents_magnitude(s)
                },
            ),
        )
    } else {
        None
    }
}

fn is_digit_char(c: char) -> (r: bool)
    ensures
        r == is_digit(c),
{
    '0' <= c && c <= '9'
}

fn digit_of(c: char) -> (r: u64)
    requires
        is_digit(c),
    ensures
        r == digit_value(c),
        r <= 9,
{
    (c as u32 - '0' as u32) as u64
}

proof fn lemma_capped_step(v: nat, d: nat)
    requires
        v >= WHOLE_CAP,
    ensures
        10 * v + d >= WHOLE_CAP,
{
}

/// Parses a fee written in major units (`"12.50"`) into minor units (`1250`).
pub fn parse_fee_cents(s: &str) -> (r: Option<i32>)
    ensures
        r == fee_cents_of(s@),
{
    let n = s.unicode_len();
    let mut i: usize = 0;
    let mut negative = false;
    if n > 0 {
        let c = s.get_char(0);
        if c == '+' || c == '-' {
            negative = c == '-';
            i = 1;
        }
    }
    let start = i;
    let ghost b = s@.subrange(start as int, n as int);
    assert(b == unsigned_part(s@));
    assert(negative == is_negative(s@));
    let mut whole: u64 = 0;
    while i < n && is_digit_char(s.get_char(i))
        invariant
            n == s@.len(),
            start <= i <= n,
            b == s@.subrange(start as int, n as int),
            b == unsigned_part(s@),
            negative == is_negative(s@),
            forall|j: int| start <= j < i ==> is_digit(#[trigger] s@[j]),
            digit_run(b) == (i - start) + digit_run(s@.subrange(i as int, n as int)),
            whole as int == if digits_value(s@.subrange(start as int, i as int)) < WHOLE_CAP {
                digits_value(s@.subrange(start as int, i as int)) as int
            } else {
                WHOLE_CAP as int
            },
        decreases n - i,
    {
        let d = digit_of(s.get_char(i));
        let ghost pre = s@.subrange(start as int, i as int);
        let ghost next = s@.subrange(start as int, i + 1);
        assert(next.drop_last() =~= pre);
        assert(next.last() == s@[i as int]);
        assert(s@.subrange(i as int, n as int).drop_first() =~= s@.subrange(i + 1, n as int));
        if whole >= WHOLE_CAP {
            proof {
                lemma_capped_step(digits_value(pre), d as nat);
            }
        } else {
            whole = 10 * whole + d;
            if whole > WHOLE_CAP {
                whole = WHOLE_CAP;
            }
        }
        i += 1;
    }
    let k = i - start;
    if i < n {
        assert(s@.subrange(i as int, n as int)[0] == s@[i as int]);
    }
    assert(digit_run(b) == k);
    assert(whole_part(s@) =~= s@.subrange(start as int, i as int));
    let mut frac_len: usize = 0;
    let dot = i;
    if i < n {
        if s.get_char(i) != '.' {
            return None;
        }
        i += 1;
        while i < n
            invariant
                n == s@.len(),
                dot < i <= n,
                start <= dot,
                k == dot - start,
                digit_run(b) == k,
                b == s@.subrange(start as int, n as int),
                b == unsigned_part(s@),
                negative == is_negative(s@),
                forall|j: int| dot < j < i ==> is_digit(#[trigger] s@[j]),
            decreases n - i,
        {
            if !is_digit_char(s.get_char(i)) {
                let ghost fr = b.subrange(k + 1, b.len() as int);
                assert(fr[i - dot - 1] == s@[i as int]);
                assert(!is_digit(fr[i - dot - 1]));
                assert(!all_digits(fr));
                return None;
            }
            i += 1;
        }
        frac_len = n - dot - 1;
        assert(fraction_part(s@) =~= s@.subrange(dot + 1, n as int));
        assert(all_digits(b.subrange(k + 1, b.len() as int)));
    } else {
        assert(fraction_part(s@) =~= Seq::<char>::empty());
    }
    if k + frac_len == 0 {
        return None;
    }
    let f1: u64 = if frac_len > 0 {
        digit_of(s.get_char(dot + 1))
    } else {
        0
    };
    let f2: u64 = if frac_len > 1 {
        digit_of(s.get_char(dot + 2))
    } else {
        0
    };
    let up: u64 = if frac_len > 2 && '5' <= s.get_char(dot + 3) {
        1
    } else {
        0
    };
    let magnitude: u64 = whole * 100 + f1 * 10 + f2 + up;
    let ghost exact = cents_magnitude(s@);
    proof {
        let w = digits_value(whole_part(s@));
        if w >= WHOLE_CAP {
            assert(w * 100 >= WHOLE_CAP * 100) by (nonlinear_arith)
                requires
                    w >= WHOLE_CAP,
            ;
        }
    }
    let signed: i64 = if negative {
        -(magnitude as i64)
    } else {
        magnitude as i64
    };
    let r: i32 = if signed > i32::MAX as i64 {
        i32::MAX
    } else if signed < i32::MIN as i64 {
        i32::MIN
    } else {
        signed as i32
    };
    Some(r)
}

} // verus!
