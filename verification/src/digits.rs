//! Decimal text: the spec-level decimal representation of a natural number,
//! an executable renderer for it, and an executable parser for non-negative
//! decimal cell text.

use vstd::prelude::*;

verus! {

/// The character standing for one decimal digit.
pub open spec fn char_of_digit(d: nat) -> char {
    if d == 0 {
        '0'
    } else if d == 1 {
        '1'
    } else if d == 2 {
        '2'
    } else if d == 3 {
        '3'
    } else if d == 4 {
        '4'
    } else if d == 5 {
        '5'
    } else if d == 6 {
        '6'
    } else if d == 7 {
        '7'
    } else if d == 8 {
        '8'
    } else {
        '9'
    }
}

pub open spec fn is_digit_char(c: char) -> bool {
    48 <= c as int && c as int <= 57
}

pub open spec fn digit_of_char(c: char) -> nat {
    (c as int - 48) as nat
}

pub open spec fn all_digits(s: Seq<char>) -> bool {
    forall|i: int| 0 <= i < s.len() ==> is_digit_char(#[trigger] s[i])
}

/// Decimal representation of `n`, most significant digit first, without
/// leading zeros (except for `n == 0`, which is the single digit `0`).
pub open spec fn dec_rep(n: nat) -> Seq<char>
    decreases n,
{
    if n < 10 {
        seq![char_of_digit(n)]
    } else {
        dec_rep(n / 10) + seq![char_of_digit(n % 10)]
    }
}

/// The number a sequence of digit characters denotes.
pub open spec fn digits_val(s: Seq<char>) -> nat
    decreases s.len(),
{
    if s.len() == 0 {
        0
    } else {
        digits_val(s.drop_last()) * 10 + digit_of_char(s.last())
    }
}

pub proof fn lemma_char_digit_roundtrip(d: nat)
    requires
        d < 10,
    ensures
        is_digit_char(char_of_digit(d)),
        digit_of_char(char_of_digit(d)) == d,
{
}

/// Every character of a decimal representation is a digit, and the
/// representation is never empty.
pub proof fn lemma_dec_rep_digits(n: nat)
    ensures
        dec_rep(n).len() >= 1,
        all_digits(dec_rep(n)),
    decreases n,
{
    if n < 10 {
        lemma_char_digit_roundtrip(n);
    } else {
        lemma_dec_rep_digits(n / 10);
        lemma_char_digit_roundtrip(n % 10);
        assert forall|i: int| 0 <= i < dec_rep(n).len() implies is_digit_char(
            #[trigger] dec_rep(n)[i],
        ) by {
            if i < dec_rep(n / 10).len() {
                assert(dec_rep(n)[i] == dec_rep(n / 10)[i]);
            } else {
                assert(dec_rep(n)[i] == char_of_digit(n % 10));
            }
        }
    }
}

/// Reading the decimal representation back gives the number itself.
pub proof fn lemma_dec_rep_val(n: nat)
    ensures
        digits_val(dec_rep(n)) == n,
    decreases n,
{
    if n < 10 {
        assert(dec_rep(n).drop_last() =~= Seq::<char>::empty());
        assert(digits_val(Seq::<char>::empty()) == 0);
        assert(dec_rep(n).last() == char_of_digit(n));
        lemma_char_digit_roundtrip(n);
    } else {
        lemma_dec_rep_val(n / 10);
        lemma_char_digit_roundtrip(n % 10);
        assert(dec_rep(n).drop_last() =~= dec_rep(n / 10));
        assert(dec_rep(n).last() == char_of_digit(n % 10));
        assert(n / 10 * 10 + n % 10 == n) by (nonlinear_arith);
    }
}

/// The one-character string of a single decimal digit.
fn digit_literal(d: u8) -> (r: &'static str)
    requires
        d < 10,
    ensures
        r@ =~= seq![char_of_digit(d as nat)],
{
    if d == 0 {
        proof {
            reveal_strlit("0");
        }
        "0"
    } else if d == 1 {
        proof {
            reveal_strlit("1");
        }
        "1"
    } else if d == 2 {
        proof {
            reveal_strlit("2");
        }
        "2"
    } else if d == 3 {
        proof {
            reveal_strlit("3");
        }
        "3"
    } else if d == 4 {
        proof {
            reveal_strlit("4");
        }
        "4"
    } else if d == 5 {
        proof {
            reveal_strlit("5");
        }
        "5"
    } else if d == 6 {
        proof {
            reveal_strlit("6");
        }
        "6"
    } else if d == 7 {
        proof {
            reveal_strlit("7");
        }
        "7"
    } else if d == 8 {
        proof {
            reveal_strlit("8");
        }
        "8"
    } else {
        proof {
            reveal_strlit("9");
        }
        "9"
    }
}

/// Appends the decimal representation of `n` to `out`.
pub fn push_decimal(out: &mut String, n: u64)
    ensures
        final(out)@ == old(out)@ + dec_rep(n as nat),
    decreases n,
{
    if n >= 10 {
        assert(n / 10 < n) by (nonlinear_arith)
            requires
                n >= 10,
        ;
        push_decimal(out, n / 10);
        let d = digit_literal((n % 10) as u8);
        out.append(d);
        assert(out@ =~= old(out)@ + dec_rep(n as nat));
    } else {
        let d = digit_literal(n as u8);
        out.append(d);
        assert(out@ =~= old(out)@ + dec_rep(n as nat));
    }
}

/// The decimal representation of `n` as a fresh string.
pub fn u64_to_string(n: u64) -> (s: String)
    ensures
        s@ == dec_rep(n as nat),
{
    let mut s = String::new();
    push_decimal(&mut s, n);
    proof {
        assert(s@ =~= dec_rep(n as nat));
    }
    s
}

/// Parses non-negative decimal cell text. Returns the denoted value when the
/// text is one or more decimal digits and the value fits in an `i32`;
/// returns `None` on any other text.
pub fn parse_decimal_i32(s: &str) -> (r: Option<i32>)
    ensures
        r is Some <==> s@.len() >= 1 && all_digits(s@) && digits_val(s@) <= i32::MAX,
        r is Some ==> r->0 == digits_val(s@),
{
    let len = s.unicode_len();
    if len == 0 {
        return None;
    }
    let mut v: u64 = 0;
    let mut too_big = false;
    for i in 0..len
        invariant
            len == s@.len(),
            all_digits(s@.take(i as int)),
            too_big <==> digits_val(s@.take(i as int)) > i32::MAX,
            !too_big ==> v == digits_val(s@.take(i as int)),
    {
        let c = s.get_char(i);
        let u = c as u32;
        if u < 48 || u > 57 {
            assert(!is_digit_char(s@[i as int]));
            return None;
        }
        let d = (u - 48) as u64;
        proof {
            assert(s@.take(i + 1).drop_last() =~= s@.take(i as int));
            assert(s@.take(i + 1).last() == s@[i as int]);
            assert(digits_val(s@.take(i + 1)) == digits_val(s@.take(i as int)) * 10
                + digit_of_char(s@[i as int]));
        }
        if too_big {
            proof {
                let dv = digits_val(s@.take(i as int));
                assert(dv * 10 + digit_of_char(s@[i as int]) > i32::MAX) by (nonlinear_arith)
                    requires
                        dv > i32::MAX,
                ;
            }
        } else {
            v = v * 10 + d;
            if v > i32::MAX as u64 {
                too_big = true;
            }
        }
        assert(all_digits(s@.take(i + 1))) by {
            assert(forall|j: int| 0 <= j < i + 1 ==> is_digit_char(#[trigger] s@.take(i + 1)[j]));
        }
    }
    proof {
        assert(s@.take(len as int) =~= s@);
    }
    if too_big {
        None
    } else {
        Some(v as i32)
    }
}

} // verus!
