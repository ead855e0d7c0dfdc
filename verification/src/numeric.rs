//! Decimal text for unsigned machine integers, with the laws relating the
//! printed form and the parsed value.

use vstd::prelude::*;

use crate::color::hex_char_exec;
use crate::color::hex_char;

verus! {

/// Whether `c` is a decimal digit.
pub open spec fn is_dec_digit(c: char) -> bool {
    '0' as u32 <= c as u32 && c as u32 <= '9' as u32
}

/// The value of a decimal digit character.
pub open spec fn dec_value(c: char) -> int {
    c as u32 - '0' as u32
}

/// Whether every character of `s` is a decimal digit.
pub open spec fn all_dec_digits(s: Seq<char>) -> bool {
    forall|i: int| 0 <= i < s.len() ==> is_dec_digit(#[trigger] s[i])
}

/// The number denoted by a digit string, most significant digit first.
pub open spec fn digits_value(s: Seq<char>) -> int
    decreases s.len(),
{
    if s.len() == 0 {
        0
    } else {
        digits_value(s.drop_last()) * 10 + dec_value(s.last())
    }
}

/// The canonical decimal text of `n`: no sign, no leading zero.
pub open spec fn dec_chars(n: nat) -> Seq<char>
    decreases n,
{
    if n < 10 {
        seq![hex_char(n as int)]
    } else {
        dec_chars(n / 10) + seq![hex_char(n as int % 10)]
    }
}

/// The digits of `s` after an optional leading `+` sign.
pub open spec fn numeric_body(s: Seq<char>) -> Seq<char> {
    if s.len() > 0 && s[0] == '+' {
        s.drop_first()
    } else {
        s
    }
}

/// Whether `s` is accepted by a parse to `usize`: an optional `+`, then at
/// least one decimal digit, and a value that fits the machine word.
pub open spec fn parses_as_usize(s: Seq<char>) -> bool {
    &&& numeric_body(s).len() > 0
    &&& all_dec_digits(numeric_body(s))
    &&& digits_value(numeric_body(s)) <= usize::MAX
}

/// The value `s` parses to, where it parses.
pub open spec fn usize_of_chars(s: Seq<char>) -> int {
    digits_value(numeric_body(s))
}

/// A digit string's value is non-negative.
pub proof fn lemma_digits_value_nonneg(s: Seq<char>)
    requires
        all_dec_digits(s),
    ensures
        digits_value(s) >= 0,
    decreases s.len(),
{
    if s.len() > 0 {
        lemma_digits_value_nonneg(s.drop_last());
    }
}

/// Extending a digit string multiplies the value by ten and adds the digit.
pub proof fn lemma_digits_value_push(s: Seq<char>, c: char)
    ensures
        digits_value(s.push(c)) == digits_value(s) * 10 + dec_value(c),
{
    assert(s.push(c).drop_last() =~= s);
}

/// The canonical decimal text of `n` is made of digits, is never empty, never
/// starts with a sign, and denotes `n` again.
pub proof fn lemma_dec_chars_value(n: nat)
    ensures
        dec_chars(n).len() > 0,
        all_dec_digits(dec_chars(n)),
        dec_chars(n)[0] != '+',
        digits_value(dec_chars(n)) == n,
    decreases n,
{
    if n < 10 {
        let s = seq![hex_char(n as int)];
        assert(s.drop_last() =~= Seq::<char>::empty());
        assert(digits_value(s.drop_last()) == 0);
        assert(digits_value(s) == dec_value(hex_char(n as int)));
        assert(dec_value(hex_char(n as int)) == n);
    } else {
        lemma_dec_chars_value(n / 10);
        let pre = dec_chars(n / 10);
        let d = hex_char(n as int % 10);
        assert(dec_chars(n) =~= pre.push(d));
        lemma_digits_value_push(pre, d);
        assert(dec_value(d) == n % 10);
        vstd::arithmetic::div_mod::lemma_fundamental_div_mod(n as int, 10);
    }
}

/// The canonical decimal text of a machine word parses back to it.
pub proof fn lemma_dec_chars_parses(n: usize)
    ensures
        parses_as_usize(dec_chars(n as nat)),
        usize_of_chars(dec_chars(n as nat)) == n,
{
    lemma_dec_chars_value(n as nat);
    assert(numeric_body(dec_chars(n as nat)) =~= dec_chars(n as nat));
}

/// Scans the decimal digit run of `s` that starts at `from`. Returns the index
/// just past the run, and its value where the run is non-empty and fits a
/// machine word.
pub fn scan_dec_digits(s: &Vec<char>, from: usize) -> (r: (Option<usize>, usize))
    requires
        from <= s@.len(),
    ensures
        from <= r.1 <= s@.len(),
        all_dec_digits(s@.subrange(from as int, r.1 as int)),
        r.1 < s@.len() ==> !is_dec_digit(s@[r.1 as int]),
        r.1 > from ==> is_dec_digit(s@[from as int]),
        r.0 matches Some(v) ==> r.1 > from && v == digits_value(
            s@.subrange(from as int, r.1 as int),
        ),
        r.0 is None ==> r.1 == from || digits_value(s@.subrange(from as int, r.1 as int))
            > usize::MAX,
{
    let len = s.len();
    let mut i: usize = from;
    let mut acc: usize = 0;
    let mut over = false;
    loop
        invariant
            from <= i <= len,
            len == s@.len(),
            all_dec_digits(s@.subrange(from as int, i as int)),
            i > from ==> is_dec_digit(s@[from as int]),
            i > from || (acc == 0 && !over),
            !over ==> acc == digits_value(s@.subrange(from as int, i as int)),
            over ==> digits_value(s@.subrange(from as int, i as int)) > usize::MAX,
        ensures
            from <= i <= len,
            len == s@.len(),
            all_dec_digits(s@.subrange(from as int, i as int)),
            i > from ==> is_dec_digit(s@[from as int]),
            i < len ==> !is_dec_digit(s@[i as int]),
            i > from || (acc == 0 && !over),
            !over ==> acc == digits_value(s@.subrange(from as int, i as int)),
            over ==> digits_value(s@.subrange(from as int, i as int)) > usize::MAX,
        decreases len - i,
    {
        if i >= len {
            break ;
        }
        let c = s[i];
        let u = c as u32;
        if !(48 <= u && u <= 57) {
            break ;
        }
        let d = (u - 48) as usize;
        proof {
            assert(is_dec_digit(c));
            assert(s@.subrange(from as int, i + 1 as int) =~= s@.subrange(
                from as int,
                i as int,
            ).push(c));
            lemma_digits_value_push(s@.subrange(from as int, i as int), c);
            lemma_digits_value_nonneg(s@.subrange(from as int, i as int));
        }
        if over {
        } else if acc > (usize::MAX - d) / 10 {
            proof {
                vstd::arithmetic::div_mod::lemma_fundamental_div_mod(
                    (usize::MAX - d) as int,
                    10,
                );
            }
            over = true;
        } else {
            proof {
                vstd::arithmetic::div_mod::lemma_fundamental_div_mod(
                    (usize::MAX - d) as int,
                    10,
                );
            }
            acc = acc * 10 + d;
        }
        i += 1;
    }
    if i == from || over {
        (None, i)
    } else {
        (Some(acc), i)
    }
}

/// The canonical decimal text of `n`, as characters.
pub fn usize_to_chars(n: usize) -> (r: Vec<char>)
    ensures
        r@ == dec_chars(n as nat),
{
    let mut out: Vec<char> = Vec::new();
    if n == 0 {
        out.push('0');
        proof {
            assert(out@ =~= dec_chars(0));
        }
        return out;
    }
    let mut m: usize = n;
    proof {
        assert(dec_chars(n as nat) =~= dec_chars(n as nat) + out@);
    }
    while m > 0
        invariant
            n > 0,
            0 <= m,
            m > 0 ==> dec_chars(n as nat) == dec_chars(m as nat) + out@,
            m == 0 ==> dec_chars(n as nat) == out@,
        decreases m,
    {
        let d = (m % 10) as u8;
        let ghost prev = out@;
        out.insert(0, hex_char_exec(d));
        proof {
            assert(out@ =~= seq![hex_char(d as int)] + prev);
            if m >= 10 {
                assert(dec_chars(m as nat) =~= dec_chars((m / 10) as nat) + seq![
                    hex_char(m as int % 10)
                ]);
                assert(dec_chars((m / 10) as nat) + out@ =~= dec_chars((m / 10) as nat) + (seq![
                    hex_char(d as int)
                ] + prev));
                assert(dec_chars((m / 10) as nat) + (seq![hex_char(d as int)] + prev)
                    =~= (dec_chars((m / 10) as nat) + seq![hex_char(m as int % 10)]) + prev);
            } else {
                assert(d as int == m as int);
                assert(dec_chars(m as nat) =~= seq![hex_char(m as int)]);
                assert(out@ =~= dec_chars(m as nat) + prev);
            }
        }
        m = m / 10;
    }
    out
}

} // verus!
