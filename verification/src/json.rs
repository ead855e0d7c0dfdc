//! Token-level machinery of the persisted structured-text form: whitespace,
//! literals, quoted strings with escapes, and decimal numbers. Every parsing
//! function has a specification-level mirror, and the lemmas at the end say
//! that parsing reads back exactly what serialization wrote.

use vstd::prelude::*;

use crate::color::{hex_char, hex_digit_value, hex_digit_value_exec, is_hex_digit,
    lemma_hex_char_value, hex_char_exec};
use crate::numeric::{all_dec_digits, dec_chars, digits_value, is_dec_digit, scan_dec_digits};
use crate::text::{char_from_code, code_char};

verus! {

/// Whitespace between tokens.
pub open spec fn is_ws(c: char) -> bool {
    c == ' ' || c == '\n' || c == '\t' || c == '\r'
}

/// The first index at or after `i` that does not hold whitespace.
pub open spec fn skip_ws(s: Seq<char>, i: int) -> int
    decreases s.len() - i when 0 <= i <= s.len()
{
    if i < s.len() && is_ws(s[i]) {
        skip_ws(s, i + 1)
    } else {
        i
    }
}

/// Whether the token stands at `i` in `s`.
pub open spec fn match_at(s: Seq<char>, i: int, tok: Seq<char>) -> bool {
    &&& 0 <= i
    &&& i + tok.len() <= s.len()
    &&& s.subrange(i, i + tok.len()) == tok
}

/// The escape sequence a character is written as inside a quoted string:
/// most characters stand for themselves; the quote, the backslash and
/// control characters are escaped.
pub open spec fn esc_char(c: char) -> Seq<char> {
    if c == '"' {
        seq!['\\', '"']
    } else if c == '\\' {
        seq!['\\', '\\']
    } else if c == '\n' {
        seq!['\\', 'n']
    } else if c == '\r' {
        seq!['\\', 'r']
    } else if c == '\t' {
        seq!['\\', 't']
    } else if c == '\u{8}' {
        seq!['\\', 'b']
    } else if c == '\u{c}' {
        seq!['\\', 'f']
    } else if (c as u32) < 32 {
        seq!['\\', 'u', '0', '0', hex_char((c as u32 as int) / 16), hex_char((c as u32 as int) % 16)]
    } else {
        seq![c]
    }
}

/// The escaped body of a quoted string.
pub open spec fn esc_str(t: Seq<char>) -> Seq<char>
    decreases t.len(),
{
    if t.len() == 0 {
        Seq::<char>::empty()
    } else {
        esc_char(t[0]) + esc_str(t.drop_first())
    }
}

/// The quoted form of a string: its escaped body between quotes.
pub open spec fn quoted(t: Seq<char>) -> Seq<char> {
    seq!['"'] + esc_str(t) + seq!['"']
}

/// Escaping distributes over appending one character.
pub proof fn lemma_esc_str_push(t: Seq<char>, c: char)
    ensures
        esc_str(t.push(c)) == esc_str(t) + esc_char(c),
    decreases t.len(),
{
    if t.len() == 0 {
        assert(t.push(c) =~= seq![c]);
        assert(t.push(c).drop_first() =~= Seq::<char>::empty());
        assert(esc_str(Seq::<char>::empty()) =~= Seq::<char>::empty());
        assert(esc_str(t.push(c)) =~= esc_str(t) + esc_char(c));
    } else {
        assert(t.push(c).drop_first() =~= t.drop_first().push(c));
        lemma_esc_str_push(t.drop_first(), c);
        assert(esc_str(t.push(c)) =~= esc_str(t) + esc_char(c));
    }
}

/// The character a single-character escape stands for, or `None` where the
/// escape is not recognized.
pub open spec fn simple_unescape(e: char) -> Option<char> {
    if e == '"' {
        Some('"')
    } else if e == '\\' {
        Some('\\')
    } else if e == '/' {
        Some('/')
    } else if e == 'n' {
        Some('\n')
    } else if e == 'r' {
        Some('\r')
    } else if e == 't' {
        Some('\t')
    } else if e == 'b' {
        Some('\u{8}')
    } else if e == 'f' {
        Some('\u{c}')
    } else {
        None
    }
}

/// Whether four hex digits stand at `i`.
pub open spec fn hex4_ok(s: Seq<char>, i: int) -> bool {
    &&& i + 4 <= s.len()
    &&& is_hex_digit(s[i])
    &&& is_hex_digit(s[i + 1])
    &&& is_hex_digit(s[i + 2])
    &&& is_hex_digit(s[i + 3])
}

/// The value of the four hex digits at `i`.
pub open spec fn hex4_val(s: Seq<char>, i: int) -> int {
    ((hex_digit_value(s[i]) * 16 + hex_digit_value(s[i + 1])) * 16 + hex_digit_value(s[i + 2]))
        * 16 + hex_digit_value(s[i + 3])
}

/// Parses the body of a quoted string from `i` up to and past the closing
/// quote: the characters read, and the index just past the quote. Raw
/// control characters, unknown escapes, surrogate code units and an unclosed
/// string are failures.
pub open spec fn parse_string_body(s: Seq<char>, i: int) -> Option<(Seq<char>, int)>
    decreases s.len() - i when 0 <= i <= s.len()
{
    if i >= s.len() {
        None
    } else if s[i] == '"' {
        Some((Seq::<char>::empty(), i + 1))
    } else if s[i] == '\\' {
        if i + 1 >= s.len() {
            None
        } else {
            let e = s[i + 1];
            if e == 'u' {
                if hex4_ok(s, i + 2) {
                    let v = hex4_val(s, i + 2);
                    if 0xD800 <= v < 0xE000 {
                        None
                    } else {
                        match parse_string_body(s, i + 6) {
                            Some((t, k)) => Some((seq![code_char(v as u32)] + t, k)),
                            None => None,
                        }
                    }
                } else {
                    None
                }
            } else {
                match simple_unescape(e) {
                    Some(c) => match parse_string_body(s, i + 2) {
                        Some((t, k)) => Some((seq![c] + t, k)),
                        None => None,
                    },
                    None => None,
                }
            }
        }
    } else if (s[i] as u32) < 32 {
        None
    } else {
        match parse_string_body(s, i + 1) {
            Some((t, k)) => Some((seq![s[i]] + t, k)),
            None => None,
        }
    }
}

/// A parsed string body ends inside the text, past where it began.
pub proof fn lemma_parse_string_body_bounds(s: Seq<char>, i: int)
    requires
        0 <= i <= s.len(),
    ensures
        parse_string_body(s, i) matches Some(p) ==> i < p.1 <= s.len(),
    decreases s.len() - i,
{
    if i < s.len() && s[i] != '"' {
        if s[i] == '\\' && i + 1 < s.len() {
            if s[i + 1] == 'u' {
                if hex4_ok(s, i + 2) {
                    lemma_parse_string_body_bounds(s, i + 6);
                }
            } else {
                lemma_parse_string_body_bounds(s, i + 2);
            }
        } else if s[i] != '\\' && (s[i] as u32) >= 32 {
            lemma_parse_string_body_bounds(s, i + 1);
        }
    }
}

/// Parses a quoted string standing at `i`.
pub open spec fn parse_string(s: Seq<char>, i: int) -> Option<(Seq<char>, int)> {
    if 0 <= i < s.len() && s[i] == '"' {
        parse_string_body(s, i + 1)
    } else {
        None
    }
}

/// The index just past the run of decimal digits starting at `i`.
pub open spec fn digit_run_end(s: Seq<char>, i: int) -> int
    decreases s.len() - i when 0 <= i <= s.len()
{
    if i < s.len() && is_dec_digit(s[i]) {
        digit_run_end(s, i + 1)
    } else {
        i
    }
}

/// The digit run ends exactly where the digits end.
pub proof fn lemma_digit_run_end(s: Seq<char>, i: int, j: int)
    requires
        0 <= i <= j <= s.len(),
        all_dec_digits(s.subrange(i, j)),
        j == s.len() || !is_dec_digit(s[j]),
    ensures
        digit_run_end(s, i) == j,
    decreases j - i,
{
    if i < j {
        assert(is_dec_digit(s[i])) by {
            assert(s.subrange(i, j)[0] == s[i]);
        }
        assert(all_dec_digits(s.subrange(i + 1, j))) by {
            assert(forall|k: int|
                0 <= k < j - i - 1 ==> #[trigger] s.subrange(i + 1, j)[k] == s.subrange(i, j)[k
                    + 1]);
        }
        lemma_digit_run_end(s, i + 1, j);
    }
}

/// Parses the decimal number standing at `i`: its digit run must be
/// non-empty and its value must fit a machine word.
pub open spec fn parse_number(s: Seq<char>, i: int) -> Option<(int, int)> {
    if 0 <= i <= s.len() {
        let j = digit_run_end(s, i);
        if j > i && digits_value(s.subrange(i, j)) <= usize::MAX {
            Some((digits_value(s.subrange(i, j)), j))
        } else {
            None
        }
    } else {
        None
    }
}

/// The text of a boolean.
pub open spec fn bool_chars(b: bool) -> Seq<char> {
    if b {
        "true"@
    } else {
        "false"@
    }
}

/// Parses the boolean standing at `i`.
pub open spec fn parse_bool(s: Seq<char>, i: int) -> Option<(bool, int)> {
    if match_at(s, i, "true"@) {
        Some((true, i + 4))
    } else if match_at(s, i, "false"@) {
        Some((false, i + 5))
    } else {
        None
    }
}

/// Skips whitespace, as [`skip_ws`] says.
pub fn skip_ws_exec(s: &Vec<char>, from: usize) -> (j: usize)
    requires
        from <= s@.len(),
    ensures
        j == skip_ws(s@, from as int),
        from <= j <= s@.len(),
        j < s@.len() ==> !is_ws(s@[j as int]),
{
    let n = s.len();
    let mut i = from;
    loop
        invariant
            from <= i <= n,
            n == s@.len(),
            skip_ws(s@, from as int) == skip_ws(s@, i as int),
        ensures
            from <= i <= n,
            skip_ws(s@, from as int) == skip_ws(s@, i as int),
            i == n || !is_ws(s@[i as int]),
        decreases n - i,
    {
        if i >= n {
            break ;
        }
        let c = s[i];
        if !(c == ' ' || c == '\n' || c == '\t' || c == '\r') {
            break ;
        }
        i += 1;
    }
    i
}

/// Tests whether the literal stands at `i`, as [`match_at`] says.
pub fn match_lit(s: &Vec<char>, i: usize, lit: &str) -> (b: bool)
    ensures
        b == match_at(s@, i as int, lit@),
{
    let m = lit.unicode_len();
    let n = s.len();
    if i > n || m > n - i {
        return false;
    }
    let mut k: usize = 0;
    while k < m
        invariant
            n == s@.len(),
            i + m <= n,
            m == lit@.len(),
            k <= m,
            forall|j: int| 0 <= j < k ==> s@[i + j] == lit@[j],
        decreases m - k,
    {
        if s[i + k] != lit.get_char(k) {
            proof {
                assert(s@.subrange(i as int, i + m as int)[k as int] == s@[i + k]);
            }
            return false;
        }
        k += 1;
    }
    proof {
        assert(s@.subrange(i as int, i + m as int) =~= lit@);
    }
    true
}

/// Parses a quoted string, as [`parse_string`] says.
pub fn parse_string_exec(s: &Vec<char>, from: usize) -> (r: Option<(Vec<char>, usize)>)
    requires
        from <= s@.len(),
    ensures
        match parse_string(s@, from as int) {
            Some(p) => (r matches Some(q) && q.0@ == p.0 && q.1 == p.1 && from < q.1
                <= s@.len()),
            None => r is None,
        },
{
    let n = s.len();
    if from >= n || s[from] != '"' {
        return None;
    }
    let mut i = from + 1;
    let mut acc: Vec<char> = Vec::new();
    loop
        invariant
            from < n,
            n == s@.len(),
            s@[from as int] == '"',
            from + 1 <= i <= n,
            match parse_string_body(s@, i as int) {
                Some(p) => parse_string_body(s@, from + 1 as int) == Some::<(Seq<char>, int)>(
                    (acc@ + p.0, p.1),
                ),
                None => parse_string_body(s@, from + 1 as int) is None,
            },
        decreases n - i,
    {
        if i >= n {
            return None;
        }
        let c = s[i];
        if c == '"' {
            proof {
                assert(acc@ + Seq::<char>::empty() =~= acc@);
            }
            return Some((acc, i + 1));
        }
        if c == '\\' {
            if i + 1 >= n {
                return None;
            }
            let e = s[i + 1];
            if e == 'u' {
                if n - i < 6 {
                    proof {
                        assert(!hex4_ok(s@, i + 2));
                    }
                    return None;
                }
                let h0 = hex_digit_value_exec(s[i + 2]);
                let h1 = hex_digit_value_exec(s[i + 3]);
                let h2 = hex_digit_value_exec(s[i + 4]);
                let h3 = hex_digit_value_exec(s[i + 5]);
                match (h0, h1, h2, h3) {
                    (Some(a), Some(b), Some(cc), Some(d)) => {
                        let v: u32 = ((a as u32 * 16 + b as u32) * 16 + cc as u32) * 16
                            + d as u32;
                        if 0xD800 <= v && v < 0xE000 {
                            return None;
                        }
                        let ghost prev = acc@;
                        acc.push(char_from_code(v));
                        proof {
                            let ghost step = parse_string_body(s@, i as int);
                            assert(step matches Some(p) ==> p.0 == seq![code_char(v)]
                                + parse_string_body(s@, i + 6 as int)->Some_0.0);
                            assert(acc@ =~= prev.push(code_char(v)));
                            if parse_string_body(s@, i + 6 as int) is Some {
                                let q = parse_string_body(s@, i + 6 as int)->Some_0;
                                assert(prev + (seq![code_char(v)] + q.0) =~= acc@ + q.0);
                            }
                        }
                        i = i + 6;
                    },
                    _ => {
                        return None;
                    },
                }
            } else {
                let unescaped: Option<char> = if e == '"' {
                    Some('"')
                } else if e == '\\' {
                    Some('\\')
                } else if e == '/' {
                    Some('/')
                } else if e == 'n' {
                    Some('\n')
                } else if e == 'r' {
                    Some('\r')
                } else if e == 't' {
                    Some('\t')
                } else if e == 'b' {
                    Some('\u{8}')
                } else if e == 'f' {
                    Some('\u{c}')
                } else {
                    None
                };
                match unescaped {
                    Some(u) => {
                        proof {
                            assert(simple_unescape(e) == Some::<char>(u));
                        }
                        let ghost prev = acc@;
                        acc.push(u);
                        proof {
                            assert(acc@ =~= prev.push(u));
                            if parse_string_body(s@, i + 2 as int) is Some {
                                let q = parse_string_body(s@, i + 2 as int)->Some_0;
                                assert(prev + (seq![u] + q.0) =~= acc@ + q.0);
                            }
                        }
                        i = i + 2;
                    },
                    None => {
                        proof {
                            assert(simple_unescape(e) is None);
                        }
                        return None;
                    },
                }
            }
        } else if (c as u32) < 32 {
            return None;
        } else {
            let ghost prev = acc@;
            acc.push(c);
            proof {
                assert(acc@ =~= prev.push(c));
                if parse_string_body(s@, i + 1 as int) is Some {
                    let q = parse_string_body(s@, i + 1 as int)->Some_0;
                    assert(prev + (seq![c] + q.0) =~= acc@ + q.0);
                }
            }
            i = i + 1;
        }
    }
}

/// Parses a decimal number, as [`parse_number`] says.
pub fn parse_number_exec(s: &Vec<char>, from: usize) -> (r: Option<(usize, usize)>)
    requires
        from <= s@.len(),
    ensures
        match parse_number(s@, from as int) {
            Some(p) => (r matches Some(q) && q.0 == p.0 && q.1 == p.1 && from < q.1
                <= s@.len()),
            None => r is None,
        },
{
    let (value, end) = scan_dec_digits(s, from);
    proof {
        lemma_digit_run_end(s@, from as int, end as int);
    }
    match value {
        Some(v) => Some((v, end)),
        None => None,
    }
}

/// Parses a boolean, as [`parse_bool`] says.
pub fn parse_bool_exec(s: &Vec<char>, from: usize) -> (r: Option<(bool, usize)>)
    ensures
        match parse_bool(s@, from as int) {
            Some(p) => (r matches Some(q) && q.0 == p.0 && q.1 == p.1 && from < q.1
                <= s@.len()),
            None => r is None,
        },
{
    let n = s.len();
    proof {
        reveal_strlit("true");
        reveal_strlit("false");
    }
    if match_lit(s, from, "true") {
        proof {
            assert(from + 4 <= n);
        }
        Some((true, from + 4))
    } else if match_lit(s, from, "false") {
        proof {
            assert(from + 5 <= n);
        }
        Some((false, from + 5))
    } else {
        None
    }
}

/// Skipping whitespace where none stands is the identity.
pub proof fn lemma_skip_ws_none(s: Seq<char>, i: int)
    requires
        0 <= i <= s.len(),
        i == s.len() || !is_ws(s[i]),
    ensures
        skip_ws(s, i) == i,
{
}

/// Parsing a string body reads back exactly what escaping wrote.
pub proof fn lemma_parse_body_of_esc(s: Seq<char>, i: int, t: Seq<char>)
    requires
        0 <= i,
        i + esc_str(t).len() + 1 <= s.len(),
        s.subrange(i, i + esc_str(t).len() + 1) == esc_str(t) + seq!['"'],
    ensures
        parse_string_body(s, i) == Some::<(Seq<char>, int)>((t, i + esc_str(t).len() + 1)),
    decreases t.len(),
{
    let body = esc_str(t);
    let whole = body + seq!['"'];
    assert forall|k: int| 0 <= k < whole.len() implies s[i + k] == #[trigger] whole[k] by {
        assert(s.subrange(i, i + body.len() + 1)[k] == s[i + k]);
    }
    if t.len() == 0 {
        assert(whole[0] == '"');
        assert(s[i] == whole[0]);
        assert(t =~= Seq::<char>::empty());
    } else {
        let c = t[0];
        let rest = t.drop_first();
        let ec = esc_char(c);
        let m = ec.len();
        assert(body == ec + esc_str(rest));
        assert(forall|k: int| 0 <= k < m ==> #[trigger] ec[k] == whole[k]);
        // hand the tail over to the induction hypothesis
        assert(s.subrange(i + m, i + body.len() + 1) =~= s.subrange(
            i,
            i + body.len() + 1,
        ).subrange(m as int, body.len() as int + 1));
        assert(s.subrange(i + m, i + body.len() + 1) =~= esc_str(rest) + seq!['"']);
        lemma_parse_body_of_esc(s, i + m, rest);
        assert(seq![c] + rest =~= t);
        if c == '"' {
            assert(s[i] == '\\' && s[i + 1] == '"');
        } else if c == '\\' {
            assert(s[i] == '\\' && s[i + 1] == '\\');
        } else if c == '\n' {
            assert(s[i] == '\\' && s[i + 1] == 'n');
        } else if c == '\r' {
            assert(s[i] == '\\' && s[i + 1] == 'r');
        } else if c == '\t' {
            assert(s[i] == '\\' && s[i + 1] == 't');
        } else if c == '\u{8}' {
            assert(s[i] == '\\' && s[i + 1] == 'b');
        } else if c == '\u{c}' {
            assert(s[i] == '\\' && s[i + 1] == 'f');
        } else if (c as u32) < 32 {
            let u = c as u32 as int;
            assert(s[i] == '\\' && s[i + 1] == 'u' && s[i + 2] == '0' && s[i + 3] == '0' && s[i
                + 4] == hex_char(u / 16) && s[i + 5] == hex_char(u % 16));
            lemma_hex_char_value(u / 16);
            lemma_hex_char_value(u % 16);
            assert(hex4_ok(s, i + 2));
            vstd::arithmetic::div_mod::lemma_fundamental_div_mod(u, 16);
            assert(hex4_val(s, i + 2) == u);
            assert(code_char(u as u32) as u32 == u as u32);
            assert(u as u32 == c as u32);
            crate::text::lemma_char_code_inj(code_char(u as u32), c);
        } else {
            assert(s[i] == c);
            assert(s[i] != '"' && s[i] != '\\' && (s[i] as u32) >= 32);
        }
    }
}

/// Parsing a quoted string reads back exactly what quoting wrote.
pub proof fn lemma_parse_of_quoted(s: Seq<char>, i: int, t: Seq<char>)
    requires
        match_at(s, i, quoted(t)),
    ensures
        parse_string(s, i) == Some::<(Seq<char>, int)>((t, i + quoted(t).len())),
{
    let body = esc_str(t);
    assert(s[i] == '"') by {
        assert(s.subrange(i, i + quoted(t).len())[0] == s[i]);
    }
    assert(s.subrange(i + 1, i + 1 + body.len() + 1) =~= s.subrange(
        i,
        i + quoted(t).len(),
    ).subrange(1, quoted(t).len() as int));
    assert(s.subrange(i + 1, i + 1 + body.len() + 1) =~= body + seq!['"']);
    lemma_parse_body_of_esc(s, i + 1, t);
}

/// Parsing a number reads back exactly the canonical decimal text, where the
/// text is followed by a non-digit or the end.
pub proof fn lemma_parse_number_of_dec(s: Seq<char>, i: int, n: usize)
    requires
        match_at(s, i, dec_chars(n as nat)),
        i + dec_chars(n as nat).len() == s.len() || !is_dec_digit(
            s[i + dec_chars(n as nat).len()],
        ),
    ensures
        parse_number(s, i) == Some::<(int, int)>((n as int, i + dec_chars(n as nat).len())),
{
    let d = dec_chars(n as nat);
    let j = i + d.len();
    crate::numeric::lemma_dec_chars_value(n as nat);
    assert(s.subrange(i, j) == d);
    assert(all_dec_digits(s.subrange(i, j)));
    lemma_digit_run_end(s, i, j);
    assert(digits_value(s.subrange(i, j)) == n);
}

/// Parsing a boolean reads back exactly its text.
pub proof fn lemma_parse_bool_of_chars(s: Seq<char>, i: int, b: bool)
    requires
        match_at(s, i, bool_chars(b)),
    ensures
        parse_bool(s, i) == Some::<(bool, int)>((b, i + bool_chars(b).len())),
{
    reveal_strlit("true");
    reveal_strlit("false");
    if b {
    } else {
        if match_at(s, i, "true"@) {
            assert(s.subrange(i, i + 4)[0] == s[i]);
            assert(s.subrange(i, i + 5)[0] == s[i]);
            assert(false);
        }
    }
}

} // verus!
