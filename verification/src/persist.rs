//! Persistence of descriptors as structured text: a deterministic serializer,
//! a parser for the same shape, and the law that parsing reads back exactly
//! what serialization wrote.
//!
//! The shape is the descriptor itself: `{"elements":{...},"style":{...},
//! "fields":[...]}`. The parser allows whitespace between tokens, accepts the
//! `elements` and `style` objects, a field's `wrap` and a field's `color`
//! also as absent, filling in their documented defaults, and accepts `null`
//! for an absent color.

use vstd::prelude::*;

use crate::color::{color_chars, color_of_chars, valid_color_chars, ColorValue};
use crate::descriptor::{default_elements, default_style, fields_view, Descriptor, DescriptorView,
    ElementsConfig, FieldLength, FieldModel, FieldModelView, LengthView, StyleConfig};
use crate::errors::ProtoError;
use crate::json::{bool_chars, esc_char, esc_str, is_ws, match_at, match_lit, parse_bool,
    parse_bool_exec, parse_number, parse_number_exec, parse_string, parse_string_exec, quoted,
    skip_ws, skip_ws_exec};
use crate::color::hex_char_exec;
use crate::numeric::{dec_chars, usize_to_chars};
use crate::text::{append_str_chars, chars_of_str, string_from_chars};

verus! {

// ------------------------------------------------------------------
// The keys of the shape, each with its quotes.
// ------------------------------------------------------------------

pub open spec fn key_elements() -> Seq<char> {
    "\"elements\""@
}

pub open spec fn key_style() -> Seq<char> {
    "\"style\""@
}

pub open spec fn key_fields() -> Seq<char> {
    "\"fields\""@
}

pub open spec fn key_name() -> Seq<char> {
    "\"name\""@
}

pub open spec fn key_length() -> Seq<char> {
    "\"length\""@
}

pub open spec fn key_wrap() -> Seq<char> {
    "\"wrap\""@
}

pub open spec fn key_color() -> Seq<char> {
    "\"color\""@
}

pub open spec fn key_network_order() -> Seq<char> {
    "\"network_order\""@
}

pub open spec fn key_inner_subtitles() -> Seq<char> {
    "\"inner_subtitles\""@
}

pub open spec fn key_field_position() -> Seq<char> {
    "\"field_position\""@
}

pub open spec fn key_field_length() -> Seq<char> {
    "\"field_length\""@
}

pub open spec fn key_wrap_line() -> Seq<char> {
    "\"wrap_line\""@
}

pub open spec fn key_start_symbol() -> Seq<char> {
    "\"start_symbol\""@
}

pub open spec fn key_background_color() -> Seq<char> {
    "\"background_color\""@
}

pub open spec fn key_field_color() -> Seq<char> {
    "\"field_color\""@
}

pub open spec fn key_text_color() -> Seq<char> {
    "\"text_color\""@
}

pub open spec fn key_subtitle_color() -> Seq<char> {
    "\"subtitle_color\""@
}

pub open spec fn key_unit_width() -> Seq<char> {
    "\"unit_width\""@
}

pub open spec fn key_dyn_units() -> Seq<char> {
    "\"dyn_units\""@
}

/// Older name of `network_order` that engine-written files may carry.
pub open spec fn key_is_network() -> Seq<char> {
    "\"is_network\""@
}

/// Older name of `field_position` that engine-written files may carry.
pub open spec fn key_position() -> Seq<char> {
    "\"position\""@
}

// ------------------------------------------------------------------
// The serialized text, member by member.
// ------------------------------------------------------------------

/// One `"key":value` member.
pub open spec fn member(key: Seq<char>, val: Seq<char>) -> Seq<char> {
    key + seq![':'] + val
}

/// A color as serialized: its canonical text, quoted.
pub open spec fn ser_color(c: ColorValue) -> Seq<char> {
    quoted(color_chars(c))
}

/// A length as serialized: a bare number for a fixed length, a quoted
/// string for a symbolic one.
pub open spec fn ser_length(l: LengthView) -> Seq<char> {
    match l {
        LengthView::Fixed(n) => dec_chars(n as nat),
        LengthView::Variable(e) => quoted(e),
    }
}

/// A field's trailing color member: absent where the field inherits the
/// default color.
pub open spec fn ser_field_color(c: Option<ColorValue>) -> Seq<char> {
    match c {
        Some(cv) => seq![','] + member(key_color(), ser_color(cv)),
        None => Seq::<char>::empty(),
    }
}

/// One field as serialized.
pub open spec fn ser_field(f: FieldModelView) -> Seq<char> {
    seq!['{'] + member(key_name(), quoted(f.name)) + seq![','] + member(
        key_length(),
        ser_length(f.length),
    ) + seq![','] + member(key_wrap(), bool_chars(f.wrap)) + ser_field_color(f.color)
        + seq!['}']
}

/// The tail of the field array after its first element.
pub open spec fn ser_fields_rest(fs: Seq<FieldModelView>) -> Seq<char>
    decreases fs.len(),
{
    if fs.len() == 0 {
        seq![']']
    } else {
        seq![','] + ser_field(fs[0]) + ser_fields_rest(fs.drop_first())
    }
}

/// The field array as serialized.
pub open spec fn ser_fields(fs: Seq<FieldModelView>) -> Seq<char> {
    if fs.len() == 0 {
        seq!['[', ']']
    } else {
        seq!['['] + ser_field(fs[0]) + ser_fields_rest(fs.drop_first())
    }
}

/// The annotation toggles as serialized.
pub open spec fn ser_elements(e: ElementsConfig) -> Seq<char> {
    seq!['{'] + member(key_network_order(), bool_chars(e.network_order)) + seq![','] + member(
        key_inner_subtitles(),
        bool_chars(e.inner_subtitles),
    ) + seq![','] + member(key_field_position(), bool_chars(e.field_position)) + seq![',']
        + member(key_field_length(), bool_chars(e.field_length)) + seq![','] + member(
        key_wrap_line(),
        bool_chars(e.wrap_line),
    ) + seq![','] + member(key_start_symbol(), bool_chars(e.start_symbol)) + seq!['}']
}

/// The style settings as serialized.
pub open spec fn ser_style(st: StyleConfig) -> Seq<char> {
    seq!['{'] + member(key_background_color(), ser_color(st.background_color)) + seq![',']
        + member(key_field_color(), ser_color(st.field_color)) + seq![','] + member(
        key_text_color(),
        ser_color(st.text_color),
    ) + seq![','] + member(key_subtitle_color(), ser_color(st.subtitle_color)) + seq![',']
        + member(key_unit_width(), dec_chars(st.unit_width as nat)) + seq![','] + member(
        key_dyn_units(),
        dec_chars(st.dyn_units as nat),
    ) + seq!['}']
}

/// The whole descriptor as serialized.
pub open spec fn json_of(d: DescriptorView) -> Seq<char> {
    seq!['{'] + member(key_elements(), ser_elements(d.elements)) + seq![','] + member(
        key_style(),
        ser_style(d.style),
    ) + seq![','] + member(key_fields(), ser_fields(d.fields)) + seq!['}']
}

// ------------------------------------------------------------------
// The parser, over the same shape.
// ------------------------------------------------------------------

/// Skips whitespace and consumes the expected character.
pub open spec fn expect_char(s: Seq<char>, i: int, c: char) -> Option<int> {
    if 0 <= i <= s.len() {
        let a = skip_ws(s, i);
        if a < s.len() && s[a] == c {
            Some(a + 1)
        } else {
            None
        }
    } else {
        None
    }
}

/// Skips whitespace, consumes the key and its colon, and stands at the
/// value.
pub open spec fn after_key(s: Seq<char>, i: int, key: Seq<char>) -> Option<int> {
    if 0 <= i <= s.len() {
        let a = skip_ws(s, i);
        if match_at(s, a, key) {
            let b = skip_ws(s, a + key.len());
            if b < s.len() && s[b] == ':' {
                Some(skip_ws(s, b + 1))
            } else {
                None
            }
        } else {
            None
        }
    } else {
        None
    }
}

/// Parses a quoted color string.
pub open spec fn parse_color_token(s: Seq<char>, i: int) -> Option<(ColorValue, int)> {
    match parse_string(s, i) {
        Some((t, j)) => if valid_color_chars(t) {
            Some((color_of_chars(t), j))
        } else {
            None
        },
        None => None,
    }
}

/// Parses a quoted color string or `null` for an absent color.
pub open spec fn parse_color_or_null(s: Seq<char>, i: int) -> Option<(Option<ColorValue>, int)> {
    if match_at(s, i, "null"@) {
        Some((None, i + 4))
    } else {
        match parse_color_token(s, i) {
            Some((c, j)) => Some((Some(c), j)),
            None => None,
        }
    }
}

/// Parses a length value: a quoted string is a symbolic length, a bare
/// number a fixed one.
pub open spec fn parse_length_token(s: Seq<char>, i: int) -> Option<(LengthView, int)> {
    if 0 <= i < s.len() && s[i] == '"' {
        match parse_string(s, i) {
            Some((t, j)) => Some((LengthView::Variable(t), j)),
            None => None,
        }
    } else {
        match parse_number(s, i) {
            Some((n, j)) => Some((LengthView::Fixed(n), j)),
            None => None,
        }
    }
}

/// Parses `"color": value` and the closing brace of a field.
pub open spec fn parse_color_member_end(s: Seq<char>, i: int) -> Option<(Option<ColorValue>, int)> {
    match after_key(s, i, key_color()) {
        Some(h) => match parse_color_or_null(s, h) {
            Some((c, j)) => match expect_char(s, j, '}') {
                Some(k) => Some((c, k)),
                None => None,
            },
            None => None,
        },
        None => None,
    }
}

/// Parses a field's optional color member and the closing brace.
pub open spec fn parse_field_color_tail(s: Seq<char>, i: int) -> Option<(Option<ColorValue>, int)> {
    match expect_char(s, i, ',') {
        Some(g) => parse_color_member_end(s, g),
        None => match expect_char(s, i, '}') {
            Some(g) => Some((None, g)),
            None => None,
        },
    }
}

/// Parses a field's optional wrap and color members and the closing brace.
pub open spec fn parse_field_tail(s: Seq<char>, i: int) -> Option<((bool, Option<ColorValue>), int)> {
    match expect_char(s, i, ',') {
        Some(g) => match after_key(s, g, key_wrap()) {
            Some(h) => match parse_bool(s, h) {
                Some((w, j)) => match parse_field_color_tail(s, j) {
                    Some((c, k)) => Some(((w, c), k)),
                    None => None,
                },
                None => None,
            },
            None => match parse_color_member_end(s, g) {
                Some((c, k)) => Some(((false, c), k)),
                None => None,
            },
        },
        None => match expect_char(s, i, '}') {
            Some(g) => Some(((false, None), g)),
            None => None,
        },
    }
}

/// Parses one field object.
pub open spec fn parse_field(s: Seq<char>, i: int) -> Option<(FieldModelView, int)> {
    match expect_char(s, i, '{') {
        Some(a) => match after_key(s, a, key_name()) {
            Some(b) => match parse_string(s, b) {
                Some((name, c)) => match expect_char(s, c, ',') {
                    Some(d) => match after_key(s, d, key_length()) {
                        Some(e) => match parse_length_token(s, e) {
                            Some((length, f)) => match parse_field_tail(s, f) {
                                Some(((wrap, color), k)) => Some(
                                    (FieldModelView { name, length, wrap, color }, k),
                                ),
                                None => None,
                            },
                            None => None,
                        },
                        None => None,
                    },
                    None => None,
                },
                None => None,
            },
            None => None,
        },
        None => None,
    }
}

/// Parses the tail of the field array: `, field ... ]` or `]`.
pub open spec fn parse_fields_rest(s: Seq<char>, i: int, acc: Seq<FieldModelView>) -> Option<
    (Seq<FieldModelView>, int),
>
    decreases s.len() - i when 0 <= i <= s.len()
{
    match expect_char(s, i, ']') {
        Some(g) => Some((acc, g)),
        None => match expect_char(s, i, ',') {
            Some(g) => match parse_field(s, g) {
                Some((f, j)) => if i < j <= s.len() {
                    parse_fields_rest(s, j, acc.push(f))
                } else {
                    None
                },
                None => None,
            },
            None => None,
        },
    }
}

/// Parses the field array.
pub open spec fn parse_fields(s: Seq<char>, i: int) -> Option<(Seq<FieldModelView>, int)> {
    match expect_char(s, i, '[') {
        Some(a) => match expect_char(s, a, ']') {
            Some(g) => Some((Seq::<FieldModelView>::empty(), g)),
            None => match parse_field(s, a) {
                Some((f, j)) => if a <= j <= s.len() {
                    parse_fields_rest(s, j, seq![f])
                } else {
                    None
                },
                None => None,
            },
        },
        None => None,
    }
}

/// Consumes the key, or the older alias an engine-written file may carry,
/// with its colon.
pub open spec fn after_key_or_alias(
    s: Seq<char>,
    i: int,
    key: Seq<char>,
    alias: Seq<char>,
) -> Option<int> {
    match after_key(s, i, key) {
        Some(j) => Some(j),
        None => after_key(s, i, alias),
    }
}

/// Parses one optional `"key": bool` member at a member boundary. Where the
/// separating comma (none before the first member) and the key or its alias
/// stand, the value is read; otherwise nothing is consumed and the default
/// stands. Returns the value, the next position, and whether the object
/// still waits for its first member.
pub open spec fn parse_opt_bool_member(
    s: Seq<char>,
    i: int,
    key: Seq<char>,
    alias: Seq<char>,
    first: bool,
    dflt: bool,
) -> Option<(bool, int, bool)> {
    let start = if first {
        Some(i)
    } else {
        expect_char(s, i, ',')
    };
    match start {
        Some(g) => match after_key_or_alias(s, g, key, alias) {
            Some(h) => match parse_bool(s, h) {
                Some((b, j)) => Some((b, j, false)),
                None => None,
            },
            None => Some((dflt, i, first)),
        },
        None => Some((dflt, i, first)),
    }
}

/// Parses one optional `"key": color` member at a member boundary, like
/// [`parse_opt_bool_member`].
pub open spec fn parse_opt_color_member(
    s: Seq<char>,
    i: int,
    key: Seq<char>,
    first: bool,
    dflt: ColorValue,
) -> Option<(ColorValue, int, bool)> {
    let start = if first {
        Some(i)
    } else {
        expect_char(s, i, ',')
    };
    match start {
        Some(g) => match after_key(s, g, key) {
            Some(h) => match parse_color_token(s, h) {
                Some((c, j)) => Some((c, j, false)),
                None => None,
            },
            None => Some((dflt, i, first)),
        },
        None => Some((dflt, i, first)),
    }
}

/// Parses one optional `"key": number` member at a member boundary, like
/// [`parse_opt_bool_member`].
pub open spec fn parse_opt_number_member(
    s: Seq<char>,
    i: int,
    key: Seq<char>,
    first: bool,
    dflt: int,
) -> Option<(int, int, bool)> {
    let start = if first {
        Some(i)
    } else {
        expect_char(s, i, ',')
    };
    match start {
        Some(g) => match after_key(s, g, key) {
            Some(h) => match parse_number(s, h) {
                Some((n, j)) => Some((n, j, false)),
                None => None,
            },
            None => Some((dflt, i, first)),
        },
        None => Some((dflt, i, first)),
    }
}

/// Parses the annotation-toggle object: the six members in canonical order,
/// each optional with its documented default of `true`, accepting the
/// engine's older member names `is_network`, `position` and `length`.
pub open spec fn parse_elements_obj(s: Seq<char>, i: int) -> Option<(ElementsConfig, int)> {
    match expect_char(s, i, '{') {
        Some(a) => match parse_opt_bool_member(
            s,
            a,
            key_network_order(),
            key_is_network(),
            true,
            true,
        ) {
            Some((network_order, p1, f1)) => match parse_opt_bool_member(
                s,
                p1,
                key_inner_subtitles(),
                key_inner_subtitles(),
                f1,
                true,
            ) {
                Some((inner_subtitles, p2, f2)) => match parse_opt_bool_member(
                    s,
                    p2,
                    key_field_position(),
                    key_position(),
                    f2,
                    true,
                ) {
                    Some((field_position, p3, f3)) => match parse_opt_bool_member(
                        s,
                        p3,
                        key_field_length(),
                        key_length(),
                        f3,
                        true,
                    ) {
                        Some((field_length, p4, f4)) => match parse_opt_bool_member(
                            s,
                            p4,
                            key_wrap_line(),
                            key_wrap_line(),
                            f4,
                            true,
                        ) {
                            Some((wrap_line, p5, f5)) => match parse_opt_bool_member(
                                s,
                                p5,
                                key_start_symbol(),
                                key_start_symbol(),
                                f5,
                                true,
                            ) {
                                Some((start_symbol, p6, _)) => match expect_char(s, p6, '}') {
                                    Some(k) => Some(
                                        (
                                            ElementsConfig {
                                                network_order,
                                                inner_subtitles,
                                                field_position,
                                                field_length,
                                                wrap_line,
                                                start_symbol,
                                            },
                                            k,
                                        ),
                                    ),
                                    None => None,
                                },
                                None => None,
                            },
                            None => None,
                        },
                        None => None,
                    },
                    None => None,
                },
                None => None,
            },
            None => None,
        },
        None => None,
    }
}

/// Parses the style object: the six members in canonical order, each
/// optional with its documented default.
pub open spec fn parse_style_obj(s: Seq<char>, i: int) -> Option<(StyleConfig, int)> {
    match expect_char(s, i, '{') {
        Some(a) => match parse_opt_color_member(
            s,
            a,
            key_background_color(),
            true,
            default_style().background_color,
        ) {
            Some((background_color, p1, f1)) => match parse_opt_color_member(
                s,
                p1,
                key_field_color(),
                f1,
                default_style().field_color,
            ) {
                Some((field_color, p2, f2)) => match parse_opt_color_member(
                    s,
                    p2,
                    key_text_color(),
                    f2,
                    default_style().text_color,
                ) {
                    Some((text_color, p3, f3)) => match parse_opt_color_member(
                        s,
                        p3,
                        key_subtitle_color(),
                        f3,
                        default_style().subtitle_color,
                    ) {
                        Some((subtitle_color, p4, f4)) => match parse_opt_number_member(
                            s,
                            p4,
                            key_unit_width(),
                            f4,
                            default_style().unit_width as int,
                        ) {
                            Some((unit_width, p5, f5)) => match parse_opt_number_member(
                                s,
                                p5,
                                key_dyn_units(),
                                f5,
                                default_style().dyn_units as int,
                            ) {
                                Some((dyn_units, p6, _)) => match expect_char(s, p6, '}') {
                                    Some(k) => Some(
                                        (
                                            StyleConfig {
                                                background_color,
                                                field_color,
                                                text_color,
                                                subtitle_color,
                                                unit_width: unit_width as usize,
                                                dyn_units: dyn_units as usize,
                                            },
                                            k,
                                        ),
                                    ),
                                    None => None,
                                },
                                None => None,
                            },
                            None => None,
                        },
                        None => None,
                    },
                    None => None,
                },
                None => None,
            },
            None => None,
        },
        None => None,
    }
}

/// Parses the optional `"elements": {...},` prefix; where the key is absent
/// the defaults stand and the position is unchanged.
pub open spec fn parse_elements_opt(s: Seq<char>, i: int) -> Option<(ElementsConfig, int)> {
    match after_key(s, i, key_elements()) {
        Some(j) => match parse_elements_obj(s, j) {
            Some((e, k)) => match expect_char(s, k, ',') {
                Some(m) => Some((e, m)),
                None => None,
            },
            None => None,
        },
        None => Some((default_elements(), i)),
    }
}

/// Parses the optional `"style": {...},` prefix; where the key is absent the
/// defaults stand and the position is unchanged.
pub open spec fn parse_style_opt(s: Seq<char>, i: int) -> Option<(StyleConfig, int)> {
    match after_key(s, i, key_style()) {
        Some(j) => match parse_style_obj(s, j) {
            Some((st, k)) => match expect_char(s, k, ',') {
                Some(m) => Some((st, m)),
                None => None,
            },
            None => None,
        },
        None => Some((default_style(), i)),
    }
}

/// Parses a whole descriptor: the only accepted top-level shape, with
/// nothing but whitespace after it.
pub open spec fn spec_deserialize(s: Seq<char>) -> Option<DescriptorView> {
    match expect_char(s, 0, '{') {
        Some(a) => match parse_elements_opt(s, a) {
            Some((elements, b)) => if 0 <= b <= s.len() {
                match parse_style_opt(s, b) {
                    Some((style, c)) => if 0 <= c <= s.len() {
                        match after_key(s, c, key_fields()) {
                            Some(d) => match parse_fields(s, d) {
                                Some((fields, e)) => match expect_char(s, e, '}') {
                                    Some(f) => if 0 <= f <= s.len() && skip_ws(s, f) == s.len() {
                                        Some(DescriptorView { elements, style, fields })
                                    } else {
                                        None
                                    },
                                    None => None,
                                },
                                None => None,
                            },
                            None => None,
                        }
                    } else {
                        None
                    },
                    None => None,
                }
            } else {
                None
            },
            None => None,
        },
        None => None,
    }
}

// ------------------------------------------------------------------
// The executable parser, one function per shape, each equal to its
// specification-level mirror.
// ------------------------------------------------------------------

/// Skips whitespace and consumes `c`, as [`expect_char`] says.
fn expect_char_exec(s: &Vec<char>, from: usize, c: char) -> (r: Option<usize>)
    requires
        from <= s@.len(),
    ensures
        match expect_char(s@, from as int, c) {
            Some(j) => (r matches Some(q) && q == j && from < q <= s@.len()),
            None => r is None,
        },
{
    let a = skip_ws_exec(s, from);
    if a < s.len() && s[a] == c {
        Some(a + 1)
    } else {
        None
    }
}

/// Consumes whitespace, a key and its colon, as [`after_key`] says.
fn after_key_exec(s: &Vec<char>, from: usize, key: &str) -> (r: Option<usize>)
    requires
        from <= s@.len(),
    ensures
        match after_key(s@, from as int, key@) {
            Some(j) => (r matches Some(q) && q == j && from <= q <= s@.len()),
            None => r is None,
        },
{
    let n = s.len();
    let a = skip_ws_exec(s, from);
    if match_lit(s, a, key) {
        let m = key.unicode_len();
        proof {
            assert(a + m <= n);
        }
        let b = skip_ws_exec(s, a + m);
        if b < s.len() && s[b] == ':' {
            Some(skip_ws_exec(s, b + 1))
        } else {
            None
        }
    } else {
        None
    }
}

/// Parses a quoted color string, as [`parse_color_token`] says.
fn parse_color_token_exec(s: &Vec<char>, from: usize) -> (r: Option<(ColorValue, usize)>)
    requires
        from <= s@.len(),
    ensures
        match parse_color_token(s@, from as int) {
            Some(p) => (r matches Some(q) && q.0 == p.0 && q.1 == p.1 && from < q.1
                <= s@.len()),
            None => r is None,
        },
{
    proof {
        if from < s@.len() && s@[from as int] == '"' {
            crate::json::lemma_parse_string_body_bounds(s@, from + 1);
        }
    }
    match parse_string_exec(s, from) {
        Some((t, j)) => match ColorValue::parse_chars(&t) {
            Ok(c) => Some((c, j)),
            Err(_) => None,
        },
        None => None,
    }
}

/// Parses a color or `null`, as [`parse_color_or_null`] says.
fn parse_color_or_null_exec(s: &Vec<char>, from: usize) -> (r: Option<(Option<ColorValue>, usize)>)
    requires
        from <= s@.len(),
    ensures
        match parse_color_or_null(s@, from as int) {
            Some(p) => (r matches Some(q) && q.0 == p.0 && q.1 == p.1 && from < q.1
                <= s@.len()),
            None => r is None,
        },
{
    let n = s.len();
    proof {
        reveal_strlit("null");
    }
    if match_lit(s, from, "null") {
        proof {
            assert(from + 4 <= n);
        }
        Some((None, from + 4))
    } else {
        match parse_color_token_exec(s, from) {
            Some((c, j)) => Some((Some(c), j)),
            None => None,
        }
    }
}

/// Parses a length value, as [`parse_length_token`] says.
fn parse_length_token_exec(s: &Vec<char>, from: usize) -> (r: Option<(FieldLength, usize)>)
    requires
        from <= s@.len(),
    ensures
        match parse_length_token(s@, from as int) {
            Some(p) => (r matches Some(q) && q.0@ == p.0 && q.1 == p.1 && from < q.1
                <= s@.len()),
            None => r is None,
        },
{
    if from < s.len() && s[from] == '"' {
        proof {
            crate::json::lemma_parse_string_body_bounds(s@, from + 1);
        }
        match parse_string_exec(s, from) {
            Some((t, j)) => Some((FieldLength::Variable(string_from_chars(&t)), j)),
            None => None,
        }
    } else {
        match parse_number_exec(s, from) {
            Some((n, j)) => Some((FieldLength::Fixed(n), j)),
            None => None,
        }
    }
}

/// Parses `"color": value` and the closing brace, as
/// [`parse_color_member_end`] says.
fn parse_color_member_end_exec(s: &Vec<char>, from: usize) -> (r: Option<
    (Option<ColorValue>, usize),
>)
    requires
        from <= s@.len(),
    ensures
        match parse_color_member_end(s@, from as int) {
            Some(p) => (r matches Some(q) && q.0 == p.0 && q.1 == p.1 && from < q.1
                <= s@.len()),
            None => r is None,
        },
{
    match after_key_exec(s, from, "\"color\"") {
        Some(h) => match parse_color_or_null_exec(s, h) {
            Some((c, j)) => match expect_char_exec(s, j, '}') {
                Some(k) => Some((c, k)),
                None => None,
            },
            None => None,
        },
        None => None,
    }
}

/// Parses a field's optional color member and closing brace, as
/// [`parse_field_color_tail`] says.
fn parse_field_color_tail_exec(s: &Vec<char>, from: usize) -> (r: Option<
    (Option<ColorValue>, usize),
>)
    requires
        from <= s@.len(),
    ensures
        match parse_field_color_tail(s@, from as int) {
            Some(p) => (r matches Some(q) && q.0 == p.0 && q.1 == p.1 && from < q.1
                <= s@.len()),
            None => r is None,
        },
{
    match expect_char_exec(s, from, ',') {
        Some(g) => parse_color_member_end_exec(s, g),
        None => match expect_char_exec(s, from, '}') {
            Some(g) => Some((None, g)),
            None => None,
        },
    }
}

/// Parses a field's optional wrap and color members and closing brace, as
/// [`parse_field_tail`] says.
fn parse_field_tail_exec(s: &Vec<char>, from: usize) -> (r: Option<
    ((bool, Option<ColorValue>), usize),
>)
    requires
        from <= s@.len(),
    ensures
        match parse_field_tail(s@, from as int) {
            Some(p) => (r matches Some(q) && q.0 == p.0 && q.1 == p.1 && from < q.1
                <= s@.len()),
            None => r is None,
        },
{
    match expect_char_exec(s, from, ',') {
        Some(g) => match after_key_exec(s, g, "\"wrap\"") {
            Some(h) => match parse_bool_exec(s, h) {
                Some((w, j)) => match parse_field_tail2(s, j, w) {
                    Some(q) => Some(q),
                    None => None,
                },
                None => None,
            },
            None => match parse_color_member_end_exec(s, g) {
                Some((c, k)) => Some(((false, c), k)),
                None => None,
            },
        },
        None => match expect_char_exec(s, from, '}') {
            Some(g) => Some(((false, None), g)),
            None => None,
        },
    }
}

/// The step of [`parse_field_tail_exec`] after the wrap member.
fn parse_field_tail2(s: &Vec<char>, from: usize, wrap: bool) -> (r: Option<
    ((bool, Option<ColorValue>), usize),
>)
    requires
        from <= s@.len(),
    ensures
        match parse_field_color_tail(s@, from as int) {
            Some(p) => (r matches Some(q) && q.0 == (wrap, p.0) && q.1 == p.1 && from < q.1
                <= s@.len()),
            None => r is None,
        },
{
    match parse_field_color_tail_exec(s, from) {
        Some((c, k)) => Some(((wrap, c), k)),
        None => None,
    }
}

/// Parses one field object, as [`parse_field`] says.
fn parse_field_exec(s: &Vec<char>, from: usize) -> (r: Option<(FieldModel, usize)>)
    requires
        from <= s@.len(),
    ensures
        match parse_field(s@, from as int) {
            Some(p) => (r matches Some(q) && q.0@ == p.0 && q.1 == p.1 && from < q.1
                <= s@.len()),
            None => r is None,
        },
{
    let a = match expect_char_exec(s, from, '{') {
        Some(a) => a,
        None => {
            return None;
        },
    };
    let b = match after_key_exec(s, a, "\"name\"") {
        Some(b) => b,
        None => {
            return None;
        },
    };
    proof {
        if b < s@.len() && s@[b as int] == '"' {
            crate::json::lemma_parse_string_body_bounds(s@, b + 1);
        }
    }
    let (name_chars, c) = match parse_string_exec(s, b) {
        Some(p) => p,
        None => {
            return None;
        },
    };
    let d = match expect_char_exec(s, c, ',') {
        Some(d) => d,
        None => {
            return None;
        },
    };
    let e = match after_key_exec(s, d, "\"length\"") {
        Some(e) => e,
        None => {
            return None;
        },
    };
    let (length, f) = match parse_length_token_exec(s, e) {
        Some(p) => p,
        None => {
            return None;
        },
    };
    let ((wrap, color), k) = match parse_field_tail_exec(s, f) {
        Some(p) => p,
        None => {
            return None;
        },
    };
    let model = FieldModel { name: string_from_chars(&name_chars), length, wrap, color };
    Some((model, k))
}

/// Parses the field array, as [`parse_fields`] says.
fn parse_fields_exec(s: &Vec<char>, from: usize) -> (r: Option<(Vec<FieldModel>, usize)>)
    requires
        from <= s@.len(),
    ensures
        match parse_fields(s@, from as int) {
            Some(p) => (r matches Some(q) && fields_view(q.0@) == p.0 && q.1 == p.1 && q.1
                <= s@.len()),
            None => r is None,
        },
{
    let a = match expect_char_exec(s, from, '[') {
        Some(a) => a,
        None => {
            return None;
        },
    };
    if let Some(g) = expect_char_exec(s, a, ']') {
        let empty_fields: Vec<FieldModel> = Vec::new();
        proof {
            assert(fields_view(empty_fields@) =~= Seq::<FieldModelView>::empty());
        }
        return Some((empty_fields, g));
    }
    let (first, mut i) = match parse_field_exec(s, a) {
        Some(p) => p,
        None => {
            return None;
        },
    };
    let mut acc: Vec<FieldModel> = Vec::new();
    acc.push(first);
    proof {
        assert(fields_view(acc@) =~= seq![acc@[0]@]);
    }
    loop
        invariant
            i <= s@.len(),
            parse_fields(s@, from as int) == parse_fields_rest(s@, i as int, fields_view(acc@)),
        decreases s@.len() - i,
    {
        if let Some(g) = expect_char_exec(s, i, ']') {
            return Some((acc, g));
        }
        let g = match expect_char_exec(s, i, ',') {
            Some(g) => g,
            None => {
                return None;
            },
        };
        let (f, j) = match parse_field_exec(s, g) {
            Some(p) => p,
            None => {
                return None;
            },
        };
        if !(i < j) {
            return None;
        }
        let ghost prev = fields_view(acc@);
        acc.push(f);
        proof {
            assert(fields_view(acc@) =~= prev.push(acc@[acc@.len() - 1]@));
        }
        i = j;
    }
}

/// Consumes the key or its alias with the colon, as [`after_key_or_alias`]
/// says.
fn after_key_or_alias_exec(s: &Vec<char>, from: usize, key: &str, alias: &str) -> (r: Option<
    usize,
>)
    requires
        from <= s@.len(),
    ensures
        match after_key_or_alias(s@, from as int, key@, alias@) {
            Some(j) => (r matches Some(q) && q == j && from <= q <= s@.len()),
            None => r is None,
        },
{
    match after_key_exec(s, from, key) {
        Some(j) => Some(j),
        None => after_key_exec(s, from, alias),
    }
}

/// Parses one optional `"key": bool` member, as [`parse_opt_bool_member`]
/// says.
fn parse_opt_bool_member_exec(
    s: &Vec<char>,
    from: usize,
    key: &str,
    alias: &str,
    first: bool,
    dflt: bool,
) -> (r: Option<(bool, usize, bool)>)
    requires
        from <= s@.len(),
    ensures
        match parse_opt_bool_member(s@, from as int, key@, alias@, first, dflt) {
            Some(p) => (r matches Some(q) && q.0 == p.0 && q.1 == p.1 && q.2 == p.2 && q.1
                <= s@.len()),
            None => r is None,
        },
{
    let start: Option<usize> = if first {
        Some(from)
    } else {
        expect_char_exec(s, from, ',')
    };
    match start {
        Some(g) => match after_key_or_alias_exec(s, g, key, alias) {
            Some(h) => match parse_bool_exec(s, h) {
                Some((b, j)) => Some((b, j, false)),
                None => None,
            },
            None => Some((dflt, from, first)),
        },
        None => Some((dflt, from, first)),
    }
}

/// Parses one optional `"key": color` member, as [`parse_opt_color_member`]
/// says.
fn parse_opt_color_member_exec(
    s: &Vec<char>,
    from: usize,
    key: &str,
    first: bool,
    dflt: ColorValue,
) -> (r: Option<(ColorValue, usize, bool)>)
    requires
        from <= s@.len(),
    ensures
        match parse_opt_color_member(s@, from as int, key@, first, dflt) {
            Some(p) => (r matches Some(q) && q.0 == p.0 && q.1 == p.1 && q.2 == p.2 && q.1
                <= s@.len()),
            None => r is None,
        },
{
    let start: Option<usize> = if first {
        Some(from)
    } else {
        expect_char_exec(s, from, ',')
    };
    match start {
        Some(g) => match after_key_exec(s, g, key) {
            Some(h) => match parse_color_token_exec(s, h) {
                Some((c, j)) => Some((c, j, false)),
                None => None,
            },
            None => Some((dflt, from, first)),
        },
        None => Some((dflt, from, first)),
    }
}

/// Parses one optional `"key": number` member, as
/// [`parse_opt_number_member`] says.
fn parse_opt_number_member_exec(
    s: &Vec<char>,
    from: usize,
    key: &str,
    first: bool,
    dflt: usize,
) -> (r: Option<(usize, usize, bool)>)
    requires
        from <= s@.len(),
    ensures
        match parse_opt_number_member(s@, from as int, key@, first, dflt as int) {
            Some(p) => (r matches Some(q) && q.0 == p.0 && q.1 == p.1 && q.2 == p.2 && q.1
                <= s@.len()),
            None => r is None,
        },
{
    let start: Option<usize> = if first {
        Some(from)
    } else {
        expect_char_exec(s, from, ',')
    };
    match start {
        Some(g) => match after_key_exec(s, g, key) {
            Some(h) => match parse_number_exec(s, h) {
                Some((n, j)) => Some((n, j, false)),
                None => None,
            },
            None => Some((dflt, from, first)),
        },
        None => Some((dflt, from, first)),
    }
}

/// Parses the annotation-toggle object, as [`parse_elements_obj`] says.
#[verifier::rlimit(100)]
#[verifier::spinoff_prover]
fn parse_elements_obj_exec(s: &Vec<char>, from: usize) -> (r: Option<(ElementsConfig, usize)>)
    requires
        from <= s@.len(),
    ensures
        match parse_elements_obj(s@, from as int) {
            Some(p) => (r matches Some(q) && q.0 == p.0 && q.1 == p.1 && q.1 <= s@.len()),
            None => r is None,
        },
{
    let a = match expect_char_exec(s, from, '{') {
        Some(a) => a,
        None => {
            return None;
        },
    };
    let (network_order, p1, f1) = match parse_opt_bool_member_exec(
        s,
        a,
        "\"network_order\"",
        "\"is_network\"",
        true,
        true,
    ) {
        Some(p) => p,
        None => {
            return None;
        },
    };
    let (inner_subtitles, p2, f2) = match parse_opt_bool_member_exec(
        s,
        p1,
        "\"inner_subtitles\"",
        "\"inner_subtitles\"",
        f1,
        true,
    ) {
        Some(p) => p,
        None => {
            return None;
        },
    };
    let (field_position, p3, f3) = match parse_opt_bool_member_exec(
        s,
        p2,
        "\"field_position\"",
        "\"position\"",
        f2,
        true,
    ) {
        Some(p) => p,
        None => {
            return None;
        },
    };
    let (field_length, p4, f4) = match parse_opt_bool_member_exec(
        s,
        p3,
        "\"field_length\"",
        "\"length\"",
        f3,
        true,
    ) {
        Some(p) => p,
        None => {
            return None;
        },
    };
    let (wrap_line, p5, f5) = match parse_opt_bool_member_exec(
        s,
        p4,
        "\"wrap_line\"",
        "\"wrap_line\"",
        f4,
        true,
    ) {
        Some(p) => p,
        None => {
            return None;
        },
    };
    let (start_symbol, p6, _) = match parse_opt_bool_member_exec(
        s,
        p5,
        "\"start_symbol\"",
        "\"start_symbol\"",
        f5,
        true,
    ) {
        Some(p) => p,
        None => {
            return None;
        },
    };
    let k = match expect_char_exec(s, p6, '}') {
        Some(k) => k,
        None => {
            return None;
        },
    };
    Some(
        (
            ElementsConfig {
                network_order,
                inner_subtitles,
                field_position,
                field_length,
                wrap_line,
                start_symbol,
            },
            k,
        ),
    )
}

/// Parses the style object, as [`parse_style_obj`] says.
#[verifier::rlimit(100)]
#[verifier::spinoff_prover]
fn parse_style_obj_exec(s: &Vec<char>, from: usize) -> (r: Option<(StyleConfig, usize)>)
    requires
        from <= s@.len(),
    ensures
        match parse_style_obj(s@, from as int) {
            Some(p) => (r matches Some(q) && q.0 == p.0 && q.1 == p.1 && q.1 <= s@.len()),
            None => r is None,
        },
{
    let white = ColorValue { r: 255, g: 255, b: 255 };
    let black = ColorValue { r: 0, g: 0, b: 0 };
    let a = match expect_char_exec(s, from, '{') {
        Some(a) => a,
        None => {
            return None;
        },
    };
    let (background_color, p1, f1) = match parse_opt_color_member_exec(
        s,
        a,
        "\"background_color\"",
        true,
        white,
    ) {
        Some(p) => p,
        None => {
            return None;
        },
    };
    let (field_color, p2, f2) = match parse_opt_color_member_exec(
        s,
        p1,
        "\"field_color\"",
        f1,
        white,
    ) {
        Some(p) => p,
        None => {
            return None;
        },
    };
    let (text_color, p3, f3) = match parse_opt_color_member_exec(
        s,
        p2,
        "\"text_color\"",
        f2,
        black,
    ) {
        Some(p) => p,
        None => {
            return None;
        },
    };
    let (subtitle_color, p4, f4) = match parse_opt_color_member_exec(
        s,
        p3,
        "\"subtitle_color\"",
        f3,
        black,
    ) {
        Some(p) => p,
        None => {
            return None;
        },
    };
    let (unit_width, p5, f5) = match parse_opt_number_member_exec(
        s,
        p4,
        "\"unit_width\"",
        f4,
        50,
    ) {
        Some(p) => p,
        None => {
            return None;
        },
    };
    let (dyn_units, p6, _) = match parse_opt_number_member_exec(
        s,
        p5,
        "\"dyn_units\"",
        f5,
        3,
    ) {
        Some(p) => p,
        None => {
            return None;
        },
    };
    let k = match expect_char_exec(s, p6, '}') {
        Some(k) => k,
        None => {
            return None;
        },
    };
    Some(
        (
            StyleConfig {
                background_color,
                field_color,
                text_color,
                subtitle_color,
                unit_width,
                dyn_units,
            },
            k,
        ),
    )
}
/// Deserializes a descriptor from persisted text. Exactly the texts the
/// grammar in [`spec_deserialize`] accepts are read; everything else is a
/// `ParseFailure` and yields no descriptor, so a failed load leaves the
/// caller's model untouched. On success every invariant of a freshly built
/// descriptor holds, with absent optional members filled by their defaults.
pub fn deserialize(text: &str) -> (r: Result<Descriptor, ProtoError>)
    ensures
        match spec_deserialize(text@) {
            Some(d) => (r matches Ok(res) && res@ == d),
            None => (r matches Err(e) && e matches ProtoError::ParseFailure(_)),
        },
{
    let s = chars_of_str(text);
    let a = match expect_char_exec(&s, 0, '{') {
        Some(a) => a,
        None => {
            return Err(ProtoError::ParseFailure("expected an object".to_owned()));
        },
    };
    let (elements, b) = match parse_elements_opt_exec(&s, a) {
        Some(p) => p,
        None => {
            return Err(ProtoError::ParseFailure("malformed elements".to_owned()));
        },
    };
    let (style, c) = match parse_style_opt_exec(&s, b) {
        Some(p) => p,
        None => {
            return Err(ProtoError::ParseFailure("malformed style".to_owned()));
        },
    };
    let d = match after_key_exec(&s, c, "\"fields\"") {
        Some(d) => d,
        None => {
            return Err(ProtoError::ParseFailure("missing fields".to_owned()));
        },
    };
    let (fields, e) = match parse_fields_exec(&s, d) {
        Some(p) => p,
        None => {
            return Err(ProtoError::ParseFailure("malformed fields".to_owned()));
        },
    };
    let f = match expect_char_exec(&s, e, '}') {
        Some(f) => f,
        None => {
            return Err(ProtoError::ParseFailure("unclosed object".to_owned()));
        },
    };
    if skip_ws_exec(&s, f) != s.len() {
        return Err(ProtoError::ParseFailure("text after the object".to_owned()));
    }
    Ok(Descriptor { elements, style, fields })
}

/// Parses the optional elements prefix, as [`parse_elements_opt`] says.
fn parse_elements_opt_exec(s: &Vec<char>, from: usize) -> (r: Option<(ElementsConfig, usize)>)
    requires
        from <= s@.len(),
    ensures
        match parse_elements_opt(s@, from as int) {
            Some(p) => (r matches Some(q) && q.0 == p.0 && q.1 == p.1 && q.1 <= s@.len()),
            None => r is None,
        },
{
    match after_key_exec(s, from, "\"elements\"") {
        Some(j) => match parse_elements_obj_exec(s, j) {
            Some((e, k)) => match expect_char_exec(s, k, ',') {
                Some(m) => Some((e, m)),
                None => None,
            },
            None => None,
        },
        None => Some((ElementsConfig::default(), from)),
    }
}

/// Parses the optional style prefix, as [`parse_style_opt`] says.
fn parse_style_opt_exec(s: &Vec<char>, from: usize) -> (r: Option<(StyleConfig, usize)>)
    requires
        from <= s@.len(),
    ensures
        match parse_style_opt(s@, from as int) {
            Some(p) => (r matches Some(q) && q.0 == p.0 && q.1 == p.1 && q.1 <= s@.len()),
            None => r is None,
        },
{
    match after_key_exec(s, from, "\"style\"") {
        Some(j) => match parse_style_obj_exec(s, j) {
            Some((st, k)) => match expect_char_exec(s, k, ',') {
                Some(m) => Some((st, m)),
                None => None,
            },
            None => None,
        },
        None => Some((StyleConfig::default(), from)),
    }
}

// ------------------------------------------------------------------
// The executable serializer.
// ------------------------------------------------------------------

/// Appends the characters of another vector.
fn append_chars(out: &mut Vec<char>, piece: &Vec<char>)
    ensures
        final(out)@ == old(out)@ + piece@,
{
    let n = piece.len();
    let mut i: usize = 0;
    proof {
        assert(out@ =~= old(out)@ + piece@.subrange(0, 0));
    }
    while i < n
        invariant
            n == piece@.len(),
            i <= n,
            out@ == old(out)@ + piece@.subrange(0, i as int),
        decreases n - i,
    {
        out.push(piece[i]);
        proof {
            assert(out@ =~= old(out)@ + piece@.subrange(0, i + 1 as int));
        }
        i += 1;
    }
    proof {
        assert(old(out)@ + piece@.subrange(0, n as int) =~= old(out)@ + piece@);
    }
}

/// Appends the quoted, escaped form of a string.
fn append_quoted(out: &mut Vec<char>, text: &String)
    ensures
        final(out)@ == old(out)@ + quoted(text@),
{
    let chars = chars_of_str(text.as_str());
    out.push('"');
    let n = chars.len();
    let mut i: usize = 0;
    proof {
        assert(esc_str(chars@.subrange(0, 0)) =~= Seq::<char>::empty());
        assert(out@ =~= old(out)@ + seq!['"'] + esc_str(chars@.subrange(0, 0)));
    }
    while i < n
        invariant
            n == chars@.len(),
            chars@ == text@,
            i <= n,
            out@ == old(out)@ + seq!['"'] + esc_str(chars@.subrange(0, i as int)),
        decreases n - i,
    {
        let c = chars[i];
        let ghost before = out@;
        if c == '"' {
            out.push('\\');
            out.push('"');
        } else if c == '\\' {
            out.push('\\');
            out.push('\\');
        } else if c == '\n' {
            out.push('\\');
            out.push('n');
        } else if c == '\r' {
            out.push('\\');
            out.push('r');
        } else if c == '\t' {
            out.push('\\');
            out.push('t');
        } else if c == '\u{8}' {
            out.push('\\');
            out.push('b');
        } else if c == '\u{c}' {
            out.push('\\');
            out.push('f');
        } else if (c as u32) < 32 {
            let u = (c as u32) as u8;
            out.push('\\');
            out.push('u');
            out.push('0');
            out.push('0');
            out.push(hex_char_exec(u / 16));
            out.push(hex_char_exec(u % 16));
        } else {
            out.push(c);
        }
        proof {
            assert(out@ =~= before + esc_char(c));
            crate::json::lemma_esc_str_push(chars@.subrange(0, i as int), c);
            assert(chars@.subrange(0, i + 1 as int) =~= chars@.subrange(0, i as int).push(c));
            assert(out@ =~= old(out)@ + seq!['"'] + esc_str(chars@.subrange(0, i + 1 as int)));
        }
        i += 1;
    }
    out.push('"');
    proof {
        assert(chars@.subrange(0, n as int) =~= chars@);
        assert(out@ =~= old(out)@ + quoted(text@));
    }
}

/// Appends one serialized field.
#[verifier::rlimit(100)]
fn append_field(out: &mut Vec<char>, f: &FieldModel)
    ensures
        final(out)@ == old(out)@ + ser_field(f@),
{
    out.push('{');
    append_str_chars(out, "\"name\"");
    out.push(':');
    append_quoted(out, &f.name);
    out.push(',');
    append_str_chars(out, "\"length\"");
    out.push(':');
    match &f.length {
        FieldLength::Fixed(n) => {
            let digits = usize_to_chars(*n);
            append_chars(out, &digits);
        },
        FieldLength::Variable(e) => {
            append_quoted(out, e);
        },
    }
    out.push(',');
    append_str_chars(out, "\"wrap\"");
    out.push(':');
    if f.wrap {
        append_str_chars(out, "true");
    } else {
        append_str_chars(out, "false");
    }
    match &f.color {
        Some(c) => {
            out.push(',');
            append_str_chars(out, "\"color\"");
            out.push(':');
            let color_text = c.format();
            append_quoted(out, &color_text);
        },
        None => {},
    }
    out.push('}');
    proof {
        assert(out@ =~= old(out)@ + ser_field(f@));
    }
}

/// Appends one serialized `"key":color` member with its leading comma.
fn append_color_member(out: &mut Vec<char>, key: &str, c: &ColorValue)
    ensures
        final(out)@ == old(out)@ + seq![','] + member(key@, ser_color(*c)),
{
    out.push(',');
    append_str_chars(out, key);
    out.push(':');
    let color_text = c.format();
    append_quoted(out, &color_text);
    proof {
        assert(out@ =~= old(out)@ + seq![','] + member(key@, ser_color(*c)));
    }
}

/// Appends one serialized `"key":bool` member with its leading comma.
fn append_bool_member(out: &mut Vec<char>, key: &str, b: bool)
    ensures
        final(out)@ == old(out)@ + seq![','] + member(key@, bool_chars(b)),
{
    out.push(',');
    append_str_chars(out, key);
    out.push(':');
    if b {
        append_str_chars(out, "true");
    } else {
        append_str_chars(out, "false");
    }
    proof {
        assert(out@ =~= old(out)@ + seq![','] + member(key@, bool_chars(b)));
    }
}

/// Appends the serialized annotation-toggle object.
#[verifier::rlimit(50)]
fn append_elements_obj(out: &mut Vec<char>, e: &ElementsConfig)
    ensures
        final(out)@ == old(out)@ + ser_elements(*e),
{
    out.push('{');
    append_str_chars(out, "\"network_order\"");
    out.push(':');
    if e.network_order {
        append_str_chars(out, "true");
    } else {
        append_str_chars(out, "false");
    }
    append_bool_member(out, "\"inner_subtitles\"", e.inner_subtitles);
    append_bool_member(out, "\"field_position\"", e.field_position);
    append_bool_member(out, "\"field_length\"", e.field_length);
    append_bool_member(out, "\"wrap_line\"", e.wrap_line);
    append_bool_member(out, "\"start_symbol\"", e.start_symbol);
    out.push('}');
    proof {
        assert(out@ =~= old(out)@ + ser_elements(*e));
    }
}

/// Appends the serialized style object.
#[verifier::rlimit(50)]
fn append_style_obj(out: &mut Vec<char>, st: &StyleConfig)
    ensures
        final(out)@ == old(out)@ + ser_style(*st),
{
    out.push('{');
    append_str_chars(out, "\"background_color\"");
    out.push(':');
    let background_text = st.background_color.format();
    append_quoted(out, &background_text);
    append_color_member(out, "\"field_color\"", &st.field_color);
    append_color_member(out, "\"text_color\"", &st.text_color);
    append_color_member(out, "\"subtitle_color\"", &st.subtitle_color);
    out.push(',');
    append_str_chars(out, "\"unit_width\"");
    out.push(':');
    let unit_width_digits = usize_to_chars(st.unit_width);
    append_chars(out, &unit_width_digits);
    out.push(',');
    append_str_chars(out, "\"dyn_units\"");
    out.push(':');
    let dyn_units_digits = usize_to_chars(st.dyn_units);
    append_chars(out, &dyn_units_digits);
    out.push('}');
    proof {
        assert(out@ =~= old(out)@ + ser_style(*st));
    }
}

/// Appends the serialized field array.
fn append_fields_array(out: &mut Vec<char>, fields: &Vec<FieldModel>)
    ensures
        final(out)@ == old(out)@ + ser_fields(fields_view(fields@)),
{
    let ghost fv = fields_view(fields@);
    let n = fields.len();
    out.push('[');
    if n == 0 {
        out.push(']');
        proof {
            assert(fv.len() == 0);
            assert(out@ =~= old(out)@ + ser_fields(fv));
        }
        return ;
    }
    append_field(out, &fields[0]);
    proof {
        assert(fv[0] == fields@[0]@);
        assert(fv.drop_first() =~= fv.skip(1));
        assert(out@ + ser_fields_rest(fv.skip(1)) =~= old(out)@ + ser_fields(fv));
    }
    let mut k: usize = 1;
    while k < n
        invariant
            1 <= k <= n,
            n == fields@.len(),
            fv == fields_view(fields@),
            fv.len() == n,
            out@ + ser_fields_rest(fv.skip(k as int)) == old(out)@ + ser_fields(fv),
        decreases n - k,
    {
        let ghost before = out@;
        out.push(',');
        append_field(out, &fields[k]);
        proof {
            assert(fv.skip(k as int)[0] == fields@[k as int]@);
            assert(fv.skip(k as int).drop_first() =~= fv.skip(k + 1));
            assert(out@ =~= before + (seq![','] + ser_field(fv.skip(k as int)[0])));
            assert(out@ + ser_fields_rest(fv.skip(k + 1)) =~= before + ser_fields_rest(
                fv.skip(k as int),
            ));
        }
        k += 1;
    }
    out.push(']');
    proof {
        assert(fv.skip(n as int) =~= Seq::<FieldModelView>::empty());
        assert(ser_fields_rest(fv.skip(n as int)) == seq![']']);
        assert(out@ =~= old(out)@ + ser_fields(fv));
    }
}

/// Serializes a descriptor to its deterministic structured text. The
/// serializer is total: every descriptor has a text, and the round-trip law
/// says that deserializing it restores the descriptor exactly.
#[verifier::rlimit(100)]
#[verifier::spinoff_prover]
pub fn serialize(descriptor: &Descriptor) -> (r: String)
    ensures
        r@ == json_of(descriptor@),
{
    let mut out: Vec<char> = Vec::new();
    out.push('{');
    append_str_chars(&mut out, "\"elements\"");
    out.push(':');
    append_elements_obj(&mut out, &descriptor.elements);
    proof {
        assert(out@ =~= seq!['{'] + member(
            key_elements(),
            ser_elements(descriptor@.elements),
        ));
    }
    let ghost after_elements = out@;
    out.push(',');
    append_str_chars(&mut out, "\"style\"");
    out.push(':');
    append_style_obj(&mut out, &descriptor.style);
    proof {
        assert(out@ =~= after_elements + (seq![','] + member(
            key_style(),
            ser_style(descriptor@.style),
        )));
    }
    let ghost after_style = out@;
    out.push(',');
    append_str_chars(&mut out, "\"fields\"");
    out.push(':');
    append_fields_array(&mut out, &descriptor.fields);
    out.push('}');
    proof {
        assert(out@ =~= after_style + (seq![','] + member(
            key_fields(),
            ser_fields(descriptor@.fields),
        ) + seq!['}']));
        assert(out@ =~= json_of(descriptor@));
    }
    string_from_chars(&out)
}

// ------------------------------------------------------------------
// The round-trip law: parsing reads back what serialization wrote.
// ------------------------------------------------------------------

/// A token standing at `i` splits into its two halves.
pub proof fn lemma_match_at_split(s: Seq<char>, i: int, a: Seq<char>, b: Seq<char>)
    requires
        match_at(s, i, a + b),
    ensures
        match_at(s, i, a),
        match_at(s, i + a.len(), b),
{
    let ab = a + b;
    assert forall|k: int| 0 <= k < ab.len() implies s[i + k] == #[trigger] ab[k] by {
        assert(s.subrange(i, i + ab.len())[k] == s[i + k]);
    }
    assert forall|k: int| 0 <= k < a.len() implies s[i + k] == #[trigger] a[k] by {
        assert(ab[k] == a[k]);
    }
    assert forall|j: int| 0 <= j < b.len() implies s[i + a.len() + j] == #[trigger] b[j] by {
        assert(ab[a.len() + j] == b[j]);
        assert(s[i + (a.len() + j)] == ab[a.len() + j]);
    }
    assert(s.subrange(i, i + a.len()) =~= a);
    assert(s.subrange(i + a.len(), i + a.len() + b.len()) =~= b);
}

/// The first character of a token standing at `i`.
pub proof fn lemma_match_at_first(s: Seq<char>, i: int, t: Seq<char>)
    requires
        match_at(s, i, t),
        t.len() > 0,
    ensures
        s[i] == t[0],
{
    assert(s.subrange(i, i + t.len())[0] == s[i]);
}

/// A non-whitespace expected character is consumed without movement.
pub proof fn lemma_expect_char_at(s: Seq<char>, i: int, c: char)
    requires
        0 <= i < s.len(),
        s[i] == c,
        !is_ws(c),
    ensures
        expect_char(s, i, c) == Some(i + 1),
{
    crate::json::lemma_skip_ws_none(s, i);
}

/// Expecting the wrong character at non-whitespace fails.
pub proof fn lemma_expect_char_not(s: Seq<char>, i: int, c: char)
    requires
        0 <= i < s.len(),
        s[i] != c,
        !is_ws(s[i]),
    ensures
        expect_char(s, i, c) is None,
{
    crate::json::lemma_skip_ws_none(s, i);
}

/// A key written as `"key":value`, with no whitespace, is consumed exactly.
pub proof fn lemma_after_key_exact(s: Seq<char>, i: int, key: Seq<char>)
    requires
        match_at(s, i, key + seq![':']),
        key.len() > 0,
        !is_ws(key[0]),
        i + key.len() + 1 < s.len(),
        !is_ws(s[i + key.len() + 1]),
    ensures
        after_key(s, i, key) == Some(i + key.len() + 1),
{
    lemma_match_at_split(s, i, key, seq![':']);
    lemma_match_at_first(s, i, key);
    crate::json::lemma_skip_ws_none(s, i);
    lemma_match_at_first(s, i + key.len(), seq![':']);
    crate::json::lemma_skip_ws_none(s, i + key.len());
    crate::json::lemma_skip_ws_none(s, i + key.len() + 1);
}

/// A serialized `"key":bool` member parses back to its value.
pub proof fn lemma_bool_member_at(s: Seq<char>, i: int, key: Seq<char>, b: bool)
    requires
        match_at(s, i, member(key, bool_chars(b))),
        key.len() > 0,
        !is_ws(key[0]),
    ensures
        after_key(s, i, key) == Some(i + key.len() + 1),
        parse_bool(s, i + key.len() + 1) == Some::<(bool, int)>(
            (b, i + key.len() + 1 + bool_chars(b).len()),
        ),
{
    reveal_strlit("true");
    reveal_strlit("false");
    lemma_match_at_split(s, i, key + seq![':'], bool_chars(b));
    let v = i + key.len() + 1;
    lemma_match_at_first(s, v, bool_chars(b));
    lemma_after_key_exact(s, i, key);
    crate::json::lemma_parse_bool_of_chars(s, v, b);
}

/// A serialized `"key":"#rrggbb"` member parses back to its color.
pub proof fn lemma_color_member_at(s: Seq<char>, i: int, key: Seq<char>, c: ColorValue)
    requires
        match_at(s, i, member(key, ser_color(c))),
        key.len() > 0,
        !is_ws(key[0]),
    ensures
        after_key(s, i, key) == Some(i + key.len() + 1),
        parse_color_token(s, i + key.len() + 1) == Some::<(ColorValue, int)>(
            (c, i + key.len() + 1 + ser_color(c).len()),
        ),
{
    lemma_match_at_split(s, i, key + seq![':'], ser_color(c));
    let v = i + key.len() + 1;
    lemma_match_at_first(s, v, ser_color(c));
    lemma_after_key_exact(s, i, key);
    crate::json::lemma_parse_of_quoted(s, v, color_chars(c));
    crate::color::lemma_color_round_trip(c);
}

/// A serialized `"key":number` member parses back to its value, where a
/// non-digit follows.
pub proof fn lemma_number_member_at(s: Seq<char>, i: int, key: Seq<char>, n: usize)
    requires
        match_at(s, i, member(key, dec_chars(n as nat))),
        key.len() > 0,
        !is_ws(key[0]),
        i + key.len() + 1 + dec_chars(n as nat).len() == s.len() || !crate::numeric::is_dec_digit(
            s[i + key.len() + 1 + dec_chars(n as nat).len()],
        ),
    ensures
        after_key(s, i, key) == Some(i + key.len() + 1),
        parse_number(s, i + key.len() + 1) == Some::<(int, int)>(
            (n as int, i + key.len() + 1 + dec_chars(n as nat).len()),
        ),
{
    lemma_match_at_split(s, i, key + seq![':'], dec_chars(n as nat));
    let v = i + key.len() + 1;
    crate::numeric::lemma_dec_chars_value(n as nat);
    lemma_match_at_first(s, v, dec_chars(n as nat));
    lemma_after_key_exact(s, i, key);
    crate::json::lemma_parse_number_of_dec(s, v, n);
}

/// A serialized annotation-toggle object parses back to its settings.
#[verifier::rlimit(100)]
pub proof fn lemma_elements_of_ser(s: Seq<char>, i: int, e: ElementsConfig)
    requires
        match_at(s, i, ser_elements(e)),
    ensures
        parse_elements_obj(s, i) == Some::<(ElementsConfig, int)>(
            (e, i + ser_elements(e).len()),
        ),
{
    reveal_strlit("\"network_order\"");
    reveal_strlit("\"inner_subtitles\"");
    reveal_strlit("\"field_position\"");
    reveal_strlit("\"field_length\"");
    reveal_strlit("\"wrap_line\"");
    reveal_strlit("\"start_symbol\"");
    reveal_strlit("true");
    reveal_strlit("false");
    let m1 = member(key_network_order(), bool_chars(e.network_order));
    let m2 = member(key_inner_subtitles(), bool_chars(e.inner_subtitles));
    let m3 = member(key_field_position(), bool_chars(e.field_position));
    let m4 = member(key_field_length(), bool_chars(e.field_length));
    let m5 = member(key_wrap_line(), bool_chars(e.wrap_line));
    let m6 = member(key_start_symbol(), bool_chars(e.start_symbol));
    lemma_match_at_split(s, i, seq!['{'] + m1 + seq![','] + m2 + seq![','] + m3 + seq![','] + m4 + seq![','] + m5 + seq![','] + m6, seq!['}']);
    lemma_match_at_split(s, i, seq!['{'] + m1 + seq![','] + m2 + seq![','] + m3 + seq![','] + m4 + seq![','] + m5 + seq![','], m6);
    lemma_match_at_split(s, i, seq!['{'] + m1 + seq![','] + m2 + seq![','] + m3 + seq![','] + m4 + seq![','] + m5, seq![',']);
    lemma_match_at_split(s, i, seq!['{'] + m1 + seq![','] + m2 + seq![','] + m3 + seq![','] + m4 + seq![','], m5);
    lemma_match_at_split(s, i, seq!['{'] + m1 + seq![','] + m2 + seq![','] + m3 + seq![','] + m4, seq![',']);
    lemma_match_at_split(s, i, seq!['{'] + m1 + seq![','] + m2 + seq![','] + m3 + seq![','], m4);
    lemma_match_at_split(s, i, seq!['{'] + m1 + seq![','] + m2 + seq![','] + m3, seq![',']);
    lemma_match_at_split(s, i, seq!['{'] + m1 + seq![','] + m2 + seq![','], m3);
    lemma_match_at_split(s, i, seq!['{'] + m1 + seq![','] + m2, seq![',']);
    lemma_match_at_split(s, i, seq!['{'] + m1 + seq![','], m2);
    lemma_match_at_split(s, i, seq!['{'] + m1, seq![',']);
    lemma_match_at_split(s, i, seq!['{'], m1);
    lemma_match_at_first(s, i, seq!['{']);
    lemma_expect_char_at(s, i, '{');
    let p0 = i + 1;
    lemma_bool_member_at(s, p0, key_network_order(), e.network_order);
    let p1 = p0 + m1.len();
    lemma_match_at_first(s, p1, seq![',']);
    lemma_expect_char_at(s, p1, ',');
    let q1 = p1 + 1;
    lemma_bool_member_at(s, q1, key_inner_subtitles(), e.inner_subtitles);
    let p2 = q1 + m2.len();
    lemma_match_at_first(s, p2, seq![',']);
    lemma_expect_char_at(s, p2, ',');
    let q2 = p2 + 1;
    lemma_bool_member_at(s, q2, key_field_position(), e.field_position);
    let p3 = q2 + m3.len();
    lemma_match_at_first(s, p3, seq![',']);
    lemma_expect_char_at(s, p3, ',');
    let q3 = p3 + 1;
    lemma_bool_member_at(s, q3, key_field_length(), e.field_length);
    let p4 = q3 + m4.len();
    lemma_match_at_first(s, p4, seq![',']);
    lemma_expect_char_at(s, p4, ',');
    let q4 = p4 + 1;
    lemma_bool_member_at(s, q4, key_wrap_line(), e.wrap_line);
    let p5 = q4 + m5.len();
    lemma_match_at_first(s, p5, seq![',']);
    lemma_expect_char_at(s, p5, ',');
    let q5 = p5 + 1;
    lemma_bool_member_at(s, q5, key_start_symbol(), e.start_symbol);
    let p6 = q5 + m6.len();
    lemma_match_at_first(s, p6, seq!['}']);
    lemma_expect_char_at(s, p6, '}');
}

/// A serialized style object parses back to its settings.
#[verifier::rlimit(100)]
pub proof fn lemma_style_of_ser(s: Seq<char>, i: int, st: StyleConfig)
    requires
        match_at(s, i, ser_style(st)),
    ensures
        parse_style_obj(s, i) == Some::<(StyleConfig, int)>((st, i + ser_style(st).len())),
{
    reveal_strlit("\"background_color\"");
    reveal_strlit("\"field_color\"");
    reveal_strlit("\"text_color\"");
    reveal_strlit("\"subtitle_color\"");
    reveal_strlit("\"unit_width\"");
    reveal_strlit("\"dyn_units\"");
    let m1 = member(key_background_color(), ser_color(st.background_color));
    let m2 = member(key_field_color(), ser_color(st.field_color));
    let m3 = member(key_text_color(), ser_color(st.text_color));
    let m4 = member(key_subtitle_color(), ser_color(st.subtitle_color));
    let m5 = member(key_unit_width(), dec_chars(st.unit_width as nat));
    let m6 = member(key_dyn_units(), dec_chars(st.dyn_units as nat));
    lemma_match_at_split(s, i, seq!['{'] + m1 + seq![','] + m2 + seq![','] + m3 + seq![','] + m4 + seq![','] + m5 + seq![','] + m6, seq!['}']);
    lemma_match_at_split(s, i, seq!['{'] + m1 + seq![','] + m2 + seq![','] + m3 + seq![','] + m4 + seq![','] + m5 + seq![','], m6);
    lemma_match_at_split(s, i, seq!['{'] + m1 + seq![','] + m2 + seq![','] + m3 + seq![','] + m4 + seq![','] + m5, seq![',']);
    lemma_match_at_split(s, i, seq!['{'] + m1 + seq![','] + m2 + seq![','] + m3 + seq![','] + m4 + seq![','], m5);
    lemma_match_at_split(s, i, seq!['{'] + m1 + seq![','] + m2 + seq![','] + m3 + seq![','] + m4, seq![',']);
    lemma_match_at_split(s, i, seq!['{'] + m1 + seq![','] + m2 + seq![','] + m3 + seq![','], m4);
    lemma_match_at_split(s, i, seq!['{'] + m1 + seq![','] + m2 + seq![','] + m3, seq![',']);
    lemma_match_at_split(s, i, seq!['{'] + m1 + seq![','] + m2 + seq![','], m3);
    lemma_match_at_split(s, i, seq!['{'] + m1 + seq![','] + m2, seq![',']);
    lemma_match_at_split(s, i, seq!['{'] + m1 + seq![','], m2);
    lemma_match_at_split(s, i, seq!['{'] + m1, seq![',']);
    lemma_match_at_split(s, i, seq!['{'], m1);
    lemma_match_at_first(s, i, seq!['{']);
    lemma_expect_char_at(s, i, '{');
    let p0 = i + 1;
    lemma_color_member_at(s, p0, key_background_color(), st.background_color);
    let p1 = p0 + m1.len();
    lemma_match_at_first(s, p1, seq![',']);
    lemma_expect_char_at(s, p1, ',');
    let q1 = p1 + 1;
    lemma_color_member_at(s, q1, key_field_color(), st.field_color);
    let p2 = q1 + m2.len();
    lemma_match_at_first(s, p2, seq![',']);
    lemma_expect_char_at(s, p2, ',');
    let q2 = p2 + 1;
    lemma_color_member_at(s, q2, key_text_color(), st.text_color);
    let p3 = q2 + m3.len();
    lemma_match_at_first(s, p3, seq![',']);
    lemma_expect_char_at(s, p3, ',');
    let q3 = p3 + 1;
    lemma_color_member_at(s, q3, key_subtitle_color(), st.subtitle_color);
    let p4 = q3 + m4.len();
    lemma_match_at_first(s, p4, seq![',']);
    lemma_expect_char_at(s, p4, ',');
    let q4 = p4 + 1;
    lemma_match_at_first(s, q4 + m5.len(), seq![',']);
    lemma_number_member_at(s, q4, key_unit_width(), st.unit_width);
    let p5 = q4 + m5.len();
    lemma_expect_char_at(s, p5, ',');
    let q5 = p5 + 1;
    lemma_match_at_first(s, q5 + m6.len(), seq!['}']);
    lemma_number_member_at(s, q5, key_dyn_units(), st.dyn_units);
    let p6 = q5 + m6.len();
    lemma_expect_char_at(s, p6, '}');
}

/// Whether a field's view fits the machine: a fixed length is a machine
/// word. Every view of a built field satisfies this.
pub open spec fn wf_field(f: FieldModelView) -> bool {
    f.length matches LengthView::Fixed(n) ==> 0 <= n <= usize::MAX
}

/// Whether a descriptor's view fits the machine, field by field.
pub open spec fn wf_descriptor(d: DescriptorView) -> bool {
    forall|i: int| 0 <= i < d.fields.len() ==> wf_field(#[trigger] d.fields[i])
}

/// The view of every built descriptor fits the machine.
pub proof fn lemma_view_wf(d: &Descriptor)
    ensures
        wf_descriptor(d@),
{
    assert forall|i: int| 0 <= i < d@.fields.len() implies wf_field(#[trigger] d@.fields[i]) by {
        assert(d@.fields[i] == d.fields@[i]@);
    }
}

/// A serialized field parses back to its view.
#[verifier::rlimit(100)]
pub proof fn lemma_field_of_ser(s: Seq<char>, i: int, f: FieldModelView)
    requires
        match_at(s, i, ser_field(f)),
        wf_field(f),
    ensures
        parse_field(s, i) == Some::<(FieldModelView, int)>((f, i + ser_field(f).len())),
{
    reveal_strlit("\"name\"");
    reveal_strlit("\"length\"");
    reveal_strlit("\"wrap\"");
    reveal_strlit("\"color\"");
    reveal_strlit("true");
    reveal_strlit("false");
    reveal_strlit("null");
    let m1 = member(key_name(), quoted(f.name));
    let m2 = member(key_length(), ser_length(f.length));
    let m3 = member(key_wrap(), bool_chars(f.wrap));
    let tail = ser_field_color(f.color);
    lemma_match_at_split(s, i, seq!['{'] + m1 + seq![','] + m2 + seq![','] + m3 + tail,
        seq!['}']);
    lemma_match_at_split(s, i, seq!['{'] + m1 + seq![','] + m2 + seq![','] + m3, tail);
    lemma_match_at_split(s, i, seq!['{'] + m1 + seq![','] + m2 + seq![','], m3);
    lemma_match_at_split(s, i, seq!['{'] + m1 + seq![','] + m2, seq![',']);
    lemma_match_at_split(s, i, seq!['{'] + m1 + seq![','], m2);
    lemma_match_at_split(s, i, seq!['{'] + m1, seq![',']);
    lemma_match_at_split(s, i, seq!['{'], m1);
    lemma_match_at_first(s, i, seq!['{']);
    lemma_expect_char_at(s, i, '{');
    let p0 = i + 1;
    // name
    lemma_match_at_split(s, p0, key_name() + seq![':'], quoted(f.name));
    let v1 = p0 + key_name().len() + 1;
    lemma_match_at_first(s, v1, quoted(f.name));
    lemma_after_key_exact(s, p0, key_name());
    crate::json::lemma_parse_of_quoted(s, v1, f.name);
    let p1 = p0 + m1.len();
    lemma_match_at_first(s, p1, seq![',']);
    lemma_expect_char_at(s, p1, ',');
    let q1 = p1 + 1;
    // length
    lemma_match_at_split(s, q1, key_length() + seq![':'], ser_length(f.length));
    let v2 = q1 + key_length().len() + 1;
    lemma_match_at_first(s, v2, ser_length(f.length));
    let p2 = q1 + m2.len();
    lemma_match_at_first(s, p2, seq![',']);
    match f.length {
        LengthView::Fixed(n) => {
            crate::numeric::lemma_dec_chars_value(n as nat);
            lemma_after_key_exact(s, q1, key_length());
            crate::json::lemma_parse_number_of_dec(s, v2, n as usize);
            assert(s[v2] != '"');
            assert(parse_length_token(s, v2) == Some::<(LengthView, int)>((f.length, p2)));
        },
        LengthView::Variable(e) => {
            lemma_after_key_exact(s, q1, key_length());
            crate::json::lemma_parse_of_quoted(s, v2, e);
            assert(parse_length_token(s, v2) == Some::<(LengthView, int)>((f.length, p2)));
        },
    }
    // the tail: comma, wrap member, optional color member, closing brace
    lemma_expect_char_at(s, p2, ',');
    let q2 = p2 + 1;
    lemma_match_at_split(s, q2, key_wrap() + seq![':'], bool_chars(f.wrap));
    let vw = q2 + key_wrap().len() + 1;
    lemma_match_at_first(s, vw, bool_chars(f.wrap));
    lemma_after_key_exact(s, q2, key_wrap());
    crate::json::lemma_parse_bool_of_chars(s, vw, f.wrap);
    let p3 = q2 + m3.len();
    match f.color {
        Some(c) => {
            lemma_match_at_split(s, p3, seq![','], member(key_color(), ser_color(c)));
            lemma_match_at_first(s, p3, seq![',']);
            lemma_expect_char_at(s, p3, ',');
            let g = p3 + 1;
            lemma_match_at_split(s, g, key_color() + seq![':'], ser_color(c));
            let v3 = g + key_color().len() + 1;
            lemma_match_at_first(s, v3, ser_color(c));
            lemma_after_key_exact(s, g, key_color());
            assert(!match_at(s, v3, "null"@)) by {
                if match_at(s, v3, "null"@) {
                    assert(s.subrange(v3, v3 + 4)[0] == s[v3]);
                }
            }
            crate::json::lemma_parse_of_quoted(s, v3, color_chars(c));
            crate::color::lemma_color_round_trip(c);
            let p4 = g + member(key_color(), ser_color(c)).len();
            lemma_match_at_first(s, p4, seq!['}']);
            lemma_expect_char_at(s, p4, '}');
        },
        None => {
            assert(tail =~= Seq::<char>::empty());
            lemma_match_at_first(s, p3, seq!['}']);
            lemma_expect_char_not(s, p3, ',');
            lemma_expect_char_at(s, p3, '}');
        },
    }
    assert(parse_field(s, i) matches Some(p) && p.0.name == f.name && p.0.length == f.length
        && p.0.wrap == f.wrap && p.0.color == f.color && p.1 == i + ser_field(f).len());
}

/// The serialized tail of a field array parses back, appending to what was
/// already read.
#[verifier::rlimit(100)]
#[verifier::spinoff_prover]
pub proof fn lemma_fields_rest_of_ser(
    s: Seq<char>,
    i: int,
    fs: Seq<FieldModelView>,
    acc: Seq<FieldModelView>,
)
    requires
        match_at(s, i, ser_fields_rest(fs)),
        forall|k: int| 0 <= k < fs.len() ==> wf_field(#[trigger] fs[k]),
    ensures
        parse_fields_rest(s, i, acc) == Some::<(Seq<FieldModelView>, int)>(
            (acc + fs, i + ser_fields_rest(fs).len()),
        ),
    decreases fs.len(),
{
    if fs.len() == 0 {
        lemma_match_at_first(s, i, seq![']']);
        lemma_expect_char_at(s, i, ']');
        assert(acc + fs =~= acc);
    } else {
        let f0 = fs[0];
        let rest = fs.drop_first();
        lemma_match_at_split(s, i, seq![','] + ser_field(f0), ser_fields_rest(rest));
        lemma_match_at_split(s, i, seq![','], ser_field(f0));
        lemma_match_at_first(s, i, seq![',']);
        lemma_expect_char_not(s, i, ']');
        lemma_expect_char_at(s, i, ',');
        let g = i + 1;
        lemma_field_of_ser(s, g, f0);
        let j = g + ser_field(f0).len();
        assert(forall|k: int| 0 <= k < rest.len() ==> wf_field(#[trigger] rest[k]));
        lemma_fields_rest_of_ser(s, j, rest, acc.push(f0));
        assert(acc.push(f0) + rest =~= acc + fs);
    }
}

/// A serialized field array parses back to its fields.
#[verifier::rlimit(100)]
#[verifier::spinoff_prover]
pub proof fn lemma_fields_of_ser(s: Seq<char>, i: int, fs: Seq<FieldModelView>)
    requires
        match_at(s, i, ser_fields(fs)),
        forall|k: int| 0 <= k < fs.len() ==> wf_field(#[trigger] fs[k]),
    ensures
        parse_fields(s, i) == Some::<(Seq<FieldModelView>, int)>(
            (fs, i + ser_fields(fs).len()),
        ),
{
    if fs.len() == 0 {
        assert(ser_fields(fs) =~= seq!['['] + seq![']']);
        lemma_match_at_split(s, i, seq!['['], seq![']']);
        lemma_match_at_first(s, i, seq!['[']);
        lemma_expect_char_at(s, i, '[');
        lemma_match_at_first(s, i + 1, seq![']']);
        lemma_expect_char_at(s, i + 1, ']');
        assert(parse_fields(s, i) == Some::<(Seq<FieldModelView>, int)>((fs, i + 2)));
    } else {
        let f0 = fs[0];
        let rest = fs.drop_first();
        lemma_match_at_split(s, i, seq!['['] + ser_field(f0), ser_fields_rest(rest));
        lemma_match_at_split(s, i, seq!['['], ser_field(f0));
        lemma_match_at_first(s, i, seq!['[']);
        lemma_expect_char_at(s, i, '[');
        let a = i + 1;
        lemma_match_at_first(s, a, ser_field(f0));
        assert(ser_field(f0)[0] == '{');
        lemma_expect_char_not(s, a, ']');
        lemma_field_of_ser(s, a, f0);
        let j = a + ser_field(f0).len();
        assert(forall|k: int| 0 <= k < rest.len() ==> wf_field(#[trigger] rest[k]));
        lemma_fields_rest_of_ser(s, j, rest, seq![f0]);
        assert(seq![f0] + rest =~= fs);
    }
}

/// A serialized elements member with its trailing comma is consumed by the
/// optional-elements step.
#[verifier::rlimit(100)]
pub proof fn lemma_elements_member_at(s: Seq<char>, i: int, e: ElementsConfig)
    requires
        match_at(s, i, member(key_elements(), ser_elements(e)) + seq![',']),
    ensures
        parse_elements_opt(s, i) == Some::<(ElementsConfig, int)>(
            (e, i + member(key_elements(), ser_elements(e)).len() + 1),
        ),
{
    reveal_strlit("\"elements\"");
    lemma_match_at_split(s, i, member(key_elements(), ser_elements(e)), seq![',']);
    lemma_match_at_split(s, i, key_elements() + seq![':'], ser_elements(e));
    let v = i + key_elements().len() + 1;
    lemma_match_at_first(s, v, ser_elements(e));
    lemma_after_key_exact(s, i, key_elements());
    lemma_elements_of_ser(s, v, e);
    let p = i + member(key_elements(), ser_elements(e)).len();
    lemma_match_at_first(s, p, seq![',']);
    lemma_expect_char_at(s, p, ',');
}

/// A serialized style member with its trailing comma is consumed by the
/// optional-style step.
#[verifier::rlimit(100)]
pub proof fn lemma_style_member_at(s: Seq<char>, i: int, st: StyleConfig)
    requires
        match_at(s, i, member(key_style(), ser_style(st)) + seq![',']),
    ensures
        parse_style_opt(s, i) == Some::<(StyleConfig, int)>(
            (st, i + member(key_style(), ser_style(st)).len() + 1),
        ),
{
    reveal_strlit("\"style\"");
    lemma_match_at_split(s, i, member(key_style(), ser_style(st)), seq![',']);
    lemma_match_at_split(s, i, key_style() + seq![':'], ser_style(st));
    let v = i + key_style().len() + 1;
    lemma_match_at_first(s, v, ser_style(st));
    lemma_after_key_exact(s, i, key_style());
    lemma_style_of_ser(s, v, st);
    let p = i + member(key_style(), ser_style(st)).len();
    lemma_match_at_first(s, p, seq![',']);
    lemma_expect_char_at(s, p, ',');
}

/// A serialized fields member is consumed key, colon and array.
#[verifier::rlimit(100)]
pub proof fn lemma_fields_member_at(s: Seq<char>, i: int, fs: Seq<FieldModelView>)
    requires
        match_at(s, i, member(key_fields(), ser_fields(fs))),
        forall|k: int| 0 <= k < fs.len() ==> wf_field(#[trigger] fs[k]),
    ensures
        after_key(s, i, key_fields()) == Some(i + key_fields().len() + 1),
        parse_fields(s, i + key_fields().len() + 1) == Some::<(Seq<FieldModelView>, int)>(
            (fs, i + member(key_fields(), ser_fields(fs)).len()),
        ),
{
    reveal_strlit("\"fields\"");
    lemma_match_at_split(s, i, key_fields() + seq![':'], ser_fields(fs));
    let v = i + key_fields().len() + 1;
    lemma_match_at_first(s, v, ser_fields(fs));
    assert(ser_fields(fs)[0] == '[');
    lemma_after_key_exact(s, i, key_fields());
    lemma_fields_of_ser(s, v, fs);
}

/// Law: deserializing a serialized descriptor restores it exactly, for
/// every descriptor whose fixed lengths fit the machine word, which every
/// built descriptor satisfies.
#[verifier::rlimit(100)]
#[verifier::spinoff_prover]
pub proof fn lemma_serialize_round_trip(d: DescriptorView)
    requires
        wf_descriptor(d),
    ensures
        spec_deserialize(json_of(d)) == Some(d),
{
    let s = json_of(d);
    let m1 = member(key_elements(), ser_elements(d.elements));
    let m2 = member(key_style(), ser_style(d.style));
    let m3 = member(key_fields(), ser_fields(d.fields));
    assert(match_at(s, 0, s)) by {
        assert(s.subrange(0, s.len() as int) =~= s);
    }
    lemma_match_at_split(s, 0, seq!['{'] + m1 + seq![','] + m2 + seq![','] + m3, seq!['}']);
    lemma_match_at_split(s, 0, seq!['{'] + m1 + seq![','] + m2 + seq![','], m3);
    lemma_match_at_split(s, 0, seq!['{'] + m1 + seq![','] + m2, seq![',']);
    lemma_match_at_split(s, 0, seq!['{'] + m1 + seq![','], m2);
    lemma_match_at_split(s, 0, seq!['{'] + m1, seq![',']);
    lemma_match_at_split(s, 0, seq!['{'], m1);
    lemma_match_at_first(s, 0, seq!['{']);
    lemma_expect_char_at(s, 0, '{');
    let p0 = 1int;
    assert(match_at(s, p0, m1 + seq![','])) by {
        lemma_match_at_split(s, 0, seq!['{'] + m1 + seq![','] + m2, seq![',']);
        assert(seq!['{'] + m1 + seq![','] =~= seq!['{'] + (m1 + seq![',']));
        lemma_match_at_split(s, 0, seq!['{'], m1 + seq![',']);
    }
    lemma_elements_member_at(s, p0, d.elements);
    let q1 = p0 + m1.len() + 1;
    assert(parse_elements_opt(s, p0) == Some::<(ElementsConfig, int)>((d.elements, q1)));
    assert(0 <= q1 <= s.len());
    assert(match_at(s, q1, m2 + seq![','])) by {
        assert(seq!['{'] + m1 + seq![','] + m2 + seq![','] =~= (seq!['{'] + m1 + seq![','])
            + (m2 + seq![',']));
        lemma_match_at_split(s, 0, seq!['{'] + m1 + seq![','], m2 + seq![',']);
    }
    lemma_style_member_at(s, q1, d.style);
    let q2 = q1 + m2.len() + 1;
    assert(parse_style_opt(s, q1) == Some::<(StyleConfig, int)>((d.style, q2)));
    assert(0 <= q2 <= s.len());
    lemma_fields_member_at(s, q2, d.fields);
    let p3 = q2 + m3.len();
    assert(after_key(s, q2, key_fields()) == Some(q2 + key_fields().len() + 1));
    assert(parse_fields(s, q2 + key_fields().len() + 1) == Some::<(Seq<FieldModelView>, int)>(
        (d.fields, p3),
    ));
    lemma_match_at_first(s, p3, seq!['}']);
    lemma_expect_char_at(s, p3, '}');
    assert(expect_char(s, p3, '}') == Some(p3 + 1));
    crate::json::lemma_skip_ws_none(s, p3 + 1);
    assert(p3 + 1 == s.len());
    assert(skip_ws(s, p3 + 1) == s.len());
    assert(spec_deserialize(s) == Some(d));
}

} // verus!
