//! Adapter to the external rendering engine that turns a descriptor into
//! diagram markup.

use vstd::prelude::*;

use crate::color::ColorValue;
use crate::descriptor::{Descriptor, DescriptorView, ElementsConfig, FieldLength, FieldModel,
    FieldModelView, LengthView, StyleConfig};
use crate::errors::ProtoError;
use crate::json::digit_run_end;
use crate::numeric::{digits_value, scan_dec_digits};
use crate::text::chars_of_str;

verus! {

#[verifier::external_type_specification]
#[verifier::external_body]
pub struct ExHexColor(hex_color::HexColor);

#[verifier::external_type_specification]
#[verifier::external_body]
pub struct ExFieldDescriptor(protoviz::descriptor::FieldDescriptor);

#[verifier::external_type_specification]
#[verifier::external_body]
pub struct ExStyleDescriptor(protoviz::descriptor::StyleDescriptor);

#[verifier::external_type_specification]
#[verifier::external_body]
pub struct ExElementsDescriptor(protoviz::descriptor::ElementsDescriptor);

/// What the external rendering engine answers for a descriptor on which it
/// is deterministic: either the diagram markup or a failure message. The
/// name is applied only under [`deterministic_descriptor`]: with position
/// annotations drawn and several symbolic lengths, the engine's markup
/// depends on a hash table's iteration order and gets no name.
pub uninterp spec fn rendered_markup(d: DescriptorView) -> Result<Seq<char>, Seq<char>>;

/// The characters of both sides of a rendering outcome.
pub open spec fn outcome_chars(r: Result<String, String>) -> Result<Seq<char>, Seq<char>> {
    match r {
        Ok(s) => Ok(s@),
        Err(e) => Err(e@),
    }
}

/// Relies on `hex_color::HexColor::rgb`: builds the engine's color value
/// from the three channels.
#[verifier::external_body]
fn to_hex_color(c: &ColorValue) -> hex_color::HexColor {
    hex_color::HexColor::rgb(c.r, c.g, c.b)
}

/// Relies on `protoviz::descriptor::FieldDescriptor`: carries one field of
/// the library's descriptor over, value for value.
#[verifier::external_body]
fn to_proto_field(f: &FieldModel) -> protoviz::descriptor::FieldDescriptor {
    protoviz::descriptor::FieldDescriptor {
        name: f.name.clone(),
        length: match &f.length {
            FieldLength::Fixed(n) => protoviz::descriptor::FieldLength::Fixed(*n),
            FieldLength::Variable(s) => protoviz::descriptor::FieldLength::Variable(s.clone()),
        },
        wrap: f.wrap,
        color: match &f.color {
            Some(c) => Some(to_hex_color(c)),
            None => None,
        },
    }
}

/// Relies on `protoviz::descriptor::StyleDescriptor`: carries the style
/// settings over, value for value.
#[verifier::external_body]
fn to_proto_style(s: &StyleConfig) -> protoviz::descriptor::StyleDescriptor {
    protoviz::descriptor::StyleDescriptor {
        background_color: to_hex_color(&s.background_color),
        field_color: to_hex_color(&s.field_color),
        text_color: to_hex_color(&s.text_color),
        subtitle_color: to_hex_color(&s.subtitle_color),
        unit_width: s.unit_width,
        dyn_units: s.dyn_units,
    }
}

/// Relies on `protoviz::descriptor::ElementsDescriptor`: carries the
/// annotation toggles over, value for value.
#[verifier::external_body]
fn to_proto_elements(e: &ElementsConfig) -> protoviz::descriptor::ElementsDescriptor {
    protoviz::descriptor::ElementsDescriptor {
        network_order: e.network_order,
        inner_subtitles: e.inner_subtitles,
        field_position: e.field_position,
        field_length: e.field_length,
        wrap_line: e.wrap_line,
        start_symbol: e.start_symbol,
    }
}

// ------------------------------------------------------------------
// What the engine can and cannot be trusted with.
// ------------------------------------------------------------------

/// The characters the engine trims from symbolic length text: the Unicode
/// white-space characters, as `char::is_whitespace` lists them.
pub open spec fn is_unicode_ws(c: char) -> bool {
    ||| (9 <= c as u32 && c as u32 <= 13)
    ||| c as u32 == 32
    ||| c as u32 == 0x85
    ||| c as u32 == 0xA0
    ||| c as u32 == 0x1680
    ||| (0x2000 <= c as u32 && c as u32 <= 0x200A)
    ||| c as u32 == 0x2028
    ||| c as u32 == 0x2029
    ||| c as u32 == 0x202F
    ||| c as u32 == 0x205F
    ||| c as u32 == 0x3000
}

/// The first index at or after `i` that holds no such whitespace.
pub open spec fn unicode_ws_end(s: Seq<char>, i: int) -> int
    decreases s.len() - i when 0 <= i <= s.len()
{
    if i < s.len() && is_unicode_ws(s[i]) {
        unicode_ws_end(s, i + 1)
    } else {
        i
    }
}

/// Whether symbolic length text starts, after trimming, with a decimal
/// digit run that more text follows and whose value exceeds the machine
/// word. The engine's position annotation parses such a run and aborts on
/// overflow, so these texts are kept away from it.
pub open spec fn overflowing_length_text(s: Seq<char>) -> bool {
    let b = unicode_ws_end(s, 0);
    let e = digit_run_end(s, b);
    e > b && e < s.len() && digits_value(s.subrange(b, e)) > usize::MAX
}

/// Whether one field length can be handed to the engine with position
/// annotations drawn.
pub open spec fn length_safe(l: LengthView) -> bool {
    match l {
        LengthView::Fixed(_) => true,
        LengthView::Variable(t) => !overflowing_length_text(t),
    }
}

/// Whether a descriptor avoids the engine's abort: position annotations
/// off, or no symbolic length with an overflowing leading digit run.
pub open spec fn engine_safe(d: DescriptorView) -> bool {
    d.elements.field_position ==> forall|i: int|
        0 <= i < d.fields.len() ==> #[trigger] length_safe(d.fields[i].length)
}

/// How many fields carry a symbolic length.
pub open spec fn variable_count(fields: Seq<FieldModelView>) -> int
    decreases fields.len(),
{
    if fields.len() == 0 {
        0
    } else {
        (match fields[0].length {
            LengthView::Variable(_) => 1int,
            LengthView::Fixed(_) => 0int,
        }) + variable_count(fields.drop_first())
    }
}

/// Whether the engine's markup is a function of the descriptor alone. With
/// position annotations drawn, the engine gathers the symbolic lengths in a
/// hash table and emits one annotation by iterating it, in an order that
/// varies between runs; with at most one symbolic length the table holds at
/// most one entry and nothing of that order shows.
pub open spec fn deterministic_descriptor(d: DescriptorView) -> bool {
    !d.elements.field_position || variable_count(d.fields) <= 1
}

/// The first index at or after `from` without engine-trimmed whitespace, as
/// [`unicode_ws_end`] says.
fn unicode_ws_end_exec(s: &Vec<char>, from: usize) -> (j: usize)
    requires
        from <= s@.len(),
    ensures
        j == unicode_ws_end(s@, from as int),
        from <= j <= s@.len(),
{
    let n = s.len();
    let mut i = from;
    loop
        invariant
            from <= i <= n,
            n == s@.len(),
            unicode_ws_end(s@, from as int) == unicode_ws_end(s@, i as int),
        ensures
            from <= i <= n,
            unicode_ws_end(s@, from as int) == unicode_ws_end(s@, i as int),
            i == n || !is_unicode_ws(s@[i as int]),
        decreases n - i,
    {
        if i >= n {
            break ;
        }
        let u = s[i] as u32;
        let ws = (9 <= u && u <= 13) || u == 32 || u == 0x85 || u == 0xA0 || u == 0x1680 || (0x2000
            <= u && u <= 0x200A) || u == 0x2028 || u == 0x2029 || u == 0x202F || u == 0x205F || u
            == 0x3000;
        if !ws {
            break ;
        }
        i += 1;
    }
    i
}

/// Whether symbolic length text would make the engine's position
/// annotation abort, as [`overflowing_length_text`] says.
fn length_text_overflows(text: &String) -> (b: bool)
    ensures
        b == overflowing_length_text(text@),
{
    let chars = chars_of_str(text.as_str());
    let b = unicode_ws_end_exec(&chars, 0);
    let (value, e) = scan_dec_digits(&chars, b);
    proof {
        crate::json::lemma_digit_run_end(chars@, b as int, e as int);
    }
    e > b && e < chars.len() && value.is_none()
}

/// Whether the descriptor can be handed to the engine, as [`engine_safe`]
/// says.
pub fn check_engine_safe(descriptor: &Descriptor) -> (b: bool)
    ensures
        b == engine_safe(descriptor@),
{
    if !descriptor.elements.field_position {
        return true;
    }
    let n = descriptor.fields.len();
    let mut i: usize = 0;
    while i < n
        invariant
            descriptor@.elements.field_position,
            n == descriptor.fields@.len(),
            i <= n,
            forall|j: int| 0 <= j < i ==> #[trigger] length_safe(descriptor@.fields[j].length),
        decreases n - i,
    {
        let overflows = match &descriptor.fields[i].length {
            FieldLength::Fixed(_) => false,
            FieldLength::Variable(t) => length_text_overflows(t),
        };
        proof {
            assert(descriptor@.fields[i as int] == descriptor.fields@[i as int]@);
        }
        if overflows {
            proof {
                assert(!length_safe(descriptor@.fields[i as int].length));
            }
            return false;
        }
        i += 1;
    }
    true
}

/// Relies on `protoviz::ProtoViz::render`. Its `requires` keeps away the
/// inputs on which the engine aborts: with position annotations drawn it
/// parses the leading digit run of each symbolic length and panics when the
/// run does not fit a machine word. Where the markup is a function of the
/// descriptor alone — see [`deterministic_descriptor`] — the outcome is the
/// named one; the engine's own validation further rejects, among others, a
/// unit width under 10, under 3 dynamic units, and an empty field list.
#[verifier::external_body]
fn render_engine(descriptor: &Descriptor) -> (r: Result<String, String>)
    requires
        engine_safe(descriptor@),
    ensures
        deterministic_descriptor(descriptor@) ==> outcome_chars(r) == rendered_markup(
            descriptor@,
        ),
        descriptor@.fields.len() == 0 ==> r is Err,
        descriptor@.style.unit_width < 10 ==> r is Err,
        descriptor@.style.dyn_units < 3 ==> r is Err,
{
    let pd = protoviz::descriptor::ProtoDescriptor {
        elements: to_proto_elements(&descriptor.elements),
        style: to_proto_style(&descriptor.style),
        fields: descriptor.fields.iter().map(to_proto_field).collect(),
    };
    match protoviz::ProtoViz::render(&pd) {
        Ok(p) => Ok(p.svg),
        Err(e) => Err(e.to_string()),
    }
}

/// Renders a descriptor to diagram markup. An empty field list yields empty
/// markup without invoking the external engine: an empty diagram is
/// "nothing to draw yet", not an error. A descriptor the engine would abort
/// on is rejected here, before the engine runs; every other failure is the
/// engine's own, surfaced with its message. Failures are always
/// `RenderFailure`, never a crash.
pub fn render_descriptor(descriptor: &Descriptor) -> (r: Result<String, ProtoError>)
    ensures
        descriptor@.fields.len() == 0 ==> (r matches Ok(s) && s@ == Seq::<char>::empty()),
        descriptor@.fields.len() > 0 && !engine_safe(descriptor@) ==> (r matches Err(
            ProtoError::RenderFailure(_),
        )),
        descriptor@.fields.len() > 0 && engine_safe(descriptor@) && deterministic_descriptor(
            descriptor@,
        ) ==> match rendered_markup(descriptor@) {
            Ok(m) => (r matches Ok(s) && s@ == m),
            Err(e) => (r matches Err(ProtoError::RenderFailure(d)) && d@ == e),
        },
        r matches Err(e) ==> e matches ProtoError::RenderFailure(_),
{
    if descriptor.fields.len() == 0 {
        return Ok(String::new());
    }
    if !check_engine_safe(descriptor) {
        return Err(
            ProtoError::RenderFailure(
                "a symbolic length starts with a digit run beyond the machine word".to_owned(),
            ),
        );
    }
    match render_engine(descriptor) {
        Ok(svg) => Ok(svg),
        Err(detail) => Err(ProtoError::RenderFailure(detail)),
    }
}

/// Renders a descriptor to diagram markup, falling back to empty markup when
/// rendering fails, as the diagram surface shows after a reported failure.
pub fn update_svg(descriptor: &Descriptor) -> (svg: String)
    ensures
        descriptor@.fields.len() == 0 ==> svg@ == Seq::<char>::empty(),
        descriptor@.fields.len() > 0 && !engine_safe(descriptor@) ==> svg@
            == Seq::<char>::empty(),
        descriptor@.fields.len() > 0 && engine_safe(descriptor@) && deterministic_descriptor(
            descriptor@,
        ) ==> svg@ == (match rendered_markup(descriptor@) {
            Ok(m) => m,
            Err(_) => Seq::<char>::empty(),
        }),
{
    match render_descriptor(descriptor) {
        Ok(svg) => svg,
        Err(_) => String::new(),
    }
}

} // verus!
