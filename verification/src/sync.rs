//! The synchronizer: pure conversions between the edit-buffer list and the
//! canonical field-model list.

use vstd::prelude::*;

use crate::descriptor::{FieldInput, FieldInputView, FieldLength, FieldModel, FieldModelView,
    LengthView};
use crate::numeric::{all_dec_digits, dec_chars, digits_value, lemma_dec_chars_parses,
    lemma_dec_chars_value, numeric_body, parses_as_usize, scan_dec_digits, usize_of_chars,
    usize_to_chars};
use crate::text::{chars_of_str, string_from_chars};

verus! {

/// How raw length text is interpreted: empty text defaults to a fixed length
/// of one; text that parses as a machine-sized non-negative integer is a
/// fixed length; anything else is kept verbatim as a symbolic length.
pub open spec fn length_of_text(s: Seq<char>) -> LengthView {
    if s.len() == 0 {
        LengthView::Fixed(1)
    } else if parses_as_usize(s) {
        LengthView::Fixed(usize_of_chars(s))
    } else {
        LengthView::Variable(s)
    }
}

/// The field model an edit buffer converts to: the length text interpreted,
/// everything else copied through.
pub open spec fn model_of_input(b: FieldInputView) -> FieldModelView {
    FieldModelView { name: b.name, length: length_of_text(b.length), wrap: b.wrap, color: b.color }
}

/// The length text shown for a field model: a fixed length in canonical
/// decimal, a symbolic length verbatim.
pub open spec fn text_of_length(l: LengthView) -> Seq<char> {
    match l {
        LengthView::Fixed(n) => dec_chars(n as nat),
        LengthView::Variable(s) => s,
    }
}

/// The edit buffer derived from a field model: the length rendered as text,
/// everything else copied through.
pub open spec fn input_of_model(m: FieldModelView) -> FieldInputView {
    FieldInputView { name: m.name, length: text_of_length(m.length), wrap: m.wrap, color: m.color }
}

/// Interprets raw length text as a field length.
fn parse_length(raw: &String) -> (l: FieldLength)
    ensures
        l@ == length_of_text(raw@),
{
    let chars = chars_of_str(raw.as_str());
    if chars.len() == 0 {
        return FieldLength::Fixed(1);
    }
    let start: usize = if chars[0] == '+' {
        1
    } else {
        0
    };
    let (value, end) = scan_dec_digits(&chars, start);
    proof {
        if start == 1 {
            assert(numeric_body(raw@) =~= chars@.subrange(1, chars@.len() as int));
        } else {
            assert(numeric_body(raw@) =~= chars@);
        }
    }
    match value {
        Some(n) if end == chars.len() => {
            proof {
                assert(chars@.subrange(start as int, end as int) =~= numeric_body(raw@));
            }
            FieldLength::Fixed(n)
        },
        _ => {
            proof {
                let body = numeric_body(raw@);
                assert(chars@.subrange(start as int, end as int) == body.subrange(
                    0,
                    end - start,
                )) by {
                    assert(chars@.subrange(start as int, end as int) =~= body.subrange(
                        0,
                        end - start,
                    ));
                }
                if end < chars@.len() {
                    // the run stops early: the body holds a non-digit
                    assert(!crate::numeric::is_dec_digit(body[end - start]));
                } else if end == start {
                    // no digits at all: the body is empty
                    assert(body.len() == 0);
                } else {
                    // the run fills the body but its value does not fit
                    assert(body.subrange(0, end - start) =~= body);
                    assert(digits_value(body) > usize::MAX);
                }
                assert(!parses_as_usize(raw@) || raw@.len() == 0);
            }
            if chars.len() == 0 {
                FieldLength::Fixed(1)
            } else {
                FieldLength::Variable(raw.clone())
            }
        },
    }
}

/// Converts the edit-buffer list to the canonical field-model list, index
/// for index: the length text of each buffer is interpreted as
/// [`length_of_text`] says, and name, wrap and color are copied through.
pub fn create_field_descriptors(input_fields: &[FieldInput]) -> (r: Vec<FieldModel>)
    ensures
        r@.len() == input_fields@.len(),
        forall|i: int|
            0 <= i < r@.len() ==> #[trigger] r@[i]@ == model_of_input(input_fields@[i]@),
{
    let mut out: Vec<FieldModel> = Vec::new();
    let n = input_fields.len();
    let mut i: usize = 0;
    while i < n
        invariant
            n == input_fields@.len(),
            i <= n,
            out@.len() == i,
            forall|j: int|
                0 <= j < i ==> #[trigger] out@[j]@ == model_of_input(input_fields@[j]@),
        decreases n - i,
    {
        let field = &input_fields[i];
        let model = FieldModel {
            name: field.name.clone(),
            length: parse_length(&field.length),
            wrap: field.wrap,
            color: field.color,
        };
        out.push(model);
        i += 1;
    }
    out
}

/// Derives a fresh edit-buffer list from the canonical field-model list,
/// index for index: a fixed length becomes its decimal text, a symbolic
/// length is kept verbatim, and name, wrap and color are copied through.
pub fn update_field_inputs(descriptors: &[FieldModel]) -> (r: Vec<FieldInput>)
    ensures
        r@.len() == descriptors@.len(),
        forall|i: int|
            0 <= i < r@.len() ==> #[trigger] r@[i]@ == input_of_model(descriptors@[i]@),
{
    let mut out: Vec<FieldInput> = Vec::new();
    let n = descriptors.len();
    let mut i: usize = 0;
    while i < n
        invariant
            n == descriptors@.len(),
            i <= n,
            out@.len() == i,
            forall|j: int|
                0 <= j < i ==> #[trigger] out@[j]@ == input_of_model(descriptors@[j]@),
        decreases n - i,
    {
        let field = &descriptors[i];
        let length_text: String = match &field.length {
            FieldLength::Fixed(len) => {
                let digits = usize_to_chars(*len);
                string_from_chars(&digits)
            },
            FieldLength::Variable(len) => len.clone(),
        };
        let input = FieldInput {
            name: field.name.clone(),
            length: length_text,
            wrap: field.wrap,
            color: field.color,
        };
        out.push(input);
        i += 1;
    }
    out
}

/// Law: converting an edit buffer to a field model and back preserves name,
/// wrap and color, and preserves the length text, except that empty length
/// text becomes `"1"`. Numeric length text is required to be in canonical
/// decimal form (no sign, no leading zero), since a parsed length is shown
/// again canonically.
pub proof fn lemma_buffer_round_trip(b: FieldInputView)
    requires
        b.length.len() == 0 || !parses_as_usize(b.length) || b.length == dec_chars(
            usize_of_chars(b.length) as nat,
        ),
    ensures
        input_of_model(model_of_input(b)).name == b.name,
        input_of_model(model_of_input(b)).wrap == b.wrap,
        input_of_model(model_of_input(b)).color == b.color,
        b.length.len() == 0 ==> input_of_model(model_of_input(b)).length == seq!['1'],
        b.length.len() > 0 ==> input_of_model(model_of_input(b)).length == b.length,
{
    if b.length.len() == 0 {
        assert(dec_chars(1) =~= seq!['1']);
    } else if parses_as_usize(b.length) {
        crate::numeric::lemma_digits_value_nonneg(numeric_body(b.length));
    }
}

/// Law: the round trip over a whole buffer list, element by element.
pub proof fn lemma_buffer_list_round_trip(buffers: Seq<FieldInputView>)
    requires
        forall|i: int|
            0 <= i < buffers.len() ==> (#[trigger] buffers[i].length).len() == 0
                || !parses_as_usize(buffers[i].length) || buffers[i].length == dec_chars(
                usize_of_chars(buffers[i].length) as nat,
            ),
    ensures
        forall|i: int|
            0 <= i < buffers.len() ==> {
                let rt = input_of_model(model_of_input(#[trigger] buffers[i]));
                &&& rt.name == buffers[i].name
                &&& rt.wrap == buffers[i].wrap
                &&& rt.color == buffers[i].color
                &&& buffers[i].length.len() == 0 ==> rt.length == seq!['1']
                &&& buffers[i].length.len() > 0 ==> rt.length == buffers[i].length
            },
{
    assert forall|i: int| 0 <= i < buffers.len() implies {
        let rt = input_of_model(model_of_input(#[trigger] buffers[i]));
        &&& rt.name == buffers[i].name
        &&& rt.wrap == buffers[i].wrap
        &&& rt.color == buffers[i].color
        &&& buffers[i].length.len() == 0 ==> rt.length == seq!['1']
        &&& buffers[i].length.len() > 0 ==> rt.length == buffers[i].length
    } by {
        lemma_buffer_round_trip(buffers[i]);
    }
}

/// Law: the canonical decimal text of any machine-sized non-negative integer
/// is interpreted as exactly that fixed length.
pub proof fn lemma_numeric_text_is_fixed(n: usize)
    ensures
        length_of_text(dec_chars(n as nat)) == LengthView::Fixed(n as int),
{
    lemma_dec_chars_value(n as nat);
    lemma_dec_chars_parses(n);
}

/// Law: non-empty length text that does not parse as a machine-sized
/// non-negative integer is kept verbatim as a symbolic length.
pub proof fn lemma_symbolic_text_is_variable(s: Seq<char>)
    requires
        s.len() > 0,
        !parses_as_usize(s),
    ensures
        length_of_text(s) == LengthView::Variable(s),
{
}

} // verus!
