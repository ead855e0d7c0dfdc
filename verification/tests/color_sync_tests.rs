use protoviz_web::color::ColorValue;
use protoviz_web::descriptor::{FieldInput, FieldLength, FieldModel};
use protoviz_web::errors::ProtoError;
use protoviz_web::sync::{create_field_descriptors, update_field_inputs};

fn buffer(name: &str, length: &str) -> FieldInput {
    FieldInput { name: name.to_string(), length: length.to_string(), wrap: false, color: None }
}

#[test]
fn color_format_is_lowercase_hex() {
    let c = ColorValue { r: 10, g: 11, b: 12 };
    assert_eq!(c.format(), "#0a0b0c");
    let white = ColorValue { r: 255, g: 255, b: 255 };
    assert_eq!(white.format(), "#ffffff");
}

#[test]
fn color_parse_accepts_uppercase() {
    let c = ColorValue::parse("#ABCDEF").unwrap();
    assert_eq!(c, ColorValue { r: 0xab, g: 0xcd, b: 0xef });
}

#[test]
fn color_parse_rejects_bad_digits() {
    assert_eq!(ColorValue::parse("#zz0000"), Err(ProtoError::InvalidColor));
}

#[test]
fn color_parse_rejects_bad_shapes() {
    assert_eq!(ColorValue::parse(""), Err(ProtoError::InvalidColor));
    assert_eq!(ColorValue::parse("#12345"), Err(ProtoError::InvalidColor));
    assert_eq!(ColorValue::parse("#1234567"), Err(ProtoError::InvalidColor));
    assert_eq!(ColorValue::parse("123456!"), Err(ProtoError::InvalidColor));
    assert_eq!(ColorValue::parse("#12345g"), Err(ProtoError::InvalidColor));
}

#[test]
fn color_round_trips_through_text() {
    let samples = [
        ColorValue { r: 0, g: 0, b: 0 },
        ColorValue { r: 255, g: 255, b: 255 },
        ColorValue { r: 120, g: 180, b: 240 },
        ColorValue { r: 1, g: 16, b: 17 },
    ];
    for c in samples {
        assert_eq!(ColorValue::parse(&c.format()), Ok(c));
    }
}

#[test]
fn numeric_length_becomes_fixed() {
    for (text, value) in [("0", 0usize), ("7", 7), ("42", 42), ("007", 7), ("+5", 5)] {
        let models = create_field_descriptors(&[buffer("f", text)]);
        assert_eq!(models[0].length, FieldLength::Fixed(value));
    }
}

#[test]
fn symbolic_length_is_kept_verbatim() {
    for text in ["N", "len+2", " 12", "2x", "-3", "+"] {
        let models = create_field_descriptors(&[buffer("f", text)]);
        assert_eq!(models[0].length, FieldLength::Variable(text.to_string()));
    }
}

#[test]
fn oversized_length_is_symbolic() {
    let text = "99999999999999999999999999";
    let models = create_field_descriptors(&[buffer("f", text)]);
    assert_eq!(models[0].length, FieldLength::Variable(text.to_string()));
}

#[test]
fn empty_length_defaults_to_one() {
    let models = create_field_descriptors(&[buffer("f", "")]);
    assert_eq!(models[0].length, FieldLength::Fixed(1));
}

#[test]
fn conversion_preserves_order_and_attributes() {
    let buffers = vec![
        FieldInput {
            name: "header".to_string(),
            length: "2".to_string(),
            wrap: true,
            color: Some(ColorValue { r: 1, g: 2, b: 3 }),
        },
        FieldInput {
            name: "payload".to_string(),
            length: "N".to_string(),
            wrap: false,
            color: None,
        },
    ];
    let models = create_field_descriptors(&buffers);
    assert_eq!(models.len(), 2);
    assert_eq!(models[0].name, "header");
    assert_eq!(models[0].wrap, true);
    assert_eq!(models[0].color, Some(ColorValue { r: 1, g: 2, b: 3 }));
    assert_eq!(models[1].name, "payload");
    assert_eq!(models[1].length, FieldLength::Variable("N".to_string()));
}

#[test]
fn buffer_round_trip_preserves_text_except_empty() {
    let buffers = vec![
        buffer("a", "2"),
        buffer("b", "N"),
        buffer("c", ""),
        FieldInput {
            name: "d".to_string(),
            length: "12".to_string(),
            wrap: true,
            color: Some(ColorValue { r: 9, g: 9, b: 9 }),
        },
    ];
    let round = update_field_inputs(&create_field_descriptors(&buffers));
    assert_eq!(round[0].length, "2");
    assert_eq!(round[1].length, "N");
    assert_eq!(round[2].length, "1");
    assert_eq!(round[3].length, "12");
    for (orig, back) in buffers.iter().zip(round.iter()) {
        assert_eq!(orig.name, back.name);
        assert_eq!(orig.wrap, back.wrap);
        assert_eq!(orig.color, back.color);
    }
}

#[test]
fn buffer_round_trip_canonicalizes_padded_numbers() {
    let round = update_field_inputs(&create_field_descriptors(&[buffer("a", "007")]));
    assert_eq!(round[0].length, "7");
}

#[test]
fn models_render_back_to_buffers() {
    let models = vec![
        FieldModel {
            name: "len".to_string(),
            length: FieldLength::Fixed(10),
            wrap: false,
            color: None,
        },
        FieldModel {
            name: "body".to_string(),
            length: FieldLength::Variable("K".to_string()),
            wrap: true,
            color: Some(ColorValue { r: 4, g: 5, b: 6 }),
        },
    ];
    let buffers = update_field_inputs(&models);
    assert_eq!(buffers[0].length, "10");
    assert_eq!(buffers[1].length, "K");
    assert_eq!(buffers[1].wrap, true);
    assert_eq!(buffers[1].color, Some(ColorValue { r: 4, g: 5, b: 6 }));
}
