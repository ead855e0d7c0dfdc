use protoviz_web::color::ColorValue;
use protoviz_web::descriptor::{Descriptor, ElementsConfig, FieldLength, FieldModel, StyleConfig};
use protoviz_web::editor::Editor;
use protoviz_web::errors::ProtoError;
use protoviz_web::persist::{deserialize, serialize};
use protoviz_web::render::render_descriptor;

fn sample_descriptor() -> Descriptor {
    Descriptor {
        elements: ElementsConfig {
            network_order: false,
            inner_subtitles: true,
            field_position: false,
            field_length: true,
            wrap_line: false,
            start_symbol: true,
        },
        style: StyleConfig {
            background_color: ColorValue { r: 250, g: 250, b: 250 },
            field_color: ColorValue { r: 16, g: 32, b: 64 },
            text_color: ColorValue { r: 0, g: 0, b: 0 },
            subtitle_color: ColorValue { r: 128, g: 128, b: 128 },
            unit_width: 40,
            dyn_units: 5,
        },
        fields: vec![
            FieldModel {
                name: "Opcode".to_string(),
                length: FieldLength::Fixed(2),
                wrap: false,
                color: None,
            },
            FieldModel {
                name: "Payload".to_string(),
                length: FieldLength::Variable("N".to_string()),
                wrap: true,
                color: Some(ColorValue { r: 120, g: 180, b: 240 }),
            },
        ],
    }
}

#[test]
fn round_trip_restores_the_descriptor() {
    let d = sample_descriptor();
    let text = serialize(&d);
    let back = deserialize(&text).unwrap();
    assert_eq!(back, d);
}

#[test]
fn round_trip_restores_the_fresh_editor_descriptor() {
    let editor = Editor::new();
    let text = serialize(&editor.descriptor);
    let back = deserialize(&text).unwrap();
    assert_eq!(back, editor.descriptor);
}

#[test]
fn round_trip_keeps_awkward_names() {
    let mut d = sample_descriptor();
    d.fields[0].name = "quote \" backslash \\ newline \n tab \t bell \u{7} done".to_string();
    d.fields[1].name = "emoji \u{1F600} and accents \u{e9}\u{e8}".to_string();
    let back = deserialize(&serialize(&d)).unwrap();
    assert_eq!(back, d);
}

#[test]
fn round_trip_keeps_empty_field_list() {
    let mut d = sample_descriptor();
    d.fields.clear();
    let back = deserialize(&serialize(&d)).unwrap();
    assert_eq!(back, d);
}

#[test]
fn round_trip_keeps_extreme_lengths() {
    let mut d = sample_descriptor();
    d.fields[0].length = FieldLength::Fixed(usize::MAX);
    d.fields[1].length = FieldLength::Fixed(0);
    let back = deserialize(&serialize(&d)).unwrap();
    assert_eq!(back, d);
}

#[test]
fn whitespace_between_tokens_is_accepted() {
    let text = "{ \"elements\" : { \"network_order\" : true , \"inner_subtitles\" : true ,\n \"field_position\" : true , \"field_length\" : true , \"wrap_line\" : true ,\n \"start_symbol\" : true } , \"style\" : { \"background_color\" : \"#ffffff\" ,\n \"field_color\" : \"#ffffff\" , \"text_color\" : \"#000000\" , \"subtitle_color\" : \"#000000\" ,\n \"unit_width\" : 50 , \"dyn_units\" : 3 } , \"fields\" : [ { \"name\" : \"a\" , \"length\" : 2 , \"wrap\" : false } ] }\n";
    let d = deserialize(text).unwrap();
    assert_eq!(d.fields.len(), 1);
    assert_eq!(d.fields[0].length, FieldLength::Fixed(2));
    assert_eq!(d.style.unit_width, 50);
}

#[test]
fn missing_optional_parts_take_defaults() {
    let d = deserialize("{\"fields\":[{\"name\":\"a\",\"length\":1,\"wrap\":true}]}").unwrap();
    assert_eq!(d.elements, ElementsConfig::default());
    assert_eq!(d.style, StyleConfig::default());
    assert_eq!(d.fields[0].color, None);
    assert_eq!(d.fields[0].wrap, true);
}

#[test]
fn missing_wrap_and_color_take_defaults() {
    let d = deserialize("{\"fields\":[{\"name\":\"a\",\"length\":\"K\"}]}").unwrap();
    assert_eq!(d.fields[0].wrap, false);
    assert_eq!(d.fields[0].color, None);
    assert_eq!(d.fields[0].length, FieldLength::Variable("K".to_string()));
}

#[test]
fn null_color_reads_as_inherited() {
    let d = deserialize(
        "{\"fields\":[{\"name\":\"a\",\"length\":1,\"wrap\":false,\"color\":null}]}",
    ).unwrap();
    assert_eq!(d.fields[0].color, None);
}

#[test]
fn uppercase_colors_are_accepted() {
    let d = deserialize(
        "{\"fields\":[{\"name\":\"a\",\"length\":1,\"wrap\":false,\"color\":\"#A0B1C2\"}]}",
    ).unwrap();
    assert_eq!(d.fields[0].color, Some(ColorValue { r: 0xa0, g: 0xb1, b: 0xc2 }));
}

#[test]
fn out_of_range_style_values_are_kept_as_given() {
    let text = "{\"style\":{\"background_color\":\"#ffffff\",\"field_color\":\"#ffffff\",\"text_color\":\"#000000\",\"subtitle_color\":\"#000000\",\"unit_width\":9999,\"dyn_units\":1},\"fields\":[]}";
    let d = deserialize(text).unwrap();
    assert_eq!(d.style.unit_width, 9999);
    assert_eq!(d.style.dyn_units, 1);
}

#[test]
fn malformed_texts_are_rejected() {
    let cases = [
        "",
        "{}",
        "not json",
        "{\"fields\":}",
        "{\"fields\":[}",
        "{\"fields\":[]",
        "{\"fields\":[]} trailing",
        "{\"fields\":[{\"length\":1,\"name\":\"a\",\"wrap\":false}]}",
        "{\"fields\":[{\"name\":\"a\",\"length\":1,\"wrap\":false,\"color\":\"#zzz000\"}]}",
        "{\"fields\":[{\"name\":\"a\",\"length\":99999999999999999999999,\"wrap\":false}]}",
        "{\"fields\":[{\"name\":\"unterminated,\"length\":1}]}",
    ];
    for text in cases {
        match deserialize(text) {
            Err(ProtoError::ParseFailure(_)) => {},
            other => panic!("{:?} accepted for {:?}", other, text),
        }
    }
}

#[test]
fn serialized_text_is_read_by_the_engine_types() {
    let d = sample_descriptor();
    let text = serialize(&d);
    let engine: protoviz::descriptor::ProtoDescriptor = serde_json::from_str(&text).unwrap();
    assert_eq!(engine.fields.len(), 2);
    assert_eq!(engine.fields[0].name, "Opcode");
    assert_eq!(engine.fields[0].length, protoviz::descriptor::FieldLength::Fixed(2));
    assert_eq!(
        engine.fields[1].length,
        protoviz::descriptor::FieldLength::Variable("N".to_string())
    );
    assert!(!engine.elements.network_order);
    assert_eq!(engine.style.unit_width, 40);
    assert_eq!(engine.style.field_color, hex_color::HexColor::rgb(16, 32, 64));
    assert_eq!(engine.fields[1].color, Some(hex_color::HexColor::rgb(120, 180, 240)));
}

#[test]
fn engine_written_text_is_read_back() {
    let engine = protoviz::descriptor::ProtoDescriptor {
        elements: Default::default(),
        style: Default::default(),
        fields: vec![protoviz::descriptor::FieldDescriptor {
            name: "len".to_string(),
            length: protoviz::descriptor::FieldLength::Fixed(4),
            wrap: false,
            color: Some(hex_color::HexColor::rgb(1, 2, 3)),
        }],
    };
    let text = serde_json::to_string_pretty(&engine).unwrap();
    let d = deserialize(&text).unwrap();
    assert_eq!(d.fields.len(), 1);
    assert_eq!(d.fields[0].name, "len");
    assert_eq!(d.fields[0].length, FieldLength::Fixed(4));
    assert_eq!(d.fields[0].color, Some(ColorValue { r: 1, g: 2, b: 3 }));
    assert_eq!(d.style, StyleConfig::default());
    assert_eq!(d.elements, ElementsConfig::default());
}

#[test]
fn renderer_rejects_small_unit_width() {
    let mut d = sample_descriptor();
    d.style.unit_width = 5;
    match render_descriptor(&d) {
        Err(ProtoError::RenderFailure(_)) => {},
        other => panic!("unexpected outcome {:?}", other),
    }
}

#[test]
fn renderer_returns_empty_markup_for_no_fields() {
    let mut d = sample_descriptor();
    d.fields.clear();
    assert_eq!(render_descriptor(&d), Ok(String::new()));
}

#[test]
fn unicode_escapes_are_decoded() {
    let d = deserialize(
        "{\"fields\":[{\"name\":\"\\u0041\\u00e9\\u0009\",\"length\":1,\"wrap\":false}]}",
    )
    .unwrap();
    assert_eq!(d.fields[0].name, "A\u{e9}\t");
}

#[test]
fn surrogate_escapes_are_rejected() {
    let r = deserialize("{\"fields\":[{\"name\":\"\\uD800\",\"length\":1,\"wrap\":false}]}");
    assert!(matches!(r, Err(ProtoError::ParseFailure(_))));
}

#[test]
fn serialized_text_is_exactly_canonical() {
    let d = Descriptor::default();
    let expected = "{\"elements\":{\"network_order\":true,\"inner_subtitles\":true,\"field_position\":true,\"field_length\":true,\"wrap_line\":true,\"start_symbol\":true},\"style\":{\"background_color\":\"#ffffff\",\"field_color\":\"#ffffff\",\"text_color\":\"#000000\",\"subtitle_color\":\"#000000\",\"unit_width\":50,\"dyn_units\":3},\"fields\":[]}";
    assert_eq!(serialize(&d), expected);
}

#[test]
fn round_trip_keeps_empty_name() {
    let mut d = sample_descriptor();
    d.fields[0].name = String::new();
    let back = deserialize(&serialize(&d)).unwrap();
    assert_eq!(back, d);
}

#[test]
fn older_member_names_are_accepted() {
    let text = "{\"elements\":{\"is_network\":false,\"inner_subtitles\":true,\"position\":false,\"length\":false,\"wrap_line\":true,\"start_symbol\":true},\"fields\":[]}";
    let d = deserialize(text).unwrap();
    assert_eq!(d.elements.network_order, false);
    assert_eq!(d.elements.field_position, false);
    assert_eq!(d.elements.field_length, false);
    assert_eq!(d.elements.inner_subtitles, true);
}

#[test]
fn absent_members_take_their_own_defaults() {
    let text = "{\"elements\":{\"network_order\":false,\"start_symbol\":false},\"style\":{\"text_color\":\"#123456\",\"dyn_units\":7},\"fields\":[]}";
    let d = deserialize(text).unwrap();
    assert_eq!(d.elements.network_order, false);
    assert_eq!(d.elements.start_symbol, false);
    assert_eq!(d.elements.inner_subtitles, true);
    assert_eq!(d.elements.field_position, true);
    assert_eq!(d.style.text_color, ColorValue { r: 0x12, g: 0x34, b: 0x56 });
    assert_eq!(d.style.dyn_units, 7);
    assert_eq!(d.style.background_color, ColorValue { r: 255, g: 255, b: 255 });
    assert_eq!(d.style.unit_width, 50);
}

#[test]
fn empty_member_objects_take_all_defaults() {
    let d = deserialize("{\"elements\":{},\"style\":{},\"fields\":[]}").unwrap();
    assert_eq!(d.elements, ElementsConfig::default());
    assert_eq!(d.style, StyleConfig::default());
}

#[test]
fn members_out_of_canonical_order_are_rejected() {
    let text = "{\"elements\":{\"start_symbol\":true,\"network_order\":false},\"fields\":[]}";
    assert!(matches!(deserialize(text), Err(ProtoError::ParseFailure(_))));
}

#[test]
fn overflowing_position_annotation_is_rejected_before_the_engine() {
    let mut d = sample_descriptor();
    d.elements.field_position = true;
    d.fields[1].length = FieldLength::Variable("99999999999999999999999999N".to_string());
    match render_descriptor(&d) {
        Err(ProtoError::RenderFailure(_)) => {},
        other => panic!("unexpected outcome {:?}", other),
    }
    assert_eq!(protoviz_web::render::update_svg(&d), "");
}

#[test]
fn overflowing_digit_run_without_annotations_still_renders() {
    let mut d = sample_descriptor();
    d.elements.field_position = false;
    d.fields[1].length = FieldLength::Variable("99999999999999999999999999N".to_string());
    let svg = render_descriptor(&d).unwrap();
    assert!(!svg.is_empty());
}
