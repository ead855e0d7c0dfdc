use protoviz_web::color::ColorValue;
use protoviz_web::descriptor::{Descriptor, FieldLength, FieldModel};
use protoviz_web::editor::Editor;
use protoviz_web::errors::ProtoError;
use protoviz_web::render::update_svg;

#[test]
fn fresh_editor_has_three_example_fields() {
    let editor = Editor::new();
    assert_eq!(editor.input_fields.len(), 3);
    assert_eq!(editor.input_fields[0].name, "Field 1");
    assert_eq!(editor.input_fields[1].length, "N");
    assert_eq!(editor.descriptor.fields.len(), 3);
    assert_eq!(editor.descriptor.fields[0].length, FieldLength::Fixed(2));
    assert_eq!(editor.descriptor.fields[1].length, FieldLength::Variable("N".to_string()));
    assert_eq!(editor.descriptor.fields[2].length, FieldLength::Fixed(1));
    assert_eq!(editor.descriptor.fields[0].color, None);
    assert_eq!(editor.descriptor.fields[1].color, Some(ColorValue { r: 120, g: 180, b: 240 }));
    assert_eq!(editor.descriptor.fields[2].color, Some(ColorValue { r: 240, g: 180, b: 120 }));
}

#[test]
fn fresh_editor_renders_nonempty_markup() {
    let editor = Editor::new();
    let svg = update_svg(&editor.descriptor);
    assert!(!svg.is_empty());
}

#[test]
fn swapping_first_two_of_three_reorders_exactly() {
    let mut editor = Editor::new();
    let moved = editor.move_field_down(0);
    assert!(moved);
    assert_eq!(editor.input_fields[0].name, "Field 2");
    assert_eq!(editor.input_fields[1].name, "Field 1");
    assert_eq!(editor.input_fields[2].name, "Field 3");
    assert_eq!(editor.descriptor.fields[0].length, FieldLength::Variable("N".to_string()));
    assert_eq!(editor.descriptor.fields[1].length, FieldLength::Fixed(2));
}

#[test]
fn swap_is_unavailable_at_the_ends() {
    let mut editor = Editor::new();
    assert!(!editor.can_move_up(0));
    assert!(!editor.can_move_down(2));
    assert!(editor.can_move_up(1));
    assert!(editor.can_move_down(1));
    assert!(!editor.move_field_up(0));
    assert!(!editor.move_field_down(2));
    assert_eq!(editor.input_fields[0].name, "Field 1");
    assert_eq!(editor.input_fields[2].name, "Field 3");
}

#[test]
fn removing_out_of_bounds_reports_index_error() {
    let mut editor = Editor::new();
    assert_eq!(editor.remove_field(3), Err(ProtoError::IndexError));
    assert_eq!(editor.input_fields.len(), 3);
}

#[test]
fn removing_the_only_field_leaves_empty_markup() {
    let mut editor = Editor::new();
    editor.remove_field(2).unwrap();
    editor.remove_field(1).unwrap();
    assert_eq!(editor.input_fields.len(), 1);
    editor.remove_field(0).unwrap();
    assert_eq!(editor.input_fields.len(), 0);
    assert_eq!(editor.descriptor.fields.len(), 0);
    assert_eq!(update_svg(&editor.descriptor), "");
}

#[test]
fn adding_a_field_appends_an_empty_buffer() {
    let mut editor = Editor::new();
    editor.add_field();
    assert_eq!(editor.input_fields.len(), 4);
    assert_eq!(editor.input_fields[3].name, "");
    assert_eq!(editor.input_fields[3].length, "");
    assert_eq!(editor.descriptor.fields[3].length, FieldLength::Fixed(1));
}

#[test]
fn field_edits_rebuild_the_descriptor() {
    let mut editor = Editor::new();
    editor.set_field_name(0, "Opcode".to_string());
    editor.set_field_length(0, "4".to_string());
    editor.set_field_wrap(0, true);
    assert_eq!(editor.descriptor.fields[0].name, "Opcode");
    assert_eq!(editor.descriptor.fields[0].length, FieldLength::Fixed(4));
    assert_eq!(editor.descriptor.fields[0].wrap, true);
}

#[test]
fn enabling_color_freezes_the_current_default() {
    let mut editor = Editor::new();
    let mut style = editor.descriptor.style;
    style.field_color = ColorValue { r: 10, g: 20, b: 30 };
    editor.set_style(style);
    editor.set_field_color_enabled(0, true);
    assert_eq!(editor.descriptor.fields[0].color, Some(ColorValue { r: 10, g: 20, b: 30 }));
    // a later change of the default does not follow into the field
    let mut style2 = editor.descriptor.style;
    style2.field_color = ColorValue { r: 99, g: 99, b: 99 };
    editor.set_style(style2);
    assert_eq!(editor.descriptor.fields[0].color, Some(ColorValue { r: 10, g: 20, b: 30 }));
    editor.set_field_color_enabled(0, false);
    assert_eq!(editor.descriptor.fields[0].color, None);
}

#[test]
fn setting_an_explicit_color_updates_the_model() {
    let mut editor = Editor::new();
    editor.set_field_color(0, ColorValue { r: 1, g: 2, b: 3 });
    assert_eq!(editor.descriptor.fields[0].color, Some(ColorValue { r: 1, g: 2, b: 3 }));
}

#[test]
fn loading_a_descriptor_rebuilds_the_buffers() {
    let mut editor = Editor::new();
    let loaded = Descriptor {
        elements: Default::default(),
        style: Default::default(),
        fields: vec![
            FieldModel {
                name: "x".to_string(),
                length: FieldLength::Fixed(3),
                wrap: false,
                color: None,
            },
            FieldModel {
                name: "y".to_string(),
                length: FieldLength::Variable("M".to_string()),
                wrap: true,
                color: Some(ColorValue { r: 7, g: 8, b: 9 }),
            },
        ],
    };
    editor.load_descriptor(loaded);
    assert_eq!(editor.input_fields.len(), 2);
    assert_eq!(editor.input_fields[0].length, "3");
    assert_eq!(editor.input_fields[1].length, "M");
    assert_eq!(editor.input_fields[1].wrap, true);
    assert_eq!(editor.input_fields[1].color, Some(ColorValue { r: 7, g: 8, b: 9 }));
}

#[test]
fn default_style_matches_the_engine_defaults() {
    let d = Descriptor::default();
    assert_eq!(d.style.background_color, ColorValue { r: 255, g: 255, b: 255 });
    assert_eq!(d.style.field_color, ColorValue { r: 255, g: 255, b: 255 });
    assert_eq!(d.style.text_color, ColorValue { r: 0, g: 0, b: 0 });
    assert_eq!(d.style.unit_width, 50);
    assert_eq!(d.style.dyn_units, 3);
    assert!(d.elements.network_order);
    assert!(d.elements.start_symbol);
    assert!(d.fields.is_empty());
}
