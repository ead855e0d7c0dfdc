//! The canonical protocol descriptor: fields, style and annotation toggles,
//! together with the transient per-field edit buffers.

use vstd::prelude::*;

use crate::color::ColorValue;

verus! {

/// A field's length: either fixed at design time, in abstract units, or a
/// symbolic expression resolved outside this system and carried verbatim.
#[derive(Debug, Clone, PartialEq, Eq)]
pub enum FieldLength {
    Fixed(usize),
    Variable(String),
}

/// Mathematical form of a [`FieldLength`].
pub enum LengthView {
    Fixed(int),
    Variable(Seq<char>),
}

impl View for FieldLength {
    type V = LengthView;

    open spec fn view(&self) -> LengthView {
        match self {
            FieldLength::Fixed(n) => LengthView::Fixed(*n as int),
            FieldLength::Variable(s) => LengthView::Variable(s@),
        }
    }
}

/// The canonical, serializable representation of one protocol field. A
/// `color` of `None` means "use the configuration's default field color",
/// re-resolved at render time.
#[derive(Debug, PartialEq, Eq)]
pub struct FieldModel {
    pub name: String,
    pub length: FieldLength,
    pub wrap: bool,
    pub color: Option<ColorValue>,
}

/// Mathematical form of a [`FieldModel`].
pub struct FieldModelView {
    pub name: Seq<char>,
    pub length: LengthView,
    pub wrap: bool,
    pub color: Option<ColorValue>,
}

impl View for FieldModel {
    type V = FieldModelView;

    open spec fn view(&self) -> FieldModelView {
        FieldModelView {
            name: self.name@,
            length: self.length@,
            wrap: self.wrap,
            color: self.color,
        }
    }
}

/// Per-field, UI-facing mutable state. The `length` text is raw and may be
/// empty or non-numeric at any time; it is interpreted only when the buffer
/// list is converted to field models.
#[derive(Debug, PartialEq, Eq)]
pub struct FieldInput {
    pub name: String,
    pub length: String,
    pub wrap: bool,
    pub color: Option<ColorValue>,
}

/// Mathematical form of a [`FieldInput`].
pub struct FieldInputView {
    pub name: Seq<char>,
    pub length: Seq<char>,
    pub wrap: bool,
    pub color: Option<ColorValue>,
}

impl View for FieldInput {
    type V = FieldInputView;

    open spec fn view(&self) -> FieldInputView {
        FieldInputView {
            name: self.name@,
            length: self.length@,
            wrap: self.wrap,
            color: self.color,
        }
    }
}

impl FieldInput {
    /// A fresh, empty edit buffer: empty name and length text, no wrap, no
    /// explicit color.
    pub open spec fn default_view() -> FieldInputView {
        FieldInputView {
            name: Seq::<char>::empty(),
            length: Seq::<char>::empty(),
            wrap: false,
            color: None,
        }
    }
}

impl Default for FieldInput {
    /// Builds the fresh, empty edit buffer.
    fn default() -> (r: Self)
        ensures
            r@ == FieldInput::default_view(),
    {
        FieldInput { name: String::new(), length: String::new(), wrap: false, color: None }
    }
}

/// Diagram-wide style settings. The slider ranges for `unit_width` and
/// `dyn_units` are enforced by the input surface, not here: a descriptor
/// loaded from a file keeps out-of-range values as given.
#[derive(Debug, Clone, Copy, PartialEq, Eq, Structural)]
pub struct StyleConfig {
    pub background_color: ColorValue,
    pub field_color: ColorValue,
    pub text_color: ColorValue,
    pub subtitle_color: ColorValue,
    pub unit_width: usize,
    pub dyn_units: usize,
}

/// The style a fresh descriptor starts with: white background and fields,
/// black text and subtitles, unit width 50, 3 units for dynamic fields.
pub open spec fn default_style() -> StyleConfig {
    StyleConfig {
        background_color: ColorValue { r: 255, g: 255, b: 255 },
        field_color: ColorValue { r: 255, g: 255, b: 255 },
        text_color: ColorValue { r: 0, g: 0, b: 0 },
        subtitle_color: ColorValue { r: 0, g: 0, b: 0 },
        unit_width: 50,
        dyn_units: 3,
    }
}

impl Default for StyleConfig {
    /// Builds the default style settings.
    fn default() -> (r: Self)
        ensures
            r == default_style(),
    {
        StyleConfig {
            background_color: ColorValue { r: 255, g: 255, b: 255 },
            field_color: ColorValue { r: 255, g: 255, b: 255 },
            text_color: ColorValue { r: 0, g: 0, b: 0 },
            subtitle_color: ColorValue { r: 0, g: 0, b: 0 },
            unit_width: 50,
            dyn_units: 3,
        }
    }
}

/// Independent toggles for the optional diagram annotations. Every
/// combination is legal.
#[derive(Debug, Clone, Copy, PartialEq, Eq, Structural)]
pub struct ElementsConfig {
    pub network_order: bool,
    pub inner_subtitles: bool,
    pub field_position: bool,
    pub field_length: bool,
    pub wrap_line: bool,
    pub start_symbol: bool,
}

/// The annotation toggles a fresh descriptor starts with: everything drawn.
pub open spec fn default_elements() -> ElementsConfig {
    ElementsConfig {
        network_order: true,
        inner_subtitles: true,
        field_position: true,
        field_length: true,
        wrap_line: true,
        start_symbol: true,
    }
}

impl Default for ElementsConfig {
    /// Builds the default annotation toggles.
    fn default() -> (r: Self)
        ensures
            r == default_elements(),
    {
        ElementsConfig {
            network_order: true,
            inner_subtitles: true,
            field_position: true,
            field_length: true,
            wrap_line: true,
            start_symbol: true,
        }
    }
}

/// The aggregate root: the ordered field list plus the style and annotation
/// settings. This is the only persisted entity and the sole input to the
/// rendering engine.
#[derive(Debug, PartialEq, Eq)]
pub struct Descriptor {
    pub elements: ElementsConfig,
    pub style: StyleConfig,
    pub fields: Vec<FieldModel>,
}

/// Mathematical form of a field list.
pub open spec fn fields_view(fields: Seq<FieldModel>) -> Seq<FieldModelView> {
    fields.map_values(|f: FieldModel| f@)
}

/// Mathematical form of a [`Descriptor`].
pub struct DescriptorView {
    pub elements: ElementsConfig,
    pub style: StyleConfig,
    pub fields: Seq<FieldModelView>,
}

impl View for Descriptor {
    type V = DescriptorView;

    open spec fn view(&self) -> DescriptorView {
        DescriptorView {
            elements: self.elements,
            style: self.style,
            fields: fields_view(self.fields@),
        }
    }
}

/// The descriptor a fresh editor starts with: default style and elements and
/// no fields yet.
pub open spec fn default_descriptor_view() -> DescriptorView {
    DescriptorView {
        elements: default_elements(),
        style: default_style(),
        fields: Seq::<FieldModelView>::empty(),
    }
}

impl Default for Descriptor {
    /// Builds the default descriptor: default style and elements, no fields.
    fn default() -> (r: Self)
        ensures
            r@ == default_descriptor_view(),
    {
        let r = Descriptor {
            elements: ElementsConfig::default(),
            style: StyleConfig::default(),
            fields: Vec::new(),
        };
        proof {
            assert(r@.fields =~= Seq::<FieldModelView>::empty());
        }
        r
    }
}

} // verus!
