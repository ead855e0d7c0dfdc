//! The editor state container: the edit-buffer list and the descriptor it
//! derives, with every mutation path re-deriving the canonical field list
//! synchronously.

use vstd::prelude::*;

use crate::color::ColorValue;
use crate::descriptor::{default_elements, default_style, Descriptor, ElementsConfig, FieldInput,
    FieldInputView, FieldModelView, StyleConfig};
use crate::errors::ProtoError;
use crate::sync::{create_field_descriptors, input_of_model, model_of_input, update_field_inputs};

verus! {

/// The views of a list of edit buffers, index for index.
pub open spec fn inputs_view(l: Seq<FieldInput>) -> Seq<FieldInputView> {
    l.map_values(|b: FieldInput| b@)
}

/// The field models a buffer list derives to, index for index.
pub open spec fn models_of(buffers: Seq<FieldInputView>) -> Seq<FieldModelView> {
    buffers.map_values(|b: FieldInputView| model_of_input(b))
}

/// The edit buffers derived from a field-model list, index for index.
pub open spec fn inputs_of(models: Seq<FieldModelView>) -> Seq<FieldInputView> {
    models.map_values(|m: FieldModelView| input_of_model(m))
}

/// The three example fields a fresh editor starts with.
pub open spec fn initial_buffers() -> Seq<FieldInputView> {
    seq![
        FieldInputView { name: "Field 1"@, length: "2"@, wrap: false, color: None },
        FieldInputView {
            name: "Field 2"@,
            length: "N"@,
            wrap: false,
            color: Some(ColorValue { r: 120, g: 180, b: 240 }),
        },
        FieldInputView {
            name: "Field 3"@,
            length: "1"@,
            wrap: false,
            color: Some(ColorValue { r: 240, g: 180, b: 120 }),
        },
    ]
}

/// The whole editor state: the raw edit buffers the user types into, and the
/// canonical descriptor derived from them.
pub struct Editor {
    pub input_fields: Vec<FieldInput>,
    pub descriptor: Descriptor,
}

impl Editor {
    /// The synchronization invariant: the descriptor's field list is exactly
    /// the derivation of the current edit buffers. Every buffer mutation
    /// below re-establishes it before returning.
    pub open spec fn synced(self) -> bool {
        self.descriptor@.fields == models_of(inputs_view(self.input_fields@))
    }

    /// Re-derives the descriptor's field list from the edit buffers.
    fn resync(&mut self)
        ensures
            final(self).input_fields == old(self).input_fields,
            final(self).descriptor.style == old(self).descriptor.style,
            final(self).descriptor.elements == old(self).descriptor.elements,
            final(self).synced(),
    {
        let models = create_field_descriptors(self.input_fields.as_slice());
        self.descriptor.fields = models;
        proof {
            assert(self.descriptor@.fields =~= models_of(inputs_view(self.input_fields@)));
        }
    }

    /// A fresh editor: default style and annotation settings, and three
    /// example fields, already derived into the descriptor.
    pub fn new() -> (r: Editor)
        ensures
            r.descriptor.style == default_style(),
            r.descriptor.elements == default_elements(),
            inputs_view(r.input_fields@) == initial_buffers(),
            r.synced(),
    {
        let mut input_fields: Vec<FieldInput> = Vec::new();
        input_fields.push(
            FieldInput {
                name: "Field 1".to_owned(),
                length: "2".to_owned(),
                wrap: false,
                color: None,
            },
        );
        input_fields.push(
            FieldInput {
                name: "Field 2".to_owned(),
                length: "N".to_owned(),
                wrap: false,
                color: Some(ColorValue { r: 120, g: 180, b: 240 }),
            },
        );
        input_fields.push(
            FieldInput {
                name: "Field 3".to_owned(),
                length: "1".to_owned(),
                wrap: false,
                color: Some(ColorValue { r: 240, g: 180, b: 120 }),
            },
        );
        let mut r = Editor { input_fields, descriptor: Descriptor::default() };
        proof {
            assert(inputs_view(r.input_fields@) =~= initial_buffers());
        }
        r.resync();
        r
    }

    /// Appends a fresh, empty edit buffer at the end of the field list.
    pub fn add_field(&mut self)
        ensures
            inputs_view(final(self).input_fields@) == inputs_view(old(self).input_fields@).push(
                FieldInput::default_view(),
            ),
            final(self).descriptor.style == old(self).descriptor.style,
            final(self).descriptor.elements == old(self).descriptor.elements,
            final(self).synced(),
    {
        self.input_fields.push(FieldInput::default());
        proof {
            assert(inputs_view(self.input_fields@) =~= inputs_view(
                old(self).input_fields@,
            ).push(FieldInput::default_view()));
        }
        self.resync();
    }

    /// Removes the buffer at `i`, or reports `IndexError` and leaves the
    /// editor unchanged when `i` is out of bounds.
    pub fn remove_field(&mut self, i: usize) -> (r: Result<(), ProtoError>)
        ensures
            r is Ok <==> i < old(self).input_fields@.len(),
            r is Err ==> r == Err::<(), ProtoError>(ProtoError::IndexError) && *final(self)
                == *old(self),
            r is Ok ==> inputs_view(final(self).input_fields@) == inputs_view(
                old(self).input_fields@,
            ).remove(i as int) && final(self).descriptor.style == old(self).descriptor.style
                && final(self).descriptor.elements == old(self).descriptor.elements && final(self).synced(),
    {
        if i >= self.input_fields.len() {
            return Err(ProtoError::IndexError);
        }
        self.input_fields.remove(i);
        proof {
            assert(inputs_view(self.input_fields@) =~= inputs_view(
                old(self).input_fields@,
            ).remove(i as int));
        }
        self.resync();
        Ok(())
    }

    /// Whether the buffer at `i` can move one place up: the first element
    /// cannot.
    pub fn can_move_up(&self, i: usize) -> (r: bool)
        ensures
            r <==> 1 <= i < self.input_fields@.len(),
    {
        1 <= i && i < self.input_fields.len()
    }

    /// Whether the buffer at `i` can move one place down: the last element
    /// cannot.
    pub fn can_move_down(&self, i: usize) -> (r: bool)
        ensures
            r <==> i + 1 < self.input_fields@.len(),
    {
        let n = self.input_fields.len();
        i < n && i + 1 < n
    }

    /// Swaps the buffers at `i - 1` and `i`. At the top end this is
    /// unavailable: nothing moves and the editor is unchanged.
    pub fn move_field_up(&mut self, i: usize) -> (moved: bool)
        ensures
            moved <==> 1 <= i < old(self).input_fields@.len(),
            !moved ==> *final(self) == *old(self),
            moved ==> inputs_view(final(self).input_fields@) == inputs_view(
                old(self).input_fields@,
            ).update(i - 1, old(self).input_fields@[i as int]@).update(
                i as int,
                old(self).input_fields@[i - 1]@,
            ),
            moved ==> final(self).descriptor.style == old(self).descriptor.style && final(self).descriptor.elements == old(self).descriptor.elements && final(self).synced(),
    {
        if !(1 <= i && i < self.input_fields.len()) {
            return false;
        }
        let moved_field = self.input_fields.remove(i);
        self.input_fields.insert(i - 1, moved_field);
        proof {
            assert(inputs_view(self.input_fields@) =~= inputs_view(
                old(self).input_fields@,
            ).update(i - 1, old(self).input_fields@[i as int]@).update(
                i as int,
                old(self).input_fields@[i - 1]@,
            ));
        }
        self.resync();
        true
    }

    /// Swaps the buffers at `i` and `i + 1`. At the bottom end this is
    /// unavailable: nothing moves and the editor is unchanged.
    pub fn move_field_down(&mut self, i: usize) -> (moved: bool)
        ensures
            moved <==> i + 1 < old(self).input_fields@.len(),
            !moved ==> *final(self) == *old(self),
            moved ==> inputs_view(final(self).input_fields@) == inputs_view(
                old(self).input_fields@,
            ).update(i as int, old(self).input_fields@[i + 1]@).update(
                i + 1,
                old(self).input_fields@[i as int]@,
            ),
            moved ==> final(self).descriptor.style == old(self).descriptor.style && final(self).descriptor.elements == old(self).descriptor.elements && final(self).synced(),
    {
        let n = self.input_fields.len();
        if !(i < n && i + 1 < n) {
            return false;
        }
        let moved_field = self.input_fields.remove(i);
        self.input_fields.insert(i + 1, moved_field);
        proof {
            assert(inputs_view(self.input_fields@) =~= inputs_view(
                old(self).input_fields@,
            ).update(i as int, old(self).input_fields@[i + 1]@).update(
                i + 1,
                old(self).input_fields@[i as int]@,
            ));
        }
        self.resync();
        true
    }

    /// Replaces the buffer at `i` wholesale and re-derives the field list;
    /// the shared step of the per-field setters below.
    fn replace_field(&mut self, i: usize, buffer: FieldInput)
        requires
            i < old(self).input_fields@.len(),
        ensures
            inputs_view(final(self).input_fields@) == inputs_view(
                old(self).input_fields@,
            ).update(i as int, buffer@),
            final(self).descriptor.style == old(self).descriptor.style,
            final(self).descriptor.elements == old(self).descriptor.elements,
            final(self).synced(),
    {
        self.input_fields.remove(i);
        self.input_fields.insert(i, buffer);
        proof {
            assert(inputs_view(self.input_fields@) =~= inputs_view(
                old(self).input_fields@,
            ).update(i as int, old(self).input_fields@[i as int]@).update(i as int, buffer@));
            assert(inputs_view(old(self).input_fields@).update(i as int, buffer@) =~= inputs_view(
                old(self).input_fields@,
            ).update(i as int, old(self).input_fields@[i as int]@).update(i as int, buffer@));
        }
        self.resync();
    }

    /// Sets the name text of the buffer at `i`.
    pub fn set_field_name(&mut self, i: usize, name: String)
        requires
            i < old(self).input_fields@.len(),
        ensures
            inputs_view(final(self).input_fields@) == inputs_view(
                old(self).input_fields@,
            ).update(
                i as int,
                FieldInputView { name: name@, ..old(self).input_fields@[i as int]@ },
            ),
            final(self).descriptor.style == old(self).descriptor.style,
            final(self).descriptor.elements == old(self).descriptor.elements,
            final(self).synced(),
    {
        let f = &self.input_fields[i];
        let buffer = FieldInput {
            name,
            length: f.length.clone(),
            wrap: f.wrap,
            color: f.color,
        };
        self.replace_field(i, buffer);
    }

    /// Sets the raw length text of the buffer at `i`. The text may be empty
    /// or non-numeric; it is interpreted by the derivation.
    pub fn set_field_length(&mut self, i: usize, length: String)
        requires
            i < old(self).input_fields@.len(),
        ensures
            inputs_view(final(self).input_fields@) == inputs_view(
                old(self).input_fields@,
            ).update(
                i as int,
                FieldInputView { length: length@, ..old(self).input_fields@[i as int]@ },
            ),
            final(self).descriptor.style == old(self).descriptor.style,
            final(self).descriptor.elements == old(self).descriptor.elements,
            final(self).synced(),
    {
        let f = &self.input_fields[i];
        let buffer = FieldInput {
            name: f.name.clone(),
            length,
            wrap: f.wrap,
            color: f.color,
        };
        self.replace_field(i, buffer);
    }

    /// Sets the wrap flag of the buffer at `i`.
    pub fn set_field_wrap(&mut self, i: usize, wrap: bool)
        requires
            i < old(self).input_fields@.len(),
        ensures
            inputs_view(final(self).input_fields@) == inputs_view(
                old(self).input_fields@,
            ).update(i as int, FieldInputView { wrap, ..old(self).input_fields@[i as int]@ }),
            final(self).descriptor.style == old(self).descriptor.style,
            final(self).descriptor.elements == old(self).descriptor.elements,
            final(self).synced(),
    {
        let f = &self.input_fields[i];
        let buffer = FieldInput {
            name: f.name.clone(),
            length: f.length.clone(),
            wrap,
            color: f.color,
        };
        self.replace_field(i, buffer);
    }

    /// Toggles the explicit color of the buffer at `i`. Toggling on freezes
    /// the configuration's current default field color into the buffer;
    /// toggling off reverts the field to that default by reference.
    pub fn set_field_color_enabled(&mut self, i: usize, enabled: bool)
        requires
            i < old(self).input_fields@.len(),
        ensures
            inputs_view(final(self).input_fields@) == inputs_view(
                old(self).input_fields@,
            ).update(
                i as int,
                FieldInputView {
                    color: if enabled {
                        Some(old(self).descriptor.style.field_color)
                    } else {
                        None
                    },
                    ..old(self).input_fields@[i as int]@
                },
            ),
            final(self).descriptor.style == old(self).descriptor.style,
            final(self).descriptor.elements == old(self).descriptor.elements,
            final(self).synced(),
    {
        let color = if enabled {
            Some(self.descriptor.style.field_color)
        } else {
            None
        };
        let f = &self.input_fields[i];
        let buffer = FieldInput {
            name: f.name.clone(),
            length: f.length.clone(),
            wrap: f.wrap,
            color,
        };
        self.replace_field(i, buffer);
    }

    /// Sets the explicit color of the buffer at `i`.
    pub fn set_field_color(&mut self, i: usize, color: ColorValue)
        requires
            i < old(self).input_fields@.len(),
        ensures
            inputs_view(final(self).input_fields@) == inputs_view(
                old(self).input_fields@,
            ).update(
                i as int,
                FieldInputView { color: Some(color), ..old(self).input_fields@[i as int]@ },
            ),
            final(self).descriptor.style == old(self).descriptor.style,
            final(self).descriptor.elements == old(self).descriptor.elements,
            final(self).synced(),
    {
        let f = &self.input_fields[i];
        let buffer = FieldInput {
            name: f.name.clone(),
            length: f.length.clone(),
            wrap: f.wrap,
            color: Some(color),
        };
        self.replace_field(i, buffer);
    }

    /// Replaces the diagram-wide style settings; the field list is untouched.
    pub fn set_style(&mut self, style: StyleConfig)
        ensures
            final(self).input_fields == old(self).input_fields,
            final(self).descriptor.style == style,
            final(self).descriptor.elements == old(self).descriptor.elements,
            final(self).descriptor.fields == old(self).descriptor.fields,
            old(self).synced() ==> final(self).synced(),
    {
        self.descriptor.style = style;
    }

    /// Replaces the annotation toggles; the field list is untouched.
    pub fn set_elements(&mut self, elements: ElementsConfig)
        ensures
            final(self).input_fields == old(self).input_fields,
            final(self).descriptor.style == old(self).descriptor.style,
            final(self).descriptor.elements == elements,
            final(self).descriptor.fields == old(self).descriptor.fields,
            old(self).synced() ==> final(self).synced(),
    {
        self.descriptor.elements = elements;
    }

    /// Replaces the whole descriptor, as loading a persisted file does, and
    /// derives a fresh edit-buffer list from its field models. The buffers
    /// show each fixed length in canonical decimal and each symbolic length
    /// verbatim.
    pub fn load_descriptor(&mut self, descriptor: Descriptor)
        ensures
            final(self).descriptor == descriptor,
            inputs_view(final(self).input_fields@) == inputs_of(descriptor@.fields),
    {
        self.input_fields = update_field_inputs(descriptor.fields.as_slice());
        self.descriptor = descriptor;
        proof {
            assert(inputs_view(self.input_fields@) =~= inputs_of(self.descriptor@.fields));
        }
    }
}

} // verus!
