//! Generation of a descriptor type, its constructor and its `SystemDesc`
//! implementation, as source text.
//!
//! [`impl_system_desc`] writes all of it for a well-formed structure, and
//! [`try_impl_system_desc`] for any structure. The parts are written by
//! [`system_desc_struct`], [`impl_constructor`], [`field_computation_expressions`]
//! and [`call_system_constructor`]; what each of them writes is said by a
//! function over the classified fields, and the laws of the generation are
//! proved over those functions.

use crate::ast::{DeriveInput, Field, Fields, GenericArgument, PathArguments};
use crate::attributes::{
    descriptor_name, find_malformed_insertion, find_malformed_name, insertions_well_formed,
    malformed_insertion, name_attribute, name_well_formed, resource_insertion_expressions,
    resource_insertions, system_desc_name,
};
use crate::classify::{
    classified, copied, copied_before, descriptor_fields, descriptor_shape,
    lemma_classified_drop_last, lemma_descriptor_positions_dense, position_taken,
    system_desc_fields, tagged_reader, tagged_skip,
    DescriptorFields, DescriptorShape, FieldMapping, FieldToCompute, FieldVariant,
    SystemDescFields,
};
use crate::foreign::{decimal, index_literal, snake_case_text, to_snake_case};
use crate::text::{
    comma_terminated, concat, first_index, lemma_comma_terminated_map_next,
    lemma_comma_terminated_next, lemma_concat_next, lemma_first_index_is,
};
use vstd::prelude::*;

verus! {

/// What the generation of one implementation works on.
#[derive(Debug)]
pub struct Context<'c> {
    /// Name of the system.
    pub system_name: &'c String,
    /// Name of the descriptor. In identity mode it is the system's name.
    pub system_desc_name: String,
    pub system_desc_fields: SystemDescFields<'c>,
    /// The generic parameters as an implementation declares them.
    pub impl_generics: String,
    /// The generic parameters as a type names them.
    pub ty_generics: String,
    /// The `where` clause, or nothing.
    pub where_clause: String,
    /// Whether the descriptor takes no argument, so that it gets a `Default`
    /// implementation in place of a `new` function.
    pub is_default: bool,
    /// Whether the system is its own descriptor.
    pub is_self: bool,
}

/// Which classes occur among the fields of a system.
#[derive(Debug, Clone, Copy, PartialEq, Eq)]
pub struct ClassesPresent {
    pub skipped: bool,
    pub compute: bool,
    pub phantom_data: bool,
    pub passthrough: bool,
}

/// Whether a field is classified as skipped.
pub open spec fn any_skipped(mappings: Seq<FieldMapping>) -> bool {
    exists|i: int| 0 <= i < mappings.len() && (#[trigger] mappings[i]).field_variant is Skipped
}

/// Whether a field is classified as computed.
pub open spec fn any_compute(mappings: Seq<FieldMapping>) -> bool {
    exists|i: int| 0 <= i < mappings.len() && (#[trigger] mappings[i]).field_variant is Compute
}

/// Whether a field is classified as a marker.
pub open spec fn any_phantom_data(mappings: Seq<FieldMapping>) -> bool {
    exists|i: int|
        0 <= i < mappings.len() && (#[trigger] mappings[i]).field_variant is PhantomData
}

/// Whether a field is classified as passed through.
pub open spec fn any_passthrough(mappings: Seq<FieldMapping>) -> bool {
    exists|i: int|
        0 <= i < mappings.len() && (#[trigger] mappings[i]).field_variant is Passthrough
}

/// Finds out which classes occur among the fields.
pub fn classes_present(mappings: &Vec<FieldMapping>) -> (present: ClassesPresent)
    ensures
        present.skipped == any_skipped(mappings@),
        present.compute == any_compute(mappings@),
        present.phantom_data == any_phantom_data(mappings@),
        present.passthrough == any_passthrough(mappings@),
{
    let mut present = ClassesPresent {
        skipped: false,
        compute: false,
        phantom_data: false,
        passthrough: false,
    };
    let mut i: usize = 0;
    while i < mappings.len()
        invariant
            i <= mappings@.len(),
            present.skipped == any_skipped(mappings@.take(i as int)),
            present.compute == any_compute(mappings@.take(i as int)),
            present.phantom_data == any_phantom_data(mappings@.take(i as int)),
            present.passthrough == any_passthrough(mappings@.take(i as int)),
        decreases mappings@.len() - i,
    {
        assert(mappings@.take(i + 1)[i as int] == mappings@[i as int]);
        match &mappings[i].field_variant {
            FieldVariant::Skipped(_) => {
                present.skipped = true;
            },
            FieldVariant::Compute(_) => {
                present.compute = true;
            },
            FieldVariant::PhantomData { .. } => {
                present.phantom_data = true;
            },
            FieldVariant::Passthrough { .. } => {
                present.passthrough = true;
            },
        }
        i += 1;
    }
    assert(mappings@.take(i as int) =~= mappings@);
    present
}

/// The name that a field without a name goes by: its type's simple name in
/// snake case.
pub open spec fn snake_case_name(field: Field) -> Seq<char> {
    snake_case_text(field.type_ident_text().unwrap())
}

/// The name that the value of a computed field is bound to: the field's name,
/// or for a field without a name its type's simple name in snake case.
pub open spec fn computed_name(field: Field) -> Seq<char> {
    match field.ident {
        Some(ident) => ident@,
        None => snake_case_name(field),
    }
}

/// Whether a character can begin an identifier: a letter of the alphabet or
/// an underscore. A character outside ASCII is let through; whether it may
/// stand in an identifier is left to the compiler that reads the text.
pub open spec fn identifier_start(c: char) -> bool {
    ('a' <= c && c <= 'z') || ('A' <= c && c <= 'Z') || c == '_' || c > '\x7f'
}

/// Whether a character can stand in an identifier behind the first one: what
/// can begin an identifier, or a digit.
pub open spec fn identifier_continue(c: char) -> bool {
    identifier_start(c) || ('0' <= c && c <= '9')
}

/// Whether a text is an identifier: it is not empty, begins with a letter or
/// an underscore, and goes on with letters, digits and underscores.
pub open spec fn is_identifier_text(text: Seq<char>) -> bool {
    &&& text.len() > 0
    &&& identifier_start(text[0])
    &&& forall|i: int| 0 < i < text.len() ==> identifier_continue(#[trigger] text[i])
}

/// Whether a character can begin an identifier.
fn is_identifier_start(c: char) -> (start: bool)
    ensures
        start == identifier_start(c),
{
    ('a' <= c && c <= 'z') || ('A' <= c && c <= 'Z') || c == '_' || c > '\x7f'
}

/// Whether a text is an identifier.
#[verifier::loop_isolation(false)]
pub fn is_identifier(text: &str) -> (valid: bool)
    ensures
        valid == is_identifier_text(text@),
{
    let length = text.unicode_len();
    if length == 0 {
        return false;
    }
    if !is_identifier_start(text.get_char(0)) {
        return false;
    }
    let mut i: usize = 1;
    while i < length
        invariant
            1 <= i <= length,
            forall|k: int| 0 < k < i ==> identifier_continue(#[trigger] text@[k]),
        decreases length - i,
    {
        let c = text.get_char(i);
        if !is_identifier_start(c) && !('0' <= c && c <= '9') {
            return false;
        }
        i += 1;
    }
    true
}

/// Whether a field can go by its type's simple name in snake case: the type is
/// a path, and the name in snake case is an identifier.
pub open spec fn has_snake_case_name(field: Field) -> bool {
    field.type_ident_text() is Some && is_identifier_text(snake_case_name(field))
}

/// The simple name of the field's type in snake case.
pub fn snake_case(field: &Field) -> (name: String)
    requires
        has_snake_case_name(*field),
    ensures
        name@ == snake_case_name(*field),
{
    let type_ident = field.type_ident().expect("Expected field type to be a path.");
    to_snake_case(type_ident.as_str())
}

/// The simple name of the field's type in snake case, `None` where the type is
/// no path or the name in snake case is no identifier.
pub fn try_snake_case(field: &Field) -> (name: Option<String>)
    ensures
        name is Some <==> has_snake_case_name(*field),
        name matches Some(snake) ==> snake@ == snake_case_name(*field),
{
    match field.type_ident() {
        Some(type_ident) => {
            let snake = to_snake_case(type_ident.as_str());
            if is_identifier(snake.as_str()) {
                Some(snake)
            } else {
                None
            }
        },
        None => None,
    }
}

/// The argument for a field where the descriptor is a unit: the name that a
/// computed field is bound to. Skipped fields are no arguments.
pub open spec fn unit_argument(mapping: FieldMapping) -> Option<Seq<char>> {
    match mapping.field_variant {
        FieldVariant::Compute(FieldToCompute::ReaderId(field)) => Some(computed_name(*field)),
        _ => None,
    }
}

/// The argument for a field of a tuple structure: the name that a computed
/// field is bound to, the descriptor's field at its position for a field that
/// is passed through. Skipped fields and markers are no arguments.
pub open spec fn positional_argument(mapping: FieldMapping) -> Option<Seq<char>> {
    match mapping.field_variant {
        FieldVariant::Compute(FieldToCompute::ReaderId(field)) => Some(snake_case_name(*field)),
        FieldVariant::Passthrough { system_desc_field_index, .. } => Some(
            "self."@ + decimal(system_desc_field_index as nat),
        ),
        _ => None,
    }
}

/// The argument for a field with a name: the name of a computed field, the
/// descriptor's field of that name for a field that is passed through.
/// Skipped fields and markers are no arguments.
pub open spec fn named_argument(mapping: FieldMapping) -> Option<Seq<char>> {
    match mapping.field_variant {
        FieldVariant::Compute(FieldToCompute::ReaderId(field)) => Some(field.ident.unwrap()@),
        FieldVariant::Passthrough { field, .. } => Some("self."@ + field.ident.unwrap()@),
        _ => None,
    }
}

/// The initializer of a field in a structure literal: the name of a computed
/// field, which stands for the binding of that name, and `name: self.name` for
/// a field that is passed through.
pub open spec fn named_initializer(mapping: FieldMapping) -> Option<Seq<char>> {
    match mapping.field_variant {
        FieldVariant::Compute(FieldToCompute::ReaderId(field)) => Some(field.ident.unwrap()@),
        FieldVariant::Passthrough { field, .. } => Some(
            field.ident.unwrap()@ + ": self."@ + field.ident.unwrap()@,
        ),
        _ => None,
    }
}

/// The expression that constructs the system at the end of `build`.
///
/// A system without fields is constructed by its name. Where no field is
/// computed (and, for a structure with named fields, none is passed through)
/// the system's `default()` is called. A tuple structure with a computed
/// field, and any structure that keeps fields out of the construction, goes
/// through the system's `new` function with the computed and passed-through
/// fields in declaration order. A structure with names of which every field is
/// computed or passed through is written as a literal.
pub open spec fn constructor_call(
    system_name: Seq<char>,
    shape: DescriptorShape,
    mappings: Seq<FieldMapping>,
) -> Seq<char> {
    match shape {
        DescriptorShape::Unit => {
            if mappings.len() == 0 {
                system_name
            } else if any_compute(mappings) {
                system_name + "::new("@ + comma_terminated(
                    mappings.filter_map(|m: FieldMapping| unit_argument(m)),
                ) + ")"@
            } else {
                system_name + "::default()"@
            }
        },
        DescriptorShape::Unnamed => {
            if any_compute(mappings) {
                system_name + "::new("@ + comma_terminated(
                    mappings.filter_map(|m: FieldMapping| positional_argument(m)),
                ) + ")"@
            } else {
                system_name + "::default()"@
            }
        },
        DescriptorShape::Named => {
            if any_compute(mappings) || any_passthrough(mappings) {
                if any_skipped(mappings) || any_phantom_data(mappings) {
                    system_name + "::new("@ + comma_terminated(
                        mappings.filter_map(|m: FieldMapping| named_argument(m)),
                    ) + ")"@
                } else {
                    system_name + " { "@ + comma_terminated(
                        mappings.filter_map(|m: FieldMapping| named_initializer(m)),
                    ) + "}"@
                }
            } else if any_skipped(mappings) || any_phantom_data(mappings) {
                system_name + "::default()"@
            } else {
                system_name + " {}"@
            }
        },
    }
}

/// Whether every field that the constructor call names can be named: in a
/// descriptor with names the computed and passed-through fields have names,
/// and elsewhere a computed field without a name can go by its type's name.
pub open spec fn constructor_call_names_known(
    shape: DescriptorShape,
    mappings: Seq<FieldMapping>,
) -> bool {
    forall|i: int|
        0 <= i < mappings.len() ==> match (#[trigger] mappings[i]).field_variant {
            FieldVariant::Compute(FieldToCompute::ReaderId(field)) => match shape {
                DescriptorShape::Unit => field.ident is Some || has_snake_case_name(*field),
                DescriptorShape::Unnamed => has_snake_case_name(*field),
                DescriptorShape::Named => field.ident is Some,
            },
            FieldVariant::Passthrough { field, .. } => shape is Named ==> field.ident is Some,
            _ => true,
        }
}

/// The name that the value of a computed field is bound to.
fn computed_field_name(field: &Field) -> (name: String)
    requires
        field.ident is Some || has_snake_case_name(*field),
    ensures
        name@ == computed_name(*field),
{
    match &field.ident {
        Some(ident) => ident.clone(),
        None => snake_case(field),
    }
}

/// The arguments of the system's `new` function where the descriptor is a
/// unit.
#[verifier::loop_isolation(false)]
fn unit_arguments(mappings: &Vec<FieldMapping>) -> (arguments: String)
    requires
        constructor_call_names_known(DescriptorShape::Unit, mappings@),
    ensures
        arguments@ == comma_terminated(mappings@.filter_map(|m: FieldMapping| unit_argument(m))),
{
    let mut arguments = String::new();
    let mut i: usize = 0;
    while i < mappings.len()
        invariant
            i <= mappings@.len(),
            arguments@ == comma_terminated(
                mappings@.take(i as int).filter_map(|m: FieldMapping| unit_argument(m)),
            ),
        decreases mappings@.len() - i,
    {
        proof {
            lemma_comma_terminated_next(
                mappings@,
                |m: FieldMapping| unit_argument(m),
                i as int,
            );
        }
        match &mappings[i].field_variant {
            FieldVariant::Compute(FieldToCompute::ReaderId(field)) => {
                let field_name = computed_field_name(field);
                arguments.append(field_name.as_str());
                arguments.append(", ");
            },
            _ => {},
        }
        i += 1;
    }
    assert(mappings@.take(i as int) =~= mappings@);
    arguments
}

/// The arguments of the system's `new` function for a tuple structure.
#[verifier::loop_isolation(false)]
fn positional_arguments(mappings: &Vec<FieldMapping>) -> (arguments: String)
    requires
        constructor_call_names_known(DescriptorShape::Unnamed, mappings@),
    ensures
        arguments@ == comma_terminated(
            mappings@.filter_map(|m: FieldMapping| positional_argument(m)),
        ),
{
    let mut arguments = String::new();
    let mut i: usize = 0;
    while i < mappings.len()
        invariant
            i <= mappings@.len(),
            arguments@ == comma_terminated(
                mappings@.take(i as int).filter_map(|m: FieldMapping| positional_argument(m)),
            ),
        decreases mappings@.len() - i,
    {
        proof {
            lemma_comma_terminated_next(
                mappings@,
                |m: FieldMapping| positional_argument(m),
                i as int,
            );
        }
        match &mappings[i].field_variant {
            FieldVariant::Skipped(_) => {},
            FieldVariant::Compute(FieldToCompute::ReaderId(field)) => {
                let field_name = snake_case(field);
                arguments.append(field_name.as_str());
                arguments.append(", ");
            },
            FieldVariant::PhantomData { .. } => {},
            FieldVariant::Passthrough { system_desc_field_index, .. } => {
                let index = index_literal(*system_desc_field_index);
                let mut argument = String::from_str("self.");
                argument.append(index.as_str());
                arguments.append(argument.as_str());
                arguments.append(", ");
            },
        }
        i += 1;
    }
    assert(mappings@.take(i as int) =~= mappings@);
    arguments
}

/// The arguments of the system's `new` function for a structure with named
/// fields.
#[verifier::loop_isolation(false)]
fn named_arguments(mappings: &Vec<FieldMapping>) -> (arguments: String)
    requires
        constructor_call_names_known(DescriptorShape::Named, mappings@),
    ensures
        arguments@ == comma_terminated(mappings@.filter_map(|m: FieldMapping| named_argument(m))),
{
    let mut arguments = String::new();
    let mut i: usize = 0;
    while i < mappings.len()
        invariant
            i <= mappings@.len(),
            arguments@ == comma_terminated(
                mappings@.take(i as int).filter_map(|m: FieldMapping| named_argument(m)),
            ),
        decreases mappings@.len() - i,
    {
        proof {
            lemma_comma_terminated_next(
                mappings@,
                |m: FieldMapping| named_argument(m),
                i as int,
            );
        }
        match &mappings[i].field_variant {
            FieldVariant::Skipped(_) => {},
            FieldVariant::Compute(FieldToCompute::ReaderId(field)) => {
                let field_name = field.ident.as_ref().expect(
                    "Expected named field to have an ident.",
                );
                arguments.append(field_name.as_str());
                arguments.append(", ");
            },
            FieldVariant::PhantomData { .. } => {},
            FieldVariant::Passthrough { field, .. } => {
                let field_name = field.ident.as_ref().expect(
                    "Expected named field to have an ident.",
                );
                let mut argument = String::from_str("self.");
                argument.append(field_name.as_str());
                arguments.append(argument.as_str());
                arguments.append(", ");
            },
        }
        i += 1;
    }
    assert(mappings@.take(i as int) =~= mappings@);
    arguments
}

/// The initializers of a structure literal for a system with named fields.
#[verifier::loop_isolation(false)]
fn named_initializers(mappings: &Vec<FieldMapping>) -> (initializers: String)
    requires
        constructor_call_names_known(DescriptorShape::Named, mappings@),
    ensures
        initializers@ == comma_terminated(
            mappings@.filter_map(|m: FieldMapping| named_initializer(m)),
        ),
{
    let mut initializers = String::new();
    let mut i: usize = 0;
    while i < mappings.len()
        invariant
            i <= mappings@.len(),
            initializers@ == comma_terminated(
                mappings@.take(i as int).filter_map(|m: FieldMapping| named_initializer(m)),
            ),
        decreases mappings@.len() - i,
    {
        proof {
            lemma_comma_terminated_next(
                mappings@,
                |m: FieldMapping| named_initializer(m),
                i as int,
            );
        }
        match &mappings[i].field_variant {
            FieldVariant::Skipped(_) => {},
            FieldVariant::Compute(FieldToCompute::ReaderId(field)) => {
                let field_name = field.ident.as_ref().expect(
                    "Expected named field to have an ident.",
                );
                initializers.append(field_name.as_str());
                initializers.append(", ");
            },
            FieldVariant::PhantomData { .. } => {},
            FieldVariant::Passthrough { field, .. } => {
                let field_name = field.ident.as_ref().expect(
                    "Expected named field to have an ident.",
                );
                let mut initializer = field_name.clone();
                initializer.append(": self.");
                initializer.append(field_name.as_str());
                initializers.append(initializer.as_str());
                initializers.append(", ");
            },
        }
        i += 1;
    }
    assert(mappings@.take(i as int) =~= mappings@);
    initializers
}

/// Whether the descriptor's shape fits the classes of the fields: a unit
/// descriptor goes with fields of which none is copied.
pub open spec fn shape_fits(shape: DescriptorShape, mappings: Seq<FieldMapping>) -> bool {
    shape is Unit ==> !any_phantom_data(mappings) && !any_passthrough(mappings)
}

/// Writes the expression that constructs the system at the end of `build`.
pub fn call_system_constructor(context: &Context) -> (tokens: String)
    requires
        shape_fits(
            context.system_desc_fields.fields.shape(),
            context.system_desc_fields.field_mappings@,
        ),
        constructor_call_names_known(
            context.system_desc_fields.fields.shape(),
            context.system_desc_fields.field_mappings@,
        ),
    ensures
        tokens@ == constructor_call(
            context.system_name@,
            context.system_desc_fields.fields.shape(),
            context.system_desc_fields.field_mappings@,
        ),
{
    let system_name = context.system_name;
    let field_mappings = &context.system_desc_fields.field_mappings;
    let present = classes_present(field_mappings);
    let mut tokens = system_name.clone();
    match &context.system_desc_fields.fields {
        DescriptorFields::Unit => {
            // The descriptor has no fields, but the system might. A system
            // without fields is constructed by its name alone.
            if field_mappings.len() != 0 {
                if present.compute {
                    let arguments = unit_arguments(field_mappings);
                    tokens.append("::new(");
                    tokens.append(arguments.as_str());
                    tokens.append(")");
                } else {
                    tokens.append("::default()");
                }
            }
        },
        DescriptorFields::Unnamed(..) => {
            if present.compute {
                let arguments = positional_arguments(field_mappings);
                tokens.append("::new(");
                tokens.append(arguments.as_str());
                tokens.append(")");
            } else {
                tokens.append("::default()");
            }
        },
        DescriptorFields::Named(..) => {
            let has_fields_to_compute_or_passthrough = present.compute || present.passthrough;
            let has_fields_skipped_or_phantom = present.skipped || present.phantom_data;
            if has_fields_to_compute_or_passthrough {
                if has_fields_skipped_or_phantom {
                    let arguments = named_arguments(field_mappings);
                    tokens.append("::new(");
                    tokens.append(arguments.as_str());
                    tokens.append(")");
                } else {
                    let initializers = named_initializers(field_mappings);
                    tokens.append(" { ");
                    tokens.append(initializers.as_str());
                    tokens.append("}");
                }
            } else if has_fields_skipped_or_phantom {
                tokens.append("::default()");
            } else {
                tokens.append(" {}");
            }
        },
    }
    tokens
}

/// The type of the events that a reader field reads: the single argument of
/// the field's type, where that type is a path with one argument between angle
/// brackets, and the argument is a type that is a path. A comma behind the
/// argument changes nothing.
pub open spec fn reader_event_type(field: Field) -> Option<Seq<char>> {
    match field.ty.last_segment {
        Some(segment) => match segment.arguments {
            PathArguments::AngleBracketed { args } => {
                if args@.len() == 1 {
                    match args@[0] {
                        GenericArgument::TypePath(path) => Some(path@),
                        GenericArgument::Other => None,
                    }
                } else {
                    None
                }
            },
            _ => None,
        },
        None => None,
    }
}

/// The statement that computes a reader field: it fetches the `EventChannel`
/// of the field's event type from the `World`, registers a reader and binds
/// the `ReaderId` to the field's name.
pub open spec fn reader_registration(mapping: FieldMapping) -> Option<Seq<char>> {
    match mapping.field_variant {
        FieldVariant::Compute(FieldToCompute::ReaderId(field)) => Some(
            "let "@ + computed_name(*field) + " = world.fetch_mut::<EventChannel<"@
                + reader_event_type(*field).unwrap() + ">>().register_reader(); "@,
        ),
        _ => None,
    }
}

/// The statements that compute the computed fields, in declaration order.
pub open spec fn field_computations(mappings: Seq<FieldMapping>) -> Seq<char> {
    concat(mappings.filter_map(|m: FieldMapping| reader_registration(m)))
}

/// Whether the type of a field, if the field is computed, names the events
/// to read.
pub open spec fn computed_type_well_formed(mapping: FieldMapping) -> bool {
    mapping.field_variant matches FieldVariant::Compute(FieldToCompute::ReaderId(field))
        ==> reader_event_type(*field) is Some
}

/// Whether the type of every computed field names the events to read.
pub open spec fn computed_types_well_formed(mappings: Seq<FieldMapping>) -> bool {
    forall|i: int|
        0 <= i < mappings.len() ==> computed_type_well_formed(#[trigger] mappings[i])
}

/// Whether the value of a field, if the field is computed, can be bound to a
/// name: the field's own, or that of its type.
pub open spec fn computed_name_known(mapping: FieldMapping) -> bool {
    mapping.field_variant matches FieldVariant::Compute(FieldToCompute::ReaderId(field))
        ==> field.ident is Some || has_snake_case_name(*field)
}

/// Whether the value of every computed field can be bound to a name.
pub open spec fn computed_names_known(mappings: Seq<FieldMapping>) -> bool {
    forall|i: int| 0 <= i < mappings.len() ==> computed_name_known(#[trigger] mappings[i])
}

/// The type of the events that a reader field reads.
fn event_type_path(field: &Field) -> (path: Option<&String>)
    ensures
        path is Some <==> reader_event_type(*field) is Some,
        path matches Some(p) ==> p@ == reader_event_type(*field).unwrap(),
{
    match &field.ty.last_segment {
        Some(segment) => match &segment.arguments {
            PathArguments::AngleBracketed { args } => {
                if args.len() == 1 {
                    match &args[0] {
                        GenericArgument::TypePath(path) => Some(path),
                        GenericArgument::Other => None,
                    }
                } else {
                    None
                }
            },
            _ => None,
        },
        None => None,
    }
}

/// Computes resources from the `World`.
#[verifier::loop_isolation(false)]
pub fn field_computation_expressions(system_desc_fields: &SystemDescFields) -> (tokens: String)
    requires
        computed_types_well_formed(system_desc_fields.field_mappings@),
        computed_names_known(system_desc_fields.field_mappings@),
    ensures
        tokens@ == field_computations(system_desc_fields.field_mappings@),
{
    let mappings = &system_desc_fields.field_mappings;
    let mut tokens = String::new();
    let mut i: usize = 0;
    while i < mappings.len()
        invariant
            i <= mappings@.len(),
            tokens@ == field_computations(mappings@.take(i as int)),
        decreases mappings@.len() - i,
    {
        proof {
            lemma_concat_next(mappings@, |m: FieldMapping| reader_registration(m), i as int);
        }
        assert(computed_type_well_formed(mappings@[i as int]));
        assert(computed_name_known(mappings@[i as int]));
        match &mappings[i].field_variant {
            FieldVariant::Compute(FieldToCompute::ReaderId(field)) => {
                let event_type_path = event_type_path(field).expect(
                    "Expected field to have a single type parameter.",
                );
                let field_name = computed_field_name(field);
                let mut statement = String::from_str("let ");
                statement.append(field_name.as_str());
                statement.append(" = world.fetch_mut::<EventChannel<");
                statement.append(event_type_path.as_str());
                statement.append(">>().register_reader(); ");
                tokens.append(statement.as_str());
            },
            _ => {},
        }
        i += 1;
    }
    assert(mappings@.take(i as int) =~= mappings@);
    tokens
}

/// The value of a marker field.
pub open spec fn phantom_data_value() -> Seq<char> {
    "std::marker::PhantomData::default()"@
}

/// The parameter of the constructor for a field of a tuple descriptor: named
/// by the type in snake case. A marker is no parameter.
pub open spec fn positional_parameter(field: &Field) -> Option<Seq<char>> {
    if field.phantom_data() {
        None
    } else {
        Some(snake_case_name(*field) + ": "@ + field.ty.tokens@)
    }
}

/// The parameter of the constructor for a field of a descriptor with names. A
/// marker is no parameter.
pub open spec fn named_parameter(field: &Field) -> Option<Seq<char>> {
    if field.phantom_data() {
        None
    } else {
        Some(field.ident.unwrap()@ + ": "@ + field.ty.tokens@)
    }
}

/// The parameters of the descriptor's constructor: one for each field of the
/// descriptor that is no marker, in the order of the descriptor.
pub open spec fn constructor_parameters(
    shape: DescriptorShape,
    fields: Seq<&Field>,
) -> Seq<char> {
    match shape {
        DescriptorShape::Unit => Seq::empty(),
        DescriptorShape::Unnamed => comma_terminated(
            fields.filter_map(|f: &Field| positional_parameter(f)),
        ),
        DescriptorShape::Named => comma_terminated(
            fields.filter_map(|f: &Field| named_parameter(f)),
        ),
    }
}

/// What the constructor puts into a field of a tuple descriptor: the marker's
/// value, or the parameter of the field.
pub open spec fn positional_field_value(field: &Field) -> Seq<char> {
    if field.phantom_data() {
        phantom_data_value()
    } else {
        snake_case_name(*field)
    }
}

/// What the constructor puts into a field of a descriptor with names: the
/// marker's value under the field's name, or the parameter, which has the
/// field's name.
pub open spec fn named_field_value(field: &Field) -> Seq<char> {
    if field.phantom_data() {
        field.ident.unwrap()@ + ": "@ + phantom_data_value()
    } else {
        field.ident.unwrap()@
    }
}

/// The expression that the descriptor's constructor returns: the descriptor
/// with a value for each of its fields, in their order.
pub open spec fn constructor_body(
    system_desc_name: Seq<char>,
    shape: DescriptorShape,
    fields: Seq<&Field>,
) -> Seq<char> {
    match shape {
        DescriptorShape::Unit => system_desc_name,
        DescriptorShape::Unnamed => system_desc_name + "("@ + comma_terminated(
            fields.map_values(|f: &Field| positional_field_value(f)),
        ) + ")"@,
        DescriptorShape::Named => system_desc_name + " { "@ + comma_terminated(
            fields.map_values(|f: &Field| named_field_value(f)),
        ) + "}"@,
    }
}

/// Whether every field of the descriptor can be named: by its name in a
/// descriptor with names, by its type in a tuple descriptor, where a marker
/// needs no name.
pub open spec fn descriptor_names_known(shape: DescriptorShape, fields: Seq<&Field>) -> bool {
    forall|i: int|
        0 <= i < fields.len() ==> match shape {
            DescriptorShape::Unit => true,
            DescriptorShape::Unnamed => (#[trigger] fields[i]).phantom_data()
                || has_snake_case_name(*fields[i]),
            DescriptorShape::Named => fields[i].ident is Some,
        }
}

/// Writes the expression that the descriptor's constructor returns.
#[verifier::loop_isolation(false)]
pub fn impl_constructor_body(context: &Context) -> (tokens: String)
    requires
        descriptor_names_known(
            context.system_desc_fields.fields.shape(),
            context.system_desc_fields.fields.field_seq(),
        ),
    ensures
        tokens@ == constructor_body(
            context.system_desc_name@,
            context.system_desc_fields.fields.shape(),
            context.system_desc_fields.fields.field_seq(),
        ),
{
    let mut tokens = context.system_desc_name.clone();
    match &context.system_desc_fields.fields {
        DescriptorFields::Unit => {},
        DescriptorFields::Unnamed(fields_unnamed) => {
            let mut field_initializers = String::new();
            let mut i: usize = 0;
            while i < fields_unnamed.len()
                invariant
                    i <= fields_unnamed@.len(),
                    field_initializers@ == comma_terminated(
                        fields_unnamed@.take(i as int).map_values(
                            |f: &Field| positional_field_value(f),
                        ),
                    ),
                decreases fields_unnamed@.len() - i,
            {
                proof {
                    lemma_comma_terminated_map_next(
                        fields_unnamed@,
                        |f: &Field| positional_field_value(f),
                        i as int,
                    );
                }
                let field = fields_unnamed[i];
                if field.is_phantom_data() {
                    field_initializers.append("std::marker::PhantomData::default()");
                } else {
                    let type_name_snake = snake_case(field);
                    field_initializers.append(type_name_snake.as_str());
                }
                field_initializers.append(", ");
                i += 1;
            }
            assert(fields_unnamed@.take(i as int) =~= fields_unnamed@);
            tokens.append("(");
            tokens.append(field_initializers.as_str());
            tokens.append(")");
        },
        DescriptorFields::Named(fields_named) => {
            let mut field_initializers = String::new();
            let mut i: usize = 0;
            while i < fields_named.len()
                invariant
                    i <= fields_named@.len(),
                    field_initializers@ == comma_terminated(
                        fields_named@.take(i as int).map_values(|f: &Field| named_field_value(f)),
                    ),
                decreases fields_named@.len() - i,
            {
                proof {
                    lemma_comma_terminated_map_next(
                        fields_named@,
                        |f: &Field| named_field_value(f),
                        i as int,
                    );
                }
                let field = fields_named[i];
                let field_name = field.ident.as_ref().expect(
                    "Expected named field to have an ident.",
                );
                if field.is_phantom_data() {
                    let mut initializer = field_name.clone();
                    initializer.append(": ");
                    initializer.append("std::marker::PhantomData::default()");
                    field_initializers.append(initializer.as_str());
                } else {
                    field_initializers.append(field_name.as_str());
                }
                field_initializers.append(", ");
                i += 1;
            }
            assert(fields_named@.take(i as int) =~= fields_named@);
            tokens.append(" { ");
            tokens.append(field_initializers.as_str());
            tokens.append("}");
        },
    }
    tokens
}

/// Writes the parameters of the descriptor's constructor.
#[verifier::loop_isolation(false)]
pub fn impl_constructor_parameters(context: &Context) -> (tokens: String)
    requires
        descriptor_names_known(
            context.system_desc_fields.fields.shape(),
            context.system_desc_fields.fields.field_seq(),
        ),
    ensures
        tokens@ == constructor_parameters(
            context.system_desc_fields.fields.shape(),
            context.system_desc_fields.fields.field_seq(),
        ),
{
    let mut constructor_parameters = String::new();
    match &context.system_desc_fields.fields {
        DescriptorFields::Unit => {},
        DescriptorFields::Unnamed(fields_unnamed) => {
            let mut i: usize = 0;
            while i < fields_unnamed.len()
                invariant
                    i <= fields_unnamed@.len(),
                    constructor_parameters@ == comma_terminated(
                        fields_unnamed@.take(i as int).filter_map(
                            |f: &Field| positional_parameter(f),
                        ),
                    ),
                decreases fields_unnamed@.len() - i,
            {
                proof {
                    lemma_comma_terminated_next(
                        fields_unnamed@,
                        |f: &Field| positional_parameter(f),
                        i as int,
                    );
                }
                let field = fields_unnamed[i];
                if !field.is_phantom_data() {
                    let mut parameter = snake_case(field);
                    parameter.append(": ");
                    parameter.append(field.ty.tokens.as_str());
                    constructor_parameters.append(parameter.as_str());
                    constructor_parameters.append(", ");
                }
                i += 1;
            }
            assert(fields_unnamed@.take(i as int) =~= fields_unnamed@);
        },
        DescriptorFields::Named(fields_named) => {
            let mut i: usize = 0;
            while i < fields_named.len()
                invariant
                    i <= fields_named@.len(),
                    constructor_parameters@ == comma_terminated(
                        fields_named@.take(i as int).filter_map(|f: &Field| named_parameter(f)),
                    ),
                decreases fields_named@.len() - i,
            {
                proof {
                    lemma_comma_terminated_next(
                        fields_named@,
                        |f: &Field| named_parameter(f),
                        i as int,
                    );
                }
                let field = fields_named[i];
                if !field.is_phantom_data() {
                    let field_name = field.ident.as_ref().expect(
                        "Expected named field to have an ident.",
                    );
                    let mut parameter = field_name.clone();
                    parameter.append(": ");
                    parameter.append(field.ty.tokens.as_str());
                    constructor_parameters.append(parameter.as_str());
                    constructor_parameters.append(", ");
                }
                i += 1;
            }
            assert(fields_named@.take(i as int) =~= fields_named@);
        },
    }
    constructor_parameters
}

/// The implementation that constructs the descriptor: `Default` where the
/// constructor takes no argument, a `new` function else.
pub open spec fn constructor_impl(
    system_desc_name: Seq<char>,
    impl_generics: Seq<char>,
    ty_generics: Seq<char>,
    where_clause: Seq<char>,
    is_default: bool,
    shape: DescriptorShape,
    fields: Seq<&Field>,
) -> Seq<char> {
    if is_default {
        "impl"@ + impl_generics + " std::default::Default for "@ + system_desc_name + ty_generics
            + " "@ + where_clause + " { fn default() -> Self { "@ + constructor_body(
            system_desc_name,
            shape,
            fields,
        ) + " } }"@
    } else {
        "impl"@ + impl_generics + " "@ + system_desc_name + ty_generics + " "@ + where_clause
            + " { #[doc = \"Returns a new "@ + system_desc_name + "\"] pub fn new("@
            + constructor_parameters(shape, fields) + ") -> Self { "@ + constructor_body(
            system_desc_name,
            shape,
            fields,
        ) + " } }"@
    }
}

/// Writes the implementation that constructs the descriptor.
pub fn impl_constructor(context: &Context) -> (tokens: String)
    requires
        descriptor_names_known(
            context.system_desc_fields.fields.shape(),
            context.system_desc_fields.fields.field_seq(),
        ),
    ensures
        tokens@ == constructor_impl(
            context.system_desc_name@,
            context.impl_generics@,
            context.ty_generics@,
            context.where_clause@,
            context.is_default,
            context.system_desc_fields.fields.shape(),
            context.system_desc_fields.fields.field_seq(),
        ),
{
    let constructor_parameters = impl_constructor_parameters(context);
    let constructor_body = impl_constructor_body(context);
    let mut tokens = String::from_str("impl");
    tokens.append(context.impl_generics.as_str());
    if context.is_default {
        tokens.append(" std::default::Default for ");
        tokens.append(context.system_desc_name.as_str());
        tokens.append(context.ty_generics.as_str());
        tokens.append(" ");
        tokens.append(context.where_clause.as_str());
        tokens.append(" { fn default() -> Self { ");
        tokens.append(constructor_body.as_str());
        tokens.append(" } }");
    } else {
        tokens.append(" ");
        tokens.append(context.system_desc_name.as_str());
        tokens.append(context.ty_generics.as_str());
        tokens.append(" ");
        tokens.append(context.where_clause.as_str());
        tokens.append(" { #[doc = \"Returns a new ");
        tokens.append(context.system_desc_name.as_str());
        tokens.append("\"] pub fn new(");
        tokens.append(constructor_parameters.as_str());
        tokens.append(") -> Self { ");
        tokens.append(constructor_body.as_str());
        tokens.append(" } }");
    }
    tokens
}

/// The declaration of the descriptor: a unit structure, or a structure of the
/// system's shape with the fields that the descriptor copies, as the system
/// declares them.
pub open spec fn struct_declaration(
    system_desc_name: Seq<char>,
    ty_generics: Seq<char>,
    where_clause: Seq<char>,
    shape: DescriptorShape,
    fields: Seq<&Field>,
) -> Seq<char> {
    match shape {
        DescriptorShape::Unit => "struct "@ + system_desc_name + ";"@,
        DescriptorShape::Unnamed => "struct "@ + system_desc_name + ty_generics + "("@
            + comma_terminated(fields.map_values(|f: &Field| f.tokens@)) + ") "@ + where_clause
            + ";"@,
        DescriptorShape::Named => "struct "@ + system_desc_name + ty_generics + " "@ + where_clause
            + " { "@ + comma_terminated(fields.map_values(|f: &Field| f.tokens@)) + "}"@,
    }
}

/// The descriptor type: its documentation, a `Debug` derive and its public
/// declaration.
pub open spec fn descriptor_struct(
    system_name: Seq<char>,
    system_desc_name: Seq<char>,
    ty_generics: Seq<char>,
    where_clause: Seq<char>,
    shape: DescriptorShape,
    fields: Seq<&Field>,
) -> Seq<char> {
    "#[doc = \"Builds a `"@ + system_name + "`.\"] #[derive(Debug)] pub "@ + struct_declaration(
        system_desc_name,
        ty_generics,
        where_clause,
        shape,
        fields,
    )
}

/// Writes the declarations of the descriptor's fields, each as the system
/// declares it.
#[verifier::loop_isolation(false)]
fn field_declarations(fields: &Vec<&Field>) -> (tokens: String)
    ensures
        tokens@ == comma_terminated(fields@.map_values(|f: &Field| f.tokens@)),
{
    let mut tokens = String::new();
    let mut i: usize = 0;
    while i < fields.len()
        invariant
            i <= fields@.len(),
            tokens@ == comma_terminated(fields@.take(i as int).map_values(|f: &Field| f.tokens@)),
        decreases fields@.len() - i,
    {
        proof {
            lemma_comma_terminated_map_next(fields@, |f: &Field| f.tokens@, i as int);
        }
        tokens.append(fields[i].tokens.as_str());
        tokens.append(", ");
        i += 1;
    }
    assert(fields@.take(i as int) =~= fields@);
    tokens
}

/// Writes the descriptor type.
pub fn system_desc_struct(context: &Context) -> (tokens: String)
    ensures
        tokens@ == descriptor_struct(
            context.system_name@,
            context.system_desc_name@,
            context.ty_generics@,
            context.where_clause@,
            context.system_desc_fields.fields.shape(),
            context.system_desc_fields.fields.field_seq(),
        ),
{
    let mut struct_declaration = String::from_str("struct ");
    struct_declaration.append(context.system_desc_name.as_str());
    match &context.system_desc_fields.fields {
        DescriptorFields::Unit => {
            struct_declaration.append(";");
        },
        DescriptorFields::Unnamed(fields) => {
            let declarations = field_declarations(fields);
            struct_declaration.append(context.ty_generics.as_str());
            struct_declaration.append("(");
            struct_declaration.append(declarations.as_str());
            struct_declaration.append(") ");
            struct_declaration.append(context.where_clause.as_str());
            struct_declaration.append(";");
        },
        DescriptorFields::Named(fields) => {
            let declarations = field_declarations(fields);
            struct_declaration.append(context.ty_generics.as_str());
            struct_declaration.append(" ");
            struct_declaration.append(context.where_clause.as_str());
            struct_declaration.append(" { ");
            struct_declaration.append(declarations.as_str());
            struct_declaration.append("}");
        },
    }
    let mut tokens = String::from_str("#[doc = \"Builds a `");
    tokens.append(context.system_name.as_str());
    tokens.append("`.\"] #[derive(Debug)] pub ");
    tokens.append(struct_declaration.as_str());
    tokens
}

/// The implementation of `SystemDesc`: `build` sets up the system's data,
/// inserts the resources, computes the computed fields and constructs the
/// system.
pub open spec fn build_impl(
    impl_generics_with_lifetimes: Seq<char>,
    system_name: Seq<char>,
    system_desc_name: Seq<char>,
    ty_generics: Seq<char>,
    where_clause: Seq<char>,
    insertions: Seq<char>,
    computations: Seq<char>,
    construction: Seq<char>,
) -> Seq<char> {
    "impl"@ + impl_generics_with_lifetimes + " SystemDesc<'system_desc_a, 'system_desc_b, "@
        + system_name + ty_generics + "> for "@ + system_desc_name + ty_generics + " "@
        + where_clause
        + " { fn build(self, world: &mut World) -> "@ + system_name + ty_generics + " { <"@
        + system_name + ty_generics + " as System<'_>>::SystemData::setup(world); "@ + insertions
        + computations + construction + " } }"@
}

/// A structure that has fields, of which none is passed through or computed,
/// is constructed by `default()`: the construction takes no argument and
/// names no field, whatever the shape of the structure.
pub proof fn lemma_default_construction(system_name: Seq<char>, fields: Seq<Field>, named: bool)
    requires
        fields.len() > 0,
        forall|i: int|
            0 <= i < fields.len() ==> !((#[trigger] classified(fields)[i]).field_variant
                is Passthrough) && !(classified(fields)[i].field_variant is Compute),
    ensures
        constructor_call(system_name, descriptor_shape(fields, named), classified(fields))
            == system_name + "::default()"@,
{
    let mappings = classified(fields);
    assert(mappings[0].field_variant is Skipped || mappings[0].field_variant is PhantomData);
}

/// The computed fields among the fields, in declaration order.
pub open spec fn computed_fields(mappings: Seq<FieldMapping>) -> Seq<FieldMapping> {
    mappings.filter(|m: FieldMapping| m.field_variant is Compute)
}

/// `build` registers one reader for each computed field, and does so in
/// declaration order: the statements that compute fields are as many as the
/// computed fields, each binds the name of its field to a reader of the
/// `EventChannel` of the field's event type, and nothing else is written.
pub proof fn lemma_one_registration_per_computed_field(mappings: Seq<FieldMapping>)
    ensures
        mappings.filter_map(|m: FieldMapping| reader_registration(m)).len() == computed_fields(
            mappings,
        ).len(),
        forall|k: int|
            0 <= k < computed_fields(mappings).len() ==> {
                let field = (#[trigger] computed_fields(mappings)[k]).field_variant.field();
                &&& computed_fields(mappings)[k].field_variant is Compute
                &&& mappings.filter_map(|m: FieldMapping| reader_registration(m))[k] == "let "@
                    + computed_name(field) + " = world.fetch_mut::<EventChannel<"@
                    + reader_event_type(field).unwrap() + ">>().register_reader(); "@
            },
        field_computations(mappings) == concat(
            mappings.filter_map(|m: FieldMapping| reader_registration(m)),
        ),
    decreases mappings.len(),
{
    reveal(Seq::filter);
    if mappings.len() > 0 {
        let rest = mappings.drop_last();
        lemma_one_registration_per_computed_field(rest);
    }
}

/// The fields that are passed through, in declaration order.
pub open spec fn passed_through_fields(mappings: Seq<FieldMapping>) -> Seq<FieldMapping> {
    mappings.filter(|m: FieldMapping| m.field_variant is Passthrough)
}

/// The constructor of the descriptor takes one parameter for each field that
/// is passed through, and no other.
pub proof fn lemma_one_parameter_per_passthrough_field(fields: Seq<Field>)
    ensures
        descriptor_fields(fields).filter_map(|f: &Field| positional_parameter(f)).len()
            == passed_through_fields(classified(fields)).len(),
        descriptor_fields(fields).filter_map(|f: &Field| named_parameter(f)).len()
            == passed_through_fields(classified(fields)).len(),
    decreases fields.len(),
{
    reveal(Seq::filter);
    if fields.len() > 0 {
        let rest = fields.drop_last();
        let last = fields.last();
        lemma_one_parameter_per_passthrough_field(rest);
        lemma_classified_drop_last(fields);
        if copied(last) {
            assert(descriptor_fields(fields).drop_last() =~= descriptor_fields(rest));
        }
    }
}

/// The value handed to the descriptor for a field that is passed through is
/// the value that `build` hands on for that field.
///
/// The descriptor declares the field at its position. The constructor takes a
/// parameter for it, named after the field's type in a tuple descriptor and by
/// the field's name else, and stores that parameter in the descriptor at that
/// position, or under that name. The argument that the construction of the
/// system gets for the field reads the descriptor at the same position, or
/// under the same name.
pub proof fn lemma_passthrough_slots_agree(fields: Seq<Field>, index: int)
    requires
        0 <= index < fields.len() <= usize::MAX,
        classified(fields)[index].field_variant is Passthrough,
    ensures
        ({
            let field = fields[index];
            let mapping = classified(fields)[index];
            let position = copied_before(fields, index) as int;
            let slot = descriptor_fields(fields)[position];
            &&& 0 <= position < descriptor_fields(fields).len()
            &&& *slot == field
            &&& mapping.field_variant.descriptor_index() == Some(position as usize)
            &&& positional_parameter(slot) == Some(
                snake_case_name(field) + ": "@ + field.ty.tokens@,
            )
            &&& positional_field_value(slot) == snake_case_name(field)
            &&& positional_argument(mapping) == Some("self."@ + decimal(position as nat))
            &&& named_parameter(slot) == Some(field.ident.unwrap()@ + ": "@ + field.ty.tokens@)
            &&& named_field_value(slot) == field.ident.unwrap()@
            &&& named_argument(mapping) == Some("self."@ + field.ident.unwrap()@)
            &&& named_initializer(mapping) == Some(
                field.ident.unwrap()@ + ": self."@ + field.ident.unwrap()@,
            )
        }),
{
    lemma_descriptor_positions_dense(fields);
}

/// A structure that names no descriptor is its own descriptor: nothing but the
/// implementation of `SystemDesc` is generated, on the structure itself, and
/// `build` sets up the system's data, inserts the resources and returns
/// `self`. No field is read, computed or constructed.
pub proof fn lemma_identity_mode(ast: DeriveInput)
    requires
        descriptor_name(ast.attrs@) is None,
    ensures
        system_desc_impl(ast) == "impl"@ + ast.generics.impl_generics_with_lifetimes@
            + " SystemDesc<'system_desc_a, 'system_desc_b, "@ + ast.ident@
            + ast.generics.ty_generics@ + "> for "@ + ast.ident@ + ast.generics.ty_generics@ + " "@
            + ast.generics.where_clause@ + " { fn build(self, world: &mut World) -> "@ + ast.ident@
            + ast.generics.ty_generics@ + " { <"@ + ast.ident@ + ast.generics.ty_generics@
            + " as System<'_>>::SystemData::setup(world); "@ + resource_insertions(ast.attrs@)
            + "self"@ + " } }"@,
{
}

/// Whether a field that the generation has to name can be named: by its name
/// in a structure with named fields, by its type's simple name in snake case
/// in a tuple structure. Skipped fields are never named, and in a tuple
/// structure a marker is not either.
pub open spec fn nameable(field: Field, named: bool) -> bool {
    tagged_skip(field) || if named {
        field.ident is Some
    } else if tagged_reader(field) {
        has_snake_case_name(field)
    } else {
        field.phantom_data() || has_snake_case_name(field)
    }
}

/// Whether all fields that the generation has to name can be named.
pub open spec fn fields_nameable(ast: DeriveInput) -> bool {
    forall|i: int|
        0 <= i < ast.field_seq().len() ==> nameable(#[trigger] ast.field_seq()[i], ast.named())
}

/// The position of the first computed field whose type does not name the
/// events to read.
pub open spec fn malformed_computed_type(mappings: Seq<FieldMapping>) -> Option<int> {
    first_index(mappings, |m: FieldMapping| !computed_type_well_formed(m))
}

/// The position of the first field that has to be named and cannot be.
pub open spec fn field_without_name(ast: DeriveInput) -> Option<int> {
    first_index(ast.field_seq(), |field: Field| !nameable(field, ast.named()))
}

/// Why no implementation can be generated for a structure, and where the
/// fault lies.
#[derive(Debug, Clone, Copy, PartialEq, Eq)]
pub enum Malformed {
    /// A `name(..)` list does not hold exactly one identifier, or an element
    /// of an `insert(..)` list is neither an identifier nor a string with an
    /// expression in it.
    Annotation {
        /// Position of the attribute among the attributes of the structure.
        attribute: usize,
    },
    /// A computed field's type is no path with a single type as argument.
    ComputedFieldType {
        /// Position of the field in the structure.
        field: usize,
    },
    /// A field that has to be named has no name, or in a tuple structure no
    /// path as its type whose name in snake case is an identifier.
    FieldWithoutName {
        /// Position of the field in the structure.
        field: usize,
    },
}

/// What stands against generating an implementation, `None` where nothing
/// does. The `name(..)` list of the structure is looked at first, then its
/// `insert(..)` lists, then the types of the computed fields, then the names
/// of the fields; of several faults of one kind the first in the declaration
/// is named. The fields matter only where the structure names a descriptor.
pub open spec fn malformation(ast: DeriveInput) -> Option<Malformed> {
    if !name_well_formed(ast.attrs@) {
        Some(Malformed::Annotation { attribute: name_attribute(ast.attrs@).unwrap() as usize })
    } else if !insertions_well_formed(ast.attrs@) {
        Some(
            Malformed::Annotation { attribute: malformed_insertion(ast.attrs@).unwrap() as usize },
        )
    } else if descriptor_name(ast.attrs@) is None {
        None
    } else if !computed_types_well_formed(classified(ast.field_seq())) {
        Some(
            Malformed::ComputedFieldType {
                field: malformed_computed_type(classified(ast.field_seq())).unwrap() as usize,
            },
        )
    } else if !fields_nameable(ast) {
        Some(Malformed::FieldWithoutName { field: field_without_name(ast).unwrap() as usize })
    } else {
        None
    }
}

/// The generated items for a structure.
///
/// A structure that names a descriptor gets the descriptor type, its
/// constructor, and an implementation of `SystemDesc` on the descriptor. A
/// structure that names none is its own descriptor: it gets the
/// implementation alone, whose `build` inserts the resources and returns
/// `self`.
pub open spec fn system_desc_impl(ast: DeriveInput) -> Seq<char> {
    let system_name = ast.ident@;
    let ty_generics = ast.generics.ty_generics@;
    let where_clause = ast.generics.where_clause@;
    match descriptor_name(ast.attrs@) {
        None => build_impl(
            ast.generics.impl_generics_with_lifetimes@,
            system_name,
            system_name,
            ty_generics,
            where_clause,
            resource_insertions(ast.attrs@),
            Seq::empty(),
            "self"@,
        ),
        Some(system_desc_name) => {
            let fields = ast.field_seq();
            let mappings = classified(fields);
            let shape = descriptor_shape(fields, ast.named());
            descriptor_struct(
                system_name,
                system_desc_name,
                ty_generics,
                where_clause,
                shape,
                descriptor_fields(fields),
            ) + " "@ + constructor_impl(
                system_desc_name,
                ast.generics.impl_generics@,
                ty_generics,
                where_clause,
                !any_passthrough(mappings),
                shape,
                descriptor_fields(fields),
            ) + " "@ + build_impl(
                ast.generics.impl_generics_with_lifetimes@,
                system_name,
                system_desc_name,
                ty_generics,
                where_clause,
                resource_insertions(ast.attrs@),
                field_computations(mappings),
                constructor_call(system_name, shape, mappings),
            )
        },
    }
}

/// Every field of the descriptor and every field that the construction names
/// can be named where the structure's fields can, and a unit descriptor goes
/// with fields of which none is copied.
pub proof fn lemma_names_known(ast: DeriveInput)
    requires
        fields_nameable(ast),
    ensures
        descriptor_names_known(
            descriptor_shape(ast.field_seq(), ast.named()),
            descriptor_fields(ast.field_seq()),
        ),
        shape_fits(
            descriptor_shape(ast.field_seq(), ast.named()),
            classified(ast.field_seq()),
        ),
        constructor_call_names_known(
            descriptor_shape(ast.field_seq(), ast.named()),
            classified(ast.field_seq()),
        ),
        computed_names_known(classified(ast.field_seq())),
{
    let fields = ast.field_seq();
    let shape = descriptor_shape(fields, ast.named());
    let end = fields.len() as int;
    lemma_descriptor_positions_dense(fields);
    assert forall|d: int| 0 <= d < descriptor_fields(fields).len() implies match shape {
        DescriptorShape::Unit => true,
        DescriptorShape::Unnamed => (#[trigger] descriptor_fields(fields)[d]).phantom_data()
            || has_snake_case_name(*descriptor_fields(fields)[d]),
        DescriptorShape::Named => descriptor_fields(fields)[d].ident is Some,
    } by {
        assert(position_taken(fields, end, d));
        let i = choose|i: int|
            0 <= i < end && copied(fields[i]) && #[trigger] copied_before(fields, i) == d;
        assert(classified(fields)[i].field_variant.in_descriptor());
        assert(nameable(fields[i], ast.named()));
    }
    assert forall|i: int| 0 <= i < end implies !(shape is Unit && copied(fields[i])) by {
        if copied(fields[i]) {
            assert(classified(fields)[i].field_variant.in_descriptor());
        }
    }
    assert forall|i: int| 0 <= i < end implies match (#[trigger] classified(
        fields,
    )[i]).field_variant {
        FieldVariant::Compute(FieldToCompute::ReaderId(field)) => match shape {
            DescriptorShape::Unit => field.ident is Some || has_snake_case_name(*field),
            DescriptorShape::Unnamed => has_snake_case_name(*field),
            DescriptorShape::Named => field.ident is Some,
        },
        FieldVariant::Passthrough { field, .. } => shape is Named ==> field.ident is Some,
        _ => true,
    } by {
        assert(nameable(fields[i], ast.named()));
    }
    assert forall|i: int| 0 <= i < end implies computed_name_known(
        #[trigger] classified(fields)[i],
    ) by {
        assert(nameable(fields[i], ast.named()));
    }
}

/// Writes the descriptor type, its constructor and the implementation of
/// `SystemDesc` for a structure.
pub fn impl_system_desc(ast: &DeriveInput) -> (tokens: String)
    requires
        malformation(*ast) is None,
    ensures
        tokens@ == system_desc_impl(*ast),
{
    let system_name = &ast.ident;
    let system_desc_name = system_desc_name(ast);

    // Whether the `SystemDesc` implementation is on the system type itself.
    let is_self = system_desc_name.is_none();
    let system_desc_name = match system_desc_name {
        Some(name) => name,
        None => system_name.clone(),
    };

    let (system_desc_fields, is_default) = if is_self {
        (SystemDescFields::default(), false)
    } else {
        let system_desc_fields = system_desc_fields(ast);

        // Fields to compute do not matter here: those are computed in `build`.
        let is_default = !classes_present(&system_desc_fields.field_mappings).passthrough;

        (system_desc_fields, is_default)
    };

    let context = Context {
        system_name,
        system_desc_name,
        system_desc_fields,
        impl_generics: ast.generics.impl_generics.clone(),
        ty_generics: ast.generics.ty_generics.clone(),
        where_clause: ast.generics.where_clause.clone(),
        is_default,
        is_self,
    };

    proof {
        if !is_self {
            lemma_names_known(*ast);
        }
    }
    let resource_insertion_expressions = resource_insertion_expressions(ast);
    let field_computation_expressions = field_computation_expressions(
        &context.system_desc_fields,
    );
    let call_system_constructor = if is_self {
        String::from_str("self")
    } else {
        call_system_constructor(&context)
    };

    let mut implementation = String::from_str("impl");
    implementation.append(ast.generics.impl_generics_with_lifetimes.as_str());
    implementation.append(" SystemDesc<'system_desc_a, 'system_desc_b, ");
    implementation.append(context.system_name.as_str());
    implementation.append(context.ty_generics.as_str());
    implementation.append("> for ");
    implementation.append(context.system_desc_name.as_str());
    implementation.append(context.ty_generics.as_str());
    implementation.append(" ");
    implementation.append(context.where_clause.as_str());
    implementation.append(" { fn build(self, world: &mut World) -> ");
    implementation.append(context.system_name.as_str());
    implementation.append(context.ty_generics.as_str());
    implementation.append(" { <");
    implementation.append(context.system_name.as_str());
    implementation.append(context.ty_generics.as_str());
    implementation.append(" as System<'_>>::SystemData::setup(world); ");
    implementation.append(resource_insertion_expressions.as_str());
    implementation.append(field_computation_expressions.as_str());
    implementation.append(call_system_constructor.as_str());
    implementation.append(" } }");

    if is_self {
        assert(context.system_desc_fields.field_mappings@.filter_map(
            |m: FieldMapping| reader_registration(m),
        ) =~= Seq::<Seq<char>>::empty());
        implementation
    } else {
        let mut tokens = system_desc_struct(&context);
        tokens.append(" ");
        tokens.append(impl_constructor(&context).as_str());
        tokens.append(" ");
        tokens.append(implementation.as_str());
        tokens
    }
}

/// Finds the first field that has to be named and cannot be.
#[verifier::loop_isolation(false)]
fn find_field_without_name(ast: &DeriveInput) -> (found: Option<usize>)
    ensures
        found is Some <==> !fields_nameable(*ast),
        found matches Some(position) ==> field_without_name(*ast) == Some(position as int),
{
    let named = ast.is_named();
    let fields = match &ast.fields {
        Fields::Named(fields) => fields,
        Fields::Unnamed(fields) => fields,
        Fields::Unit => {
            return None;
        },
    };
    let mut i: usize = 0;
    while i < fields.len()
        invariant
            i <= fields@.len(),
            forall|k: int| 0 <= k < i ==> nameable(#[trigger] fields@[k], named),
        decreases fields@.len() - i,
    {
        let field = &fields[i];
        let has_name = if field.contains_tag("system_desc", "skip") {
            true
        } else if named {
            field.ident.is_some()
        } else if field.contains_tag("system_desc", "event_channel_reader") {
            try_snake_case(field).is_some()
        } else {
            field.is_phantom_data() || try_snake_case(field).is_some()
        };
        if !has_name {
            proof {
                assert(!nameable(ast.field_seq()[i as int], named));
                lemma_first_index_is(
                    ast.field_seq(),
                    |field: Field| !nameable(field, ast.named()),
                    i as int,
                );
            }
            return Some(i);
        }
        i += 1;
    }
    None
}

/// Finds the first computed field whose type does not name the events to
/// read.
#[verifier::loop_isolation(false)]
fn find_malformed_computed_type(mappings: &Vec<FieldMapping>) -> (found: Option<usize>)
    ensures
        found is Some <==> !computed_types_well_formed(mappings@),
        found matches Some(position) ==> malformed_computed_type(mappings@) == Some(
            position as int,
        ),
{
    let mut i: usize = 0;
    while i < mappings.len()
        invariant
            i <= mappings@.len(),
            forall|k: int| 0 <= k < i ==> computed_type_well_formed(#[trigger] mappings@[k]),
        decreases mappings@.len() - i,
    {
        match &mappings[i].field_variant {
            FieldVariant::Compute(FieldToCompute::ReaderId(field)) => {
                if event_type_path(field).is_none() {
                    proof {
                        assert(!computed_type_well_formed(mappings@[i as int]));
                        lemma_first_index_is(
                            mappings@,
                            |m: FieldMapping| !computed_type_well_formed(m),
                            i as int,
                        );
                    }
                    return Some(i);
                }
            },
            _ => {},
        }
        i += 1;
    }
    None
}

/// Finds what stands against generating an implementation for a structure.
pub fn find_malformation(ast: &DeriveInput) -> (found: Option<Malformed>)
    ensures
        found == malformation(*ast),
{
    if let Some(attribute) = find_malformed_name(ast) {
        return Some(Malformed::Annotation { attribute });
    }
    if let Some(attribute) = find_malformed_insertion(ast) {
        return Some(Malformed::Annotation { attribute });
    }
    if system_desc_name(ast).is_none() {
        return None;
    }
    if let Some(field) = find_malformed_computed_type(&system_desc_fields(ast).field_mappings) {
        return Some(Malformed::ComputedFieldType { field });
    }
    if let Some(field) = find_field_without_name(ast) {
        return Some(Malformed::FieldWithoutName { field });
    }
    None
}

/// Writes the descriptor type, its constructor and the implementation of
/// `SystemDesc` for a structure, or says what stands against it.
pub fn try_impl_system_desc(ast: &DeriveInput) -> (generated: Result<String, Malformed>)
    ensures
        match generated {
            Ok(tokens) => malformation(*ast) is None && tokens@ == system_desc_impl(*ast),
            Err(malformed) => malformation(*ast) == Some(malformed),
        },
{
    match find_malformation(ast) {
        Some(malformed) => Err(malformed),
        None => Ok(impl_system_desc(ast)),
    }
}

} // verus!
