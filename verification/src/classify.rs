//! Classification of a structure's fields.
//!
//! Every field falls into one of four classes. Fields that the descriptor
//! copies are numbered in declaration order by their position in the
//! descriptor.

use crate::ast::{DeriveInput, Field, Fields};
use vstd::prelude::*;

verus! {

/// How a computed field gets its value.
#[derive(Debug, PartialEq)]
pub enum FieldToCompute<'f> {
    /// A `ReaderId` from registering as a reader of an `EventChannel` in the
    /// `World`.
    ReaderId(&'f Field),
}

/// The class of a field.
#[derive(Debug, PartialEq)]
pub enum FieldVariant<'f> {
    /// The field is left out of the descriptor and of the construction.
    Skipped(&'f Field),
    /// The field is computed from the `World` when the system is built.
    Compute(FieldToCompute<'f>),
    /// The field is a marker. It stands in the descriptor and in the system,
    /// and is instantiated in each on its own.
    PhantomData {
        /// Position of the field in the descriptor.
        system_desc_field_index: usize,
        field: &'f Field,
    },
    /// The field is handed to the descriptor and passed through to the system.
    Passthrough {
        /// Position of the field in the descriptor.
        system_desc_field_index: usize,
        field: &'f Field,
    },
}

/// A field of the system with its position and class.
#[derive(Debug, PartialEq)]
pub struct FieldMapping<'f> {
    /// Position of the field in the system.
    pub system_field_index: usize,
    pub field_variant: FieldVariant<'f>,
}

/// The fields of the descriptor.
#[derive(Debug, PartialEq)]
pub enum DescriptorFields<'f> {
    Named(Vec<&'f Field>),
    Unnamed(Vec<&'f Field>),
    Unit,
}

/// The classified fields of a system and the fields of its descriptor.
#[derive(Debug, PartialEq)]
pub struct SystemDescFields<'f> {
    /// The fields of the system in declaration order.
    pub field_mappings: Vec<FieldMapping<'f>>,
    /// The fields that the descriptor copies from the system.
    pub fields: DescriptorFields<'f>,
}

impl<'f> Default for SystemDescFields<'f> {
    /// No fields and a unit descriptor.
    fn default() -> (fields: Self)
        ensures
            fields.field_mappings@ == Seq::<FieldMapping<'f>>::empty(),
            fields.fields is Unit,
    {
        SystemDescFields { field_mappings: Vec::new(), fields: DescriptorFields::Unit }
    }
}

/// Whether a field is marked `#[system_desc(skip)]`.
pub open spec fn tagged_skip(field: Field) -> bool {
    field.has_tag("system_desc"@, "skip"@)
}

/// Whether a field is marked `#[system_desc(event_channel_reader)]`.
pub open spec fn tagged_reader(field: Field) -> bool {
    field.has_tag("system_desc"@, "event_channel_reader"@)
}

/// Whether the descriptor copies a field: it is neither skipped nor computed.
pub open spec fn copied(field: Field) -> bool {
    !tagged_skip(field) && !tagged_reader(field)
}

/// The number of copied fields among the first `end` fields.
pub open spec fn copied_before(fields: Seq<Field>, end: int) -> nat
    decreases end,
{
    if end <= 0 {
        0
    } else {
        copied_before(fields, end - 1) + if copied(fields[end - 1]) {
            1nat
        } else {
            0nat
        }
    }
}

/// The class of the field at `index`. The first matching rule decides: a
/// `skip` tag, an `event_channel_reader` tag, a marker type, and pass-through
/// for the rest. A copied field is numbered by the copied fields before it.
pub open spec fn classify(fields: Seq<Field>, index: int) -> FieldVariant<'static> {
    let field = fields[index];
    if tagged_skip(field) {
        FieldVariant::Skipped(&field)
    } else if tagged_reader(field) {
        FieldVariant::Compute(FieldToCompute::ReaderId(&field))
    } else if field.phantom_data() {
        FieldVariant::PhantomData {
            system_desc_field_index: copied_before(fields, index) as usize,
            field: &field,
        }
    } else {
        FieldVariant::Passthrough {
            system_desc_field_index: copied_before(fields, index) as usize,
            field: &field,
        }
    }
}

impl<'f> FieldVariant<'f> {
    /// The field that was classified.
    pub open spec fn field(self) -> Field {
        match self {
            FieldVariant::Skipped(field) => *field,
            FieldVariant::Compute(FieldToCompute::ReaderId(field)) => *field,
            FieldVariant::PhantomData { field, .. } => *field,
            FieldVariant::Passthrough { field, .. } => *field,
        }
    }

    /// Whether the descriptor holds the field.
    pub open spec fn in_descriptor(self) -> bool {
        self is PhantomData || self is Passthrough
    }

    /// The position in the descriptor of a field that the descriptor holds.
    pub open spec fn descriptor_index(self) -> Option<usize> {
        match self {
            FieldVariant::PhantomData { system_desc_field_index, .. } => Some(
                system_desc_field_index,
            ),
            FieldVariant::Passthrough { system_desc_field_index, .. } => Some(
                system_desc_field_index,
            ),
            _ => None,
        }
    }
}

impl<'f> DescriptorFields<'f> {
    /// The fields in the order of the descriptor.
    pub open spec fn field_seq(self) -> Seq<&'f Field> {
        match self {
            DescriptorFields::Named(fields) => fields@,
            DescriptorFields::Unnamed(fields) => fields@,
            DescriptorFields::Unit => Seq::empty(),
        }
    }
}

/// The fields with their positions and classes.
pub open spec fn classified(fields: Seq<Field>) -> Seq<FieldMapping<'static>> {
    Seq::new(
        fields.len(),
        |i: int|
            FieldMapping { system_field_index: i as usize, field_variant: classify(fields, i) },
    )
}

/// The fields that the descriptor copies, in declaration order.
pub open spec fn descriptor_fields(fields: Seq<Field>) -> Seq<&'static Field>
    decreases fields.len(),
{
    if fields.len() == 0 {
        Seq::empty()
    } else {
        let rest = descriptor_fields(fields.drop_last());
        if copied(fields.last()) {
            rest.push(&fields.last())
        } else {
            rest
        }
    }
}

/// The shape of the descriptor: a unit where it copies no field, else the
/// shape of the system.
pub open spec fn descriptor_shape(fields: Seq<Field>, named: bool) -> DescriptorShape {
    if descriptor_fields(fields).len() == 0 {
        DescriptorShape::Unit
    } else if named {
        DescriptorShape::Named
    } else {
        DescriptorShape::Unnamed
    }
}

/// The three shapes a descriptor can have.
#[derive(Debug, Clone, Copy, PartialEq, Eq)]
pub enum DescriptorShape {
    Named,
    Unnamed,
    Unit,
}

impl<'f> DescriptorFields<'f> {
    /// The shape of the descriptor.
    pub open spec fn shape(self) -> DescriptorShape {
        match self {
            DescriptorFields::Named(_) => DescriptorShape::Named,
            DescriptorFields::Unnamed(_) => DescriptorShape::Unnamed,
            DescriptorFields::Unit => DescriptorShape::Unit,
        }
    }
}

/// The number of descriptor fields grows with the prefix and counts the
/// copied fields.
pub proof fn lemma_descriptor_fields_take(fields: Seq<Field>, end: int)
    requires
        0 <= end <= fields.len(),
    ensures
        descriptor_fields(fields.take(end)).len() == copied_before(fields, end),
        end < fields.len() ==> descriptor_fields(fields.take(end + 1)) == if copied(fields[end]) {
            descriptor_fields(fields.take(end)).push(&fields[end])
        } else {
            descriptor_fields(fields.take(end))
        },
    decreases end,
{
    if end > 0 {
        lemma_descriptor_fields_take(fields, end - 1);
    }
    if end < fields.len() {
        assert(fields.take(end + 1).drop_last() =~= fields.take(end));
    }
}

/// Whether one of the first `end` fields is copied to descriptor position
/// `position`.
pub open spec fn position_taken(fields: Seq<Field>, end: int, position: int) -> bool {
    exists|i: int|
        0 <= i < end && copied(fields[i]) && #[trigger] copied_before(fields, i) == position
}

/// The count of copied fields does not fall along the declaration, and rises
/// behind each copied field.
pub proof fn lemma_copied_before_rises(fields: Seq<Field>, i: int, j: int)
    requires
        0 <= i <= j,
    ensures
        copied_before(fields, i) <= copied_before(fields, j),
        i < j && copied(fields[i]) ==> copied_before(fields, i) < copied_before(fields, j),
    decreases j - i,
{
    if i < j {
        lemma_copied_before_rises(fields, i, j - 1);
    }
}

/// The count of copied fields among the first `end` fields rests on those
/// fields alone.
pub proof fn lemma_copied_before_of_prefix(fields: Seq<Field>, others: Seq<Field>, end: int)
    requires
        forall|k: int| 0 <= k < end ==> fields[k] == others[k],
    ensures
        copied_before(fields, end) == copied_before(others, end),
    decreases end,
{
    if end > 0 {
        lemma_copied_before_of_prefix(fields, others, end - 1);
    }
}

/// Classifying all fields but the last gives the classes of all fields but
/// the last.
pub proof fn lemma_classified_drop_last(fields: Seq<Field>)
    requires
        fields.len() > 0,
    ensures
        classified(fields.drop_last()) == classified(fields).drop_last(),
{
    let shorter = fields.drop_last();
    assert forall|i: int| 0 <= i < shorter.len() implies classified(shorter)[i] == classified(
        fields,
    )[i] by {
        lemma_copied_before_of_prefix(shorter, fields, i);
    }
}

/// No more fields are copied than there are.
pub proof fn lemma_copied_before_at_most(fields: Seq<Field>, end: int)
    requires
        0 <= end,
    ensures
        copied_before(fields, end) <= end,
    decreases end,
{
    if end > 0 {
        lemma_copied_before_at_most(fields, end - 1);
    }
}

/// Whether the field at `index`, if it is copied, stands in the descriptor of
/// the first `end` fields at the position that counts the copied fields before
/// it.
pub open spec fn stands_at_its_position(fields: Seq<Field>, end: int, index: int) -> bool {
    copied(fields[index]) ==> {
        let position = copied_before(fields, index) as int;
        &&& position < descriptor_fields(fields.take(end)).len()
        &&& *descriptor_fields(fields.take(end))[position] == fields[index]
    }
}

/// Among the first `end` fields, each copied field stands in the descriptor at
/// the position that counts the copied fields before it, and each position of
/// the descriptor is that of a copied field.
proof fn lemma_positions_of_prefix(fields: Seq<Field>, end: int)
    requires
        0 <= end <= fields.len(),
    ensures
        descriptor_fields(fields.take(end)).len() == copied_before(fields, end),
        forall|i: int| 0 <= i < end ==> #[trigger] stands_at_its_position(fields, end, i),
        forall|d: int|
            0 <= d < copied_before(fields, end) ==> #[trigger] position_taken(fields, end, d),
    decreases end,
{
    if end > 0 {
        let shorter = end - 1;
        lemma_positions_of_prefix(fields, shorter);
        lemma_descriptor_fields_take(fields, shorter);
        assert forall|i: int| 0 <= i < end implies #[trigger] stands_at_its_position(
            fields,
            end,
            i,
        ) by {
            if i < shorter {
                assert(stands_at_its_position(fields, shorter, i));
            }
        }
        assert forall|d: int| 0 <= d < copied_before(fields, end) implies #[trigger] position_taken(
            fields,
            end,
            d,
        ) by {
            if d < copied_before(fields, shorter) {
                assert(position_taken(fields, shorter, d));
            } else {
                assert(copied(fields[shorter]) && copied_before(fields, shorter) == d);
            }
        }
    } else {
        lemma_descriptor_fields_take(fields, 0);
    }
}

/// The descriptor positions are dense and follow the declaration.
///
/// Every field that is passed through or stands as a marker has a position in
/// the descriptor; skipped and computed fields have none. The position of a
/// copied field is the number of copied fields declared before it, so the
/// positions start at zero, rise with the declaration order, differ from field
/// to field, and leave no position below the descriptor's length unused. The
/// descriptor holds each copied field at its position.
pub proof fn lemma_descriptor_positions_dense(fields: Seq<Field>)
    ensures
        forall|i: int|
            0 <= i < fields.len() ==> (#[trigger] classified(
                fields,
            )[i]).field_variant.in_descriptor() == copied(fields[i]),
        forall|i: int|
            0 <= i < fields.len() && !copied(fields[i]) ==> (#[trigger] classified(
                fields,
            )[i]).field_variant.descriptor_index() is None,
        forall|i: int|
            0 <= i < fields.len() && copied(fields[i]) ==> {
                &&& (#[trigger] classified(fields)[i]).field_variant.descriptor_index() == Some(
                    copied_before(fields, i) as usize,
                )
                &&& copied_before(fields, i) < descriptor_fields(fields).len()
                &&& *descriptor_fields(fields)[copied_before(fields, i) as int] == fields[i]
            },
        forall|i: int, j: int|
            0 <= i < j < fields.len() && copied(fields[i]) && copied(fields[j])
                ==> #[trigger] copied_before(fields, i) < #[trigger] copied_before(fields, j),
        forall|d: int|
            0 <= d < descriptor_fields(fields).len() ==> #[trigger] position_taken(
                fields,
                fields.len() as int,
                d,
            ),
        copied_before(fields, 0) == 0,
        forall|i: int| 0 <= i ==> #[trigger] copied_before(fields, i) <= i,
        fields.len() <= usize::MAX ==> forall|i: int|
            0 <= i < fields.len() && copied(fields[i]) ==> (#[trigger] classified(
                fields,
            )[i]).field_variant.descriptor_index().unwrap() as int == copied_before(fields, i),
{
    let end = fields.len() as int;
    assert forall|i: int| 0 <= i implies #[trigger] copied_before(fields, i) <= i by {
        lemma_copied_before_rises(fields, 0, i);
        lemma_copied_before_at_most(fields, i);
    }
    lemma_positions_of_prefix(fields, end);
    assert(fields.take(end) =~= fields);
    assert forall|i: int| 0 <= i < fields.len() && copied(fields[i]) implies {
        &&& (#[trigger] classified(fields)[i]).field_variant.descriptor_index() == Some(
            copied_before(fields, i) as usize,
        )
        &&& copied_before(fields, i) < descriptor_fields(fields).len()
        &&& *descriptor_fields(fields)[copied_before(fields, i) as int] == fields[i]
    } by {
        assert(stands_at_its_position(fields, end, i));
    }
    assert forall|i: int, j: int|
        0 <= i < j < fields.len() && copied(fields[i]) && copied(
            fields[j],
        ) implies #[trigger] copied_before(fields, i) < #[trigger] copied_before(fields, j) by {
        lemma_copied_before_rises(fields, i, j);
    }
}

/// Classifies the fields of a structure and collects those that its
/// descriptor copies.
#[verifier::loop_isolation(false)]
pub fn system_desc_fields<'f>(ast: &'f DeriveInput) -> (result: SystemDescFields<'f>)
    ensures
        result.field_mappings@ == classified(ast.field_seq()),
        result.fields.field_seq() == descriptor_fields(ast.field_seq()),
        result.fields.shape() == descriptor_shape(ast.field_seq(), ast.named()),
{
    let fields: &'f Vec<Field> = match &ast.fields {
        Fields::Named(fields) => fields,
        Fields::Unnamed(fields) => fields,
        Fields::Unit => {
            return SystemDescFields::default();
        },
    };
    let mut field_mappings: Vec<FieldMapping<'f>> = Vec::new();
    let mut fields_to_copy: Vec<&'f Field> = Vec::new();
    let mut system_desc_field_index: usize = 0;
    let mut system_field_index: usize = 0;
    while system_field_index < fields.len()
        invariant
            system_field_index <= fields@.len(),
            system_desc_field_index == copied_before(fields@, system_field_index as int),
            system_desc_field_index <= system_field_index,
            field_mappings@.len() == system_field_index,
            forall|k: int|
                0 <= k < system_field_index ==> #[trigger] field_mappings@[k] == classified(
                    fields@,
                )[k],
            fields_to_copy@ == descriptor_fields(fields@.take(system_field_index as int)),
        decreases fields@.len() - system_field_index,
    {
        let field: &'f Field = &fields[system_field_index];
        proof {
            lemma_descriptor_fields_take(fields@, system_field_index as int);
        }
        let field_variant = if field.contains_tag("system_desc", "skip") {
            FieldVariant::Skipped(field)
        } else if field.contains_tag("system_desc", "event_channel_reader") {
            FieldVariant::Compute(FieldToCompute::ReaderId(field))
        } else if field.is_phantom_data() {
            let field_variant = FieldVariant::PhantomData { system_desc_field_index, field };
            system_desc_field_index += 1;
            fields_to_copy.push(field);
            field_variant
        } else {
            let field_variant = FieldVariant::Passthrough { system_desc_field_index, field };
            system_desc_field_index += 1;
            fields_to_copy.push(field);
            field_variant
        };
        field_mappings.push(FieldMapping { system_field_index, field_variant });
        system_field_index += 1;
    }
    assert(fields@.take(fields@.len() as int) =~= fields@);
    let fields = if fields_to_copy.is_empty() {
        DescriptorFields::Unit
    } else if ast.is_named() {
        DescriptorFields::Named(fields_to_copy)
    } else {
        DescriptorFields::Unnamed(fields_to_copy)
    };
    SystemDescFields { field_mappings, fields }
}

} // verus!
