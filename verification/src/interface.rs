//! The interfaces between a program and its shaders, written down as tables.
//!
//! A descriptor set is described field by field; from the description comes
//! the table of its bindings, which is held against the layout that a shader
//! expects before the set is used. A pipeline interface is described in the
//! same way, and its fields are sorted by what they bind.

use crate::renderer::{DescriptorType, ShaderStageFlags};
use vstd::prelude::*;

verus! {

/// One field of a descriptor set: what it binds, to which stages, how many
/// descriptors, and the binding index if the field names one. A field that
/// names none is bound at its position among the fields.
#[derive(Clone, Copy, Debug, PartialEq, Eq, Structural)]
pub struct DescriptorField {
    pub descriptor_type: DescriptorType,
    pub stage_flags: ShaderStageFlags,
    pub count: usize,
    pub index: Option<u32>,
}

/// One binding of a descriptor set.
#[derive(Clone, Copy, Debug, PartialEq, Eq, Structural)]
pub struct DescriptorSetLayoutBinding {
    pub binding: u32,
    pub descriptor_type: DescriptorType,
    pub stage_flags: ShaderStageFlags,
    pub count: usize,
}

/// What is wrong with an interface.
#[derive(Clone, Copy, Debug, PartialEq, Eq, Structural)]
pub enum InterfaceError {
    /// Two fields are bound at this index.
    DuplicateBinding(u32),
    /// There are more fields than binding indices.
    TooManyFields,
    /// The shader expects a binding at this index, and there is none.
    MissingBinding(u32),
    /// The binding at this index is of another type than the shader expects.
    TypeMismatch(u32),
    /// The binding at this index holds fewer descriptors than the shader
    /// expects.
    CountMismatch(u32),
    /// The binding at this index is not visible to a stage that uses it.
    StageMismatch(u32),
    /// The field at this position is the second to bind what a pipeline has
    /// only one of.
    DuplicateField(usize),
}

/// The binding of the field at position `position`.
pub open spec fn binding_of(field: DescriptorField, position: int) -> DescriptorSetLayoutBinding {
    DescriptorSetLayoutBinding {
        binding: match field.index {
            Some(index) => index,
            None => position as u32,
        },
        descriptor_type: field.descriptor_type,
        stage_flags: field.stage_flags,
        count: field.count,
    }
}

/// The bindings of a sequence of fields, field by field.
pub open spec fn bindings_of(fields: Seq<DescriptorField>) -> Seq<DescriptorSetLayoutBinding> {
    Seq::new(fields.len(), |i: int| binding_of(fields[i], i))
}

/// Whether some binding of `bindings` has the index `index`.
pub open spec fn binds(bindings: Seq<DescriptorSetLayoutBinding>, index: u32) -> bool {
    exists|i: int| 0 <= i < bindings.len() && (#[trigger] bindings[i]).binding == index
}

/// Whether no two bindings share an index.
pub open spec fn distinct_bindings(bindings: Seq<DescriptorSetLayoutBinding>) -> bool {
    forall|i: int, j: int|
        0 <= i < j < bindings.len() ==> (#[trigger] bindings[i]).binding != (
        #[trigger] bindings[j]).binding
}

/// The position of the first binding of `bindings` with the index `index`,
/// or the length of `bindings` if there is none.
pub open spec fn position_of(bindings: Seq<DescriptorSetLayoutBinding>, index: u32) -> int
    decreases bindings.len(),
{
    if bindings.len() == 0 {
        0
    } else if bindings[0].binding == index {
        0
    } else {
        1 + position_of(bindings.drop_first(), index)
    }
}

/// What the position of an index says: it is the first position with that
/// index, or the length where no binding has it.
pub proof fn lemma_position_of(bindings: Seq<DescriptorSetLayoutBinding>, index: u32)
    ensures
        0 <= position_of(bindings, index) <= bindings.len(),
        position_of(bindings, index) < bindings.len() ==> bindings[position_of(
            bindings,
            index,
        )].binding == index,
        forall|i: int| 0 <= i < position_of(bindings, index) ==> (#[trigger] bindings[i]).binding != index,
        position_of(bindings, index) < bindings.len() <==> binds(bindings, index),
    decreases bindings.len(),
{
    if bindings.len() > 0 && bindings[0].binding != index {
        let rest = bindings.drop_first();
        lemma_position_of(rest, index);
        let at = position_of(bindings, index);
        assert forall|i: int| 0 <= i < at implies (#[trigger] bindings[i]).binding != index by {
            if i > 0 {
                assert(rest[i - 1] == bindings[i]);
            }
        }
        if at < bindings.len() {
            assert(rest[at - 1] == bindings[at]);
        }
        if binds(bindings, index) {
            let i = choose|i: int| 0 <= i < bindings.len() && (#[trigger] bindings[i]).binding == index;
            assert(rest[i - 1] == bindings[i]);
        }
    } else if bindings.len() > 0 {
        assert(bindings[0].binding == index);
    }
}

/// What is wrong with the field at position `position`, given the fields
/// before it: nothing, or that its position is beyond the binding indices,
/// or that an earlier field is bound at its index.
pub open spec fn field_fault(fields: Seq<DescriptorField>, position: int) -> Option<InterfaceError> {
    let binding = binding_of(fields[position], position).binding;
    if position > u32::MAX {
        Some(InterfaceError::TooManyFields)
    } else if binds(bindings_of(fields).take(position), binding) {
        Some(InterfaceError::DuplicateBinding(binding))
    } else {
        None
    }
}

/// What is wrong with the first of the first `upto` fields with which
/// something is wrong.
pub open spec fn first_fault(fields: Seq<DescriptorField>, upto: int) -> Option<InterfaceError>
    decreases upto,
{
    if upto <= 0 {
        None
    } else if first_fault(fields, upto - 1) is Some {
        first_fault(fields, upto - 1)
    } else {
        field_fault(fields, upto - 1)
    }
}

/// Once a field is at fault, the fault stays the first.
proof fn lemma_first_fault_stays(fields: Seq<DescriptorField>, at: int, upto: int)
    requires
        0 <= at < upto,
        first_fault(fields, at) is None,
        field_fault(fields, at) is Some,
    ensures
        first_fault(fields, upto) == field_fault(fields, at),
    decreases upto - at,
{
    if upto - 1 > at {
        lemma_first_fault_stays(fields, at, upto - 1);
    }
}

/// Fields without fault have bindings with distinct indices.
pub proof fn lemma_faultless_fields_are_distinct(fields: Seq<DescriptorField>, upto: int)
    requires
        0 <= upto <= fields.len(),
        first_fault(fields, upto) is None,
    ensures
        distinct_bindings(bindings_of(fields).take(upto)),
    decreases upto,
{
    if upto > 0 {
        lemma_faultless_fields_are_distinct(fields, upto - 1);
        let all = bindings_of(fields);
        let now = all.take(upto);
        let before = all.take(upto - 1);
        assert forall|i: int, j: int| 0 <= i < j < now.len() implies (#[trigger] now[i]).binding != (
        #[trigger] now[j]).binding by {
            if j < upto - 1 {
                assert(before[i] == now[i] && before[j] == now[j]);
            } else {
                assert(before[i] == now[i]);
                assert(field_fault(fields, upto - 1) is None);
            }
        }
    }
}

/// The table of bindings of a descriptor set, from the description of its
/// fields.
///
/// A field is bound at the index it names, or else at its position. Two
/// fields at one index are an error, reported for the later field; so is a
/// field whose position is beyond the binding indices.
pub fn descriptor_set_interface(fields: &[DescriptorField]) -> (result: Result<
    Vec<DescriptorSetLayoutBinding>,
    InterfaceError,
>)
    ensures
        match result {
            Ok(table) => first_fault(fields@, fields@.len() as int) is None && table@
                == bindings_of(fields@),
            Err(fault) => first_fault(fields@, fields@.len() as int) == Some(fault),
        },
{
    let mut table: Vec<DescriptorSetLayoutBinding> = Vec::new();
    let mut i: usize = 0;
    assert(bindings_of(fields@).take(0) =~= Seq::<DescriptorSetLayoutBinding>::empty());
    while i < fields.len()
        invariant
            i <= fields.len(),
            first_fault(fields@, i as int) is None,
            table@ == bindings_of(fields@).take(i as int),
        decreases fields.len() - i,
    {
        let field = fields[i];
        if i > u32::MAX as usize {
            proof {
                lemma_first_fault_stays(fields@, i as int, fields@.len() as int);
            }
            return Err(InterfaceError::TooManyFields);
        }
        let binding = match field.index {
            Some(index) => index,
            None => i as u32,
        };
        let mut k: usize = 0;
        while k < table.len()
            invariant
                k <= table.len(),
                i < fields.len(),
                i <= u32::MAX,
                first_fault(fields@, i as int) is None,
                table@ == bindings_of(fields@).take(i as int),
                binding == binding_of(fields@[i as int], i as int).binding,
                forall|j: int| 0 <= j < k ==> (#[trigger] table@[j]).binding != binding,
            decreases table.len() - k,
        {
            if table[k].binding == binding {
                proof {
                    assert(binds(table@, binding));
                    lemma_first_fault_stays(fields@, i as int, fields@.len() as int);
                }
                return Err(InterfaceError::DuplicateBinding(binding));
            }
            k = k + 1;
        }
        table.push(
            DescriptorSetLayoutBinding {
                binding,
                descriptor_type: field.descriptor_type,
                stage_flags: field.stage_flags,
                count: field.count,
            },
        );
        proof {
            assert(table@ =~= bindings_of(fields@).take(i + 1));
        }
        i = i + 1;
    }
    assert(bindings_of(fields@).take(i as int) =~= bindings_of(fields@));
    Ok(table)
}

/// What is wrong with the declared bindings where the shader expects
/// `expected`: there is no binding at its index, or the first binding at its
/// index is of another type, holds fewer descriptors, or is hidden from a
/// stage that uses it.
pub open spec fn binding_fault(
    declared: Seq<DescriptorSetLayoutBinding>,
    expected: DescriptorSetLayoutBinding,
) -> Option<InterfaceError> {
    let at = position_of(declared, expected.binding);
    if at >= declared.len() {
        Some(InterfaceError::MissingBinding(expected.binding))
    } else if declared[at].descriptor_type != expected.descriptor_type {
        Some(InterfaceError::TypeMismatch(expected.binding))
    } else if declared[at].count < expected.count {
        Some(InterfaceError::CountMismatch(expected.binding))
    } else if declared[at].stage_flags & expected.stage_flags != expected.stage_flags {
        Some(InterfaceError::StageMismatch(expected.binding))
    } else {
        None
    }
}

/// What is wrong with the declared bindings for the first of the first
/// `upto` expected bindings for which something is wrong.
pub open spec fn layout_fault(
    declared: Seq<DescriptorSetLayoutBinding>,
    expected: Seq<DescriptorSetLayoutBinding>,
    upto: int,
) -> Option<InterfaceError>
    decreases upto,
{
    if upto <= 0 {
        None
    } else if layout_fault(declared, expected, upto - 1) is Some {
        layout_fault(declared, expected, upto - 1)
    } else {
        binding_fault(declared, expected[upto - 1])
    }
}

/// Once an expected binding is at fault, the fault stays the first.
proof fn lemma_layout_fault_stays(
    declared: Seq<DescriptorSetLayoutBinding>,
    expected: Seq<DescriptorSetLayoutBinding>,
    at: int,
    upto: int,
)
    requires
        0 <= at < upto,
        layout_fault(declared, expected, at) is None,
        binding_fault(declared, expected[at]) is Some,
    ensures
        layout_fault(declared, expected, upto) == binding_fault(declared, expected[at]),
    decreases upto - at,
{
    if upto - 1 > at {
        lemma_layout_fault_stays(declared, expected, at, upto - 1);
    }
}

/// A layout is without fault exactly when every expected binding is.
pub proof fn lemma_layout_fault(
    declared: Seq<DescriptorSetLayoutBinding>,
    expected: Seq<DescriptorSetLayoutBinding>,
    upto: int,
)
    requires
        0 <= upto <= expected.len(),
    ensures
        layout_fault(declared, expected, upto) is None <==> forall|i: int|
            0 <= i < upto ==> binding_fault(declared, #[trigger] expected[i]) is None,
    decreases upto,
{
    if upto > 0 {
        lemma_layout_fault(declared, expected, upto - 1);
    }
}

/// Holds the bindings that a descriptor set declares against the layout that
/// a shader expects.
///
/// Every expected binding must be declared at its index, with the expected
/// type, with at least as many descriptors, and visible to every stage that
/// the shader uses it in. The answer is the fault of the first expected
/// binding that has one.
pub fn check_descriptor_set_layout(
    declared: &[DescriptorSetLayoutBinding],
    expected: &[DescriptorSetLayoutBinding],
) -> (result: Result<(), InterfaceError>)
    ensures
        result == match layout_fault(declared@, expected@, expected@.len() as int) {
            None => Ok::<(), InterfaceError>(()),
            Some(fault) => Err(fault),
        },
{
    let mut i: usize = 0;
    while i < expected.len()
        invariant
            i <= expected.len(),
            layout_fault(declared@, expected@, i as int) is None,
        decreases expected.len() - i,
    {
        let wanted = expected[i];
        let mut k: usize = 0;
        while k < declared.len() && declared[k].binding != wanted.binding
            invariant
                k <= declared.len(),
                forall|j: int| 0 <= j < k ==> (#[trigger] declared@[j]).binding != wanted.binding,
            decreases declared.len() - k,
        {
            k = k + 1;
        }
        proof {
            lemma_position_of(declared@, wanted.binding);
            if k < declared.len() {
                assert(declared@[k as int].binding == wanted.binding);
            }
            assert(position_of(declared@, wanted.binding) == k);
        }
        let fault = if k >= declared.len() {
            Some(InterfaceError::MissingBinding(wanted.binding))
        } else if !same_type(declared[k].descriptor_type, wanted.descriptor_type) {
            Some(InterfaceError::TypeMismatch(wanted.binding))
        } else if declared[k].count < wanted.count {
            Some(InterfaceError::CountMismatch(wanted.binding))
        } else if declared[k].stage_flags & wanted.stage_flags != wanted.stage_flags {
            Some(InterfaceError::StageMismatch(wanted.binding))
        } else {
            None
        };
        match fault {
            Some(fault) => {
                proof {
                    lemma_layout_fault_stays(declared@, expected@, i as int, expected@.len() as int);
                }
                return Err(fault);
            },
            None => {},
        }
        i = i + 1;
    }
    Ok(())
}

fn same_type(a: DescriptorType, b: DescriptorType) -> (same: bool)
    ensures
        same == (a == b),
{
    a == b
}

/// What a field of a pipeline interface binds.
#[derive(Clone, Copy, Debug, PartialEq, Eq, Structural)]
pub enum PipelineField {
    Framebuffer,
    DescriptorSet,
    DescriptorSetArray,
    Viewport,
    ViewportArray,
    Scissor,
    ScissorArray,
    VertexBuffer,
    VertexBufferArray,
    IndexBuffer,
}

/// The groups into which the fields of a pipeline interface fall.
#[derive(Clone, Copy, Debug, PartialEq, Eq, Structural)]
pub enum FieldGroup {
    Framebuffer,
    DescriptorSets,
    Viewports,
    Scissors,
    VertexBuffers,
    IndexBuffer,
}

/// The group of a field: a field that binds an array falls into the group of
/// the fields that bind one.
pub open spec fn group_of(field: PipelineField) -> FieldGroup {
    match field {
        PipelineField::Framebuffer => FieldGroup::Framebuffer,
        PipelineField::DescriptorSet => FieldGroup::DescriptorSets,
        PipelineField::DescriptorSetArray => FieldGroup::DescriptorSets,
        PipelineField::Viewport => FieldGroup::Viewports,
        PipelineField::ViewportArray => FieldGroup::Viewports,
        PipelineField::Scissor => FieldGroup::Scissors,
        PipelineField::ScissorArray => FieldGroup::Scissors,
        PipelineField::VertexBuffer => FieldGroup::VertexBuffers,
        PipelineField::VertexBufferArray => FieldGroup::VertexBuffers,
        PipelineField::IndexBuffer => FieldGroup::IndexBuffer,
    }
}

/// Whether a pipeline has only one of what the group binds.
pub open spec fn is_single(group: FieldGroup) -> bool {
    group == FieldGroup::Framebuffer || group == FieldGroup::IndexBuffer
}

/// The positions, among the first `upto` fields, of the fields of `group`,
/// in ascending order.
pub open spec fn positions(fields: Seq<PipelineField>, group: FieldGroup, upto: int) -> Seq<int>
    decreases upto,
{
    if upto <= 0 {
        Seq::empty()
    } else if group_of(fields[upto - 1]) == group {
        positions(fields, group, upto - 1).push(upto - 1)
    } else {
        positions(fields, group, upto - 1)
    }
}

/// The only position of a group that has at most one, if it has one.
pub open spec fn single(found: Seq<int>) -> Option<int> {
    if found.len() == 0 {
        None
    } else {
        Some(found[0])
    }
}

/// A list of positions as numbers.
pub open spec fn places(list: Seq<usize>) -> Seq<int> {
    list.map_values(|position: usize| position as int)
}

/// A position, if there is one, as a number.
pub open spec fn place(found: Option<usize>) -> Option<int> {
    match found {
        Some(position) => Some(position as int),
        None => None,
    }
}

/// The position of the first of the first `upto` fields with which something
/// is wrong: it is the second field of a group of which a pipeline has only
/// one.
pub open spec fn pipeline_fault(fields: Seq<PipelineField>, upto: int) -> Option<int>
    decreases upto,
{
    if upto <= 0 {
        None
    } else if pipeline_fault(fields, upto - 1) is Some {
        pipeline_fault(fields, upto - 1)
    } else if is_single(group_of(fields[upto - 1])) && positions(
        fields,
        group_of(fields[upto - 1]),
        upto - 1,
    ).len() > 0 {
        Some(upto - 1)
    } else {
        None
    }
}

/// Once a field is at fault, the fault stays the first.
proof fn lemma_pipeline_fault_stays(fields: Seq<PipelineField>, at: int, upto: int)
    requires
        0 <= at < upto,
        pipeline_fault(fields, at) is None,
        pipeline_fault(fields, at + 1) is Some,
    ensures
        pipeline_fault(fields, upto) == pipeline_fault(fields, at + 1),
    decreases upto - at,
{
    if upto - 1 > at {
        lemma_pipeline_fault_stays(fields, at, upto - 1);
    }
}

/// The fields of a pipeline interface, sorted by what they bind. Each list
/// holds the positions of its fields in the order of the fields.
#[derive(Debug)]
pub struct PipelineInterfaceLayout {
    pub framebuffer: Option<usize>,
    pub descriptor_sets: Vec<usize>,
    pub viewports: Vec<usize>,
    pub scissors: Vec<usize>,
    pub vertex_buffers: Vec<usize>,
    pub index_buffer: Option<usize>,
}

impl PipelineInterfaceLayout {
    /// Whether the layout is that of the first `upto` fields of `fields`.
    pub open spec fn describes(&self, fields: Seq<PipelineField>, upto: int) -> bool {
        &&& place(self.framebuffer) == single(positions(fields, FieldGroup::Framebuffer, upto))
        &&& places(self.descriptor_sets@) == positions(fields, FieldGroup::DescriptorSets, upto)
        &&& places(self.viewports@) == positions(fields, FieldGroup::Viewports, upto)
        &&& places(self.scissors@) == positions(fields, FieldGroup::Scissors, upto)
        &&& places(self.vertex_buffers@) == positions(fields, FieldGroup::VertexBuffers, upto)
        &&& place(self.index_buffer) == single(positions(fields, FieldGroup::IndexBuffer, upto))
    }
}

/// Sorts the fields of a pipeline interface by what they bind.
///
/// A pipeline has one framebuffer and one index buffer: a second field for
/// either is an error, reported for that field.
pub fn pipeline_interface(fields: &[PipelineField]) -> (result: Result<
    PipelineInterfaceLayout,
    InterfaceError,
>)
    ensures
        match result {
            Ok(layout) => pipeline_fault(fields@, fields@.len() as int) is None && layout.describes(
                fields@,
                fields@.len() as int,
            ),
            Err(fault) => fault is DuplicateField && pipeline_fault(fields@, fields@.len() as int)
                == Some(fault->DuplicateField_0 as int),
        },
{
    let mut layout = PipelineInterfaceLayout {
        framebuffer: None,
        descriptor_sets: Vec::new(),
        viewports: Vec::new(),
        scissors: Vec::new(),
        vertex_buffers: Vec::new(),
        index_buffer: None,
    };
    let mut i: usize = 0;
    proof {
        assert(places(layout.descriptor_sets@) =~= Seq::<int>::empty());
        assert(places(layout.viewports@) =~= Seq::<int>::empty());
        assert(places(layout.scissors@) =~= Seq::<int>::empty());
        assert(places(layout.vertex_buffers@) =~= Seq::<int>::empty());
    }
    while i < fields.len()
        invariant
            i <= fields.len(),
            pipeline_fault(fields@, i as int) is None,
            layout.describes(fields@, i as int),
            positions(fields@, FieldGroup::Framebuffer, i as int).len() <= 1,
            positions(fields@, FieldGroup::IndexBuffer, i as int).len() <= 1,
        decreases fields.len() - i,
    {
        match fields[i] {
            PipelineField::Framebuffer => {
                if layout.framebuffer.is_some() {
                    proof {
                        lemma_pipeline_fault_stays(fields@, i as int, fields@.len() as int);
                    }
                    return Err(InterfaceError::DuplicateField(i));
                }
                layout.framebuffer = Some(i);
            },
            PipelineField::DescriptorSet | PipelineField::DescriptorSetArray => {
                layout.descriptor_sets.push(i);
            },
            PipelineField::Viewport | PipelineField::ViewportArray => {
                layout.viewports.push(i);
            },
            PipelineField::Scissor | PipelineField::ScissorArray => {
                layout.scissors.push(i);
            },
            PipelineField::VertexBuffer | PipelineField::VertexBufferArray => {
                layout.vertex_buffers.push(i);
            },
            PipelineField::IndexBuffer => {
                if layout.index_buffer.is_some() {
                    proof {
                        lemma_pipeline_fault_stays(fields@, i as int, fields@.len() as int);
                    }
                    return Err(InterfaceError::DuplicateField(i));
                }
                layout.index_buffer = Some(i);
            },
        }
        proof {
            assert(places(layout.descriptor_sets@) =~= positions(
                fields@,
                FieldGroup::DescriptorSets,
                i + 1,
            ));
            assert(places(layout.viewports@) =~= positions(fields@, FieldGroup::Viewports, i + 1));
            assert(places(layout.scissors@) =~= positions(fields@, FieldGroup::Scissors, i + 1));
            assert(places(layout.vertex_buffers@) =~= positions(
                fields@,
                FieldGroup::VertexBuffers,
                i + 1,
            ));
        }
        i = i + 1;
    }
    Ok(layout)
}

} // verus!
