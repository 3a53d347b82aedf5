//! Packed vertex layouts: each vertex field is a run of 32-bit floats, laid out
//! one after another with no padding, and the stride is the whole vertex.
use vstd::prelude::*;

verus! {

/// Size in bytes of one element of a vertex field (a 32-bit float).
pub const ELEM_SIZE: u32 = 4;

/// A field of a vertex: the name the shader knows it by and how many floats it holds.
#[derive(Debug, Clone)]
pub struct VertexField {
    pub name: String,
    pub elem_count: u8,
}

/// Where the shader finds one vertex attribute inside a vertex buffer.
#[derive(Debug, Clone, PartialEq, Eq)]
pub struct AttributeFormat {
    pub name: String,
    pub elem_count: u8,
    /// Byte offset of the attribute from the start of its vertex.
    pub offset: u32,
    /// Byte distance between two consecutive vertices.
    pub stride: u8,
}

/// Bytes taken by one field.
pub open spec fn field_size(f: VertexField) -> int {
    ELEM_SIZE as int * f.elem_count as int
}

/// Bytes taken by a sequence of fields placed end to end.
pub open spec fn packed_size(fields: Seq<VertexField>) -> int
    decreases fields.len(),
{
    if fields.len() == 0 {
        0
    } else {
        packed_size(fields.drop_last()) + field_size(fields.last())
    }
}

/// Offset of field `i`: the bytes of all the fields before it.
pub open spec fn field_offset(fields: Seq<VertexField>, i: int) -> int {
    packed_size(fields.take(i))
}

/// The packed layout of `fields`, attribute by attribute.
pub open spec fn is_packed_layout(fields: Seq<VertexField>, attrs: Seq<AttributeFormat>) -> bool {
    &&& attrs.len() == fields.len()
    &&& forall|i: int|
        0 <= i < attrs.len() ==> {
            &&& (#[trigger] attrs[i]).name@ == fields[i].name@
            &&& attrs[i].elem_count == fields[i].elem_count
            &&& attrs[i].offset == field_offset(fields, i)
            &&& attrs[i].stride == packed_size(fields)
        }
}

/// The largest stride an attribute format can record.
pub open spec fn max_stride() -> int {
    u8::MAX as int
}

proof fn lemma_packed_size_nonneg(fields: Seq<VertexField>)
    ensures
        packed_size(fields) >= 0,
    decreases fields.len(),
{
    if fields.len() > 0 {
        lemma_packed_size_nonneg(fields.drop_last());
    }
}

/// A prefix of the fields never takes more bytes than all of them.
pub proof fn lemma_prefix_size_le(fields: Seq<VertexField>, i: int)
    requires
        0 <= i <= fields.len(),
    ensures
        0 <= packed_size(fields.take(i)) <= packed_size(fields),
    decreases fields.len(),
{
    lemma_packed_size_nonneg(fields.take(i));
    if i < fields.len() {
        assert(fields.drop_last().take(i) =~= fields.take(i));
        lemma_prefix_size_le(fields.drop_last(), i);
    } else {
        assert(fields.take(i) =~= fields);
    }
}

/// In a packed layout each attribute lies wholly inside one vertex, and each
/// attribute begins exactly where the one before it ends: no gaps, no overlaps.
pub proof fn lemma_packed_layout_contiguous(
    fields: Seq<VertexField>,
    attrs: Seq<AttributeFormat>,
    i: int,
)
    requires
        is_packed_layout(fields, attrs),
        0 <= i < attrs.len(),
    ensures
        0 <= attrs[i].offset,
        attrs[i].offset + field_size(fields[i]) <= attrs[i].stride,
        i + 1 < attrs.len() ==> attrs[i + 1].offset == attrs[i].offset + field_size(fields[i]),
{
    assert(fields.take(i + 1).drop_last() =~= fields.take(i));
    assert(fields.take(i + 1).last() == fields[i]);
    lemma_prefix_size_le(fields, i + 1);
}

/// Lays the fields out one after another, in order. Returns `None` exactly
/// when the whole vertex is too large for a stride to record.
pub fn packed_layout(fields: &Vec<VertexField>) -> (r: Option<Vec<AttributeFormat>>)
    ensures
        r is None <==> packed_size(fields@) > max_stride(),
        r matches Some(attrs) ==> is_packed_layout(fields@, attrs@),
{
    let n = fields.len();
    let mut offset: u32 = 0;
    let mut i: usize = 0;
    while i < n
        invariant
            n == fields@.len(),
            0 <= i <= n,
            offset == packed_size(fields@.take(i as int)),
            offset <= max_stride(),
        decreases n - i,
    {
        assert(fields@.take(i as int + 1).drop_last() =~= fields@.take(i as int));
        let next = offset as u64 + ELEM_SIZE as u64 * fields[i].elem_count as u64;
        if next > u8::MAX as u64 {
            proof {
                lemma_prefix_size_le(fields@, i as int + 1);
            }
            return None;
        }
        offset = next as u32;
        i = i + 1;
    }
    assert(fields@.take(n as int) =~= fields@);
    let stride = offset as u8;
    let mut attrs: Vec<AttributeFormat> = Vec::with_capacity(n);
    let mut offset: u32 = 0;
    let mut j: usize = 0;
    while j < n
        invariant
            n == fields@.len(),
            0 <= j <= n,
            stride == packed_size(fields@),
            offset == packed_size(fields@.take(j as int)),
            attrs@.len() == j,
            forall|k: int|
                0 <= k < j ==> {
                    &&& (#[trigger] attrs@[k]).name@ == fields@[k].name@
                    &&& attrs@[k].elem_count == fields@[k].elem_count
                    &&& attrs@[k].offset == field_offset(fields@, k)
                    &&& attrs@[k].stride == packed_size(fields@)
                },
        decreases n - j,
    {
        assert(fields@.take(j as int + 1).drop_last() =~= fields@.take(j as int));
        proof {
            lemma_prefix_size_le(fields@, j as int + 1);
        }
        let field = &fields[j];
        attrs.push(
            AttributeFormat {
                name: field.name.clone(),
                elem_count: field.elem_count,
                offset,
                stride,
            },
        );
        offset = offset + ELEM_SIZE * field.elem_count as u32;
        j = j + 1;
    }
    Some(attrs)
}

/// The fields of the renderer's vertex, as the vertex shader names them:
/// a position (3 floats), a texture coordinate (2 floats) and a color (3 floats).
pub fn vertex_fields() -> (r: Vec<VertexField>)
    ensures
        r@.len() == 3,
        r@[0].name@ == "position"@,
        r@[0].elem_count == 3,
        r@[1].name@ == "tex_coord"@,
        r@[1].elem_count == 2,
        r@[2].name@ == "color"@,
        r@[2].elem_count == 3,
{
    let mut r: Vec<VertexField> = Vec::with_capacity(3);
    r.push(VertexField { name: "position".to_owned(), elem_count: 3 });
    r.push(VertexField { name: "tex_coord".to_owned(), elem_count: 2 });
    r.push(VertexField { name: "color".to_owned(), elem_count: 3 });
    r
}

/// The attribute formats of the renderer's vertex: position at byte 0,
/// texture coordinate at byte 12, color at byte 20, and a stride of 32 bytes.
pub fn vertex_attributes() -> (r: Vec<AttributeFormat>)
    ensures
        r@.len() == 3,
        r@[0].name@ == "position"@,
        r@[0].elem_count == 3,
        r@[0].offset == 0,
        r@[1].name@ == "tex_coord"@,
        r@[1].elem_count == 2,
        r@[1].offset == 12,
        r@[2].name@ == "color"@,
        r@[2].elem_count == 3,
        r@[2].offset == 20,
        forall|i: int| 0 <= i < 3 ==> (#[trigger] r@[i]).stride == 32,
{
    let fields = vertex_fields();
    let ghost f = fields@;
    proof {
        reveal_with_fuel(packed_size, 4);
        assert(f.take(0) =~= Seq::<VertexField>::empty());
        assert(f.take(1).drop_last() =~= f.take(0));
        assert(f.take(2).drop_last() =~= f.take(1));
        assert(f.take(3) =~= f);
        assert(f.drop_last() =~= f.take(2));
        assert(packed_size(f) == 32);
        assert(field_offset(f, 1) == 12);
        assert(field_offset(f, 2) == 20);
    }
    packed_layout(&fields).unwrap()
}

} // verus!
