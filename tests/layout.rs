use render_shader::{packed_layout, vertex_attributes, vertex_fields, AttributeFormat, VertexField};

// The renderer's vertex: three float arrays.
#[allow(dead_code)]
struct Packed {
    xyz: [f32; 3],
    uv: [f32; 2],
    rgb: [f32; 3],
}

fn field(name: &str, elem_count: u8) -> VertexField {
    VertexField { name: name.to_string(), elem_count }
}

#[test]
fn vertex_fields_are_position_tex_coord_color() {
    let f = vertex_fields();
    assert_eq!(f.len(), 3);
    assert_eq!(f[0].name, "position");
    assert_eq!(f[0].elem_count, 3);
    assert_eq!(f[1].name, "tex_coord");
    assert_eq!(f[1].elem_count, 2);
    assert_eq!(f[2].name, "color");
    assert_eq!(f[2].elem_count, 3);
}

#[test]
fn vertex_attributes_match_a_packed_float_vertex() {
    let a = vertex_attributes();
    assert_eq!(a.len(), 3);
    assert_eq!(a[0], AttributeFormat { name: "position".to_string(), elem_count: 3, offset: 0, stride: 32 });
    assert_eq!(a[1], AttributeFormat { name: "tex_coord".to_string(), elem_count: 2, offset: 12, stride: 32 });
    assert_eq!(a[2], AttributeFormat { name: "color".to_string(), elem_count: 3, offset: 20, stride: 32 });
}

#[test]
fn vertex_attributes_match_the_size_of_three_float_arrays() {
    let a = vertex_attributes();
    assert_eq!(a[2].stride as usize, std::mem::size_of::<Packed>());
}

#[test]
fn empty_layout_is_empty() {
    let r = packed_layout(&Vec::new()).unwrap();
    assert!(r.is_empty());
}

#[test]
fn layout_offsets_are_running_sums() {
    let fields = vec![field("a", 1), field("b", 4), field("c", 2)];
    let r = packed_layout(&fields).unwrap();
    let offsets: Vec<u32> = r.iter().map(|a| a.offset).collect();
    assert_eq!(offsets, vec![0, 4, 20]);
    assert!(r.iter().all(|a| a.stride == 28));
    assert_eq!(r[1].name, "b");
    assert_eq!(r[1].elem_count, 4);
}

#[test]
fn layout_attributes_touch_without_overlap() {
    let fields = vec![field("p", 3), field("n", 3), field("t", 2), field("w", 1)];
    let r = packed_layout(&fields).unwrap();
    for i in 0..r.len() {
        let end = r[i].offset + 4 * r[i].elem_count as u32;
        assert!(end <= r[i].stride as u32);
        if i + 1 < r.len() {
            assert_eq!(r[i + 1].offset, end);
        } else {
            assert_eq!(end, r[i].stride as u32);
        }
    }
}

#[test]
fn largest_layout_that_fits_a_stride() {
    let fields = vec![field("big", 63)];
    let r = packed_layout(&fields).unwrap();
    assert_eq!(r[0].stride, 252);
    assert_eq!(r[0].offset, 0);
}

#[test]
fn layout_too_large_for_a_stride_is_refused() {
    assert!(packed_layout(&vec![field("big", 63), field("one", 1)]).is_none());
    assert!(packed_layout(&vec![field("huge", 255)]).is_none());
}
