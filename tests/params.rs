use render_shader::{ParamTable, ShaderParams};

type Mat = [[f32; 4]; 4];

fn diag(x: f32) -> Mat {
    let mut m = [[0.0; 4]; 4];
    for i in 0..4 {
        m[i][i] = x;
    }
    m
}

#[test]
fn new_params_start_from_the_given_matrix() {
    let p = ShaderParams::new([[0.0f32; 4]; 4], "grass".to_string());
    assert_eq!(p.projection, [[0.0; 4]; 4]);
    assert_eq!(p.view, [[0.0; 4]; 4]);
    assert_eq!(p.s_texture, "grass");
}

#[test]
fn set_projection_changes_only_the_projection() {
    let mut p = ShaderParams::new(diag(0.0), "grass".to_string());
    p.set_projection(diag(2.0));
    assert_eq!(p.projection, diag(2.0));
    assert_eq!(p.view, diag(0.0));
    assert_eq!(p.s_texture, "grass");
}

#[test]
fn set_view_changes_only_the_view() {
    let mut p = ShaderParams::new(diag(0.0), "grass".to_string());
    p.set_view(diag(3.0));
    assert_eq!(p.view, diag(3.0));
    assert_eq!(p.projection, diag(0.0));
    assert_eq!(p.s_texture, "grass");
}

#[test]
fn fill_params_writes_projection_view_then_texture() {
    let mut p = ShaderParams::new(diag(0.0), "stone".to_string());
    p.set_projection(diag(1.0));
    p.set_view(diag(5.0));
    let mut t: ParamTable<Mat, u32, String> = ParamTable::new();
    p.fill_params(&mut t);
    assert_eq!(t.uniforms, vec![diag(1.0), diag(5.0)]);
    assert!(t.blocks.is_empty());
    assert_eq!(t.textures, vec!["stone".to_string()]);
}

#[test]
fn fill_params_appends_to_what_is_there() {
    let p = ShaderParams::new(diag(4.0), "dirt".to_string());
    let mut t: ParamTable<Mat, u32, String> = ParamTable::new();
    t.uniforms.push(diag(9.0));
    t.blocks.push(7);
    t.textures.push("old".to_string());
    p.fill_params(&mut t);
    assert_eq!(t.uniforms, vec![diag(9.0), diag(4.0), diag(4.0)]);
    assert_eq!(t.blocks, vec![7]);
    assert_eq!(t.textures, vec!["old".to_string(), "dirt".to_string()]);
}

#[test]
fn snapshot_copies_the_current_params() {
    let mut p = ShaderParams::new(diag(0.0), "sand".to_string());
    p.set_projection(diag(6.0));
    let s = p.snapshot();
    p.set_view(diag(8.0));
    assert_eq!(s.projection, diag(6.0));
    assert_eq!(s.view, diag(0.0));
    assert_eq!(s.s_texture, "sand");
}
