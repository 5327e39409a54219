use basis::ear_clipping;
use basis::fan::triangulate;
use basis::mtl::{parse_mtl, IlluminationModel, Material, MTL};
use basis::number::{in_unit_range_text, is_float_text, parse_index};
use basis::obj::{
    library_path, parse_face, parse_obj, parse_smoothing_group, parse_vertice,
    triangulate_polygons, CornerSource, ParseError, VertexDataReference,
};

fn chars(s: &str) -> Vec<char> {
    s.chars().collect()
}

fn tokens(s: &str) -> Vec<Vec<char>> {
    s.split(' ').filter(|t| !t.is_empty()).map(chars).collect()
}

fn r(v: usize, vt: usize, vn: usize) -> VertexDataReference {
    VertexDataReference::new(v, vt, vn)
}

#[test]
fn quad_fans_into_two_triangles() {
    let quad = vec![r(1, 0, 0), r(2, 0, 0), r(3, 0, 0), r(4, 0, 0)];
    let t = triangulate(&quad);
    assert_eq!(t, vec![r(1, 0, 0), r(2, 0, 0), r(3, 0, 0), r(1, 0, 0), r(3, 0, 0), r(4, 0, 0)]);
}

#[test]
fn triangle_is_left_as_is() {
    let tri = vec![r(7, 1, 2), r(8, 3, 4), r(9, 5, 6)];
    assert_eq!(triangulate(&tri), tri);
}

#[test]
fn pentagon_fans_into_three_triangles() {
    let p: Vec<_> = (1..=5).map(|i| r(i, 0, 0)).collect();
    let t = triangulate(&p);
    assert_eq!(t.len(), 9);
    assert_eq!(t[6..9].to_vec(), vec![r(1, 0, 0), r(4, 0, 0), r(5, 0, 0)]);
}

#[test]
fn ear_clipping_is_not_provided() {
    let quad = vec![r(1, 0, 0), r(2, 0, 0), r(3, 0, 0), r(4, 0, 0)];
    assert!(ear_clipping::triangulate(&quad).is_none());
}

#[test]
fn triangulating_an_obj_replaces_quads() {
    let mut obj = parse_obj("usemtl red\nf 1 2 3 4\nf 1 2 3").unwrap();
    triangulate_polygons(&mut obj);
    assert_eq!(obj.faces[0].vertex_references.len(), 6);
    assert_eq!(obj.faces[1].vertex_references.len(), 3);
    assert_eq!(obj.faces[0].material_name, Some("red".to_string()));
    assert_eq!(obj.get_raw_indices(), vec![0, 1, 2, 0, 2, 3, 0, 1, 2]);
}

#[test]
fn usemtl_names_only_the_next_face() {
    let obj = parse_obj("usemtl stone\nf 1 2 3\nf 1 2 3\nusemtl wood\n# note\nf 1 2 3").unwrap();
    assert_eq!(obj.faces[0].material_name, Some("stone".to_string()));
    assert_eq!(obj.faces[1].material_name, None);
    assert_eq!(obj.faces[2].material_name, None);
}

#[test]
fn face_before_any_usemtl_has_no_material_name() {
    let line = chars("v 1 2 3");
    let f = parse_face(&tokens("1 2 3"), Some(&line), 2).unwrap();
    assert_eq!(f.material_name, None);
    let prev = chars("usemtl  gold");
    let g = parse_face(&tokens("1 2 3"), Some(&prev), 2).unwrap();
    assert_eq!(g.material_name, Some("gold".to_string()));
}

#[test]
fn comments_do_not_change_counts() {
    let plain = parse_obj("v 1 2 3\nv 4 5 6\nf 1 2 2").unwrap();
    let commented = parse_obj("# a\nv 1 2 3\n#b c\nv 4 5 6\n# d\nf 1 2 2\n#").unwrap();
    assert_eq!(plain.vertices.len(), commented.vertices.len());
    assert_eq!(plain.faces.len(), commented.faces.len());
}

#[test]
fn vertex_keeps_its_literals_and_defaults_w() {
    let v = parse_vertice(&tokens("0.25 -1e3 7"), 1).unwrap();
    assert_eq!(v.x.literal, "0.25");
    assert_eq!(v.y.literal, "-1e3");
    assert_eq!(v.z.literal, "7");
    assert_eq!(v.w.literal, "1.0");
}

#[test]
fn texture_and_parameter_defaults() {
    let obj = parse_obj("vt 0.5\nvp 0.1 0.2").unwrap();
    assert_eq!(obj.vertices_texture[0].v.literal, "0.0");
    assert_eq!(obj.vertices_texture[0].w.literal, "0.0");
    assert_eq!(obj.vertices_parameter_space[0].w.literal, "1.0");
}

#[test]
fn vertex_errors() {
    let e = parse_obj("v 1 2").unwrap_err();
    assert!(matches!(e, ParseError::InvalidVertex(1, _)));
    let e = parse_obj("v 1 2 3\nvt x").unwrap_err();
    assert!(matches!(e, ParseError::InvalidVertexTexture(2, _)));
    let e = parse_obj("vn 1 2").unwrap_err();
    assert!(matches!(e, ParseError::InvalidVertexNormal(1, _)));
    let e = parse_obj("vp 1").unwrap_err();
    assert!(matches!(e, ParseError::InvalidVertexParameterSpace(1, _)));
    assert_eq!(
        parse_obj("\n\n  v 1 2\n").unwrap_err().to_string(),
        "Invalid vertex at line 1: Error"
    );
}

#[test]
fn face_errors() {
    let e = parse_obj("f 1 2 x").unwrap_err();
    assert!(matches!(e, ParseError::InvalidFaceSide(1, _)));
    let e = parse_obj("f 1/1/1 2/2/2 3//3").unwrap_err();
    assert!(e
        .to_string()
        .contains("Illegal to give vertex texture for some vertices, but not all"));
    let e = parse_obj("f 1 2").unwrap_err();
    assert!(matches!(e, ParseError::InvalidFace(1, _)));
    let e = parse_obj("usemtl a b\nf 1 2 3").unwrap_err();
    assert!(matches!(e, ParseError::InvalidFaceMaterial(1, _)));
}

#[test]
fn face_corner_shapes() {
    let obj = parse_obj("f 1 2/5 +3/6/7").unwrap();
    assert_eq!(obj.faces[0].vertex_references, vec![r(1, 0, 0), r(2, 5, 0), r(3, 6, 7)]);
}

#[test]
fn unimplemented_and_unknown_statements() {
    let e = parse_obj("v 1 2 3\ns 1").unwrap_err();
    assert!(matches!(e, ParseError::NotImplemented(2, _)));
    assert_eq!(e.to_string(), "Not implemented at line 2: Statement not implemented: 's'");
    let e = parse_obj("bogus 1").unwrap_err();
    assert_eq!(e.to_string(), "Invalid token at line 1: Unknown token: 'bogus'");
}

#[test]
fn mtllib_lists_every_library() {
    let obj = parse_obj("mtllib cube.mtl testing.mtl").unwrap();
    assert_eq!(obj.materials_names, vec!["cube.mtl".to_string(), "testing.mtl".to_string()]);
    assert_eq!(obj.name, None);
}

#[test]
fn smoothing_group_tokens() {
    assert_eq!(parse_smoothing_group(&tokens(""), 1).unwrap(), 0);
    assert_eq!(parse_smoothing_group(&tokens("off"), 1).unwrap(), 0);
    assert_eq!(parse_smoothing_group(&tokens("12"), 1).unwrap(), 12);
    let e = parse_smoothing_group(&tokens("on"), 4).unwrap_err();
    assert!(matches!(e, ParseError::InvalidSmoothingGroup(4, _)));
}

#[test]
fn smoothing_group_query() {
    let mut obj = parse_obj("f 1 2 3\nf 2 3 4\nf 3 4 5").unwrap();
    obj.faces[0].smoothing_group = Some(1);
    obj.faces[2].smoothing_group = Some(1);
    let g = obj.get_smoothing_group_by_id(1);
    assert_eq!(g.id, 1);
    assert_eq!(g.faces.len(), 2);
    assert_eq!(g.faces[1].vertex_references[0], r(3, 0, 0));
    assert_eq!(obj.get_smoothing_group_by_id(2).faces.len(), 0);
}

#[test]
fn raw_indices_are_zero_based() {
    let obj = parse_obj("f 3 1 2\nf 0 5 9").unwrap();
    assert_eq!(obj.get_raw_indices(), vec![2, 0, 1, 0, 4, 8]);
}

#[test]
fn corner_sources_follow_references() {
    let obj = parse_obj("v 0 0 0\nv 1 0 0\nv 1 1 0\nf 1 2 3 9").unwrap();
    let s = obj.corner_sources();
    assert_eq!(s[0], CornerSource { position: Some(0), texture: Some(0) });
    assert_eq!(s[3], CornerSource { position: None, texture: None });

    let obj = parse_obj("v 0 0 0\nv 1 0 0\nv 1 1 0\nvt 0 0\nvt 1 0\nf 1/2 2 3").unwrap();
    let s = obj.corner_sources();
    assert_eq!(s[0], CornerSource { position: Some(0), texture: Some(1) });
    assert_eq!(s[1], CornerSource { position: Some(1), texture: Some(1) });
    assert_eq!(s[2], CornerSource { position: Some(2), texture: None });
}

#[test]
fn material_resolution_prefers_the_last_library() {
    let first = parse_mtl("newmtl Rock\nKa 0.1\nnewmtl Sand\nKa 0.3").unwrap();
    let second = parse_mtl("newmtl Rock\nKa 0.2").unwrap();
    let mut obj = parse_obj("usemtl Rock\nf 1 2 3\nusemtl Sand\nf 1 2 3\nf 1 2 3\nusemtl Mud\nf 1 2 3").unwrap();
    assert!(!obj.has_loaded_materials());
    assert!(obj.faces[0].is_partial());
    obj.load_mtls(vec![first, second]);
    assert!(obj.has_loaded_materials());
    let rock = obj.faces[0].material.as_ref().unwrap();
    assert_eq!(rock.ambient_reflectivity.r.literal, "0.2");
    let sand = obj.faces[1].material.as_ref().unwrap();
    assert_eq!(sand.ambient_reflectivity.g.literal, "0.3");
    assert!(obj.faces[2].material.is_none());
    assert!(obj.faces[3].material.is_none());
}

#[test]
fn repeated_material_name_overwrites() {
    let m = parse_mtl("newmtl Rock\nNs 1\nnewmtl Rock\nNs 2").unwrap();
    assert_eq!(m.len(), 1);
    assert_eq!(m.get("Rock").unwrap().specular_highlight_exponent.literal, "2");
}

#[test]
fn materials_do_not_leak_into_each_other() {
    let m = parse_mtl("newmtl A\nKa 0.2 0.5 0.1\nillum 3\nd -halo 0.5\nnewmtl B\nNs 4").unwrap();
    let b = m.get("B").unwrap();
    assert_eq!(b.ambient_reflectivity.r.literal, "0");
    assert_eq!(b.illumination_model, IlluminationModel::ColorOnAmbientOff);
    assert!(!b.dissolve_factor.halo);
    let a = m.get("A").unwrap();
    assert_eq!(a.illumination_model, IlluminationModel::ReflectionOnRayTraceOn);
    assert!(a.dissolve_factor.halo);
    assert_eq!(a.dissolve_factor.factor.literal, "0.5");
    assert!(m.get("C").is_none());
}

#[test]
fn empty_library_has_no_materials() {
    let m = parse_mtl("# nothing here\n").unwrap();
    assert_eq!(m.len(), 0);
    let e: MTL = MTL::new();
    assert_eq!(e.len(), 0);
    let named = Material::named("x".to_string());
    assert_eq!(named.optical_density.literal, "0");
}

#[test]
fn mtl_statement_errors() {
    let e = parse_mtl("newmtl A\nKa x").unwrap_err();
    assert_eq!(e.to_string(), "Invalid token at line 1: Invalid R value");
    let e = parse_mtl("newmtl A\nKa 1 y").unwrap_err();
    assert!(e.to_string().contains("Invalid G value"));
    let e = parse_mtl("newmtl A\nKa 1 2 z").unwrap_err();
    assert!(e.to_string().contains("Invalid B value"));
    let e = parse_mtl("newmtl A\nillum 11").unwrap_err();
    assert!(e.to_string().contains("Invalid 'illumn_#' value"));
    let e = parse_mtl("newmtl A\nd -halo").unwrap_err();
    assert!(e.to_string().contains("Invalid 'd' value"));
    let e = parse_mtl("newmtl A\nNs q").unwrap_err();
    assert!(e.to_string().contains("Invalid 'exponent' value"));
    let e = parse_mtl("newmtl A\nsharpness q").unwrap_err();
    assert!(e.to_string().contains("Invalid 'sharpness' value"));
    let e = parse_mtl("newmtl A\nNi q").unwrap_err();
    assert!(e.to_string().contains("Invalid 'Ni' value"));
    let e = parse_mtl("newmtl A\nKq 1").unwrap_err();
    assert!(e.to_string().contains("Unknown statement: 'Kq'"));
    let e = parse_mtl("newmtl").unwrap_err();
    assert!(e.to_string().contains("Missing material name"));
}

#[test]
fn optical_density_bounds() {
    for ok in ["0.001", "10", "10.0", "1e1", "1e-3", "0.01e-1", "+5", "100e-1", ".5"] {
        assert!(in_unit_range_text(&chars(ok)), "{ok}");
    }
    for bad in ["0.0009999", "10.0001", "-0.1", "11", "0", "-0", "1e2", "inf", "nan", "1e-99999999999999999999999"] {
        assert!(!in_unit_range_text(&chars(bad)), "{bad}");
    }
    let e = parse_mtl("newmtl A\nNi 10.5").unwrap_err();
    assert_eq!(e.to_string(), "Invalid value at line 1: 'Ni' value should range between 0.001 and 10");
}

#[test]
fn float_literal_grammar() {
    for ok in ["1", "-1.5", "+.5", "5.", "1e5", "1E-5", "2.5e+3", "inf", "-Infinity", "NaN"] {
        assert!(is_float_text(&chars(ok)), "{ok}");
        assert!(ok.parse::<f32>().is_ok());
    }
    for bad in ["", ".", "-", "e5", "1e", "1e+", "1.2.3", "0x10", "1_0", "infinit"] {
        assert!(!is_float_text(&chars(bad)), "{bad}");
        assert!(bad.parse::<f32>().is_err());
    }
}

#[test]
fn index_literal_grammar() {
    assert_eq!(parse_index(&chars("42")), Some(42));
    assert_eq!(parse_index(&chars("+7")), Some(7));
    assert_eq!(parse_index(&chars("0")), Some(0));
    assert_eq!(parse_index(&chars("")), None);
    assert_eq!(parse_index(&chars("+")), None);
    assert_eq!(parse_index(&chars("-1")), None);
    assert_eq!(parse_index(&chars("99999999999999999999999")), None);
}

#[test]
fn library_paths_sit_beside_the_obj_file() {
    assert_eq!(library_path("models/cube.obj", &"cube.mtl".to_string()), "models/cube.mtl");
    assert_eq!(library_path("cube.obj", &"cube.mtl".to_string()), "cube.mtl");
    assert_eq!(library_path("/a/b/c.obj", &"x.mtl".to_string()), "/a/b/x.mtl");
}

#[test]
fn illumination_codes() {
    let m = parse_mtl("newmtl A\nillum 0\nnewmtl B\nillum 10\nnewmtl C\nillum 2").unwrap();
    assert_eq!(m.get("A").unwrap().illumination_model, IlluminationModel::ColorOnAmbientOff);
    assert_eq!(m.get("B").unwrap().illumination_model, IlluminationModel::CastsShadows);
    assert_eq!(m.get("C").unwrap().illumination_model, IlluminationModel::HighlightOn);
}

#[test]
fn faces_are_equal_by_corners_alone() {
    let obj = parse_obj("usemtl a\nf 1 2 3\nusemtl b\nf 1 2 3\nf 1 2 4").unwrap();
    assert!(obj.faces[0] == obj.faces[1]);
    assert!(obj.faces[1] != obj.faces[2]);
}

#[test]
fn numbers_keep_their_text() {
    let n = basis::number::Number::parse("-2.50e1").unwrap();
    assert_eq!(n.literal, "-2.50e1");
    assert_eq!(n.literal.parse::<f32>().unwrap(), -25.0);
    assert!(basis::number::Number::parse("2,5").is_none());
}
