use basis::number::Number;
use basis::obj::{
    parse_obj, Vertice, VertexDataReference, VerticeNormal, VerticeParameterSpace, VerticeTexture,
};

fn f(n: &Number) -> f32 {
    n.literal.parse::<f32>().unwrap()
}

fn v4(v: &Vertice) -> (f32, f32, f32, f32) {
    (f(&v.x), f(&v.y), f(&v.z), f(&v.w))
}

fn vt3(v: &VerticeTexture) -> (f32, f32, f32) {
    (f(&v.u), f(&v.v), f(&v.w))
}

fn vn3(v: &VerticeNormal) -> (f32, f32, f32) {
    (f(&v.i), f(&v.j), f(&v.k))
}

fn vp3(v: &VerticeParameterSpace) -> (f32, f32, f32) {
    (f(&v.u), f(&v.v), f(&v.w))
}

#[test]
fn it_should_be_able_to_ignore_comments() {
    let file = "
            # This is a comment

            mtllib cube.mtl
            o cube39
            # v 0.232406 -1.216630 1.133818
            # v 0.232406 -0.745504 2.843098
            # testing
            # v -0.227475 -0.745504 2.843098
            # v -0.227475 -1.216630 1.133818
            # v 0.232407 1.119982 1.133819
            # v 0.232406 1.119982 1.602814
";

    let result = parse_obj(file).expect("This should work");

    assert_eq!(result.vertices.len(), 0);
    assert_eq!(result.vertices_texture.len(), 0);
    assert_eq!(result.vertices_normal.len(), 0);
    assert_eq!(result.vertices_parameter_space.len(), 0);
}

#[test]
fn it_should_be_able_parse_name() {
    let file = "
            # This is a comment

            mtllib cube.mtl
            o cube39
            v 0.232406 -1.216630 1.133818
            v 0.232406 -0.745504 2.843098
";

    let result = parse_obj(file).expect("This should work");

    assert_eq!(result.name, Some("cube39".to_string()));
}

#[test]
fn it_should_be_able_parse_mtllib() {
    let file = "
            # This is a comment

            mtllib cube.mtl testing.mtl
            o cube39
            v 0.232406 -1.216630 1.133818
            v 0.232406 -0.745504 2.843098
";

    let result = parse_obj(file).expect("This should work");

    assert_eq!(
        result.materials_names,
        vec!["cube.mtl".to_string(), "testing.mtl".to_string()]
    );
}

#[test]
fn it_should_store_vertices() {
    let file = "
            # This is a comment

            mtllib cube.mtl
            o cube39
            v      -5.000000       5.000000       0.000000
            v      -5.000000      -5.000000       0.000000
            v       5.000000      -5.000000       0.000000
            v       5.000000       5.000000       0.000000
            vt     -5.000000       5.000000       0.000000
            vt     -5.000000      -5.000000       0.000000
            vt      5.000000      -5.000000       0.000000
            vt      5.000000       5.000000       0.000000
            vn      0.000000       0.000000       1.000000
            vn      0.000000       0.000000       1.000000
            vn      0.000000       0.000000       1.000000
            vn      0.000000       0.000000       1.000000
            vp      0.210000       3.590000
            vp      0.000000       0.000000
            vp      1.000000       0.000000
            vp      0.500000       0.500000
";

    let result = parse_obj(file).expect("This should work");

    assert_eq!(result.vertices.len(), 4);
    assert_eq!(result.vertices_texture.len(), 4);
    assert_eq!(result.vertices_normal.len(), 4);
    assert_eq!(result.vertices_parameter_space.len(), 4);

    assert_eq!(v4(&result.vertices[0]), (-5.0, 5.0, 0.0, 1.0));
    assert_eq!(v4(&result.vertices[1]), (-5.0, -5.0, 0.0, 1.0));
    assert_eq!(v4(&result.vertices[2]), (5.0, -5.0, 0.0, 1.0));
    assert_eq!(v4(&result.vertices[3]), (5.0, 5.0, 0.0, 1.0));

    assert_eq!(vt3(&result.vertices_texture[0]), (-5.0, 5.0, 0.0));
    assert_eq!(vt3(&result.vertices_texture[1]), (-5.0, -5.0, 0.0));
    assert_eq!(vt3(&result.vertices_texture[2]), (5.0, -5.0, 0.0));
    assert_eq!(vt3(&result.vertices_texture[3]), (5.0, 5.0, 0.0));

    assert_eq!(vn3(&result.vertices_normal[0]), (0.0, 0.0, 1.0));
    assert_eq!(vn3(&result.vertices_normal[1]), (0.0, 0.0, 1.0));
    assert_eq!(vn3(&result.vertices_normal[2]), (0.0, 0.0, 1.0));
    assert_eq!(vn3(&result.vertices_normal[3]), (0.0, 0.0, 1.0));

    assert_eq!(vp3(&result.vertices_parameter_space[0]), (0.21, 3.59, 1.0));
    assert_eq!(vp3(&result.vertices_parameter_space[1]), (0.0, 0.0, 1.0));
    assert_eq!(vp3(&result.vertices_parameter_space[2]), (1.0, 0.0, 1.0));
    assert_eq!(vp3(&result.vertices_parameter_space[3]), (0.5, 0.5, 1.0));
}

#[test]
fn it_should_store_faces() {
    let file = "
            # This is a comment

            mtllib cube.mtl
            o cube39
            v      -5.000000       5.000000       0.000000
            vt     -5.000000       5.000000       0.000000
            vn      0.000000       0.000000       1.000000
            vp      0.210000       3.590000
            f 1/1/1 2/2/2 3/3/3 4/4/4
            f 1//1 2//2 3//3 4//4
";

    let result = parse_obj(file).expect("This should work");

    assert_eq!(result.faces[0].vertex_references[0], VertexDataReference::new(1, 1, 1));
    assert_eq!(result.faces[0].vertex_references[1], VertexDataReference::new(2, 2, 2));
    assert_eq!(result.faces[0].vertex_references[2], VertexDataReference::new(3, 3, 3));
    assert_eq!(result.faces[0].vertex_references[3], VertexDataReference::new(4, 4, 4));

    assert_eq!(result.faces[1].vertex_references[0], VertexDataReference::new(1, 0, 1));
    assert_eq!(result.faces[1].vertex_references[1], VertexDataReference::new(2, 0, 2));
    assert_eq!(result.faces[1].vertex_references[2], VertexDataReference::new(3, 0, 3));
    assert_eq!(result.faces[1].vertex_references[3], VertexDataReference::new(4, 0, 4));
}

#[test]
fn it_should_fail_to_store_faces() {
    let file = "
            # This is a comment

            mtllib cube.mtl
            o cube39
            v      -5.000000       5.000000       0.000000
            vt     -5.000000       5.000000       0.000000
            vn      0.000000       0.000000       1.000000
            vp      0.210000       3.590000
            f 1/1/1 2/2/2 3/3/3 4/4/4
            f 1//1 2//2 3//3 4//4
            f 1/1/1 2/2/2 3//3 4//4
";

    let result = parse_obj(file);

    assert!(result.is_err());
    assert!(result
        .unwrap_err()
        .to_string()
        .contains("Illegal to give vertex texture for some vertices, but not all"));
}

#[test]
fn it_should_store_face_with_materials() {
    let file = "
            # This is a comment

            mtllib cube.mtl
            o cube39
            v      -5.000000       5.000000       0.000000
            vt     -5.000000       5.000000       0.000000
            vn      0.000000       0.000000       1.000000
            vp      0.210000       3.590000
            usemtl 4bed15
            f 1/4/1 2/3/2 3/2/3 4/1/4 
            usemtl 2daec2
            f 2/8/2 5/7/5 6/6/6 3/5/3 
            f 5/12/5 7/11/7 8/10/8 6/9/6 
            f 4/24/4 3/23/3 6/22/6 8/21/8 
            usemtl 4602e3
            f 7/16/7 1/15/1 4/14/4 8/13/8 
            usemtl c41dde
            f 7/20/7 5/19/5 2/18/2 1/17/1 
";

    let result = parse_obj(file).expect("This should work");

    assert_eq!(result.faces.len(), 6);
    assert_eq!(result.faces[0].material_name, Some("4bed15".to_string()));
    assert_eq!(result.faces[1].material_name, Some("2daec2".to_string()));
    assert_eq!(result.faces[2].material_name, None);
    assert_eq!(result.faces[3].material_name, None);
    assert_eq!(result.faces[4].material_name, Some("4602e3".to_string()));
    assert_eq!(result.faces[5].material_name, Some("c41dde".to_string()));
}
