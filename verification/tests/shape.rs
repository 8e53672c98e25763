use chronos::components::shape::Shape;
use glam::Vec3;

#[test]
fn test_new_with_vertices() {
    let vertices = vec![
        Vec3::new(0.0, 0.0, 0.0),
        Vec3::new(1.0, 0.0, 0.0),
        Vec3::new(0.0, 1.0, 0.0),
    ];
    let shape = Shape::new(vertices.clone());
    assert_eq!(shape.get_vertices().len(), 3);
    assert_eq!(shape.get_vertices(), &vertices);
}

#[test]
fn test_new_triangle() {
    let v1 = Vec3::new(0.0, 0.0, 0.0);
    let v2 = Vec3::new(1.0, 0.0, 0.0);
    let v3 = Vec3::new(0.0, 1.0, 0.0);
    let triangle = Shape::new_triangle(v1, v2, v3);

    assert_eq!(triangle.get_vertices().len(), 3);
    assert_eq!(triangle.get_vertices()[0], v1);
    assert_eq!(triangle.get_vertices()[1], v2);
    assert_eq!(triangle.get_vertices()[2], v3);
}

#[test]
fn test_new_rectangle() {
    let v1 = Vec3::new(0.0, 0.0, 0.0);
    let v2 = Vec3::new(1.0, 0.0, 0.0);
    let v3 = Vec3::new(1.0, 1.0, 0.0);
    let v4 = Vec3::new(0.0, 1.0, 0.0);
    let rectangle = Shape::new_rectangle(v1, v2, v3, v4);

    assert_eq!(rectangle.get_vertices().len(), 4);
    assert_eq!(rectangle.get_vertices()[0], v1);
    assert_eq!(rectangle.get_vertices()[1], v2);
    assert_eq!(rectangle.get_vertices()[2], v3);
    assert_eq!(rectangle.get_vertices()[3], v4);
}

#[test]
fn test_get_vertices() {
    let vertices = vec![Vec3::new(1.0, 2.0, 3.0)];
    let shape = Shape::new(vertices.clone());
    let returned_vertices = shape.get_vertices();

    assert_eq!(returned_vertices, &vertices);
}

#[test]
fn shape_without_vertices() {
    let shape = Shape::new(Vec::new());
    assert!(shape.get_vertices().is_empty());
}

#[test]
fn equal_vertices_make_equal_shapes() {
    let v1 = Vec3::new(0.0, 0.0, 0.0);
    let v2 = Vec3::new(1.0, 0.0, 0.0);
    let v3 = Vec3::new(0.0, 1.0, 0.0);
    assert_eq!(Shape::new_triangle(v1, v2, v3), Shape::new(vec![v1, v2, v3]));
    assert_ne!(Shape::new_triangle(v1, v2, v3), Shape::new(vec![v3, v2, v1]));
    assert_eq!(Shape::new_triangle(v1, v2, v3).clone(), Shape::new_triangle(v1, v2, v3));
}
