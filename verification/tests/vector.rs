use toniowm::Vector2D;

#[test]
fn test_vector2d_add() {
    let v1 = Vector2D::new(1, 2);
    let v2 = Vector2D::new(3, 4);
    let v3 = v1.add(v2);
    assert_eq!(v3, Vector2D::new(4, 6));
}

#[test]
fn test_vector2d_sub() {
    let v1 = Vector2D::new(1, 2);
    let v2 = Vector2D::new(3, 4);
    let v3 = v1.sub(v2);
    assert_eq!(v3, Vector2D::new(-2, -2));
}

#[test]
fn test_vector2d_max() {
    let v1 = Vector2D::new(1, 2);
    let v2 = Vector2D::new(3, 4);
    let v3 = v1.max(v2);
    assert_eq!(v3, Vector2D::new(3, 4));
}

#[test]
fn test_vector2d_default() {
    assert_eq!(Vector2D::default(), Vector2D::new(0, 0));
}
