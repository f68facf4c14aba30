use stage2d::{fan_triangles, quad_triangles, stroke_triangles};

#[test]
fn quad_is_two_triangles_sharing_a_diagonal() {
    assert_eq!(quad_triangles(), [(0, 1, 2), (2, 3, 0)]);
}

#[test]
fn fan_has_two_triangles_fewer_than_corners() {
    assert_eq!(fan_triangles(3), vec![(0, 1, 2)]);
    assert_eq!(fan_triangles(5), vec![(0, 1, 2), (0, 2, 3), (0, 3, 4)]);
    assert_eq!(fan_triangles(60).len(), 58);
    assert_eq!(fan_triangles(60)[57], (0, 58, 59));
}

#[test]
fn fan_of_too_few_corners_is_empty() {
    assert_eq!(fan_triangles(0), vec![]);
    assert_eq!(fan_triangles(1), vec![]);
    assert_eq!(fan_triangles(2), vec![]);
}

#[test]
fn stroke_strip_closes_on_itself() {
    assert_eq!(
        stroke_triangles(2),
        vec![(0, 1, 2), (1, 2, 3), (2, 3, 0), (3, 0, 1)]
    );
    let strip = stroke_triangles(4);
    assert_eq!(strip.len(), 8);
    assert_eq!(strip[6], (6, 7, 0));
    assert_eq!(strip[7], (7, 0, 1));
}

#[test]
fn stroke_of_nothing_is_empty() {
    assert_eq!(stroke_triangles(0), vec![]);
}
