use snake_game::triangle::{Point, Triangle};

fn regions(width: i32, height: i32) -> (Triangle, Triangle, Triangle, Triangle) {
    let up = Triangle::new(
        Point::new(0, 0),
        Point::new(width, 0),
        Point::new(width / 2, height / 2),
    );
    let down = Triangle::new(
        Point::new(0, height),
        Point::new(width, height),
        Point::new(width / 2, height / 2),
    );
    let left = Triangle::new(
        Point::new(0, 0),
        Point::new(0, height),
        Point::new(width / 2, height / 2),
    );
    let right = Triangle::new(
        Point::new(width, 0),
        Point::new(width, height),
        Point::new(width / 2, height / 2),
    );
    (up, down, left, right)
}

#[test]
fn click_near_each_edge_lands_in_one_region() {
    let (up, down, left, right) = regions(100, 100);
    let top = Point::new(50, 10);
    assert!(up.contains(&top));
    assert!(!down.contains(&top));
    assert!(!left.contains(&top));
    assert!(!right.contains(&top));

    let bottom = Point::new(50, 90);
    assert!(down.contains(&bottom));
    assert!(!up.contains(&bottom));

    let west = Point::new(10, 50);
    assert!(left.contains(&west));
    assert!(!right.contains(&west));

    let east = Point::new(90, 50);
    assert!(right.contains(&east));
    assert!(!left.contains(&east));
}

#[test]
fn center_and_corners_are_in_no_region() {
    let (up, down, left, right) = regions(100, 100);
    for p in [Point::new(50, 50), Point::new(0, 0), Point::new(100, 100)] {
        assert!(!up.contains(&p));
        assert!(!down.contains(&p));
        assert!(!left.contains(&p));
        assert!(!right.contains(&p));
    }
}

#[test]
fn containment_matches_half_area_formula() {
    // for this triangle, twice the signed area is negative, so the
    // winding branch with a negative sign is exercised too
    let t = Triangle::new(Point::new(0, 0), Point::new(0, 10), Point::new(10, 0));
    assert!(t.contains(&Point::new(2, 2)));
    assert!(!t.contains(&Point::new(9, 9)));
    assert!(!t.contains(&Point::new(0, 5)));
    let s = Triangle::new(Point::new(0, 0), Point::new(10, 0), Point::new(0, 10));
    assert!(s.contains(&Point::new(2, 2)));
    assert!(!s.contains(&Point::new(-1, 2)));
}
