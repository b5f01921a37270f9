use geo::geometry::{Geometry, LineString, Point};
use geo::intersection::Intersection;

#[test]
fn point_point_equal() {
    let p1 = Point::new(1, 2);
    let p2 = Point::new(1, 2);
    assert_eq!(Some(Geometry::Point(p1)), p1.intersection(&p2));
}

#[test]
fn point_point_unequal() {
    let p1 = Point::new(1, 2);
    let p2 = Point::new(2, 2);
    assert_eq!(None, p1.intersection(&p2));
}

#[test]
fn line_string_contains_start_vertex() {
    let line_start = Point::new(1, 1);
    let line_string = LineString(vec![Point::new(1, 1), Point::new(3, 3)]);
    assert_eq!(
        Some(Geometry::Point(line_start)),
        line_string.intersection(&line_start)
    );
}

#[test]
fn line_string_contains_end_vertex() {
    let line_end = Point::new(3, 3);
    let line_string = LineString(vec![Point::new(1, 1), Point::new(3, 3)]);
    assert_eq!(
        Some(Geometry::Point(line_end)),
        line_string.intersection(&line_end)
    );
}

#[test]
fn line_string_contains_mid_segment_point() {
    let in_line = Point::new(2, 2);
    let line_string = LineString(vec![Point::new(1, 1), Point::new(3, 3)]);
    assert_eq!(
        Some(Geometry::Point(in_line)),
        line_string.intersection(&in_line)
    );
}

#[test]
fn line_string_excludes_off_line_point() {
    let off_line = Point::new(1, 2);
    let line_string = LineString(vec![Point::new(1, 1), Point::new(3, 3)]);
    assert_eq!(None, line_string.intersection(&off_line));
}

#[test]
fn line_string_excludes_collinear_point_past_end() {
    let past_line = Point::new(4, 4);
    let line_string = LineString(vec![Point::new(1, 1), Point::new(3, 3)]);
    assert_eq!(None, line_string.intersection(&past_line));
}

#[test]
fn vertical_line_string_excludes_point_past_end() {
    let past_line = Point::new(1, 4);
    let vertical_line_string = LineString(vec![Point::new(1, 1), Point::new(1, 3)]);
    assert_eq!(None, vertical_line_string.intersection(&past_line));
}

#[test]
fn vertical_line_string_contains_point() {
    let in_line = Point::new(1, 2);
    let vertical_line_string = LineString(vec![Point::new(1, 1), Point::new(1, 3)]);
    assert_eq!(
        Some(Geometry::Point(in_line)),
        vertical_line_string.intersection(&in_line)
    );
}

#[test]
fn line_string_contains_shared_vertex() {
    let shared = Point::new(2, 2);
    let bent = LineString(vec![Point::new(0, 0), Point::new(2, 2), Point::new(4, 0)]);
    assert_eq!(Some(Geometry::Point(shared)), bent.intersection(&shared));
}

#[test]
fn identical_line_strings_intersect_whole() {
    let line_string = LineString(vec![Point::new(1, 1), Point::new(3, 3)]);
    let same_line_string = LineString(vec![Point::new(1, 1), Point::new(3, 3)]);
    assert_eq!(
        Some(Geometry::LineString(line_string.clone())),
        line_string.intersection(&same_line_string)
    );
}

#[test]
fn disjoint_collinear_line_strings_do_not_intersect() {
    let line_string = LineString(vec![Point::new(1, 1), Point::new(3, 3)]);
    let far_away_line_string = LineString(vec![Point::new(4, 4), Point::new(5, 5)]);
    assert_eq!(None, line_string.intersection(&far_away_line_string));
}

#[test]
fn partially_overlapping_line_strings_share_sub_segment() {
    let first = LineString(vec![Point::new(0, 0), Point::new(4, 4)]);
    let second = LineString(vec![Point::new(2, 2), Point::new(6, 6)]);
    let shared = LineString(vec![Point::new(2, 2), Point::new(4, 4)]);
    assert_eq!(
        Some(Geometry::LineString(shared)),
        first.intersection(&second)
    );
}

#[test]
fn reversed_line_string_shares_sub_segment() {
    let forward = LineString(vec![Point::new(1, 1), Point::new(3, 3)]);
    let backward = LineString(vec![Point::new(3, 3), Point::new(1, 1)]);
    let shared = LineString(vec![Point::new(1, 1), Point::new(3, 3)]);
    assert_eq!(
        Some(Geometry::LineString(shared)),
        forward.intersection(&backward)
    );
}

#[test]
fn crossing_line_strings_share_grid_point() {
    let rising = LineString(vec![Point::new(0, 0), Point::new(2, 2)]);
    let falling = LineString(vec![Point::new(0, 2), Point::new(2, 0)]);
    assert_eq!(
        Some(Geometry::Point(Point::new(1, 1))),
        rising.intersection(&falling)
    );
}

#[test]
fn crossing_at_non_grid_point_is_not_representable() {
    let rising = LineString(vec![Point::new(0, 0), Point::new(1, 1)]);
    let falling = LineString(vec![Point::new(0, 1), Point::new(1, 0)]);
    assert_eq!(None, rising.intersection(&falling));
}

#[test]
fn touching_line_strings_share_endpoint() {
    let horizontal = LineString(vec![Point::new(0, 0), Point::new(2, 0)]);
    let vertical = LineString(vec![Point::new(1, 0), Point::new(1, 5)]);
    assert_eq!(
        Some(Geometry::Point(Point::new(1, 0))),
        horizontal.intersection(&vertical)
    );
}

#[test]
fn crossing_reported_in_both_operand_orders() {
    let rising = LineString(vec![Point::new(0, 0), Point::new(2, 2)]);
    let falling = LineString(vec![Point::new(0, 2), Point::new(2, 0)]);
    let forward = rising.intersection(&falling);
    let backward = falling.intersection(&rising);
    assert!(forward.is_some());
    assert!(backward.is_some());
    assert_eq!(forward, backward);
}

#[test]
fn overlap_reported_in_both_operand_orders() {
    let first = LineString(vec![Point::new(0, 0), Point::new(4, 4)]);
    let second = LineString(vec![Point::new(2, 2), Point::new(6, 6)]);
    assert!(first.intersection(&second).is_some());
    assert!(second.intersection(&first).is_some());
}

#[test]
fn disjoint_reported_in_both_operand_orders() {
    let first = LineString(vec![Point::new(1, 1), Point::new(3, 3)]);
    let second = LineString(vec![Point::new(4, 4), Point::new(5, 5)]);
    assert_eq!(None, first.intersection(&second));
    assert_eq!(None, second.intersection(&first));
}

#[test]
fn multi_segment_line_strings_prefer_overlap_over_point() {
    // The first segments cross in a point; a later pair overlaps in a
    // sub-segment, which wins.
    let first = LineString(vec![Point::new(0, 0), Point::new(2, 2), Point::new(10, 2)]);
    let second = LineString(vec![Point::new(0, 2), Point::new(2, 0), Point::new(4, 2), Point::new(8, 2)]);
    let shared = LineString(vec![Point::new(4, 2), Point::new(8, 2)]);
    assert_eq!(
        Some(Geometry::LineString(shared)),
        first.intersection(&second)
    );
}
