use rust_snake::cellrect::{CellRect, Point2};

fn rect(x: i32, y: i32, w: i32, h: i32) -> CellRect {
    CellRect { pos: Point2 { x, y }, w, h }
}

#[test]
fn rects_sharing_a_cell_overlap() {
    assert!(rect(0, 0, 3, 3).overlapping(&rect(2, 2, 3, 3)));
    assert!(rect(5, 5, 1, 1).overlapping(&rect(5, 5, 1, 1)));
    assert!(rect(0, 0, 10, 10).overlapping(&rect(4, 4, 1, 1)));
}

#[test]
fn rects_apart_do_not_overlap() {
    assert!(!rect(0, 0, 2, 2).overlapping(&rect(3, 0, 2, 2)));
    assert!(!rect(0, 0, 2, 2).overlapping(&rect(0, 3, 2, 2)));
    assert!(!rect(7, 7, 1, 1).overlapping(&rect(6, 7, 1, 1)));
    assert!(!rect(7, 7, 1, 1).overlapping(&rect(7, 8, 1, 1)));
}

#[test]
fn overlap_counts_the_far_edge() {
    // the last column of a rectangle is x + w - 1, its last row y + h - 1
    assert!(rect(2, 4, 2, 2).overlapping(&rect(3, 4, 1, 1)));
    assert!(rect(2, 4, 2, 2).overlapping(&rect(2, 5, 1, 1)));
    assert!(rect(2, 4, 2, 2).overlapping(&rect(3, 5, 2, 1)));
    assert!(!rect(2, 4, 2, 2).overlapping(&rect(4, 4, 1, 1)));
    assert!(!rect(2, 4, 2, 2).overlapping(&rect(2, 6, 1, 1)));
}

#[test]
fn neighbours_without_a_common_cell_do_not_overlap() {
    // columns 2 to 3 beside columns 4 to 5
    assert!(!rect(2, 4, 2, 2).overlapping(&rect(4, 5, 2, 1)));
    assert!(!rect(4, 5, 2, 1).overlapping(&rect(2, 4, 2, 2)));
}

#[test]
fn overlap_is_symmetric_on_a_small_grid() {
    for ax in -2..4 {
        for ay in -2..4 {
            for aw in 1..4 {
                for bx in -2..4 {
                    for bw in 1..4 {
                        let a = rect(ax, ay, aw, 2);
                        let b = rect(bx, 1, bw, aw);
                        assert_eq!(a.overlapping(&b), b.overlapping(&a));
                    }
                }
            }
        }
    }
}

#[test]
fn overlap_survives_extreme_coordinates() {
    let far = rect(i32::MAX, i32::MAX, i32::MAX, i32::MAX);
    let near = rect(i32::MIN, i32::MIN, 1, 1);
    assert!(!far.overlapping(&near));
    assert!(!near.overlapping(&far));
    assert!(far.overlapping(&far));
}

#[test]
fn cell_is_one_by_one() {
    let c = CellRect::cell(Point2 { x: 3, y: -4 });
    assert_eq!(c, rect(3, -4, 1, 1));
}
