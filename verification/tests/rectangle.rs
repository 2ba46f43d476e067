use plate_tool::rectangle::{create_dense_rectangle, in_rect, standardize_rectangle, strided_rectangle};

// in_rect tests
#[test]
fn test_in_rect1() {
    // Test in center of rect
    let c1 = (1, 1);
    let c2 = (10, 10);
    let pt = (5, 5);
    assert!(in_rect(Some(c1), Some(c2), pt));
    // Order of the corners should not matter:
    assert!(in_rect(Some(c2), Some(c1), pt));
}

#[test]
fn test_in_rect2() {
    // Test on top/bottom edges of rect
    let c1 = (1, 1);
    let c2 = (10, 10);
    let pt1 = (1, 5);
    let pt2 = (10, 5);
    assert!(in_rect(Some(c1), Some(c2), pt1));
    assert!(in_rect(Some(c1), Some(c2), pt2));
    // Order of the corners should not matter:
    assert!(in_rect(Some(c2), Some(c1), pt1));
    assert!(in_rect(Some(c2), Some(c1), pt2));
}

#[test]
fn test_in_rect3() {
    // Test on left/right edges of rect
    let c1 = (1, 1);
    let c2 = (10, 10);
    let pt1 = (5, 1);
    let pt2 = (5, 10);
    assert!(in_rect(Some(c1), Some(c2), pt1));
    assert!(in_rect(Some(c1), Some(c2), pt2));
    // Order of the corners should not matter:
    assert!(in_rect(Some(c2), Some(c1), pt1));
    assert!(in_rect(Some(c2), Some(c1), pt2));
}

#[test]
fn test_in_rect4() {
    // Test cases that should fail
    let c1 = (1, 1);
    let c2 = (10, 10);
    let pt1 = (0, 0);
    let pt2 = (15, 15);
    assert!(!in_rect(Some(c1), Some(c2), pt1));
    assert!(!in_rect(Some(c1), Some(c2), pt2));
}

#[test]
fn source_plate_test_in_rect1() {
    // Test in center of rect
    let c1 = (1, 1);
    let c2 = (10, 10);
    let pt = (5, 5);
    assert!(in_rect(Some(c1), Some(c2), pt));
    // Order of the corners should not matter:
    assert!(in_rect(Some(c2), Some(c1), pt));
}

#[test]
fn source_plate_test_in_rect2() {
    // Test on top/bottom edges of rect
    let c1 = (1, 1);
    let c2 = (10, 10);
    let pt1 = (1, 5);
    let pt2 = (10, 5);
    assert!(in_rect(Some(c1), Some(c2), pt1));
    assert!(in_rect(Some(c1), Some(c2), pt2));
    // Order of the corners should not matter:
    assert!(in_rect(Some(c2), Some(c1), pt1));
    assert!(in_rect(Some(c2), Some(c1), pt2));
}

#[test]
fn source_plate_test_in_rect3() {
    // Test on left/right edges of rect
    let c1 = (1, 1);
    let c2 = (10, 10);
    let pt1 = (5, 1);
    let pt2 = (5, 10);
    assert!(in_rect(Some(c1), Some(c2), pt1));
    assert!(in_rect(Some(c1), Some(c2), pt2));
    // Order of the corners should not matter:
    assert!(in_rect(Some(c2), Some(c1), pt1));
    assert!(in_rect(Some(c2), Some(c1), pt2));
}

#[test]
fn source_plate_test_in_rect4() {
    // Test cases that should fail
    let c1 = (1, 1);
    let c2 = (10, 10);
    let pt1 = (0, 0);
    let pt2 = (15, 15);
    assert_eq!(false, in_rect(Some(c1), Some(c2), pt1));
    assert_eq!(false, in_rect(Some(c1), Some(c2), pt2));
}

#[test]
fn in_rect_needs_both_corners() {
    assert!(!in_rect(None, Some((10, 10)), (5, 5)));
    assert!(!in_rect(Some((1, 1)), None, (5, 5)));
    assert!(!in_rect(None, None, (5, 5)));
}

#[test]
fn in_rect_ignores_corner_order() {
    let corners = [(3u8, 9u8), (7, 2), (0, 0), (255, 255), (4, 4)];
    for c1 in corners {
        for c2 in corners {
            for i in 0..=12u8 {
                for j in 0..=12u8 {
                    let expected = in_rect(Some(c1), Some(c2), (i, j));
                    assert_eq!(in_rect(Some(c2), Some(c1), (i, j)), expected);
                    assert_eq!(in_rect(Some((c1.0, c2.1)), Some((c2.0, c1.1)), (i, j)), expected);
                    assert_eq!(in_rect(Some((c2.0, c1.1)), Some((c1.0, c2.1)), (i, j)), expected);
                }
            }
        }
    }
}

#[test]
fn standardize_orders_corners() {
    assert_eq!(standardize_rectangle(&(3, 9), &(7, 2)), ((3, 2), (7, 9)));
    assert_eq!(standardize_rectangle(&(7, 2), &(3, 9)), ((3, 2), (7, 9)));
    assert_eq!(standardize_rectangle(&(7, 9), &(3, 2)), ((3, 2), (7, 9)));
    assert_eq!(standardize_rectangle(&(4, 4), &(4, 4)), ((4, 4), (4, 4)));
}

#[test]
fn dense_rectangle_is_row_major() {
    assert_eq!(
        create_dense_rectangle(&(2, 3), &(1, 1)),
        vec![(1, 1), (1, 2), (1, 3), (2, 1), (2, 2), (2, 3)]
    );
    assert_eq!(create_dense_rectangle(&(5, 5), &(5, 5)), vec![(5, 5)]);
    assert_eq!(create_dense_rectangle(&(0, 0), &(255, 255)).len(), 65536);
    assert_eq!(create_dense_rectangle(&(254, 255), &(255, 254)),
        vec![(254, 254), (254, 255), (255, 254), (255, 255)]);
}

#[test]
fn strided_rectangle_drops_the_partial_step() {
    assert_eq!(
        strided_rectangle((1, 1), (4, 6), (2, 3)),
        vec![(1, 1), (1, 4), (3, 1), (3, 4)]
    );
    assert_eq!(strided_rectangle((1, 1), (3, 3), (2, 2)), vec![(1, 1), (1, 3), (3, 1), (3, 3)]);
    assert_eq!(strided_rectangle((250, 250), (255, 255), (128, 4)), vec![(250, 250), (250, 254)]);
    // Corners out of order span nothing.
    assert_eq!(strided_rectangle((5, 1), (1, 9), (1, 1)), vec![]);
    assert_eq!(strided_rectangle((1, 9), (5, 1), (1, 1)), vec![]);
    assert_eq!(strided_rectangle((255, 255), (255, 255), (255, 255)), vec![(255, 255)]);
}
