use ananas_music_control::gui::geometry::{
    Dimensions, Orientation, Padding, Point, Rectangle, StackUnitDimension,
};
use ananas_music_control::gui::layouts::stack::{compute_allotments, stack_boxes};

fn total(allotments: &[u32]) -> u32 {
    allotments.iter().sum()
}

#[test]
fn stretch_children_share_the_rest_and_the_earliest_take_the_remainder() {
    let requests = vec![
        StackUnitDimension::Stretch,
        StackUnitDimension::Pixel(30),
        StackUnitDimension::Stretch,
        StackUnitDimension::Stretch,
    ];
    let allotments = compute_allotments(&requests, 100);
    assert_eq!(allotments, vec![24, 30, 23, 23]);
    assert_eq!(total(&allotments), 100);
}

#[test]
fn remainder_of_two_goes_to_the_first_two_stretch_children() {
    let requests = vec![
        StackUnitDimension::Stretch,
        StackUnitDimension::Stretch,
        StackUnitDimension::Pixel(9),
        StackUnitDimension::Stretch,
    ];
    assert_eq!(compute_allotments(&requests, 20), vec![4, 4, 9, 3]);
}

#[test]
fn fixed_children_alone_leave_the_rest_unused() {
    let requests = vec![StackUnitDimension::Pixel(10), StackUnitDimension::Pixel(20)];
    assert_eq!(compute_allotments(&requests, 100), vec![10, 20]);
}

#[test]
fn fixed_children_beyond_the_total_are_cut_at_the_total() {
    let requests = vec![
        StackUnitDimension::Pixel(80),
        StackUnitDimension::Pixel(50),
        StackUnitDimension::Stretch,
        StackUnitDimension::Pixel(5),
    ];
    assert_eq!(compute_allotments(&requests, 100), vec![80, 20, 0, 0]);
}

#[test]
fn one_stretch_child_takes_everything() {
    assert_eq!(compute_allotments(&vec![StackUnitDimension::Stretch], 77), vec![77]);
}

#[test]
fn no_children_receive_nothing() {
    assert_eq!(compute_allotments(&Vec::new(), 100), Vec::<u32>::new());
}

#[test]
fn nothing_to_share_gives_every_child_nothing() {
    let requests = vec![StackUnitDimension::Stretch, StackUnitDimension::Pixel(3)];
    assert_eq!(compute_allotments(&requests, 0), vec![0, 0]);
}

#[test]
fn largest_total_is_shared_without_overflow() {
    let requests = vec![
        StackUnitDimension::Pixel(u32::MAX),
        StackUnitDimension::Pixel(u32::MAX),
        StackUnitDimension::Stretch,
    ];
    assert_eq!(compute_allotments(&requests, u32::MAX), vec![u32::MAX, 0, 0]);
}

#[test]
fn wrapping_layout_gives_the_navigation_row_thirty_units() {
    let requests = vec![StackUnitDimension::Stretch, StackUnitDimension::Pixel(30)];
    let boxes = stack_boxes(
        &requests,
        Dimensions::new(250, 122),
        Point(0, 0),
        Orientation::Vertical,
    );
    assert_eq!(
        boxes,
        vec![
            Rectangle::new(Point(0, 0), Dimensions::new(250, 92)),
            Rectangle::new(Point(0, 92), Dimensions::new(250, 30)),
        ]
    );
}

#[test]
fn horizontal_boxes_follow_each_other_from_the_position() {
    let requests = vec![
        StackUnitDimension::Pixel(30),
        StackUnitDimension::Stretch,
        StackUnitDimension::Stretch,
    ];
    let boxes = stack_boxes(
        &requests,
        Dimensions::new(101, 20),
        Point(7, 9),
        Orientation::Horizontal,
    );
    assert_eq!(
        boxes,
        vec![
            Rectangle::new(Point(7, 9), Dimensions::new(30, 20)),
            Rectangle::new(Point(37, 9), Dimensions::new(36, 20)),
            Rectangle::new(Point(73, 9), Dimensions::new(35, 20)),
        ]
    );
}

#[test]
fn padding_new_keeps_each_side() {
    let padding = Padding::new(1, 2, 3, 4);
    assert_eq!(padding.top, 1);
    assert_eq!(padding.bottom, 2);
    assert_eq!(padding.left, 3);
    assert_eq!(padding.right, 4);
    assert_eq!(padding.total_horizontal(), 7);
    assert_eq!(padding.total_vertical(), 3);
}

#[test]
fn padding_builders_fill_the_other_sides_with_zero() {
    assert_eq!(Padding::zero(), Padding::new(0, 0, 0, 0));
    assert_eq!(Padding::vertical(5, 6), Padding::new(5, 6, 0, 0));
    assert_eq!(Padding::horizontal(4, 3), Padding::new(0, 0, 4, 3));
}

#[test]
fn padding_shrinks_the_region_and_moves_the_origin() {
    let padding = Padding::new(1, 2, 3, 4);
    assert_eq!(padding.adjust_dimensions(Dimensions::new(100, 50)), Dimensions::new(93, 47));
    assert_eq!(padding.adjust_position(Point(10, 20)), Point(13, 21));
}

#[test]
fn padding_larger_than_the_region_leaves_no_extent() {
    let padding = Padding::new(5, 5, 60, 60);
    assert_eq!(padding.adjust_dimensions(Dimensions::new(100, 8)), Dimensions::new(0, 0));
}

#[test]
fn padding_sums_stop_at_the_largest_number() {
    let padding = Padding::new(u32::MAX, 1, u32::MAX, u32::MAX);
    assert_eq!(padding.total_vertical(), u32::MAX);
    assert_eq!(padding.total_horizontal(), u32::MAX);
    assert_eq!(padding.adjust_position(Point(1, 1)), Point(u32::MAX, u32::MAX));
}

#[test]
fn rectangle_holds_its_near_edges_and_not_its_far_edges() {
    let rectangle = Rectangle::new(Point(10, 20), Dimensions::new(50, 30));
    assert!(rectangle.contains(Point(10, 20)));
    assert!(rectangle.contains(Point(59, 49)));
    assert!(!rectangle.contains(Point(60, 20)));
    assert!(!rectangle.contains(Point(10, 50)));
    assert!(!rectangle.contains(Point(9, 20)));
    assert!(!rectangle.contains(Point(10, 19)));
}

#[test]
fn rectangle_without_extent_holds_nothing() {
    let rectangle = Rectangle::new(Point(10, 20), Dimensions::new(0, 30));
    assert!(!rectangle.contains(Point(10, 20)));
}

#[test]
fn rectangle_at_the_far_corner_of_the_plane_does_not_wrap() {
    let rectangle = Rectangle::new(Point(u32::MAX, u32::MAX), Dimensions::new(u32::MAX, u32::MAX));
    assert!(rectangle.contains(Point(u32::MAX, u32::MAX)));
    assert!(!rectangle.contains(Point(0, 0)));
}

#[test]
fn dimensions_hand_back_what_they_were_made_of() {
    let dimensions = Dimensions::new(122, 250);
    assert_eq!(dimensions.width(), 122);
    assert_eq!(dimensions.height(), 250);
}
