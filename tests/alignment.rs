use i3switch::alignment::{aligned_in_direction, closest_in_direction, first_of_direction, get_properties, next_in_direction, Direction, Relation};
use i3switch::rect::Rect;

fn grid() -> Vec<Rect> {
    vec![
        Rect { x: 0, y: 0, w: 10, h: 10 },
        Rect { x: 20, y: 0, w: 10, h: 10 },
        Rect { x: 0, y: 20, w: 10, h: 10 },
        Rect { x: 20, y: 20, w: 10, h: 10 },
        Rect { x: 10, y: 10, w: 10, h: 10 },
    ]
}

fn check_properties(relation: Relation, direction: Direction, near: i32, far: i32, axis: i32, comp: bool) {
    let properties = get_properties(relation, direction);
    let rect = Rect { x: 0, y: 2, w: 10, h: 20 };
    assert_eq!(properties.near(&rect), near, "Near extent mismatch for {:?}, {:?}", relation, direction);
    assert_eq!(properties.far(&rect), far, "Far extent mismatch for {:?}, {:?}", relation, direction);
    assert_eq!(properties.axis(&rect), axis, "Axis mismatch for {:?} in {:?}", relation, direction);
    assert_eq!(properties.comp(5, 10), comp, "Comparison function mismatch for {:?}, {:?}", relation, direction);
}

fn check_closest(rects: &[Rect], at_least: i32, expected: Vec<&Rect>, relation: Relation, direction: Direction) {
    let properties = get_properties(relation, direction);
    let closest = closest_in_direction(rects, at_least, &properties);
    assert_eq!(closest.len(), expected.len(),
        "Number of rectangle mismatch for {:?}, {:?} and at_least: {}", relation, direction, at_least);
    for (i, index) in closest.iter().enumerate() {
        assert_eq!(&rects[*index], expected[i],
            "Rectangle mismatch at index {} for {:?}, {:?} and at_least: {}", i, relation, direction, at_least);
    }
}

fn check_aligned(rects: &[Rect], close_to: i32, expected: Vec<&Rect>, relation: Relation, direction: Direction) {
    let properties = get_properties(relation, direction);
    let aligned = aligned_in_direction(rects, close_to, &properties);
    assert_eq!(aligned.len(), expected.len(),
        "Number of aligned rectangles mismatch for {:?}, {:?} and close_to: {}", relation, direction, close_to);
    for (i, index) in aligned.iter().enumerate() {
        assert_eq!(&rects[*index], expected[i],
            "Aligned rectangle mismatch at index {} for {:?}, {:?} and close_to: {}", i, relation, direction, close_to);
    }
}

fn check_next(rects: &[Rect], current: usize, expected: Option<usize>, relation: Relation, direction: Direction) {
    let properties = get_properties(relation, direction);
    let next = next_in_direction(rects, current, &properties);
    assert_eq!(next, expected,
        "Next rectangle mismatch for {:?}, {:?} and current: {:?}", relation, direction, rects[current]);
}

fn check_first(rects: &[Rect], current: usize, expected: Option<usize>, relation: Relation, direction: Direction) {
    let properties = get_properties(relation, direction);
    let first = first_of_direction(rects, current, &properties);
    assert_eq!(first, expected,
        "First rectangle mismatch for {:?}, {:?} and current: {:?}", relation, direction, rects[current]);
}

#[test]
fn test_get_properties() {
    check_properties(Relation::Border, Direction::Left,   10,   0,   12,  true);
    check_properties(Relation::Border, Direction::Right,   0,  10,   12,  false);
    check_properties(Relation::Border, Direction::Up,     22,   2,    5,  true);
    check_properties(Relation::Border, Direction::Down,    2,  22,    5,  false);
    check_properties(Relation::Center, Direction::Left,    5,   5,   12,  true);
    check_properties(Relation::Center, Direction::Right,   5,   5,   12,  false);
    check_properties(Relation::Center, Direction::Up,     12,  12,    5,  true);
    check_properties(Relation::Center, Direction::Down,   12,  12,    5,  false);
}

#[test]
fn test_closest_in_direction() {
    let rects = grid();
    check_closest(&rects,  0,        Vec::<&Rect>::new(), Relation::Border, Direction::Left);
    check_closest(&rects, 10, vec![&rects[0], &rects[2]], Relation::Border, Direction::Left);
    check_closest(&rects, 20,            vec![&rects[4]], Relation::Border, Direction::Left);
    check_closest(&rects,  0, vec![&rects[0], &rects[2]], Relation::Border, Direction::Right);
    check_closest(&rects, 10,            vec![&rects[4]], Relation::Border, Direction::Right);
    check_closest(&rects, 20, vec![&rects[1], &rects[3]], Relation::Border, Direction::Right);
    check_closest(&rects,  0,        Vec::<&Rect>::new(), Relation::Border, Direction::Up);
    check_closest(&rects, 10, vec![&rects[0], &rects[1]], Relation::Border, Direction::Up);
    check_closest(&rects, 20,            vec![&rects[4]], Relation::Border, Direction::Up);
    check_closest(&rects,  0, vec![&rects[0], &rects[1]], Relation::Border, Direction::Down);
    check_closest(&rects, 10,            vec![&rects[4]], Relation::Border, Direction::Down);
    check_closest(&rects, 20, vec![&rects[2], &rects[3]], Relation::Border, Direction::Down);
    check_closest(&rects,  0,        Vec::<&Rect>::new(), Relation::Center, Direction::Left);
    check_closest(&rects, 10, vec![&rects[0], &rects[2]], Relation::Center, Direction::Left);
    check_closest(&rects, 20,            vec![&rects[4]], Relation::Center, Direction::Left);
    check_closest(&rects,  0, vec![&rects[0], &rects[2]], Relation::Center, Direction::Right);
    check_closest(&rects, 10,            vec![&rects[4]], Relation::Center, Direction::Right);
    check_closest(&rects, 20, vec![&rects[1], &rects[3]], Relation::Center, Direction::Right);
    check_closest(&rects,  0,        Vec::<&Rect>::new(), Relation::Center, Direction::Up);
    check_closest(&rects, 10, vec![&rects[0], &rects[1]], Relation::Center, Direction::Up);
    check_closest(&rects, 20,            vec![&rects[4]], Relation::Center, Direction::Up);
    check_closest(&rects,  0, vec![&rects[0], &rects[1]], Relation::Center, Direction::Down);
    check_closest(&rects, 10,            vec![&rects[4]], Relation::Center, Direction::Down);
    check_closest(&rects, 20, vec![&rects[2], &rects[3]], Relation::Center, Direction::Down);
}

#[test]
fn test_aligned_in_direction() {
    let rects = grid();
    check_aligned(&rects,   0,            vec![&rects[0], &rects[1]], Relation::Border, Direction::Left);
    check_aligned(&rects,  10, vec![&rects[0], &rects[1], &rects[4]], Relation::Border, Direction::Left);
    check_aligned(&rects,  20, vec![&rects[2], &rects[3], &rects[4]], Relation::Border, Direction::Left);
    check_aligned(&rects,   0,            vec![&rects[0], &rects[1]], Relation::Border, Direction::Right);
    check_aligned(&rects,  10, vec![&rects[0], &rects[1], &rects[4]], Relation::Border, Direction::Right);
    check_aligned(&rects,  20, vec![&rects[2], &rects[3], &rects[4]], Relation::Border, Direction::Right);
    check_aligned(&rects,   0,            vec![&rects[0], &rects[2]], Relation::Border, Direction::Up);
    check_aligned(&rects,  10, vec![&rects[0], &rects[2], &rects[4]], Relation::Border, Direction::Up);
    check_aligned(&rects,  20, vec![&rects[1], &rects[3], &rects[4]], Relation::Border, Direction::Up);
    check_aligned(&rects,   0,            vec![&rects[0], &rects[2]], Relation::Border, Direction::Down);
    check_aligned(&rects,  10, vec![&rects[0], &rects[2], &rects[4]], Relation::Border, Direction::Down);
    check_aligned(&rects,  20, vec![&rects[1], &rects[3], &rects[4]], Relation::Border, Direction::Down);
    check_aligned(&rects,   0,            vec![&rects[0], &rects[1]], Relation::Center, Direction::Left);
    check_aligned(&rects,  10, vec![&rects[0], &rects[1], &rects[4]], Relation::Center, Direction::Left);
    check_aligned(&rects,  20, vec![&rects[2], &rects[3], &rects[4]], Relation::Center, Direction::Left);
    check_aligned(&rects,   0,            vec![&rects[0], &rects[1]], Relation::Center, Direction::Right);
    check_aligned(&rects,  10, vec![&rects[0], &rects[1], &rects[4]], Relation::Center, Direction::Right);
    check_aligned(&rects,  20, vec![&rects[2], &rects[3], &rects[4]], Relation::Center, Direction::Right);
    check_aligned(&rects,   0,            vec![&rects[0], &rects[2]], Relation::Center, Direction::Up);
    check_aligned(&rects,  10, vec![&rects[0], &rects[2], &rects[4]], Relation::Center, Direction::Up);
    check_aligned(&rects,  20, vec![&rects[1], &rects[3], &rects[4]], Relation::Center, Direction::Up);
    check_aligned(&rects,   0,            vec![&rects[0], &rects[2]], Relation::Center, Direction::Down);
    check_aligned(&rects,  10, vec![&rects[0], &rects[2], &rects[4]], Relation::Center, Direction::Down);
    check_aligned(&rects,  20, vec![&rects[1], &rects[3], &rects[4]], Relation::Center, Direction::Down);
}

#[test]
fn test_next_in_direction() {
    let rects = grid();
    check_next(&rects, 0,    None, Relation::Border, Direction::Left);
    check_next(&rects, 1, Some(4), Relation::Border, Direction::Left);
    check_next(&rects, 2,    None, Relation::Border, Direction::Left);
    check_next(&rects, 3, Some(4), Relation::Border, Direction::Left);
    check_next(&rects, 4, Some(0), Relation::Border, Direction::Left);
    check_next(&rects, 0, Some(4), Relation::Border, Direction::Right);
    check_next(&rects, 1,    None, Relation::Border, Direction::Right);
    check_next(&rects, 2, Some(4), Relation::Border, Direction::Right);
    check_next(&rects, 3,    None, Relation::Border, Direction::Right);
    check_next(&rects, 4, Some(1), Relation::Border, Direction::Right);
    check_next(&rects, 0,    None, Relation::Border, Direction::Up);
    check_next(&rects, 1,    None, Relation::Border, Direction::Up);
    check_next(&rects, 2, Some(4), Relation::Border, Direction::Up);
    check_next(&rects, 3, Some(4), Relation::Border, Direction::Up);
    check_next(&rects, 4, Some(0), Relation::Border, Direction::Up);
    check_next(&rects, 0, Some(4), Relation::Border, Direction::Down);
    check_next(&rects, 1, Some(4), Relation::Border, Direction::Down);
    check_next(&rects, 2,    None, Relation::Border, Direction::Down);
    check_next(&rects, 3,    None, Relation::Border, Direction::Down);
    check_next(&rects, 4, Some(2), Relation::Border, Direction::Down);
    check_next(&rects, 0,    None, Relation::Center, Direction::Left);
    check_next(&rects, 1, Some(4), Relation::Center, Direction::Left);
    check_next(&rects, 2,    None, Relation::Center, Direction::Left);
    check_next(&rects, 3, Some(4), Relation::Center, Direction::Left);
    check_next(&rects, 4, Some(0), Relation::Center, Direction::Left);
    check_next(&rects, 0, Some(4), Relation::Center, Direction::Right);
    check_next(&rects, 1,    None, Relation::Center, Direction::Right);
    check_next(&rects, 2, Some(4), Relation::Center, Direction::Right);
    check_next(&rects, 3,    None, Relation::Center, Direction::Right);
    check_next(&rects, 4, Some(1), Relation::Center, Direction::Right);
    check_next(&rects, 0,    None, Relation::Center, Direction::Up);
    check_next(&rects, 1,    None, Relation::Center, Direction::Up);
    check_next(&rects, 2, Some(4), Relation::Center, Direction::Up);
    check_next(&rects, 3, Some(4), Relation::Center, Direction::Up);
    check_next(&rects, 4, Some(0), Relation::Center, Direction::Up);
    check_next(&rects, 0, Some(4), Relation::Center, Direction::Down);
    check_next(&rects, 1, Some(4), Relation::Center, Direction::Down);
    check_next(&rects, 2,    None, Relation::Center, Direction::Down);
    check_next(&rects, 3,    None, Relation::Center, Direction::Down);
    check_next(&rects, 4, Some(2), Relation::Center, Direction::Down);
}

#[test]
fn test_first_of_direction() {
    let rects = grid();
    check_first(&rects, 0, Some(1), Relation::Border, Direction::Left);
    check_first(&rects, 1, Some(1), Relation::Border, Direction::Left);
    check_first(&rects, 2, Some(3), Relation::Border, Direction::Left);
    check_first(&rects, 3, Some(3), Relation::Border, Direction::Left);
    check_first(&rects, 4, Some(1), Relation::Border, Direction::Left);
    check_first(&rects, 0, Some(0), Relation::Border, Direction::Right);
    check_first(&rects, 1, Some(0), Relation::Border, Direction::Right);
    check_first(&rects, 2, Some(2), Relation::Border, Direction::Right);
    check_first(&rects, 3, Some(2), Relation::Border, Direction::Right);
    check_first(&rects, 4, Some(0), Relation::Border, Direction::Right);
    check_first(&rects, 0, Some(2), Relation::Border, Direction::Up);
    check_first(&rects, 1, Some(3), Relation::Border, Direction::Up);
    check_first(&rects, 2, Some(2), Relation::Border, Direction::Up);
    check_first(&rects, 3, Some(3), Relation::Border, Direction::Up);
    check_first(&rects, 4, Some(2), Relation::Border, Direction::Up);
    check_first(&rects, 0, Some(0), Relation::Border, Direction::Down);
    check_first(&rects, 1, Some(1), Relation::Border, Direction::Down);
    check_first(&rects, 2, Some(0), Relation::Border, Direction::Down);
    check_first(&rects, 3, Some(1), Relation::Border, Direction::Down);
    check_first(&rects, 4, Some(0), Relation::Border, Direction::Down);
    check_first(&rects, 0, Some(1), Relation::Center, Direction::Left);
    check_first(&rects, 1, Some(1), Relation::Center, Direction::Left);
    check_first(&rects, 2, Some(3), Relation::Center, Direction::Left);
    check_first(&rects, 3, Some(3), Relation::Center, Direction::Left);
    check_first(&rects, 4, Some(1), Relation::Center, Direction::Left);
    check_first(&rects, 0, Some(0), Relation::Center, Direction::Right);
    check_first(&rects, 1, Some(0), Relation::Center, Direction::Right);
    check_first(&rects, 2, Some(2), Relation::Center, Direction::Right);
    check_first(&rects, 3, Some(2), Relation::Center, Direction::Right);
    check_first(&rects, 4, Some(0), Relation::Center, Direction::Right);
    check_first(&rects, 0, Some(2), Relation::Center, Direction::Up);
    check_first(&rects, 1, Some(3), Relation::Center, Direction::Up);
    check_first(&rects, 2, Some(2), Relation::Center, Direction::Up);
    check_first(&rects, 3, Some(3), Relation::Center, Direction::Up);
    check_first(&rects, 4, Some(2), Relation::Center, Direction::Up);
    check_first(&rects, 0, Some(0), Relation::Center, Direction::Down);
    check_first(&rects, 1, Some(1), Relation::Center, Direction::Down);
    check_first(&rects, 2, Some(0), Relation::Center, Direction::Down);
    check_first(&rects, 3, Some(1), Relation::Center, Direction::Down);
    check_first(&rects, 4, Some(0), Relation::Center, Direction::Down);
}

#[test]
fn moving_right_from_a_corner_reaches_the_centered_overlapper() {
    let rects = grid();
    let properties = get_properties(Relation::Border, Direction::Right);
    assert_eq!(next_in_direction(&rects, 0, &properties), Some(4));
}

#[test]
fn closest_keeps_rectangles_sharing_a_near_edge() {
    let rects = vec![
        Rect { x: 0, y: 0, w: 10, h: 10 },
        Rect { x: 30, y: 0, w: 10, h: 10 },
        Rect { x: 30, y: 40, w: 5, h: 5 },
        Rect { x: 50, y: 0, w: 10, h: 10 },
    ];
    let properties = get_properties(Relation::Border, Direction::Right);
    assert_eq!(closest_in_direction(&rects, 10, &properties), vec![1, 2]);
    let properties = get_properties(Relation::Border, Direction::Left);
    assert_eq!(closest_in_direction(&rects, 45, &properties), vec![1]);
}

#[test]
fn ties_in_alignment_go_to_the_first_in_input_order() {
    let rects = vec![
        Rect { x: 0, y: 10, w: 10, h: 10 },
        Rect { x: 20, y: 0, w: 10, h: 10 },
        Rect { x: 20, y: 20, w: 10, h: 10 },
    ];
    let properties = get_properties(Relation::Border, Direction::Right);
    assert_eq!(aligned_in_direction(&rects, 15, &properties), vec![0]);
    assert_eq!(aligned_in_direction(&rects[1..], 15, &properties), vec![0, 1]);
    assert_eq!(next_in_direction(&rects, 0, &properties), Some(1));
}

#[test]
fn shared_edge_is_skipped_by_one_unit() {
    // The current rectangle has zero width: its far edge equals its own near edge, so it is
    // among the closest at first and the search moves one unit on.
    let rects = vec![
        Rect { x: 10, y: 0, w: 0, h: 10 },
        Rect { x: 10, y: 0, w: 5, h: 10 },
        Rect { x: 11, y: 0, w: 5, h: 10 },
    ];
    let properties = get_properties(Relation::Border, Direction::Right);
    assert_eq!(next_in_direction(&rects, 0, &properties), Some(2));
}

#[test]
fn nothing_past_the_largest_coordinate() {
    let rects = vec![
        Rect { x: i32::MAX, y: 0, w: 0, h: 0 },
        Rect { x: 0, y: 0, w: 10, h: 10 },
    ];
    let properties = get_properties(Relation::Border, Direction::Right);
    assert_eq!(next_in_direction(&rects, 0, &properties), None);
    let properties = get_properties(Relation::Border, Direction::Left);
    assert_eq!(next_in_direction(&rects, 0, &properties), Some(1));
}

#[test]
fn first_then_opposite_first_comes_back_in_line_on_a_grid() {
    let rects = vec![
        Rect { x: 0, y: 0, w: 10, h: 10 },
        Rect { x: 10, y: 0, w: 10, h: 10 },
        Rect { x: 20, y: 0, w: 10, h: 10 },
        Rect { x: 0, y: 10, w: 10, h: 10 },
        Rect { x: 10, y: 10, w: 10, h: 10 },
        Rect { x: 20, y: 10, w: 10, h: 10 },
    ];
    let right = get_properties(Relation::Border, Direction::Right);
    let left = get_properties(Relation::Border, Direction::Left);
    for origin in 0..rects.len() {
        let there = first_of_direction(&rects, origin, &right).unwrap();
        let back = first_of_direction(&rects, there, &left).unwrap();
        assert_eq!(rects[back].vertical_middle(), rects[origin].vertical_middle());
    }
}

#[test]
fn first_of_direction_left_is_the_rightmost() {
    let rects = grid();
    let properties = get_properties(Relation::Center, Direction::Left);
    assert_eq!(first_of_direction(&rects, 4, &properties), Some(1));
}
