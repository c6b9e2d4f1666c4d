use i3switch::linear::{Direction, Sequence};

#[test]
fn test_sequence() {
    let seq = Sequence::new(vec![1, 2, 3, 4, 5], 0);
    assert_eq!(seq.next(Direction::Next), Some(2));
    assert_eq!(seq.next(Direction::Prev), None);
    assert_eq!(seq.first(Direction::Next), Some(1));
    assert_eq!(seq.first(Direction::Prev), Some(5));
    assert_eq!(seq.size(), 5);

    let seq = Sequence::new(vec![10, 20, 30], 1);
    assert_eq!(seq.next(Direction::Next), Some(30));
    assert_eq!(seq.next(Direction::Prev), Some(10));
    assert_eq!(seq.first(Direction::Next), Some(10));
    assert_eq!(seq.first(Direction::Prev), Some(30));
    assert_eq!(seq.size(), 3);

    let seq = Sequence::new(vec![100, 200, 300], 2);
    assert_eq!(seq.next(Direction::Next), None);
    assert_eq!(seq.next(Direction::Prev), Some(200));
    assert_eq!(seq.first(Direction::Next), Some(100));
    assert_eq!(seq.first(Direction::Prev), Some(300));
    assert_eq!(seq.size(), 3);

    let seq = Sequence::new(vec![], 0);
    assert_eq!(seq.next(Direction::Next), None);
    assert_eq!(seq.next(Direction::Prev), None);
    assert_eq!(seq.first(Direction::Next), None);
    assert_eq!(seq.first(Direction::Prev), None);
    assert_eq!(seq.size(), 0);
}

#[test]
fn test_indexing() {
    let seq = Sequence::new(vec![10, 20, 30], 0);
    assert_eq!(seq[0], 10);
    assert_eq!(seq[1], 20);
    assert_eq!(seq[2], 30);

    let seq = Sequence::new(vec![1, 2, 3, 4, 5], 2);
    assert_eq!(seq[0], 1);
    assert_eq!(seq[1], 2);
    assert_eq!(seq[2], 3);
    assert_eq!(seq[3], 4);
    assert_eq!(seq[4], 5);

    let seq = Sequence::new(vec![42], 0);
    assert_eq!(seq[0], 42);
}

#[test]
#[should_panic(expected = "index out of bounds: the len is 0 but the index is 0")]
fn test_indexing_out_of_bounds() {
    let seq = Sequence::new(vec![], 0);
    let _ = seq[0];
}

#[test]
fn next_at_the_end_does_not_wrap_and_first_restarts() {
    let seq = Sequence::new(vec![1, 2, 3], 2);
    assert_eq!(seq.next(Direction::Next), None);
    assert_eq!(seq.first(Direction::Next), Some(1));
}

#[test]
fn prev_from_the_start_is_none_not_a_wrapped_index() {
    let seq = Sequence::new(vec![7, 8], 0);
    assert_eq!(seq.next(Direction::Prev), None);
    assert_eq!(seq.first(Direction::Prev), Some(8));
}


#[test]
fn an_out_of_range_current_counts_as_the_first() {
    let seq = Sequence::new(vec![1, 2, 3], 3);
    assert_eq!(seq.next(Direction::Prev), None);
    assert_eq!(seq.next(Direction::Next), Some(2));
    let seq = Sequence::new(vec![1, 2, 3], usize::MAX);
    assert_eq!(seq.next(Direction::Next), Some(2));
}
