use i3switch::rect::{translate_rect, Rect};
use i3switch::window::Window;
use i3switch::wm_state::{is_floating, is_hidden, is_tiled, is_visible, keep_visible, State};

#[test]
fn maximized_windows_are_tiled() {
    assert!(is_tiled(&vec![State::Other, State::MaxVert]));
    assert!(is_tiled(&vec![State::MaxHorz]));
    assert!(!is_tiled(&vec![State::Other, State::Hidden]));
    assert!(is_floating(&vec![]));
    assert!(!is_floating(&vec![State::MaxHorz, State::MaxVert]));
}

#[test]
fn hidden_windows_are_not_visible() {
    assert!(is_visible(&vec![]));
    assert!(is_visible(&vec![State::MaxHorz, State::Other]));
    assert!(!is_visible(&vec![State::Other, State::Hidden]));
}

#[test]
fn visibility_marks_select_windows() {
    let w = |id: u64| Window { id, rect: Rect { x: 0, y: 0, w: 1, h: 1 }, focused: false, floating: false };
    let windows = vec![w(1), w(2), w(3)];
    let kept = keep_visible(&windows, &vec![true, false, true]);
    assert_eq!(kept.iter().map(|w| w.id).collect::<Vec<u64>>(), vec![1, 3]);
    assert!(keep_visible(&windows, &vec![false, false, false]).is_empty());
}

#[test]
fn withdrawn_or_hidden_x_windows_are_hidden() {
    assert!(is_hidden(&vec![7, 1], &vec![], 7, 9));
    assert!(is_hidden(&vec![1], &vec![4, 9], 7, 9));
    assert!(!is_hidden(&vec![1, 7], &vec![4, 5], 7, 9));
}

#[test]
fn translation_moves_the_corner_only() {
    let mut rect = Rect { x: 10, y: 20, w: 30, h: 40 };
    translate_rect(&mut rect, -15, 5);
    assert_eq!(rect, Rect { x: -5, y: 25, w: 30, h: 40 });
}
