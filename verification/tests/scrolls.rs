use app_state::scroll::{fix_scroll, is_thumb, is_thumb_placed, Area, ScrollCommand};

fn area(top: u16, height: u16) -> Area {
    Area {
        left: 0,
        top,
        width: 79,
        height,
    }
}

#[test]
fn scroll_is_fixed() {
    assert_eq!(fix_scroll(0, 100, 20), 0);
    assert_eq!(fix_scroll(79, 100, 20), 79);
    assert_eq!(fix_scroll(80, 100, 20), 80);
    assert_eq!(fix_scroll(81, 100, 20), 80);
    assert_eq!(fix_scroll(5, 20, 20), 0);
    assert_eq!(fix_scroll(5, 3, 20), 0);
    // again
    assert_eq!(fix_scroll(fix_scroll(500, 100, 20), 100, 20), 80);
}

#[test]
fn commands() {
    assert_eq!(ScrollCommand::Top.apply(33, 100, 20), 0);
    assert_eq!(ScrollCommand::Bottom.apply(33, 100, 20), 80);
    assert_eq!(ScrollCommand::Lines(3).apply(33, 100, 20), 36);
    assert_eq!(ScrollCommand::Lines(-3).apply(33, 100, 20), 30);
    assert_eq!(ScrollCommand::Lines(-50).apply(33, 100, 20), 0);
    assert_eq!(ScrollCommand::Pages(1).apply(33, 100, 20), 53);
    assert_eq!(ScrollCommand::Pages(-1).apply(33, 100, 20), 13);
    assert_eq!(ScrollCommand::Pages(10).apply(33, 100, 20), 80);
    assert_eq!(ScrollCommand::Pages(i32::MIN).apply(33, usize::MAX, usize::MAX - 1), 0);
    assert_eq!(ScrollCommand::Lines(5).apply(0, 10, 20), 0);
    // and back
    let there = ScrollCommand::Lines(7).apply(33, 100, 20);
    assert_eq!(ScrollCommand::Lines(-7).apply(there, 100, 20), 33);
}

#[test]
fn thumb_rows() {
    assert!(is_thumb(4, Some((4, 8))));
    assert!(is_thumb(8, Some((4, 8))));
    assert!(!is_thumb(3, Some((4, 8))));
    assert!(!is_thumb(9, Some((4, 8))));
    assert!(!is_thumb(4, None));
}

#[test]
fn thumb_place() {
    assert!(is_thumb_placed(&area(2, 20), 10, 100));
    // the content fits
    assert!(is_thumb_placed(&area(2, 20), usize::MAX, 20));
    // far below the content
    assert!(is_thumb_placed(&area(2, 20), 100_000, 100));
    assert!(!is_thumb_placed(&area(2, 20), 1_000_000, 100));
    assert!(!is_thumb_placed(&area(2, 20), usize::MAX, 100));
    assert!(!is_thumb_placed(&area(65535, 20), 10, 30));
}
