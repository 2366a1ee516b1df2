use not_vim::tui::rect::{Bottom, Partition, Rect};

#[test]
fn using_bottom() {
    let initial_rect = Rect {
        top: 0,
        left: 10,
        height: 5,
        width: 3,
    };
    let parts = initial_rect.partition(Bottom);
    assert_eq!(
        parts[0],
        Rect {
            top: 4,
            left: 10,
            height: 1,
            width: 3,
        }
    );
    assert_eq!(
        parts[1],
        Rect {
            top: 0,
            left: 10,
            height: 4,
            width: 3,
        }
    );
}

#[test]
fn bottom_called_on_the_strategy() {
    let area = Rect { top: 7, left: 2, height: 1, width: 80 };
    let parts = Bottom.partition(area);
    assert_eq!(parts.len(), 2);
    assert_eq!(parts[0], area);
    assert_eq!(parts[1], Rect { top: 7, left: 2, height: 0, width: 80 });
}
