use gallery_sorter::tui::events::{is_cancel_event, should_skip_render, TuiEvent};

#[test]
fn test_is_cancel_event() {
    assert!(is_cancel_event(TuiEvent::Escape));
    assert!(is_cancel_event(TuiEvent::Char('q')));
    assert!(is_cancel_event(TuiEvent::Char('Q')));
    assert!(!is_cancel_event(TuiEvent::Enter));
    assert!(!is_cancel_event(TuiEvent::Char('a')));
    assert!(!is_cancel_event(TuiEvent::Idle));
}

#[test]
fn test_should_skip_render() {
    assert!(should_skip_render(1, 2));
    assert!(!should_skip_render(2, 2));
    assert!(should_skip_render(3, 2));
    assert!(!should_skip_render(4, 2));
    assert!(!should_skip_render(1, 0));
    assert!(!should_skip_render(10, 0));
    assert!(!should_skip_render(0, 2));
}
