use gallery_sorter::cli::{format_progress, should_show_progress};

#[test]
fn test_should_show_progress() {
    assert!(!should_show_progress(false, false));
    assert!(should_show_progress(true, false));
    assert!(should_show_progress(false, true));
    assert!(should_show_progress(true, true));
}

#[test]
fn test_format_progress() {
    assert_eq!(format_progress(0, 0), "\r 0% (0/0)");
    assert_eq!(format_progress(0, 100), "\r 0% (0/100)");
    assert_eq!(format_progress(1, 3), "\r 33% (1/3)");
    assert_eq!(format_progress(1234, 2743), "\r 44% (1234/2743)");
    assert_eq!(format_progress(2743, 2743), "\r 100% (2743/2743)");
    assert_eq!(format_progress(999, 100), "\r 100% (999/100)");
}

#[test]
fn progress_percent_never_exceeds_one_hundred() {
    assert_eq!(format_progress(usize::MAX, 1), format!("\r 0% ({}/1)", usize::MAX));
    assert_eq!(format_progress(5, 1), "\r 100% (5/1)");
    assert_eq!(format_progress(2, 3), "\r 66% (2/3)");
}
