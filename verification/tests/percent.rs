use niri_agent::percent::{
    centre, index_scroll_percent, start, workspace_scroll_percent, ScrollPercent,
};

fn value(p: ScrollPercent) -> f64 {
    100.0 * p.steps as f64 / p.span as f64
}

#[test]
fn lone_place_is_centred() {
    assert_eq!(index_scroll_percent(1, 1), ScrollPercent { steps: 1, span: 2 });
    assert_eq!(index_scroll_percent(0, 0), ScrollPercent { steps: 1, span: 2 });
    assert_eq!(value(index_scroll_percent(5, 1)), 50.0);
}

#[test]
fn first_place_is_at_the_start_and_last_at_the_end() {
    assert_eq!(value(index_scroll_percent(1, 5)), 0.0);
    assert_eq!(value(index_scroll_percent(5, 5)), 100.0);
    assert_eq!(index_scroll_percent(3, 5), ScrollPercent { steps: 2, span: 4 });
}

#[test]
fn place_zero_counts_as_the_first() {
    assert_eq!(index_scroll_percent(0, 3), ScrollPercent { steps: 0, span: 2 });
}

#[test]
fn places_are_equally_spaced() {
    assert_eq!(value(index_scroll_percent(2, 5)), 25.0);
    assert_eq!(value(index_scroll_percent(3, 5)), 50.0);
    assert_eq!(value(index_scroll_percent(4, 5)), 75.0);
}

#[test]
fn a_place_past_the_last_lies_past_the_end() {
    assert_eq!(value(index_scroll_percent(5, 3)), 200.0);
}

#[test]
fn largest_numbers_do_not_overflow() {
    assert_eq!(
        index_scroll_percent(usize::MAX, usize::MAX),
        ScrollPercent { steps: usize::MAX - 1, span: usize::MAX - 1 }
    );
    assert_eq!(workspace_scroll_percent(255, 255), ScrollPercent { steps: 254, span: 254 });
}

#[test]
fn fixed_positions() {
    assert_eq!(value(start()), 0.0);
    assert_eq!(value(centre()), 50.0);
}
