use ue_log_tail::parser::parse_line;
use ue_log_tail::view::{fit_message, on_category_token, visible_window, Area, ViewState};

fn texts(v: &ViewState) -> Vec<String> {
    (0..v.len()).map(|i| v.line(i).text.clone()).collect()
}

#[test]
fn capacity_keeps_last_lines_in_order() {
    let mut v = ViewState::with_cap(3);
    for i in 0..7 {
        v.push_line(parse_line(&format!("line {}", i)));
        assert!(v.len() <= 3);
    }
    assert_eq!(texts(&v), vec!["line 4", "line 5", "line 6"]);
}

#[test]
fn default_cap_is_twenty_thousand() {
    let mut v = ViewState::new();
    for i in 0..20_005 {
        v.push_line(parse_line(&format!("n{}", i)));
    }
    assert_eq!(v.len(), 20_000);
    assert_eq!(v.line(0).text, "n5");
    assert_eq!(v.line(19_999).text, "n20004");
}

#[test]
fn eviction_lowers_scroll_offset_not_below_zero() {
    let mut v = ViewState::with_cap(3);
    for i in 0..3 {
        v.push_line(parse_line(&format!("l{}", i)));
    }
    v.scroll_up(2);
    assert_eq!(v.scroll_from_bottom(), 2);
    v.push_line(parse_line("l3"));
    assert_eq!(v.scroll_from_bottom(), 1);
    v.push_line(parse_line("l4"));
    assert_eq!(v.scroll_from_bottom(), 0);
    v.push_line(parse_line("l5"));
    assert_eq!(v.scroll_from_bottom(), 0);
}

#[test]
fn pinned_view_stays_at_bottom() {
    let mut v = ViewState::with_cap(2);
    for i in 0..5 {
        v.push_line(parse_line(&format!("l{}", i)));
    }
    assert_eq!(v.scroll_from_bottom(), 0);
}

#[test]
fn scrolling_is_clamped() {
    let mut v = ViewState::with_cap(10);
    for i in 0..4 {
        v.push_line(parse_line(&format!("l{}", i)));
    }
    v.scroll_up(10);
    assert_eq!(v.scroll_from_bottom(), 4);
    v.scroll_down(1);
    assert_eq!(v.scroll_from_bottom(), 3);
    v.scroll_down(10);
    assert_eq!(v.scroll_from_bottom(), 0);
    v.scroll_to_top();
    assert_eq!(v.scroll_from_bottom(), 4);
    v.scroll_to_bottom();
    assert_eq!(v.scroll_from_bottom(), 0);
}

#[test]
fn visible_window_arithmetic() {
    assert_eq!(visible_window(10, 4, 0), (6, 10));
    assert_eq!(visible_window(10, 4, 3), (3, 7));
    assert_eq!(visible_window(10, 4, 12), (0, 0));
    assert_eq!(visible_window(2, 4, 0), (0, 2));
}

#[test]
fn filter_restricts_visible_lines() {
    let mut v = ViewState::with_cap(10);
    for t in ["LogA: 1", "LogB: 2", "LogA: 3", "plain", "LogA: 4"] {
        v.push_line(parse_line(t));
    }
    assert_eq!(v.visible_indices(10), vec![0, 1, 2, 3, 4]);
    v.set_filter(Some("LogA".to_string()));
    assert_eq!(v.filtered_indices(), vec![0, 2, 4]);
    assert_eq!(v.visible_indices(2), vec![2, 4]);
    v.scroll_up(1);
    assert_eq!(v.visible_indices(2), vec![0, 2]);
}

fn clickable_view() -> ViewState {
    let mut v = ViewState::with_cap(10);
    v.push_line(parse_line("[ts] LogNet: hello"));
    v.push_line(parse_line("plain line"));
    v.push_line(parse_line("LogAudio: beep"));
    v.scroll_up(1);
    v
}

#[test]
fn click_on_category_sets_filter_and_scrolls_to_bottom() {
    let area = Area { x: 0, y: 0, width: 40, height: 5 };
    let mut v = clickable_view();
    // Content rows 1..=3 show lines 0..=1 (window of 3 rows, one line up).
    assert!(v.click(area, 1, 1, false));
    assert_eq!(v.category_filter().as_deref(), Some("LogNet"));
    assert_eq!(v.scroll_from_bottom(), 0);
}

#[test]
fn click_elsewhere_on_row_keeps_filter() {
    let area = Area { x: 0, y: 0, width: 40, height: 5 };
    let mut v = clickable_view();
    // "LogNet:" spans content columns 0..7, so screen column 8 is past it.
    assert!(!v.click(area, 8, 1, false));
    assert_eq!(v.category_filter(), &None);
    assert_eq!(v.scroll_from_bottom(), 1);
    assert!(v.click(area, 7, 1, false));
    assert_eq!(v.category_filter().as_deref(), Some("LogNet"));
}

#[test]
fn click_accounts_for_shown_timestamp() {
    let area = Area { x: 0, y: 0, width: 40, height: 5 };
    let mut v = clickable_view();
    // "[ts] " takes five columns before the category.
    assert!(!v.click(area, 1, 1, true));
    assert!(v.click(area, 6, 1, true));
    assert_eq!(v.category_filter().as_deref(), Some("LogNet"));
}

#[test]
fn click_on_border_or_uncategorised_line_does_nothing() {
    let area = Area { x: 0, y: 0, width: 40, height: 5 };
    let mut v = clickable_view();
    assert!(!v.click(area, 0, 1, false));
    assert!(!v.click(area, 1, 4, false));
    assert!(!v.click(area, 1, 2, false));
    assert!(!v.click(area, 1, 3, false));
    assert_eq!(v.category_filter(), &None);
}

#[test]
fn token_span_check() {
    let l = parse_line("[abc] Cat: m");
    assert!(on_category_token(&l, false, 0));
    assert!(on_category_token(&l, false, 3));
    assert!(!on_category_token(&l, false, 4));
    assert!(!on_category_token(&l, true, 5));
    assert!(on_category_token(&l, true, 6));
    assert!(on_category_token(&l, true, 9));
    assert!(!on_category_token(&l, true, 10));
}

#[test]
fn fit_message_truncates_with_ellipsis() {
    assert_eq!(fit_message("abcdefghij", 8, 0), "abcde...");
    assert_eq!(fit_message("abcdefghij", 12, 2), "abcdefghij");
    assert_eq!(fit_message("abcdefghij", 4, 2), "ab...");
    assert_eq!(fit_message("abc", 0, 0), "...");
}

#[test]
fn clear_empties_buffer() {
    let mut v = clickable_view();
    v.clear();
    assert_eq!(v.len(), 0);
    assert_eq!(v.scroll_from_bottom(), 0);
}
