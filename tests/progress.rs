use ue_log_tail::progress::{parse_cook_progress_line, ProgressState};

#[test]
fn progress_parsing_example() {
    let mut p = ProgressState::new();
    p.update_cook_state("LogCook: Display: Cooked packages 816 Packages Remain 4532 Total 5348");
    assert_eq!(p, ProgressState { active: true, completed: 816, remaining: 4532, total: 5348 });
}

#[test]
fn parser_gives_zero_for_missing_total() {
    assert_eq!(parse_cook_progress_line("Cooked packages 10 Packages Remain 5"), Some((10, 5, 0)));
    assert_eq!(parse_cook_progress_line("packages remain   7"), Some((0, 7, 0)));
    assert_eq!(parse_cook_progress_line("\u{e9} cooked packages  5"), Some((5, 0, 0)));
    assert_eq!(parse_cook_progress_line("nothing here total 9"), None);
}

#[test]
fn tracker_defaults_total_to_sum() {
    let mut p = ProgressState::new();
    p.update_cook_state("Cooked packages 10 Packages Remain 5");
    assert_eq!(p, ProgressState { active: true, completed: 10, remaining: 5, total: 15 });
    p.update_cook_state("Cooked packages 18446744073709551615 Packages Remain 1");
    assert_eq!(p.total, 18446744073709551615);
}

#[test]
fn explicit_zero_total_is_kept() {
    assert_eq!(parse_cook_progress_line("Cooked packages 3 total 0"), Some((3, 0, 0)));
    let mut p = ProgressState::new();
    p.update_cook_state("Cooked packages 3 total 0");
    assert_eq!(p, ProgressState { active: true, completed: 3, remaining: 0, total: 0 });
}

#[test]
fn number_too_large_is_ignored() {
    assert_eq!(parse_cook_progress_line("Cooked packages 99999999999999999999999"), None);
    assert_eq!(
        parse_cook_progress_line("Cooked packages 18446744073709551615"),
        Some((18446744073709551615, 0, 0))
    );
}

#[test]
fn start_and_completion_markers() {
    let mut p = ProgressState::new();
    p.update_cook_state("Cooked packages 5 Packages Remain 5 Total 10");
    p.update_cook_state("LogCook: Cook Command Completed in 3s");
    assert_eq!(p, ProgressState { active: false, completed: 5, remaining: 5, total: 10 });
    p.update_cook_state("LogCook: cook command started");
    assert_eq!(p, ProgressState { active: true, completed: 0, remaining: 0, total: 0 });
    p.update_cook_state("unrelated line");
    assert_eq!(p, ProgressState { active: true, completed: 0, remaining: 0, total: 0 });
}
