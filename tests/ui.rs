use ue_log_tail::parser::parse_line;
use ue_log_tail::targets::{Build, Config, Project};
use ue_log_tail::ui::{Action, Key, KeyKind, Mode, Ui};

fn config() -> Config {
    Config {
        projects: vec![Project {
            key: "prj1".to_string(),
            name: "Project One".to_string(),
            uproject: "/w/One/One.uproject".to_string(),
            discovered: false,
        }],
        builds: vec![Build { key: "game-dev".to_string(), name: String::new(), exe: "/b/Game.exe".to_string() }],
    }
}

#[test]
fn selecting_a_project_starts_its_tail() {
    let cfg = config();
    let mut ui = Ui::new();
    assert_eq!(ui.on_key(&cfg, KeyKind::Press, Key::Enter), Action::StartTail("/w/One/Saved/Logs/One.log".to_string()));
    assert_eq!(ui.mode, Mode::View);
    assert_eq!(ui.current_name.as_deref(), Some("Project One"));
    assert!(!ui.current_is_build);
    assert_eq!(ui.engine.status.as_deref(), Some("Watching: /w/One/Saved/Logs/One.log"));
}

#[test]
fn selecting_a_build_uses_key_when_unnamed() {
    let cfg = config();
    let mut ui = Ui::new();
    assert_eq!(ui.on_key(&cfg, KeyKind::Press, Key::Down), Action::Continue);
    assert_eq!(ui.selected, 1);
    assert_eq!(ui.on_key(&cfg, KeyKind::Press, Key::Down), Action::Continue);
    assert_eq!(ui.selected, 1);
    assert_eq!(ui.on_key(&cfg, KeyKind::Press, Key::Enter), Action::StartTail("/b/Game/Saved/Logs/Game.log".to_string()));
    assert_eq!(ui.current_name.as_deref(), Some("game-dev"));
    assert!(ui.current_is_build);
}

#[test]
fn bad_descriptor_reports_and_stays_in_menu() {
    let cfg = Config {
        projects: vec![Project { key: "x".to_string(), name: "X".to_string(), uproject: "/".to_string(), discovered: false }],
        builds: vec![],
    };
    let mut ui = Ui::new();
    assert_eq!(ui.on_key(&cfg, KeyKind::Press, Key::Enter), Action::Continue);
    assert_eq!(ui.mode, Mode::Select);
    assert_eq!(ui.engine.status.as_deref(), Some("Invalid path: no parent directory"));
}

#[test]
fn view_keys() {
    let cfg = config();
    let mut ui = Ui::new();
    ui.on_key(&cfg, KeyKind::Press, Key::Enter);
    for i in 0..30 {
        ui.engine.push_line(parse_line(&format!("LogA: {}", i)));
    }
    ui.on_key(&cfg, KeyKind::Press, Key::PageUp);
    assert_eq!(ui.engine.view.scroll_from_bottom(), 10);
    ui.on_key(&cfg, KeyKind::Press, Key::Down);
    assert_eq!(ui.engine.view.scroll_from_bottom(), 9);
    ui.on_key(&cfg, KeyKind::Press, Key::Home);
    assert_eq!(ui.engine.view.scroll_from_bottom(), 30);
    ui.on_key(&cfg, KeyKind::Press, Key::End);
    assert_eq!(ui.engine.view.scroll_from_bottom(), 0);
    ui.on_key(&cfg, KeyKind::Press, Key::Char('t'));
    assert!(ui.show_timestamp);
    ui.on_key(&cfg, KeyKind::Release, Key::Char('t'));
    assert!(ui.show_timestamp);
    ui.on_key(&cfg, KeyKind::Press, Key::Char('w'));
    assert!(!ui.wrap_lines);
    assert_eq!(ui.on_key(&cfg, KeyKind::Press, Key::Char('c')), Action::ResetTail);
    assert_eq!(ui.engine.view.len(), 0);
}

#[test]
fn help_is_modal() {
    let cfg = config();
    let mut ui = Ui::new();
    ui.on_key(&cfg, KeyKind::Press, Key::Enter);
    ui.on_key(&cfg, KeyKind::Press, Key::Char('h'));
    assert!(ui.show_help);
    assert_eq!(ui.on_key(&cfg, KeyKind::Press, Key::Char('c')), Action::Continue);
    ui.on_key(&cfg, KeyKind::Press, Key::Esc);
    assert!(!ui.show_help);
    assert_eq!(ui.on_key(&cfg, KeyKind::Press, Key::Char('q')), Action::Quit);
}

#[test]
fn back_to_selection_resets_view() {
    let cfg = config();
    let mut ui = Ui::new();
    ui.on_key(&cfg, KeyKind::Press, Key::Enter);
    ui.engine.push_line(parse_line("LogA: x"));
    ui.engine.view.set_filter(Some("LogA".to_string()));
    assert_eq!(ui.on_key(&cfg, KeyKind::Press, Key::Char('s')), Action::StopTail);
    assert_eq!(ui.mode, Mode::Select);
    assert_eq!(ui.current_name, None);
    assert_eq!(ui.engine.view.len(), 0);
    assert_eq!(ui.engine.view.category_filter(), &None);
    assert_eq!(ui.engine.status, None);
}

#[test]
fn discovery_keeps_selection_in_range() {
    let mut ui = Ui::new();
    ui.selected = 5;
    let cfg = config();
    ui.after_discovery(&cfg, 0);
    assert_eq!(ui.selected, 1);
    assert_eq!(ui.engine.status.as_deref(), Some("Editor aperto rilevato automaticamente"));
    let empty = Config { projects: vec![], builds: vec![] };
    ui.after_discovery(&empty, 0);
    assert_eq!(ui.selected, 0);
}
