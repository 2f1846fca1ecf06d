//! What the keyboard does: target selection, and in the log view scrolling,
//! filtering, clearing and display toggles. The caller maps terminal key
//! events to `Key` and carries out the returned `Action`.
use vstd::prelude::*;

use crate::engine::{EngineModel, EngineState};
use crate::progress::ProgressState;
use crate::targets::{
    build_log_path, log_path_from_exe, log_path_from_uproject, name_or_key_of,
    project_log_path, Config, TargetError,
};
use crate::text::{concat_str, opt_view};
use crate::view::saturating_diff;

verus! {

#[derive(Clone, Copy, Debug, PartialEq, Eq, Structural)]
pub enum Mode {
    /// Choosing a target.
    Select,
    /// Showing the tail of the chosen target's log.
    View,
}

#[derive(Clone, Copy, Debug, PartialEq, Eq, Structural)]
pub enum Key {
    Char(char),
    Up,
    Down,
    PageUp,
    PageDown,
    Home,
    End,
    Enter,
    Esc,
    Other,
}

#[derive(Clone, Copy, Debug, PartialEq, Eq, Structural)]
pub enum KeyKind {
    Press,
    Repeat,
    Release,
}

/// What the caller does after a key.
#[derive(Debug, PartialEq, Eq)]
pub enum Action {
    Continue,
    Quit,
    /// Tell the running worker to skip to the end of its file.
    ResetTail,
    /// Retire the running worker and start one on this log file.
    StartTail(String),
    /// Retire the running worker.
    StopTail,
}

/// The interface state as plain values.
pub ghost struct UiModel {
    pub mode: Mode,
    pub selected: nat,
    pub current_name: Option<Seq<char>>,
    pub current_is_build: bool,
    pub show_timestamp: bool,
    pub wrap_lines: bool,
    pub show_help: bool,
    pub engine: EngineModel,
}

pub ghost enum ActionModel {
    Continue,
    Quit,
    ResetTail,
    StartTail(Seq<char>),
    StopTail,
}

pub open spec fn action_view(a: Action) -> ActionModel {
    match a {
        Action::Continue => ActionModel::Continue,
        Action::Quit => ActionModel::Quit,
        Action::ResetTail => ActionModel::ResetTail,
        Action::StartTail(p) => ActionModel::StartTail(p@),
        Action::StopTail => ActionModel::StopTail,
    }
}

pub open spec fn error_text(e: TargetError) -> Seq<char> {
    match e {
        TargetError::InvalidPath => "Invalid path: no parent directory"@,
        TargetError::InvalidFileName => "Invalid file name: no file stem"@,
    }
}

/// The view after starting on a target: empty, at the bottom, progress
/// reset, the status naming the log file.
pub open spec fn started(m: UiModel, name: Seq<char>, is_build: bool, path: Seq<char>) -> UiModel {
    UiModel {
        mode: Mode::View,
        current_name: Some(name),
        current_is_build: is_build,
        engine: EngineModel {
            lines: seq![],
            scroll: 0,
            status: Some("Watching: "@ + path),
            progress: ProgressState { active: false, completed: 0, remaining: 0, total: 0 },
            ..m.engine
        },
        ..m
    }
}

/// Enter in the selection menu.
pub open spec fn choose_target(
    m: UiModel,
    projects: Seq<(Seq<char>, Seq<char>, Seq<char>)>,
    builds: Seq<(Seq<char>, Seq<char>, Seq<char>)>,
) -> (UiModel, ActionModel) {
    let failed = |e: TargetError|
        (
            UiModel { engine: EngineModel { status: Some(error_text(e)), ..m.engine }, ..m },
            ActionModel::Continue,
        );
    if m.selected < projects.len() {
        let (key, name, file) = projects[m.selected as int];
        match project_log_path(file) {
            Err(e) => failed(e),
            Ok(path) => (started(m, name_or_key_of(name, key), false, path), ActionModel::StartTail(path)),
        }
    } else if m.selected - projects.len() < builds.len() {
        let (key, name, file) = builds[m.selected - projects.len()];
        match build_log_path(file) {
            Err(e) => failed(e),
            Ok(path) => (started(m, name_or_key_of(name, key), true, path), ActionModel::StartTail(path)),
        }
    } else {
        (UiModel { mode: Mode::View, ..m }, ActionModel::Continue)
    }
}

pub open spec fn with_scroll(m: UiModel, scroll: nat) -> UiModel {
    UiModel { engine: EngineModel { scroll, ..m.engine }, ..m }
}

pub open spec fn scrolled_up(m: UiModel, n: nat) -> UiModel {
    with_scroll(
        m,
        if m.engine.scroll + n < m.engine.lines.len() {
            m.engine.scroll + n
        } else {
            m.engine.lines.len()
        },
    )
}

/// The state and action after a key.
pub open spec fn key_step(
    m: UiModel,
    projects: Seq<(Seq<char>, Seq<char>, Seq<char>)>,
    builds: Seq<(Seq<char>, Seq<char>, Seq<char>)>,
    kind: KeyKind,
    key: Key,
) -> (UiModel, ActionModel) {
    let press = kind == KeyKind::Press;
    match m.mode {
        Mode::Select => match key {
            Key::Char('q') | Key::Esc => (m, ActionModel::Quit),
            Key::Up if press => (
                UiModel {
                    selected: if m.selected > 0 {
                        (m.selected - 1) as nat
                    } else {
                        0
                    },
                    ..m
                },
                ActionModel::Continue,
            ),
            Key::Down if press => (
                UiModel {
                    selected: if m.selected + 1 < projects.len() + builds.len() && m.selected
                        < usize::MAX {
                        m.selected + 1
                    } else {
                        m.selected
                    },
                    ..m
                },
                ActionModel::Continue,
            ),
            Key::Enter if press => choose_target(m, projects, builds),
            _ => (m, ActionModel::Continue),
        },
        Mode::View => if m.show_help {
            match key {
                Key::Char('h') if press => (UiModel { show_help: false, ..m }, ActionModel::Continue),
                Key::Esc if press => (UiModel { show_help: false, ..m }, ActionModel::Continue),
                Key::Char('q') if press => (m, ActionModel::Quit),
                _ => (m, ActionModel::Continue),
            }
        } else {
            match key {
                Key::Char('q') | Key::Esc => (m, ActionModel::Quit),
                Key::Char('h') if press => (UiModel { show_help: true, ..m }, ActionModel::Continue),
                Key::Char('c') => (
                    UiModel { engine: EngineModel { lines: seq![], scroll: 0, ..m.engine }, ..m },
                    ActionModel::ResetTail,
                ),
                Key::Char('t') if press => (
                    UiModel { show_timestamp: !m.show_timestamp, ..m },
                    ActionModel::Continue,
                ),
                Key::Char('w') if press => (
                    UiModel { wrap_lines: !m.wrap_lines, ..m },
                    ActionModel::Continue,
                ),
                Key::Char('f') => (
                    UiModel { engine: EngineModel { filter: None, ..m.engine }, ..m },
                    ActionModel::Continue,
                ),
                Key::Char('s') => (
                    UiModel {
                        mode: Mode::Select,
                        current_name: None,
                        current_is_build: false,
                        engine: EngineModel {
                            lines: seq![],
                            scroll: 0,
                            status: None,
                            filter: None,
                            ..m.engine
                        },
                        ..m
                    },
                    ActionModel::StopTail,
                ),
                Key::Up => (scrolled_up(m, 1), ActionModel::Continue),
                Key::Down => (
                    with_scroll(m, saturating_diff(m.engine.scroll, 1)),
                    ActionModel::Continue,
                ),
                Key::PageUp => (scrolled_up(m, 10), ActionModel::Continue),
                Key::PageDown => (
                    with_scroll(m, saturating_diff(m.engine.scroll, 10)),
                    ActionModel::Continue,
                ),
                Key::Home => (with_scroll(m, m.engine.lines.len()), ActionModel::Continue),
                Key::End => (with_scroll(m, 0), ActionModel::Continue),
                _ => (m, ActionModel::Continue),
            }
        },
    }
}

pub open spec fn target_view(key: String, name: String, file: String) -> (Seq<char>, Seq<char>, Seq<char>) {
    (key@, name@, file@)
}

pub open spec fn config_projects(cfg: Config) -> Seq<(Seq<char>, Seq<char>, Seq<char>)> {
    cfg.projects@.map_values(|p: crate::targets::Project| target_view(p.key, p.name, p.uproject))
}

pub open spec fn config_builds(cfg: Config) -> Seq<(Seq<char>, Seq<char>, Seq<char>)> {
    cfg.builds@.map_values(|b: crate::targets::Build| target_view(b.key, b.name, b.exe))
}

/// The interface: mode, selection, display options and the engine.
pub struct Ui {
    pub mode: Mode,
    pub selected: usize,
    pub current_name: Option<String>,
    pub current_is_build: bool,
    pub show_timestamp: bool,
    pub wrap_lines: bool,
    pub show_help: bool,
    pub engine: EngineState,
}

impl Ui {
    pub open spec fn wf(&self) -> bool {
        self.engine.wf()
    }

    pub open spec fn model(&self) -> UiModel {
        UiModel {
            mode: self.mode,
            selected: self.selected as nat,
            current_name: opt_view(self.current_name),
            current_is_build: self.current_is_build,
            show_timestamp: self.show_timestamp,
            wrap_lines: self.wrap_lines,
            show_help: self.show_help,
            engine: self.engine.model(),
        }
    }

    /// The selection menu, nothing shown yet; timestamps hidden, lines
    /// wrapped.
    pub fn new() -> (r: Ui)
        ensures
            r.wf(),
            r.model().mode == Mode::Select,
            r.model().selected == 0,
            r.model().current_name is None,
            !r.model().current_is_build,
            !r.model().show_timestamp,
            r.model().wrap_lines,
            !r.model().show_help,
            r.model().engine == (EngineModel {
                lines: seq![],
                cap: crate::view::SCROLLBACK_CAP as nat,
                scroll: 0,
                filter: None,
                progress: ProgressState { active: false, completed: 0, remaining: 0, total: 0 },
                status: None,
            }),
    {
        Ui {
            mode: Mode::Select,
            selected: 0,
            current_name: None,
            current_is_build: false,
            show_timestamp: false,
            wrap_lines: true,
            show_help: false,
            engine: EngineState::with_cap(crate::view::SCROLLBACK_CAP),
        }
    }

    fn start_view(&mut self, name: String, is_build: bool, path: &String)
        requires
            old(self).wf(),
        ensures
            final(self).wf(),
            final(self).model() == started(old(self).model(), name@, is_build, path@),
    {
        self.current_name = Some(name);
        self.current_is_build = is_build;
        self.engine.view.clear();
        self.engine.status = Some(concat_str("Watching: ", path.as_str()));
        self.engine.progress = ProgressState::new();
        self.mode = Mode::View;
    }

    fn fail_start(&mut self, e: TargetError)
        requires
            old(self).wf(),
        ensures
            final(self).wf(),
            final(self).model() == (UiModel {
                engine: EngineModel { status: Some(error_text(e)), ..old(self).model().engine },
                ..old(self).model()
            }),
    {
        self.engine.status = Some(e.message());
    }

    fn enter(&mut self, cfg: &Config) -> (r: Action)
        requires
            old(self).wf(),
        ensures
            final(self).wf(),
            (final(self).model(), action_view(r)) == choose_target(
                old(self).model(),
                config_projects(*cfg),
                config_builds(*cfg),
            ),
    {
        let pcount = cfg.projects.len();
        assert(config_projects(*cfg).len() == cfg.projects@.len());
        assert(config_builds(*cfg).len() == cfg.builds@.len());
        if self.selected < pcount {
            let p = &cfg.projects[self.selected];
            assert(config_projects(*cfg)[self.selected as int] == target_view(p.key, p.name, p.uproject));
            match log_path_from_uproject(p.uproject.as_str()) {
                Err(e) => {
                    self.fail_start(e);
                    Action::Continue
                },
                Ok(path) => {
                    let name = p.name_or_key();
                    self.start_view(name, false, &path);
                    Action::StartTail(path)
                },
            }
        } else if self.selected - pcount < cfg.builds.len() {
            let b = &cfg.builds[self.selected - pcount];
            assert(config_builds(*cfg)[self.selected - pcount] == target_view(b.key, b.name, b.exe));
            match log_path_from_exe(b.exe.as_str()) {
                Err(e) => {
                    self.fail_start(e);
                    Action::Continue
                },
                Ok(path) => {
                    let name = b.name_or_key();
                    self.start_view(name, true, &path);
                    Action::StartTail(path)
                },
            }
        } else {
            self.mode = Mode::View;
            Action::Continue
        }
    }

    /// Reacts to a key of the given kind.
    pub fn on_key(&mut self, cfg: &Config, kind: KeyKind, key: Key) -> (r: Action)
        requires
            old(self).wf(),
        ensures
            final(self).wf(),
            (final(self).model(), action_view(r)) == key_step(
                old(self).model(),
                config_projects(*cfg),
                config_builds(*cfg),
                kind,
                key,
            ),
    {
        match self.mode {
            Mode::Select => self.select_key(cfg, kind, key),
            Mode::View => if self.show_help {
                self.help_key(kind, key)
            } else {
                self.view_key(kind, key)
            },
        }
    }

    fn select_key(&mut self, cfg: &Config, kind: KeyKind, key: Key) -> (r: Action)
        requires
            old(self).wf(),
            old(self).mode == Mode::Select,
        ensures
            final(self).wf(),
            (final(self).model(), action_view(r)) == key_step(
                old(self).model(),
                config_projects(*cfg),
                config_builds(*cfg),
                kind,
                key,
            ),
    {
        let press = kind == KeyKind::Press;
        assert(config_projects(*cfg).len() == cfg.projects@.len());
        assert(config_builds(*cfg).len() == cfg.builds@.len());
        if key == Key::Char('q') || key == Key::Esc {
            Action::Quit
        } else if key == Key::Up && press {
            if self.selected > 0 {
                self.selected = self.selected - 1;
            }
            Action::Continue
        } else if key == Key::Down && press {
            let total = cfg.projects.len() as u128 + cfg.builds.len() as u128;
            if (self.selected as u128) + 1 < total && self.selected < usize::MAX {
                self.selected = self.selected + 1;
            }
            Action::Continue
        } else if key == Key::Enter && press {
            self.enter(cfg)
        } else {
            Action::Continue
        }
    }

    fn help_key(&mut self, kind: KeyKind, key: Key) -> (r: Action)
        requires
            old(self).wf(),
            old(self).mode == Mode::View,
            old(self).show_help,
        ensures
            final(self).wf(),
            forall|cfg: Config|
                (final(self).model(), action_view(r)) == #[trigger] key_step(
                    old(self).model(),
                    config_projects(cfg),
                    config_builds(cfg),
                    kind,
                    key,
                ),
    {
        let press = kind == KeyKind::Press;
        if (key == Key::Char('h') || key == Key::Esc) && press {
            self.show_help = false;
            Action::Continue
        } else if key == Key::Char('q') && press {
            Action::Quit
        } else {
            Action::Continue
        }
    }

    fn view_key(&mut self, kind: KeyKind, key: Key) -> (r: Action)
        requires
            old(self).wf(),
            old(self).mode == Mode::View,
            !old(self).show_help,
        ensures
            final(self).wf(),
            forall|cfg: Config|
                (final(self).model(), action_view(r)) == #[trigger] key_step(
                    old(self).model(),
                    config_projects(cfg),
                    config_builds(cfg),
                    kind,
                    key,
                ),
    {
        let press = kind == KeyKind::Press;
        match key {
            Key::Char('q') | Key::Esc => Action::Quit,
            Key::Char('h') if press => {
                self.show_help = true;
                Action::Continue
            },
            Key::Char('c') => {
                self.engine.view.clear();
                Action::ResetTail
            },
            Key::Char('t') if press => {
                self.show_timestamp = !self.show_timestamp;
                Action::Continue
            },
            Key::Char('w') if press => {
                self.wrap_lines = !self.wrap_lines;
                Action::Continue
            },
            Key::Char('f') => {
                self.engine.view.set_filter(None);
                Action::Continue
            },
            Key::Char('s') => {
                self.mode = Mode::Select;
                self.current_name = None;
                self.current_is_build = false;
                self.engine.view.clear();
                self.engine.view.set_filter(None);
                self.engine.status = None;
                Action::StopTail
            },
            Key::Up => {
                self.engine.view.scroll_up(1);
                Action::Continue
            },
            Key::Down => {
                self.engine.view.scroll_down(1);
                Action::Continue
            },
            Key::PageUp => {
                self.engine.view.scroll_up(10);
                Action::Continue
            },
            Key::PageDown => {
                self.engine.view.scroll_down(10);
                Action::Continue
            },
            Key::Home => {
                self.engine.view.scroll_to_top();
                Action::Continue
            },
            Key::End => {
                self.engine.view.scroll_to_bottom();
                Action::Continue
            },
            _ => Action::Continue,
        }
    }
}

impl Ui {
    /// After the project list was refreshed from running editors: keeps the
    /// selection on an existing entry, and announces editors found when
    /// there were no projects before (`projects_before`).
    pub fn after_discovery(&mut self, cfg: &Config, projects_before: usize)
        requires
            old(self).wf(),
        ensures
            final(self).wf(),
            final(self).model() == (UiModel {
                selected: if cfg.projects@.len() + cfg.builds@.len() == 0 {
                    0
                } else if old(self).selected >= cfg.projects@.len() + cfg.builds@.len() {
                    (cfg.projects@.len() + cfg.builds@.len() - 1) as nat
                } else {
                    old(self).selected as nat
                },
                engine: EngineModel {
                    status: if cfg.projects@.len() > projects_before && projects_before == 0 {
                        Some("Editor aperto rilevato automaticamente"@)
                    } else {
                        old(self).model().engine.status
                    },
                    ..old(self).model().engine
                },
                ..old(self).model()
            }),
    {
        let total = cfg.projects.len() as u128 + cfg.builds.len() as u128;
        if total == 0 {
            self.selected = 0;
        } else if self.selected as u128 >= total {
            self.selected = (total - 1) as usize;
        }
        if cfg.projects.len() > projects_before && projects_before == 0 {
            self.engine.status = Some("Editor aperto rilevato automaticamente".to_owned());
        }
    }
}

} // verus!
