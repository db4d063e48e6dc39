//! The session: which screen is shown, the running test, the settings
//! being edited, and what has to be saved when the program ends.
use vstd::prelude::*;
use vstd::view::View as _;

use crate::engine::{Engine, EngineState, InputKey, TestResult};
use crate::model::{preset_at, preset_index, preset_position, presets, Config, Mode};
use crate::text::{decimal, push_decimal};
use crate::words::{drawn_in_rounds, first_round, generate, word_list};

verus! {

/// The screens of the program.
#[derive(Clone, Copy, Debug, PartialEq, Eq, Structural)]
pub enum View {
    Test,
    Results,
    Settings,
    Stats,
}

/// The keys the program distinguishes.
#[derive(Clone, Copy, Debug, PartialEq, Eq, Structural)]
pub enum KeyCode {
    Char(char),
    Esc,
    Tab,
    Backspace,
    Enter,
    Up,
    Down,
    Left,
    Right,
    Other,
}

/// A key press with the modifiers the program looks at.
#[derive(Clone, Copy, Debug, PartialEq, Eq, Structural)]
pub struct KeyPress {
    pub code: KeyCode,
    pub control: bool,
    pub alt: bool,
}

/// Number of words drawn for a timed test.
pub const TIMED_WORD_COUNT: usize = 1000;

/// Number of words drawn for a test in `mode`.
pub open spec fn word_count(mode: Mode) -> nat {
    match mode {
        Mode::Timed(_) => TIMED_WORD_COUNT as nat,
        Mode::Words(count) => count as nat,
    }
}

/// `e` is a test in `mode` that nobody has typed in yet, over common English
/// words freshly drawn in rounds, of which none follows itself.
pub open spec fn fresh(e: EngineState, mode: Mode) -> bool {
    &&& e == EngineState::initial(mode, e.words)
    &&& e.wf()
    &&& e.words.len() == word_count(mode)
    &&& forall|k: int| 0 <= k < e.words.len() - 1 ==> #[trigger] e.words[k] != e.words[k + 1]
    &&& forall|k: int| 0 <= k < e.words.len() ==> word_list().contains(#[trigger] e.words[k])
    &&& forall|a: int, b: int|
        0 <= a < b < first_round(e.words.len(), word_list().len()) ==> #[trigger] e.words[a]
            != #[trigger] e.words[b]
    &&& drawn_in_rounds(e.words, word_list().len())
}

/// The length of a mode: seconds or words.
pub open spec fn mode_value(mode: Mode) -> u16 {
    match mode {
        Mode::Timed(v) => v,
        Mode::Words(v) => v,
    }
}

/// The mode that the settings screen shows after a left (-1) or right (+1)
/// press on `row`: on the first row the kind of test switches, to 25 words
/// or to 30 seconds; on the second the length moves cyclically through the
/// offered lengths, from the first one when the current length is not offered.
pub open spec fn adjusted_mode(mode: Mode, row: usize, direction: int) -> Mode {
    if row == 0 {
        match mode {
            Mode::Timed(_) => Mode::Words(25),
            Mode::Words(_) => Mode::Timed(30),
        }
    } else {
        let timed = mode is Timed;
        let next = (preset_index(timed, mode_value(mode)) + direction) % 4;
        if timed {
            Mode::Timed(presets(true)[next])
        } else {
            Mode::Words(presets(false)[next])
        }
    }
}

/// Control-C, which quits from every screen.
pub open spec fn is_interrupt(key: KeyPress) -> bool {
    key.control && key.code == KeyCode::Char('c')
}

/// The session as mathematical values.
pub struct AppState {
    pub config: Config,
    pub active_mode: Mode,
    pub view: View,
    pub engine: EngineState,
    pub last_result: Option<TestResult>,
    pub settings_mode: Mode,
    pub settings_row: usize,
    pub config_dirty: bool,
    pub stats_dirty: bool,
    pub should_quit: bool,
}

impl AppState {
    pub open spec fn quit(self) -> AppState {
        AppState { should_quit: true, ..self }
    }

    /// `next` is this session with a new test in the active mode on the
    /// test screen and no result shown.
    pub open spec fn restarted_into(self, next: AppState) -> bool {
        &&& next == AppState { engine: next.engine, last_result: None, view: View::Test, ..self }
        &&& fresh(next.engine, self.active_mode)
    }

    /// The settings screen, showing the saved mode on its first row.
    pub open spec fn settings_opened(self) -> AppState {
        AppState {
            settings_mode: self.config.mode,
            settings_row: 0,
            view: View::Settings,
            ..self
        }
    }

    pub open spec fn adjusted(self, direction: int) -> AppState {
        AppState {
            settings_mode: adjusted_mode(self.settings_mode, self.settings_row, direction),
            ..self
        }
    }

    /// The edited mode becomes the saved mode and the active mode.
    pub open spec fn saved(self) -> AppState {
        AppState {
            config: Config { mode: self.settings_mode, ..self.config },
            active_mode: self.settings_mode,
            config_dirty: true,
            ..self
        }
    }

    /// Back from settings or history: to the result if there is one, else to the test.
    pub open spec fn left_auxiliary(self) -> AppState {
        AppState {
            view: if self.last_result is Some {
                View::Results
            } else {
                View::Test
            },
            ..self
        }
    }

    pub open spec fn with_engine(self, engine: EngineState) -> AppState {
        AppState { engine, ..self }
    }

    /// A test that has finished on the test screen moves to the results
    /// screen; its result is returned so that it can be recorded.
    pub open spec fn completed(self) -> (AppState, Option<TestResult>) {
        if self.view == View::Test && self.engine.is_finished() {
            (
                AppState {
                    last_result: Some(self.engine.outcome()),
                    stats_dirty: true,
                    view: View::Results,
                    ..self
                },
                Some(self.engine.outcome()),
            )
        } else {
            (self, None)
        }
    }

    /// The key that the test screen hands to the engine, if any.
    pub open spec fn forwarded(self, key: KeyPress) -> Option<InputKey> {
        if self.view == View::Test && !is_interrupt(key) {
            match key.code {
                KeyCode::Backspace => Some(InputKey::Backspace),
                KeyCode::Char(c) => if !key.control && !key.alt {
                    Some(InputKey::Char(c))
                } else {
                    None
                },
                _ => None,
            }
        } else {
            None
        }
    }

    /// The key can be handled without a counter overflowing and without
    /// starting a test of no words.
    pub open spec fn accepts(self, key: KeyPress, now: nat) -> bool {
        &&& (self.forwarded(key) matches Some(k) ==> self.engine.key(k, now).fits())
        &&& (self.view == View::Settings && key.code == KeyCode::Enter && !is_interrupt(key)
            ==> self.settings_mode.runnable())
    }

    /// `next` is what this session becomes when `key` is pressed at `now`.
    pub open spec fn key_transition(self, next: AppState, key: KeyPress, now: nat) -> bool {
        if is_interrupt(key) {
            next == self.quit()
        } else {
            match self.view {
                View::Test => match key.code {
                    KeyCode::Esc => next == self.quit(),
                    KeyCode::Char(c) => if c == 'r' && key.control {
                        self.restarted_into(next)
                    } else if !key.control && !key.alt {
                        next == self.with_engine(self.engine.key(InputKey::Char(c), now))
                    } else {
                        next == self
                    },
                    KeyCode::Tab => if !self.engine.is_started() {
                        next == self.settings_opened()
                    } else {
                        next == self
                    },
                    KeyCode::Backspace => next == self.with_engine(
                        self.engine.key(InputKey::Backspace, now),
                    ),
                    _ => next == self,
                },
                View::Results => match key.code {
                    KeyCode::Enter => self.restarted_into(next),
                    KeyCode::Tab => next == self.settings_opened(),
                    KeyCode::Char(c) => if c == 'h' {
                        next == AppState { view: View::Stats, ..self }
                    } else if c == 'q' {
                        next == self.quit()
                    } else {
                        next == self
                    },
                    KeyCode::Esc => next == self.quit(),
                    _ => next == self,
                },
                View::Settings => match key.code {
                    KeyCode::Up => next == AppState {
                        settings_row: if self.settings_row > 0 {
                            (self.settings_row - 1) as usize
                        } else {
                            0
                        },
                        ..self
                    },
                    KeyCode::Down => next == AppState { settings_row: 1, ..self },
                    KeyCode::Left => next == self.adjusted(-1),
                    KeyCode::Right => next == self.adjusted(1),
                    KeyCode::Enter => self.saved().restarted_into(next),
                    KeyCode::Esc => next == self.left_auxiliary(),
                    KeyCode::Char(c) => if c == 'q' {
                        next == self.quit()
                    } else {
                        next == self
                    },
                    _ => next == self,
                },
                View::Stats => match key.code {
                    KeyCode::Esc => next == self.left_auxiliary(),
                    KeyCode::Tab => next == self.settings_opened(),
                    KeyCode::Char(c) => if c == 'q' {
                        next == self.quit()
                    } else {
                        next == self
                    },
                    _ => next == self,
                },
            }
        }
    }
}

/// Whole seconds in `nanos` nanoseconds, rounded up.
pub open spec fn seconds_up(nanos: nat) -> nat {
    (nanos + 999_999_999) / 1_000_000_000
}

/// The progress line of a running test: the seconds left, rounded up, or
/// the position of the current word among the counted words.
pub open spec fn status_line(mode: Mode, s: EngineState, now: nat) -> Seq<char> {
    match mode {
        Mode::Timed(_) => decimal(
            seconds_up(
                match s.remaining(now) {
                    Some(r) => r,
                    None => 0,
                },
            ),
        ) + "s"@,
        Mode::Words(target) => decimal(
            (if s.current_word <= target {
                s.current_word
            } else {
                target as nat
            }) + 1,
        ) + "/"@ + decimal(target as nat) + " words"@,
    }
}

/// A test in `mode` over freshly drawn words.
pub fn new_engine(mode: Mode) -> (e: Engine)
    requires
        mode.runnable(),
    ensures
        e.wf(),
        fresh(e@, mode),
{
    let count: usize = match mode {
        Mode::Timed(_) => TIMED_WORD_COUNT,
        Mode::Words(count) => count as usize,
    };
    let words = generate(count);
    let e = Engine::new(mode, words);
    proof {
        assert forall|k: int| 0 <= k < e@.words.len() - 1 implies #[trigger] e@.words[k]
            != e@.words[k + 1] by {
            assert(words@[k]@ != words@[k + 1]@);
        }
        let m = first_round(e@.words.len(), word_list().len()) as int;
        assert forall|a: int, b: int| 0 <= a < b < m implies #[trigger] e@.words[a]
            != #[trigger] e@.words[b] by {
            assert(words@.take(m)[a] == words@[a]);
            assert(words@.take(m)[b] == words@[b]);
        }
        assert forall|k: int| 0 <= k < e@.words.len() implies word_list().contains(
            #[trigger] e@.words[k],
        ) by {
            assert(word_list().contains(words@[k]@));
        }
    }
    e
}

/// Euclidean remainder of `x` by four.
fn wrap_index(x: isize) -> (r: usize)
    ensures
        r as int == x as int % 4,
        r < 4,
{
    if x >= 0 {
        (x as usize) % 4
    } else {
        let y = (-(x + 1)) as usize;
        assert(x as int % 4 == 3 - (y as int % 4)) by (nonlinear_arith)
            requires
                x < 0,
                y == -(x + 1),
        ;
        3 - y % 4
    }
}

/// The program's state between two screen updates.
pub struct App {
    pub config: Config,
    pub active_mode: Mode,
    pub view: View,
    pub engine: Engine,
    pub last_result: Option<TestResult>,
    pub settings_mode: Mode,
    pub settings_row: usize,
    pub config_dirty: bool,
    pub stats_dirty: bool,
    pub should_quit: bool,
}

impl App {
    pub open spec fn model(&self) -> AppState {
        AppState {
            config: self.config,
            active_mode: self.active_mode,
            view: self.view,
            engine: self.engine@,
            last_result: self.last_result,
            settings_mode: self.settings_mode,
            settings_row: self.settings_row,
            config_dirty: self.config_dirty,
            stats_dirty: self.stats_dirty,
            should_quit: self.should_quit,
        }
    }

    /// What holds between screen updates.
    pub open spec fn wf(&self) -> bool {
        &&& self.engine.wf()
        &&& self.active_mode.runnable()
        &&& self.settings_row <= 1
    }

    /// A session that runs a test in `active_mode`, on `initial_view`; the
    /// saved configuration is kept as it is.
    pub fn new(config: Config, active_mode: Mode, initial_view: View) -> (app: App)
        requires
            active_mode.runnable(),
        ensures
            app.wf(),
            app.config == config,
            app.active_mode == active_mode,
            app.view == initial_view,
            fresh(app.engine@, active_mode),
            app.last_result is None,
            app.settings_mode == config.mode,
            app.settings_row == 0,
            !app.config_dirty,
            !app.stats_dirty,
            !app.should_quit,
    {
        let settings_mode = config.mode;
        App {
            config,
            active_mode,
            view: initial_view,
            engine: new_engine(active_mode),
            last_result: None,
            settings_mode,
            settings_row: 0,
            config_dirty: false,
            stats_dirty: false,
            should_quit: false,
        }
    }

    /// A new test in the active mode.
    pub fn restart(&mut self)
        requires
            old(self).wf(),
        ensures
            final(self).wf(),
            old(self).model().restarted_into(final(self).model()),
    {
        self.engine = new_engine(self.active_mode);
        self.last_result = None;
        self.view = View::Test;
    }

    /// Moves a finished test to the results screen and returns its result,
    /// to be recorded in the statistics.
    pub fn complete_if_finished(&mut self) -> (r: Option<TestResult>)
        requires
            old(self).wf(),
        ensures
            final(self).wf(),
            (final(self).model(), r) == old(self).model().completed(),
    {
        if self.view != View::Test || !self.engine.is_finished() {
            return None;
        }
        match self.engine.result() {
            Some(result) => {
                self.last_result = Some(result);
                self.stats_dirty = true;
                self.view = View::Results;
                Some(result)
            },
            None => None,
        }
    }

    pub fn open_settings(&mut self)
        requires
            old(self).wf(),
        ensures
            final(self).wf(),
            final(self).model() == old(self).model().settings_opened(),
    {
        self.settings_mode = self.config.mode;
        self.settings_row = 0;
        self.view = View::Settings;
    }

    /// Changes the setting on the selected row; `direction` is -1 for left
    /// and 1 for right.
    pub fn adjust_setting(&mut self, direction: isize)
        requires
            old(self).settings_row == 0 || preset_index(
                old(self).settings_mode is Timed,
                mode_value(old(self).settings_mode),
            ) + direction <= isize::MAX,
        ensures
            final(self).model() == old(self).model().adjusted(direction as int),
            final(self).engine == old(self).engine,
    {
        if self.settings_row == 0 {
            self.settings_mode = match self.settings_mode {
                Mode::Timed(_) => Mode::Words(25),
                Mode::Words(_) => Mode::Timed(30),
            };
            return ;
        }
        let (timed, current) = match self.settings_mode {
            Mode::Timed(value) => (true, value),
            Mode::Words(value) => (false, value),
        };
        let index = preset_position(timed, current);
        let next = wrap_index(index as isize + direction);
        let value = preset_at(timed, next);
        self.settings_mode = if timed {
            Mode::Timed(value)
        } else {
            Mode::Words(value)
        };
    }

    /// The edited mode becomes the saved and active mode, and a new test starts.
    pub fn save_settings(&mut self)
        requires
            old(self).wf(),
            old(self).settings_mode.runnable(),
        ensures
            final(self).wf(),
            old(self).model().saved().restarted_into(final(self).model()),
    {
        self.config.mode = self.settings_mode;
        self.active_mode = self.settings_mode;
        self.config_dirty = true;
        self.restart();
    }

    pub fn leave_auxiliary_view(&mut self)
        ensures
            final(self).model() == old(self).model().left_auxiliary(),
            final(self).engine == old(self).engine,
    {
        self.view = if self.last_result.is_some() {
            View::Results
        } else {
            View::Test
        };
    }

    /// Lets the clock reach `now` on the test screen; returns the result of
    /// a test that this finishes, to be recorded.
    pub fn tick(&mut self, now: u64) -> (r: Option<TestResult>)
        requires
            old(self).wf(),
            old(self).view == View::Test ==> old(self).engine@.tick(now as nat).fits(),
        ensures
            final(self).wf(),
            (final(self).model(), r) == (if old(self).view == View::Test {
                old(self).model().with_engine(old(self).engine@.tick(now as nat))
            } else {
                old(self).model()
            }).completed(),
    {
        if self.view == View::Test {
            self.engine.tick_at(now);
            self.complete_if_finished()
        } else {
            None
        }
    }

    /// The progress line of the test screen at `now`.
    pub fn status_text(&self, now: u64) -> (t: String)
        requires
            self.wf(),
        ensures
            t@ == status_line(self.active_mode, self.engine@, now as nat),
    {
        let mut t = String::new();
        match self.active_mode {
            Mode::Timed(_) => {
                let left = match self.engine.remaining_at(now) {
                    Some(r) => r,
                    None => 0,
                };
                proof {
                    if let Some(r) = self.engine@.remaining(now as nat) {
                        assert(r <= 65535 * 1_000_000_000);
                    }
                }
                push_decimal(&mut t, (left as u128 + 999_999_999) as u64 / 1_000_000_000);
                t.append("s");
            },
            Mode::Words(target) => {
                let current = self.engine.current_word_index();
                let shown = if current <= target as usize {
                    current
                } else {
                    target as usize
                };
                push_decimal(&mut t, shown as u64 + 1);
                t.append("/");
                push_decimal(&mut t, target as u64);
                t.append(" words");
            },
        }
        assert(t@ =~= status_line(self.active_mode, self.engine@, now as nat));
        t
    }

    /// The key hints at the bottom of the screen.
    pub fn footer_hint(&self) -> (h: &'static str)
        ensures
            h@ == match self.view {
                View::Test => if self.engine@.is_started() {
                    "Ctrl+R restart  ·  Esc quit"@
                } else {
                    "Tab settings  ·  Esc quit  ·  start typing"@
                },
                View::Results => "Enter restart  ·  Tab settings  ·  h history  ·  q quit"@,
                View::Settings => "↑↓ select  ·  ←→ change  ·  Enter save  ·  Esc back"@,
                View::Stats => "Tab settings  ·  Esc back  ·  q quit"@,
            },
    {
        match self.view {
            View::Test => if self.engine.is_started() {
                "Ctrl+R restart  ·  Esc quit"
            } else {
                "Tab settings  ·  Esc quit  ·  start typing"
            },
            View::Results => "Enter restart  ·  Tab settings  ·  h history  ·  q quit",
            View::Settings => "↑↓ select  ·  ←→ change  ·  Enter save  ·  Esc back",
            View::Stats => "Tab settings  ·  Esc back  ·  q quit",
        }
    }

    /// Reacts to a key pressed at `now`, as the screen shown decides.
    pub fn handle_key(&mut self, key: KeyPress, now: u64)
        requires
            old(self).wf(),
            old(self).model().accepts(key, now as nat),
        ensures
            final(self).wf(),
            old(self).model().key_transition(final(self).model(), key, now as nat),
    {
        if key.control && key.code == KeyCode::Char('c') {
            self.should_quit = true;
            return ;
        }
        match self.view {
            View::Test => match key.code {
                KeyCode::Esc => {
                    self.should_quit = true;
                },
                KeyCode::Char(c) => {
                    if c == 'r' && key.control {
                        self.restart();
                    } else if !key.control && !key.alt {
                        self.engine.handle_key_at(InputKey::Char(c), now);
                    }
                },
                KeyCode::Tab => {
                    if !self.engine.is_started() {
                        self.open_settings();
                    }
                },
                KeyCode::Backspace => {
                    self.engine.handle_key_at(InputKey::Backspace, now);
                },
                _ => {},
            },
            View::Results => match key.code {
                KeyCode::Enter => {
                    self.restart();
                },
                KeyCode::Tab => {
                    self.open_settings();
                },
                KeyCode::Char(c) => {
                    if c == 'h' {
                        self.view = View::Stats;
                    } else if c == 'q' {
                        self.should_quit = true;
                    }
                },
                KeyCode::Esc => {
                    self.should_quit = true;
                },
                _ => {},
            },
            View::Settings => match key.code {
                KeyCode::Up => {
                    self.settings_row = if self.settings_row > 0 {
                        self.settings_row - 1
                    } else {
                        0
                    };
                },
                KeyCode::Down => {
                    // the length row is the last one
                    self.settings_row = 1;
                },
                KeyCode::Left => {
                    self.adjust_setting(-1);
                },
                KeyCode::Right => {
                    self.adjust_setting(1);
                },
                KeyCode::Enter => {
                    self.save_settings();
                },
                KeyCode::Esc => {
                    self.leave_auxiliary_view();
                },
                KeyCode::Char(c) => {
                    if c == 'q' {
                        self.should_quit = true;
                    }
                },
                _ => {},
            },
            View::Stats => match key.code {
                KeyCode::Esc => {
                    self.leave_auxiliary_view();
                },
                KeyCode::Tab => {
                    self.open_settings();
                },
                KeyCode::Char(c) => {
                    if c == 'q' {
                        self.should_quit = true;
                    }
                },
                _ => {},
            },
        }
    }
}

} // verus!
