use vstd::prelude::*;
use vstd::string::StrSliceExecFns;
use crate::text::push_char;
use crate::tui::app::{App, AppMode, AppView, McPanel};

verus! {

/// A key of the keyboard.
#[derive(Debug, Clone, Copy, PartialEq, Eq, Structural)]
pub enum KeyCode {
    Char(char),
    Enter,
    Esc,
    Tab,
    BackTab,
    Backspace,
    Delete,
    Up,
    Down,
    Left,
    Right,
    Home,
    End,
    PageUp,
    PageDown,
    F(u8),
}

/// The modifier keys held during a key press.
#[derive(Debug, Clone, Copy, PartialEq, Eq, Structural)]
pub struct KeyModifiers {
    pub shift: bool,
    pub control: bool,
    pub alt: bool,
}

impl KeyModifiers {
    /// No modifier held.
    pub fn empty() -> (m: KeyModifiers)
        ensures
            !m.shift && !m.control && !m.alt,
    {
        KeyModifiers { shift: false, control: false, alt: false }
    }

    /// Only the control key held.
    pub fn control() -> (m: KeyModifiers)
        ensures
            !m.shift && m.control && !m.alt,
    {
        KeyModifiers { shift: false, control: true, alt: false }
    }
}

/// One key press.
#[derive(Debug, Clone, Copy, PartialEq, Eq, Structural)]
pub struct KeyEvent {
    pub code: KeyCode,
    pub modifiers: KeyModifiers,
}

pub open spec fn inc_sat(n: usize) -> usize {
    if n < usize::MAX {
        (n + 1) as usize
    } else {
        n
    }
}

pub open spec fn dec_sat(n: usize) -> usize {
    if n > 0 {
        (n - 1) as usize
    } else {
        0
    }
}

/// The Mission Control panel that Tab moves to.
pub open spec fn next_panel(p: McPanel) -> McPanel {
    match p {
        McPanel::Agents => McPanel::Activity,
        McPanel::Activity => McPanel::Tasks,
        McPanel::Tasks => McPanel::Agents,
    }
}

pub open spec fn quit(a: AppView) -> AppView {
    AppView { should_quit: true, ..a }
}

pub open spec fn show(a: AppView, m: AppMode) -> AppView {
    AppView { mode: m, ..a }
}

/// Mission Control on screen, remembering the screen it was opened from.
pub open spec fn open_mission_control(a: AppView) -> AppView {
    AppView { mode: AppMode::MissionControl, previous_mode: Some(a.mode), ..a }
}

/// Back to the screen Mission Control was opened from (the world when it is
/// not known), scrolled back to the top.
pub open spec fn close_mission_control(a: AppView) -> AppView {
    AppView {
        mode: match a.previous_mode {
            Some(m) => m,
            None => AppMode::WorldView,
        },
        previous_mode: None,
        mc_scroll: 0,
        mc_detail_open: false,
        ..a
    }
}

pub open spec fn is_char(k: KeyEvent, c: char) -> bool {
    k.code == KeyCode::Char(c)
}

/// A key on the world screen: `q` and Esc quit, Tab shows the message log,
/// `:` the command line, Enter the selected agent; `n`/Down and `p`/Up move
/// the selection, `m` opens Mission Control and `h` shows or hides the sidebar.
pub open spec fn world_key(a: AppView, k: KeyEvent) -> AppView {
    if is_char(k, 'q') || k.code == KeyCode::Esc {
        quit(a)
    } else if k.code == KeyCode::Tab {
        show(a, AppMode::MessageLog)
    } else if is_char(k, ':') {
        show(a, AppMode::CommandInput)
    } else if k.code == KeyCode::Enter {
        show(a, AppMode::AgentDetail)
    } else if is_char(k, 'n') || k.code == KeyCode::Down {
        AppView { selected_index: inc_sat(a.selected_index), ..a }
    } else if is_char(k, 'p') || k.code == KeyCode::Up {
        AppView { selected_index: dec_sat(a.selected_index), ..a }
    } else if is_char(k, 'm') || is_char(k, 'M') {
        open_mission_control(a)
    } else if is_char(k, 'h') || is_char(k, 'H') {
        AppView { sidebar_visible: !a.sidebar_visible, ..a }
    } else {
        a
    }
}

/// A key on the agent detail screen: Esc and Backspace go back to the world.
pub open spec fn detail_key(a: AppView, k: KeyEvent) -> AppView {
    if k.code == KeyCode::Esc || k.code == KeyCode::Backspace {
        show(a, AppMode::WorldView)
    } else if is_char(k, 'q') {
        quit(a)
    } else if is_char(k, 'm') || is_char(k, 'M') {
        open_mission_control(a)
    } else {
        a
    }
}

/// A key on the message log: Esc and Tab go back to the world.
pub open spec fn log_key(a: AppView, k: KeyEvent) -> AppView {
    if k.code == KeyCode::Esc || k.code == KeyCode::Tab {
        show(a, AppMode::WorldView)
    } else if is_char(k, 'q') {
        quit(a)
    } else if is_char(k, 'm') || is_char(k, 'M') {
        open_mission_control(a)
    } else {
        a
    }
}

/// A key on the command line: characters are typed, Backspace removes the
/// last one, Esc and Enter clear the line and go back to the world.
pub open spec fn command_key(a: AppView, k: KeyEvent) -> AppView {
    if k.code == KeyCode::Esc || k.code == KeyCode::Enter {
        AppView { mode: AppMode::WorldView, command_input: Seq::empty(), ..a }
    } else if k.code == KeyCode::Backspace {
        if a.command_input.len() > 0 {
            AppView { command_input: a.command_input.drop_last(), ..a }
        } else {
            a
        }
    } else {
        match k.code {
            KeyCode::Char(c) => AppView { command_input: a.command_input.push(c), ..a },
            _ => a,
        }
    }
}

/// A key in Mission Control: `q` quits; with a detail open only Esc acts,
/// closing it; otherwise Esc and `m` close Mission Control, `j`/Down and
/// `k`/Up move the highlighted row, Tab focuses the next panel from its top
/// row and Enter opens the detail of the highlighted row.
pub open spec fn mission_control_key(a: AppView, k: KeyEvent) -> AppView {
    if is_char(k, 'q') {
        quit(a)
    } else if a.mc_detail_open {
        if k.code == KeyCode::Esc {
            AppView { mc_detail_open: false, ..a }
        } else {
            a
        }
    } else if k.code == KeyCode::Esc || is_char(k, 'm') || is_char(k, 'M') {
        close_mission_control(a)
    } else if is_char(k, 'j') || k.code == KeyCode::Down {
        AppView { mc_selected: inc_sat(a.mc_selected), ..a }
    } else if is_char(k, 'k') || k.code == KeyCode::Up {
        AppView { mc_selected: dec_sat(a.mc_selected), ..a }
    } else if k.code == KeyCode::Tab {
        AppView { mc_panel: next_panel(a.mc_panel), mc_selected: 0, ..a }
    } else if k.code == KeyCode::Enter {
        AppView { mc_detail_open: true, ..a }
    } else {
        a
    }
}

/// The interface after key `k`: Ctrl-C quits from every screen, other
/// control chords do nothing, and a plain key acts as the screen on show
/// says.
pub open spec fn after_key(a: AppView, k: KeyEvent) -> AppView {
    if k.modifiers.control {
        if is_char(k, 'c') {
            quit(a)
        } else {
            a
        }
    } else {
        match a.mode {
            AppMode::WorldView => world_key(a, k),
            AppMode::AgentDetail => detail_key(a, k),
            AppMode::MessageLog => log_key(a, k),
            AppMode::CommandInput => command_key(a, k),
            AppMode::MissionControl => mission_control_key(a, k),
        }
    }
}

fn inc_index(n: usize) -> (r: usize)
    ensures
        r == inc_sat(n),
{
    if n < usize::MAX {
        n + 1
    } else {
        n
    }
}

fn dec_index(n: usize) -> (r: usize)
    ensures
        r == dec_sat(n),
{
    if n > 0 {
        n - 1
    } else {
        0
    }
}

fn open_mc(app: &mut App)
    ensures
        final(app)@ == open_mission_control(old(app)@),
{
    app.previous_mode = Some(app.mode);
    app.mode = AppMode::MissionControl;
}

fn on_world(app: &mut App, key: KeyEvent)
    ensures
        final(app)@ == world_key(old(app)@, key),
{
    let code = key.code;
    if code == KeyCode::Char('q') || code == KeyCode::Esc {
        app.should_quit = true;
    } else if code == KeyCode::Tab {
        app.mode = AppMode::MessageLog;
    } else if code == KeyCode::Char(':') {
        app.mode = AppMode::CommandInput;
    } else if code == KeyCode::Enter {
        app.mode = AppMode::AgentDetail;
    } else if code == KeyCode::Char('n') || code == KeyCode::Down {
        app.selected_index = inc_index(app.selected_index);
    } else if code == KeyCode::Char('p') || code == KeyCode::Up {
        app.selected_index = dec_index(app.selected_index);
    } else if code == KeyCode::Char('m') || code == KeyCode::Char('M') {
        open_mc(app);
    } else if code == KeyCode::Char('h') || code == KeyCode::Char('H') {
        app.sidebar_visible = !app.sidebar_visible;
    }
}

fn on_detail(app: &mut App, key: KeyEvent)
    ensures
        final(app)@ == detail_key(old(app)@, key),
{
    let code = key.code;
    if code == KeyCode::Esc || code == KeyCode::Backspace {
        app.mode = AppMode::WorldView;
    } else if code == KeyCode::Char('q') {
        app.should_quit = true;
    } else if code == KeyCode::Char('m') || code == KeyCode::Char('M') {
        open_mc(app);
    }
}

fn on_log(app: &mut App, key: KeyEvent)
    ensures
        final(app)@ == log_key(old(app)@, key),
{
    let code = key.code;
    if code == KeyCode::Esc || code == KeyCode::Tab {
        app.mode = AppMode::WorldView;
    } else if code == KeyCode::Char('q') {
        app.should_quit = true;
    } else if code == KeyCode::Char('m') || code == KeyCode::Char('M') {
        open_mc(app);
    }
}

fn on_command(app: &mut App, key: KeyEvent)
    ensures
        final(app)@ == command_key(old(app)@, key),
{
    let code = key.code;
    if code == KeyCode::Esc || code == KeyCode::Enter {
        app.command_input = String::new();
        app.mode = AppMode::WorldView;
    } else if code == KeyCode::Backspace {
        let n = app.command_input.as_str().unicode_len();
        if n > 0 {
            let kept = String::from_str(app.command_input.as_str().substring_char(0, n - 1));
            app.command_input = kept;
        }
    } else {
        match code {
            KeyCode::Char(c) => push_char(&mut app.command_input, c),
            _ => {},
        }
    }
}

fn on_mission_control(app: &mut App, key: KeyEvent)
    ensures
        final(app)@ == mission_control_key(old(app)@, key),
{
    let code = key.code;
    if code == KeyCode::Char('q') {
        app.should_quit = true;
    } else if app.mc_detail_open {
        if code == KeyCode::Esc {
            app.mc_detail_open = false;
        }
    } else if code == KeyCode::Esc || code == KeyCode::Char('m') || code == KeyCode::Char('M') {
        app.mode = match app.previous_mode {
            Some(m) => m,
            None => AppMode::WorldView,
        };
        app.previous_mode = None;
        app.mc_scroll = 0;
        app.mc_detail_open = false;
    } else if code == KeyCode::Char('j') || code == KeyCode::Down {
        app.mc_selected = inc_index(app.mc_selected);
    } else if code == KeyCode::Char('k') || code == KeyCode::Up {
        app.mc_selected = dec_index(app.mc_selected);
    } else if code == KeyCode::Tab {
        app.mc_panel = match app.mc_panel {
            McPanel::Agents => McPanel::Activity,
            McPanel::Activity => McPanel::Tasks,
            McPanel::Tasks => McPanel::Agents,
        };
        app.mc_selected = 0;
    } else if code == KeyCode::Enter {
        app.mc_detail_open = true;
    }
}

/// Applies one key press to the interface.
pub fn handle_key(app: &mut App, key: KeyEvent)
    ensures
        final(app)@ == after_key(old(app)@, key),
{
    if key.modifiers.control {
        if key.code == KeyCode::Char('c') {
            app.should_quit = true;
        }
        return;
    }
    match app.mode {
        AppMode::WorldView => on_world(app, key),
        AppMode::AgentDetail => on_detail(app, key),
        AppMode::MessageLog => on_log(app, key),
        AppMode::CommandInput => on_command(app, key),
        AppMode::MissionControl => on_mission_control(app, key),
    }
}

} // verus!
