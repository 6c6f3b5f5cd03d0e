use vstd::prelude::*;
use crate::agent::types::AgentId;

verus! {

/// The screen the terminal interface shows.
#[derive(Debug, Clone, Copy, PartialEq, Eq, Structural)]
pub enum AppMode {
    WorldView,
    AgentDetail,
    MessageLog,
    CommandInput,
    MissionControl,
}

/// The Mission Control panel that has the keyboard.
#[derive(Debug, Clone, Copy, PartialEq, Eq, Structural)]
pub enum McPanel {
    Agents,
    Activity,
    Tasks,
}

/// What the terminal interface shows and what is selected in it.
pub struct App {
    pub mode: AppMode,
    /// The screen Mission Control was opened from.
    pub previous_mode: Option<AppMode>,
    pub should_quit: bool,
    pub selected_agent: Option<AgentId>,
    /// Position of the highlighted agent in the agent list.
    pub selected_index: usize,
    pub tick_count: u64,
    /// The command line being typed.
    pub command_input: String,
    pub sidebar_visible: bool,
    pub mc_scroll: usize,
    /// Highlighted row of the focused Mission Control panel.
    pub mc_selected: usize,
    pub mc_panel: McPanel,
    pub mc_detail_open: bool,
}

/// The interface state with the command line as a sequence of characters.
#[verifier::ext_equal]
pub struct AppView {
    pub mode: AppMode,
    pub previous_mode: Option<AppMode>,
    pub should_quit: bool,
    pub selected_agent: Option<AgentId>,
    pub selected_index: usize,
    pub tick_count: u64,
    pub command_input: Seq<char>,
    pub sidebar_visible: bool,
    pub mc_scroll: usize,
    pub mc_selected: usize,
    pub mc_panel: McPanel,
    pub mc_detail_open: bool,
}

impl View for App {
    type V = AppView;

    open spec fn view(&self) -> AppView {
        AppView {
            mode: self.mode,
            previous_mode: self.previous_mode,
            should_quit: self.should_quit,
            selected_agent: self.selected_agent,
            selected_index: self.selected_index,
            tick_count: self.tick_count,
            command_input: self.command_input@,
            sidebar_visible: self.sidebar_visible,
            mc_scroll: self.mc_scroll,
            mc_selected: self.mc_selected,
            mc_panel: self.mc_panel,
            mc_detail_open: self.mc_detail_open,
        }
    }
}

/// A fresh interface: the world on screen, nothing selected, the sidebar
/// shown, Mission Control closed on its agents panel.
pub open spec fn initial_view() -> AppView {
    AppView {
        mode: AppMode::WorldView,
        previous_mode: None,
        should_quit: false,
        selected_agent: None,
        selected_index: 0,
        tick_count: 0,
        command_input: Seq::empty(),
        sidebar_visible: true,
        mc_scroll: 0,
        mc_selected: 0,
        mc_panel: McPanel::Agents,
        mc_detail_open: false,
    }
}

impl App {
    pub fn new() -> (app: App)
        ensures
            app@ == initial_view(),
    {
        App {
            mode: AppMode::WorldView,
            previous_mode: None,
            should_quit: false,
            selected_agent: None,
            selected_index: 0,
            tick_count: 0,
            command_input: String::new(),
            sidebar_visible: true,
            mc_scroll: 0,
            mc_selected: 0,
            mc_panel: McPanel::Agents,
            mc_detail_open: false,
        }
    }
}

} // verus!
