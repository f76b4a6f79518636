//! The shapes the command line parses into, and their translation into the
//! command model. Flag groups are mutually exclusive: a window selector is
//! exactly one of focused (the default), an explicit id, closest-in-a-
//! direction, or cycle; a workspace selector exactly one of index or name.

use vstd::prelude::*;

use crate::commands;

verus! {

pub struct Args {
    pub command: Option<Commands>,
}

pub enum Commands {
    /// Start the window manager.
    Start { autostart: String },
    /// Send a command to the window manager.
    Client(Command),
}

#[derive(Debug, Clone, PartialEq, Eq)]
pub enum Command {
    Quit,
    Focus { selector: WindowSelector },
    Close { selector: WindowSelector },
    AddWorkspace { name: Option<String> },
    RenameWorkspace { selector: WorkspaceSelector, new_name: String },
    ActivateWorkspace { selector: WorkspaceSelector },
    Config(Config),
}

#[derive(Debug, Clone, Copy, PartialEq, Eq, Structural)]
pub enum CardinalDirection {
    East,
    West,
    North,
    South,
}

#[derive(Debug, Clone, Copy, PartialEq, Eq, Structural)]
pub enum CycleDirection {
    Next,
    Prev,
}

#[derive(Debug, Clone, Copy, PartialEq, Eq, Structural)]
pub struct WindowSelector {
    pub focused: bool,
    pub window: Option<u32>,
    pub closest: Option<CardinalDirection>,
    pub cycle: Option<CycleDirection>,
}

#[derive(Debug, Clone, PartialEq, Eq)]
pub struct WorkspaceSelector {
    pub index: Option<usize>,
    pub name: Option<String>,
}

#[derive(Debug, Clone, Copy, PartialEq, Eq, Structural)]
pub enum Config {
    BorderWidth { width: u32 },
    BorderColor { color: u32 },
    FocusedBorderColor { color: u32 },
}

/// What a cardinal direction flag means in the command model.
pub open spec fn dir_value(d: CardinalDirection) -> commands::CardinalDirection {
    match d {
        CardinalDirection::East => commands::CardinalDirection::East,
        CardinalDirection::West => commands::CardinalDirection::West,
        CardinalDirection::North => commands::CardinalDirection::North,
        CardinalDirection::South => commands::CardinalDirection::South,
    }
}

/// What a cycle direction flag means in the command model.
pub open spec fn cycle_value(d: CycleDirection) -> commands::CycleDirection {
    match d {
        CycleDirection::Next => commands::CycleDirection::Next,
        CycleDirection::Prev => commands::CycleDirection::Prev,
    }
}

/// True when the parser could have produced this flag group: something is
/// set, or the focused default stands.
pub open spec fn window_selector_formed(s: WindowSelector) -> bool {
    s.focused || s.window is Some || s.closest is Some || s.cycle is Some
}

/// True when the parser could have produced this flag group: exactly one
/// required flag is present.
pub open spec fn workspace_selector_formed(s: WorkspaceSelector) -> bool {
    s.index is Some || s.name is Some
}

/// What a window selector flag group means: an explicit window id wins over
/// a direction, and plain focused is the default.
pub open spec fn window_selector_value(s: WindowSelector) -> commands::WindowSelector {
    if s.focused && s.window is None && s.closest is None && s.cycle is None {
        commands::WindowSelector::Focused
    } else if s.window is Some {
        commands::WindowSelector::Window(s.window->Some_0)
    } else if s.closest is Some {
        commands::WindowSelector::Closest(dir_value(s.closest->Some_0))
    } else if s.cycle is Some {
        commands::WindowSelector::Cycle(cycle_value(s.cycle->Some_0))
    } else {
        commands::WindowSelector::Focused
    }
}

/// What a workspace selector flag group means: an index wins over a name.
pub open spec fn workspace_selector_value(s: WorkspaceSelector) -> commands::WorkspaceSelectorView {
    if s.index is Some {
        commands::WorkspaceSelectorView::Index(s.index->Some_0)
    } else {
        commands::WorkspaceSelectorView::Name(s.name->Some_0@)
    }
}

/// What a parsed command means in the command model.
pub open spec fn command_value(c: Command) -> commands::CommandView {
    match c {
        Command::Quit => commands::CommandView::Quit,
        Command::Focus { selector } => commands::CommandView::Focus {
            selector: window_selector_value(selector),
        },
        Command::Close { selector } => commands::CommandView::Close {
            selector: window_selector_value(selector),
        },
        Command::AddWorkspace { name } => commands::CommandView::AddWorkspace {
            name: match name {
                Some(n) => Some(n@),
                None => None,
            },
        },
        Command::RenameWorkspace { selector, new_name } => commands::CommandView::RenameWorkspace {
            selector: workspace_selector_value(selector),
            name: new_name@,
        },
        Command::ActivateWorkspace { selector } => commands::CommandView::ActivateWorkspace {
            selector: workspace_selector_value(selector),
        },
        Command::Config(Config::BorderWidth { width }) => commands::CommandView::SetBorderWidth {
            width,
        },
        Command::Config(Config::BorderColor { color }) => commands::CommandView::SetBorderColor {
            color,
        },
        Command::Config(Config::FocusedBorderColor { color }) =>
            commands::CommandView::SetFocusedBorderColor { color },
    }
}

/// True when every selector inside the command is a shape the parser could
/// have produced.
pub open spec fn command_formed(c: Command) -> bool {
    match c {
        Command::Focus { selector } => window_selector_formed(selector),
        Command::Close { selector } => window_selector_formed(selector),
        Command::RenameWorkspace { selector, .. } => workspace_selector_formed(selector),
        Command::ActivateWorkspace { selector } => workspace_selector_formed(selector),
        _ => true,
    }
}

impl From<CardinalDirection> for commands::CardinalDirection {
    fn from(direction: CardinalDirection) -> (r: Self) {
        match direction {
            CardinalDirection::East => Self::East,
            CardinalDirection::West => Self::West,
            CardinalDirection::North => Self::North,
            CardinalDirection::South => Self::South,
        }
    }
}

impl vstd::std_specs::convert::FromSpecImpl<CardinalDirection> for commands::CardinalDirection {
    open spec fn obeys_from_spec() -> bool {
        true
    }

    open spec fn from_spec(d: CardinalDirection) -> Self {
        dir_value(d)
    }
}

impl From<CycleDirection> for commands::CycleDirection {
    fn from(direction: CycleDirection) -> (r: Self) {
        match direction {
            CycleDirection::Next => Self::Next,
            CycleDirection::Prev => Self::Prev,
        }
    }
}

impl vstd::std_specs::convert::FromSpecImpl<CycleDirection> for commands::CycleDirection {
    open spec fn obeys_from_spec() -> bool {
        true
    }

    open spec fn from_spec(d: CycleDirection) -> Self {
        cycle_value(d)
    }
}

impl commands::WindowSelector {
    /// Translate a parsed window selector flag group.
    pub fn from_args(selector: WindowSelector) -> (r: Self)
        requires
            window_selector_formed(selector),
        ensures
            r == window_selector_value(selector),
    {
        if selector.focused && selector.window.is_none() && selector.closest.is_none()
            && selector.cycle.is_none() {
            commands::WindowSelector::Focused
        } else if let Some(w) = selector.window {
            commands::WindowSelector::Window(w)
        } else if let Some(d) = selector.closest {
            commands::WindowSelector::Closest(d.into())
        } else if let Some(d) = selector.cycle {
            commands::WindowSelector::Cycle(d.into())
        } else {
            proof {
                assert(false);
            }
            commands::WindowSelector::Focused
        }
    }
}

impl commands::WorkspaceSelector {
    /// Translate a parsed workspace selector flag group.
    pub fn from_args(selector: WorkspaceSelector) -> (r: Self)
        requires
            workspace_selector_formed(selector),
        ensures
            r@ == workspace_selector_value(selector),
    {
        if let Some(i) = selector.index {
            commands::WorkspaceSelector::Index(i)
        } else if let Some(n) = selector.name {
            commands::WorkspaceSelector::Name(n)
        } else {
            proof {
                assert(false);
            }
            commands::WorkspaceSelector::Index(0)
        }
    }
}

impl commands::Command {
    /// Translate a parsed command-line command into the command model.
    pub fn from_args(command: Command) -> (r: Self)
        requires
            command_formed(command),
        ensures
            r@ == command_value(command),
    {
        match command {
            Command::Quit => commands::Command::Quit,
            Command::Focus { selector } => commands::Command::Focus {
                selector: commands::WindowSelector::from_args(selector),
            },
            Command::Close { selector } => commands::Command::Close {
                selector: commands::WindowSelector::from_args(selector),
            },
            Command::AddWorkspace { name } => commands::Command::AddWorkspace { name },
            Command::RenameWorkspace { selector, new_name } => commands::Command::RenameWorkspace {
                selector: commands::WorkspaceSelector::from_args(selector),
                name: new_name,
            },
            Command::ActivateWorkspace { selector } => commands::Command::ActivateWorkspace {
                selector: commands::WorkspaceSelector::from_args(selector),
            },
            Command::Config(Config::BorderWidth { width }) => commands::Command::SetBorderWidth {
                width,
            },
            Command::Config(Config::BorderColor { color }) => commands::Command::SetBorderColor {
                color,
            },
            Command::Config(Config::FocusedBorderColor { color }) =>
                commands::Command::SetFocusedBorderColor { color },
        }
    }
}

} // verus!
