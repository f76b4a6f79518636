//! The closed set of user intents the window manager accepts, together with
//! the selectors they carry. A command is immutable, holds no reference into
//! the registry, and is the sole unit of cross-process communication.

use vstd::prelude::*;

verus! {

#[derive(Debug, Clone, Copy, PartialEq, Eq, Structural)]
pub enum CardinalDirection {
    East,
    West,
    North,
    South,
}

#[derive(Debug, Clone, Copy, PartialEq, Eq, Structural)]
pub enum CycleDirection {
    Next,
    Prev,
}

/// Picks a window: the focused one, an explicit id, the closest one in a
/// cardinal direction, or the next/previous in a cycle. Cycling is declared
/// in the wire schema but not implemented by the registry.
#[derive(Debug, Clone, Copy, PartialEq, Eq, Structural)]
pub enum WindowSelector {
    Focused,
    Window(u32),
    Closest(CardinalDirection),
    Cycle(CycleDirection),
}

/// Picks a workspace by position or by name.
#[derive(Debug, Clone, PartialEq, Eq)]
pub enum WorkspaceSelector {
    Index(usize),
    Name(String),
}

#[derive(Debug, Clone, PartialEq, Eq)]
pub enum Command {
    Quit,
    Focus { selector: WindowSelector },
    Close { selector: WindowSelector },
    AddWorkspace { name: Option<String> },
    RenameWorkspace { selector: WorkspaceSelector, name: String },
    ActivateWorkspace { selector: WorkspaceSelector },
    SetBorderWidth { width: u32 },
    SetBorderColor { color: u32 },
    SetFocusedBorderColor { color: u32 },
}

/// The mathematical value of a workspace selector: names as character
/// sequences.
pub enum WorkspaceSelectorView {
    Index(usize),
    Name(Seq<char>),
}

/// The mathematical value of a command.
pub enum CommandView {
    Quit,
    Focus { selector: WindowSelector },
    Close { selector: WindowSelector },
    AddWorkspace { name: Option<Seq<char>> },
    RenameWorkspace { selector: WorkspaceSelectorView, name: Seq<char> },
    ActivateWorkspace { selector: WorkspaceSelectorView },
    SetBorderWidth { width: u32 },
    SetBorderColor { color: u32 },
    SetFocusedBorderColor { color: u32 },
}

impl View for WorkspaceSelector {
    type V = WorkspaceSelectorView;

    open spec fn view(&self) -> WorkspaceSelectorView {
        match self {
            WorkspaceSelector::Index(i) => WorkspaceSelectorView::Index(*i),
            WorkspaceSelector::Name(n) => WorkspaceSelectorView::Name(n@),
        }
    }
}

impl View for Command {
    type V = CommandView;

    open spec fn view(&self) -> CommandView {
        match self {
            Command::Quit => CommandView::Quit,
            Command::Focus { selector } => CommandView::Focus { selector: *selector },
            Command::Close { selector } => CommandView::Close { selector: *selector },
            Command::AddWorkspace { name } => CommandView::AddWorkspace {
                name: match name {
                    Some(n) => Some(n@),
                    None => None,
                },
            },
            Command::RenameWorkspace { selector, name } => CommandView::RenameWorkspace {
                selector: selector@,
                name: name@,
            },
            Command::ActivateWorkspace { selector } => CommandView::ActivateWorkspace {
                selector: selector@,
            },
            Command::SetBorderWidth { width } => CommandView::SetBorderWidth { width: *width },
            Command::SetBorderColor { color } => CommandView::SetBorderColor { color: *color },
            Command::SetFocusedBorderColor { color } => CommandView::SetFocusedBorderColor {
                color: *color,
            },
        }
    }
}

/// True when the selector asks for the unimplemented cycling.
pub open spec fn window_selector_cycles(s: WindowSelector) -> bool {
    match s {
        WindowSelector::Cycle(_) => true,
        _ => false,
    }
}

/// True when the command carries a cycling window selector, the one command
/// shape the dispatcher does not accept.
pub open spec fn command_cycles(c: Command) -> bool {
    match c {
        Command::Focus { selector } => window_selector_cycles(selector),
        Command::Close { selector } => window_selector_cycles(selector),
        _ => false,
    }
}

} // verus!
