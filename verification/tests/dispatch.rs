use toniowm::commands::{Command, WindowSelector, WorkspaceSelector};
use toniowm::config::Config;
use toniowm::dispatch::{
    close_action, handle_command, handle_event, refresh_workspaces_actions, Action, Event,
    Reaction,
};
use toniowm::state::State;
use toniowm::Vector2D;

#[test]
fn quit_stops_the_loop() {
    let mut state = State::default();
    let mut config = Config::default();

    let r = handle_command(&mut state, &mut config, Command::Quit);

    assert_eq!(r, Reaction::Quit);
}

#[test]
fn map_request_manages_the_window() {
    let mut state = State::default();
    let config = Config::default();

    let acts = handle_event(
        &mut state,
        &config,
        Event::MapRequest {
            window: 42,
            is_dock: false,
            x: 10,
            y: 20,
            width: 300,
            height: 200,
        },
    )
    .unwrap();

    assert_eq!(acts[0], Action::MapWindow { window: 42 });
    assert_eq!(acts.len(), 8);
    let c = state.active_workspace_clients().get(&42).unwrap();
    assert_eq!(c.pos, Vector2D::new(10, 20));
    assert_eq!(c.size, Vector2D::new(300, 200));
}

#[test]
fn map_request_leaves_docks_unmanaged() {
    let mut state = State::default();
    let config = Config::default();

    let acts = handle_event(
        &mut state,
        &config,
        Event::MapRequest {
            window: 42,
            is_dock: true,
            x: 0,
            y: 0,
            width: 10,
            height: 10,
        },
    )
    .unwrap();

    assert_eq!(acts, vec![Action::MapWindow { window: 42 }]);
    assert!(state.active_workspace_clients().is_empty());
}

#[test]
fn motion_with_drag_button_moves_the_window() {
    let mut state = State::default();
    let config = Config::default();
    state
        .add_client(7, Vector2D::new(0, 0), Vector2D::new(100, 100))
        .unwrap();
    state.drag_start_pos = Vector2D::new(5, 5);
    state.drag_start_frame_pos = Vector2D::new(100, 100);

    let acts = handle_event(
        &mut state,
        &config,
        Event::Motion {
            window: 7,
            root_x: 25,
            root_y: 15,
            mod_held: true,
            drag_held: true,
            resize_held: false,
        },
    )
    .unwrap();

    // Position tracks the cursor delta from the gesture's start.
    assert_eq!(acts, vec![Action::MoveWindow { window: 7, x: 120, y: 110 }]);
    assert_eq!(
        state.active_workspace_clients().get(&7).unwrap().pos,
        Vector2D::new(120, 110)
    );
}

#[test]
fn motion_without_modifier_does_nothing() {
    let mut state = State::default();
    let config = Config::default();
    state
        .add_client(7, Vector2D::new(0, 0), Vector2D::new(100, 100))
        .unwrap();

    let acts = handle_event(
        &mut state,
        &config,
        Event::Motion {
            window: 7,
            root_x: 25,
            root_y: 15,
            mod_held: false,
            drag_held: true,
            resize_held: false,
        },
    )
    .unwrap();

    assert!(acts.is_empty());
    assert_eq!(
        state.active_workspace_clients().get(&7).unwrap().pos,
        Vector2D::new(0, 0)
    );
}

#[test]
fn set_border_width_reconfigures_every_client() {
    let mut state = State::default();
    let mut config = Config::default();
    state
        .add_client(1, Vector2D::new(0, 0), Vector2D::new(10, 10))
        .unwrap();
    state
        .add_client(2, Vector2D::new(20, 0), Vector2D::new(10, 10))
        .unwrap();

    let r = handle_command(&mut state, &mut config, Command::SetBorderWidth { width: 3 });

    assert_eq!(config.border_width, 3);
    assert_eq!(
        r,
        Reaction::Do(vec![
            Action::SetWindowBorderWidth { window: 1, width: 3 },
            Action::SetWindowBorderWidth { window: 2, width: 3 },
        ])
    );
}

#[test]
fn set_border_color_skips_the_focused_window() {
    let mut state = State::default();
    let mut config = Config::default();
    state
        .add_client(1, Vector2D::new(0, 0), Vector2D::new(10, 10))
        .unwrap();
    state
        .add_client(2, Vector2D::new(20, 0), Vector2D::new(10, 10))
        .unwrap();
    state.set_focused(Some(1));

    let r = handle_command(&mut state, &mut config, Command::SetBorderColor { color: 9 });

    assert_eq!(config.border_color, 9);
    assert_eq!(
        r,
        Reaction::Do(vec![Action::SetWindowBorderColor { window: 2, color: 9 }])
    );
}

#[test]
fn set_focused_border_color_recolors_only_the_focused_window() {
    let mut state = State::default();
    let mut config = Config::default();
    state
        .add_client(1, Vector2D::new(0, 0), Vector2D::new(10, 10))
        .unwrap();
    state.set_focused(Some(1));

    let r = handle_command(
        &mut state,
        &mut config,
        Command::SetFocusedBorderColor { color: 5 },
    );

    assert_eq!(config.focused_border_color, 5);
    assert_eq!(
        r,
        Reaction::Do(vec![Action::SetWindowBorderColor { window: 1, color: 5 }])
    );
}

#[test]
fn focus_command_emits_the_focus_side_effects() {
    let mut state = State::default();
    let mut config = Config::default();
    state
        .add_client(1, Vector2D::new(0, 0), Vector2D::new(10, 10))
        .unwrap();
    state
        .add_client(2, Vector2D::new(20, 0), Vector2D::new(10, 10))
        .unwrap();
    state.set_focused(Some(1));

    let r = handle_command(
        &mut state,
        &mut config,
        Command::Focus {
            selector: WindowSelector::Window(2),
        },
    );

    assert_eq!(state.focused, Some(2));
    assert_eq!(state.last_focused, Some(1));
    assert_eq!(
        r,
        Reaction::Do(vec![
            Action::SetWindowBorderColor { window: 1, color: config.border_color },
            Action::SetInputFocus { window: 2 },
            Action::SetWindowBorderColor { window: 2, color: config.focused_border_color },
            Action::SetInputFocus { window: 2 },
            Action::RaiseWindow { window: 2 },
            Action::SetActiveWindow { window: 2 },
        ])
    );
}

#[test]
fn activate_workspace_unmaps_switches_then_maps() {
    let mut state = State::default();
    let mut config = Config::default();
    state
        .add_client(1, Vector2D::new(0, 0), Vector2D::new(10, 10))
        .unwrap();
    state.add_workspace(Some("two".to_owned())).unwrap();
    state
        .activate_workspace(WorkspaceSelector::Index(1))
        .unwrap();
    state
        .add_client(2, Vector2D::new(0, 0), Vector2D::new(10, 10))
        .unwrap();

    let r = handle_command(
        &mut state,
        &mut config,
        Command::ActivateWorkspace {
            selector: WorkspaceSelector::Name("1".to_owned()),
        },
    );

    assert_eq!(state.active_workspace, 0);
    assert_eq!(
        r,
        Reaction::Do(vec![
            Action::UnmapWindow { window: 2 },
            Action::SetCurrentDesktop { index: 0 },
            Action::MapWindow { window: 1 },
        ])
    );
}

#[test]
fn rejected_commands_leave_state_alone() {
    let mut state = State::default();
    let mut config = Config::default();

    let r = handle_command(
        &mut state,
        &mut config,
        Command::ActivateWorkspace {
            selector: WorkspaceSelector::Name("missing".to_owned()),
        },
    );

    assert_eq!(
        r,
        Reaction::Rejected(toniowm::state::Error::WorkspaceNotFound)
    );
    assert_eq!(state.active_workspace, 0);
}

#[test]
fn add_workspace_command_advertises_desktops() {
    let mut state = State::default();
    let mut config = Config::default();

    let r = handle_command(
        &mut state,
        &mut config,
        Command::AddWorkspace { name: Some("two".to_owned()) },
    );

    assert_eq!(
        r,
        Reaction::Do(vec![
            Action::SetNumberOfDesktops { count: 2 },
            Action::SetDesktopNames { names: vec!["1".to_owned(), "two".to_owned()] },
        ])
    );
}

#[test]
fn destroy_notify_for_unknown_window_is_harmless() {
    let mut state = State::default();
    let config = Config::default();

    let acts = handle_event(&mut state, &config, Event::DestroyNotify { window: 9 }).unwrap();

    assert!(acts.is_empty());
}

#[test]
fn close_action_prefers_the_graceful_protocol() {
    assert_eq!(close_action(4, true), Action::SendDeleteMessage { window: 4 });
    assert_eq!(close_action(4, false), Action::KillClient { window: 4 });
}

#[test]
fn refresh_actions_carry_the_names_in_order() {
    let mut state = State::default();
    state.add_workspace(Some("two".to_owned())).unwrap();

    let acts = refresh_workspaces_actions(&state);

    assert_eq!(acts.len(), 2);
    assert_eq!(acts[0], Action::SetNumberOfDesktops { count: 2 });
    assert_eq!(
        acts[1],
        Action::SetDesktopNames { names: vec!["1".to_owned(), "two".to_owned()] }
    );
}

#[test]
fn button_press_records_anchors_and_focuses() {
    let mut state = State::default();
    state.root = 99;
    let config = Config::default();
    state
        .add_client(7, Vector2D::new(40, 40), Vector2D::new(100, 100))
        .unwrap();

    let acts = handle_event(
        &mut state,
        &config,
        Event::ButtonPress {
            window: 7,
            root_x: 12,
            root_y: 34,
            frame_x: 40,
            frame_y: 40,
            is_select_button: true,
        },
    )
    .unwrap();

    assert_eq!(state.drag_start_pos, Vector2D::new(12, 34));
    assert_eq!(state.drag_start_frame_pos, Vector2D::new(40, 40));
    assert_eq!(state.focused, Some(7));
    assert_eq!(acts.last(), Some(&Action::SetActiveWindow { window: 7 }));
}

#[test]
fn configure_request_is_honored_verbatim() {
    let mut state = State::default();
    let config = Config::default();

    let acts = handle_event(
        &mut state,
        &config,
        Event::ConfigureRequest {
            window: 3,
            is_dock: false,
            x: 1,
            y: 2,
            width: 30,
            height: 40,
            stack_mode: 0,
        },
    )
    .unwrap();

    assert_eq!(
        acts,
        vec![Action::ConfigureVerbatim {
            window: 3,
            x: 1,
            y: 2,
            width: 30,
            height: 40,
            border_width: config.border_width,
            stack_mode: 0,
        }]
    );
}
