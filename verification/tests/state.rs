use toniowm::commands::{CardinalDirection, WindowSelector, WorkspaceSelector};
use toniowm::state::{Client, Error, State};
use toniowm::Vector2D;

#[test]
fn test_add_workspace() {
    let mut state = State::default();
    state.add_workspace(Some("test".to_owned())).unwrap();

    let names = state.workspaces_names();
    assert_eq!(names.len(), 2);
    assert!(names.iter().any(|n| n == "test"));
}

#[test]
fn test_add_workspace_no_name() {
    let mut state = State::default();
    state.add_workspace(None).unwrap();

    let names = state.workspaces_names();
    assert_eq!(names.len(), 2);
    assert!(names.iter().any(|n| n == "1"));
}

#[test]
fn test_add_workspace_already_exists() {
    let mut state = State::default();
    state.add_workspace(Some("test".to_owned())).unwrap();

    assert!(matches!(
        state.add_workspace(Some("test".to_owned())),
        Err(Error::WorkspaceAlreadyExists)
    ));
}

#[test]
fn workspaces_names() {
    let mut state = State::default();
    state.add_workspace(Some("2".to_owned())).unwrap();
    state.add_workspace(Some("3".to_owned())).unwrap();

    let workspaces_names = state.workspaces_names();

    assert_eq!(workspaces_names, vec!["1", "2", "3"]);
}

#[test]
fn test_activate_workspace() {
    let mut state = State::default();
    state.add_workspace(Some("test".to_owned())).unwrap();

    let index = state
        .activate_workspace(WorkspaceSelector::Name("test".to_string()))
        .unwrap();

    assert_eq!(1, index);
    assert_eq!(1, state.active_workspace);
}

#[test]
fn test_activate_workspace_not_found() {
    let mut state = State::default();
    let result = state.activate_workspace(WorkspaceSelector::Name("test".to_string()));

    assert!(matches!(result, Err(Error::WorkspaceNotFound)));
    assert_eq!(0, state.active_workspace);
}

#[test]
fn test_add_client() {
    let mut state = State::default();
    let window = 123;
    let pos = Vector2D::new(0, 0);
    let size = Vector2D::new(100, 100);

    state.add_client(window, pos, size).unwrap();

    let expected_client = Client { window, pos, size };

    assert_eq!(
        &expected_client,
        state.active_workspace_clients().get(&window).unwrap(),
    );
}

#[test]
fn test_add_client_already_exists() {
    let mut state = State::default();
    let window = 123;
    let pos = Vector2D::new(0, 0);
    let size = Vector2D::new(100, 100);

    state.add_client(window, pos, size).unwrap();

    let result = state.add_client(window, pos, size);

    assert!(matches!(result, Err(Error::ClientAlreadyExists)));
}

#[test]
fn test_remove_client() {
    let mut state = State::default();
    let window = 123;
    let pos = Vector2D::new(0, 0);
    let size = Vector2D::new(100, 100);

    state.add_client(window, pos, size).unwrap();
    state.set_focused(Some(window));

    let result = state.remove_client(window);

    assert!(matches!(result, Ok(())));
    assert_eq!(state.active_workspace_clients().len(), 0);
    assert_eq!(state.focused, None);
}

#[test]
fn test_remove_client_not_found() {
    let mut state = State::default();
    let window = 123;

    let result = state.remove_client(window);

    assert!(matches!(result, Err(Error::ClientNotFound)));
}

#[test]
fn test_drag_client() {
    let mut state = State::default();
    let window = 123;
    let pos = Vector2D::new(0, 0);
    let size = Vector2D::new(100, 100);

    state.add_client(window, pos, size).unwrap();

    let new_pos = Vector2D::new(10, 10);
    let pos = state.drag_client(window, new_pos).unwrap();

    assert_eq!(
        new_pos,
        state.active_workspace_clients().get(&window).unwrap().pos
    );
    assert_eq!(new_pos, pos);
}

#[test]
fn test_drag_client_not_found() {
    let mut state = State::default();
    let window = 123;

    let result = state.drag_client(window, Vector2D::new(10, 10));

    assert!(matches!(result, Err(Error::ClientNotFound)));
}

#[test]
fn test_drag_resize_client() {
    let mut state = State::default();
    let window = 123;
    let pos = Vector2D::new(0, 0);
    let size = Vector2D::new(100, 100);

    state.add_client(window, pos, size).unwrap();

    let new_size = Vector2D::new(50, 50);
    let size = state.drag_resize_client(window, new_size).unwrap();

    assert_eq!(
        new_size,
        state.active_workspace_clients().get(&window).unwrap().size
    );
    assert_eq!(new_size, size);
}

#[test]
fn test_drag_resize_client_min_value() {
    let mut state = State::default();
    let window = 123;
    let pos = Vector2D::new(0, 0);
    let size = Vector2D::new(100, 100);

    state.add_client(window, pos, size).unwrap();

    let size = state
        .drag_resize_client(window, Vector2D::new(0, 0))
        .unwrap();

    assert_eq!(size, Vector2D::new(32, 32));
}

#[test]
fn test_drag_resize_client_not_found() {
    let mut state = State::default();
    let window = 123;

    let result = state.drag_resize_client(window, Vector2D::new(50, 50));

    assert!(matches!(result, Err(Error::ClientNotFound)));
}

#[test]
fn test_teleport_client() {
    let mut state = State::default();
    let window = 123;
    let pos = Vector2D::new(0, 0);
    let size = Vector2D::new(100, 100);

    state.add_client(window, pos, size).unwrap();

    let new_pos = Vector2D::new(10, 10);
    state.teleport_client(window, new_pos).unwrap();

    assert_eq!(
        new_pos,
        state.active_workspace_clients().get(&window).unwrap().pos
    );
}

#[test]
fn test_teleport_client_not_found() {
    let mut state = State::default();
    let window = 123;

    let result = state.teleport_client(window, Vector2D::new(10, 10));

    assert!(matches!(result, Err(Error::ClientNotFound)));
}

#[test]
fn test_focus_client() {
    let mut state = State::default();
    state.root = 0;
    let window = 123;
    let pos = Vector2D::new(0, 0);
    let size = Vector2D::new(100, 100);

    state.add_client(window, pos, size).unwrap();

    state.focus_client(WindowSelector::Window(window)).unwrap();

    assert_eq!(state.focused, Some(window));

    state.focus_client(WindowSelector::Window(state.root)).unwrap();

    assert_eq!(state.focused, None);
    assert_eq!(state.last_focused, Some(window));
}

#[test]
fn test_select_client_window_selector_focused() {
    let mut state = State::default();
    let window = 123;
    state
        .add_client(window, Vector2D::new(0, 0), Vector2D::new(100, 100))
        .unwrap();
    state.set_focused(Some(window));

    let client = state.select_client(WindowSelector::Focused).unwrap();

    assert_eq!(window, client.window());
}

#[test]
fn test_select_client_window_selector_closest() {
    let mut state = State::default();
    let window_ne = 1;
    let window_nw = 2;
    let window_sw = 3;
    let window_se = 4;

    state
        .add_client(window_nw, Vector2D::new(0, 0), Vector2D::new(100, 100))
        .unwrap();

    state
        .add_client(window_ne, Vector2D::new(150, 0), Vector2D::new(100, 100))
        .unwrap();

    state
        .add_client(window_sw, Vector2D::new(0, 150), Vector2D::new(100, 100))
        .unwrap();

    state
        .add_client(window_se, Vector2D::new(150, 150), Vector2D::new(100, 100))
        .unwrap();

    state.set_focused(Some(window_ne));
    let client = state
        .select_client(WindowSelector::Closest(CardinalDirection::South))
        .unwrap();
    assert_eq!(window_se, client.window());

    state.set_focused(Some(window_se));
    let client = state
        .select_client(WindowSelector::Closest(CardinalDirection::West))
        .unwrap();
    assert_eq!(window_sw, client.window());

    state.set_focused(Some(window_sw));
    let client = state
        .select_client(WindowSelector::Closest(CardinalDirection::North))
        .unwrap();
    assert_eq!(window_nw, client.window());
}

#[test]
fn select_client_unknown_window_not_found() {
    let state = State::default();

    let result = state.select_client(WindowSelector::Window(9));

    assert!(matches!(result, Err(Error::ClientNotFound)));
}

#[test]
fn add_client_twice_keeps_one_entry() {
    let mut state = State::default();
    let window = 7;
    let pos = Vector2D::new(5, 5);
    let size = Vector2D::new(10, 10);

    state.add_client(window, pos, size).unwrap();
    let result = state.add_client(window, pos, size);

    assert!(matches!(result, Err(Error::ClientAlreadyExists)));
    assert_eq!(state.active_workspace_clients().len(), 1);
    assert_eq!(
        state.active_workspace_clients().get(&window),
        Some(&Client { window, pos, size })
    );
}

#[test]
fn remove_focused_clears_focus_not_last_focused() {
    let mut state = State::default();
    state
        .add_client(1, Vector2D::new(0, 0), Vector2D::new(50, 50))
        .unwrap();
    state
        .add_client(2, Vector2D::new(60, 0), Vector2D::new(50, 50))
        .unwrap();
    state.set_focused(Some(1));
    state.set_focused(Some(2));
    assert_eq!(state.last_focused, Some(1));

    state.remove_client(2).unwrap();

    assert_eq!(state.focused, None);
    assert_eq!(state.last_focused, Some(1));
}

#[test]
fn drag_resize_floors_each_axis_independently() {
    let mut state = State::default();
    state
        .add_client(1, Vector2D::new(0, 0), Vector2D::new(100, 100))
        .unwrap();

    let size = state
        .drag_resize_client(1, Vector2D::new(500, 0))
        .unwrap();

    assert_eq!(size, Vector2D::new(500, 32));
}

#[test]
fn focus_closest_walks_the_compass() {
    let mut state = State::default();
    // Four clients at the spec's corners, each 100 by 100.
    state
        .add_client(10, Vector2D::new(0, 0), Vector2D::new(100, 100))
        .unwrap(); // NE
    state
        .add_client(11, Vector2D::new(150, 0), Vector2D::new(100, 100))
        .unwrap(); // NW
    state
        .add_client(12, Vector2D::new(0, 150), Vector2D::new(100, 100))
        .unwrap(); // SE
    state
        .add_client(13, Vector2D::new(150, 150), Vector2D::new(100, 100))
        .unwrap(); // SW
    state.set_focused(Some(10));

    let w = state
        .focus_closest_client(WindowSelector::Focused, CardinalDirection::East)
        .unwrap();
    assert_eq!(w, Some(11));
    assert_eq!(state.focused, Some(11));

    let w = state
        .focus_closest_client(WindowSelector::Focused, CardinalDirection::South)
        .unwrap();
    assert_eq!(w, Some(13));

    let w = state
        .focus_closest_client(WindowSelector::Focused, CardinalDirection::West)
        .unwrap();
    assert_eq!(w, Some(12));

    let w = state
        .focus_closest_client(WindowSelector::Focused, CardinalDirection::North)
        .unwrap();
    assert_eq!(w, Some(10));
}

#[test]
fn focus_closest_without_candidate_keeps_focus() {
    let mut state = State::default();
    state
        .add_client(1, Vector2D::new(0, 0), Vector2D::new(100, 100))
        .unwrap();
    state.set_focused(Some(1));

    let result = state
        .focus_closest_client(WindowSelector::Focused, CardinalDirection::East)
        .unwrap();

    assert_eq!(result, None);
    assert_eq!(state.focused, Some(1));
}

#[test]
fn default_numbering_yields_ordered_names() {
    let mut state = State::default();
    state.add_workspace(None).unwrap();
    state.add_workspace(None).unwrap();

    assert_eq!(state.workspaces_names(), vec!["1", "2", "3"]);
}

#[test]
fn rename_workspace_collision_changes_nothing() {
    let mut state = State::default();
    state.add_workspace(Some("two".to_owned())).unwrap();

    let result = state.rename_workspace(WorkspaceSelector::Index(1), "1".to_owned());

    assert!(matches!(result, Err(Error::WorkspaceAlreadyExists)));
    assert_eq!(state.workspaces_names(), vec!["1", "two"]);
}

#[test]
fn rename_workspace_keeps_position_and_clients() {
    let mut state = State::default();
    state
        .add_client(5, Vector2D::new(1, 2), Vector2D::new(3, 4))
        .unwrap();
    state.add_workspace(Some("side".to_owned())).unwrap();

    state
        .rename_workspace(WorkspaceSelector::Name("1".to_owned()), "main".to_owned())
        .unwrap();

    assert_eq!(state.workspaces_names(), vec!["main", "side"]);
    assert!(state.active_workspace_clients().get(&5).is_some());

    // The renamed workspace is findable under its new name.
    let index = state
        .activate_workspace(WorkspaceSelector::Name("main".to_owned()))
        .unwrap();
    assert_eq!(index, 0);
}

#[test]
fn activate_workspace_clears_focus() {
    let mut state = State::default();
    state
        .add_client(5, Vector2D::new(0, 0), Vector2D::new(10, 10))
        .unwrap();
    state.set_focused(Some(5));
    state.add_workspace(Some("other".to_owned())).unwrap();

    state
        .activate_workspace(WorkspaceSelector::Index(1))
        .unwrap();

    assert_eq!(state.focused, None);
    assert_eq!(state.last_focused, None);
    assert_eq!(state.active_workspace_clients().len(), 0);
}

#[test]
fn error_messages_are_stable() {
    assert_eq!(Error::ClientNotFound.message(), "Client not found.");
    assert_eq!(Error::ClientAlreadyExists.message(), "Client already exists.");
    assert_eq!(
        Error::WorkspaceAlreadyExists.message(),
        "Workspace already exists."
    );
    assert_eq!(Error::WorkspaceNotFound.message(), "Workspace not found.");
}
