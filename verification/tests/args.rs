use toniowm::args;
use toniowm::commands;

fn default_window_selector() -> args::WindowSelector {
    args::WindowSelector {
        focused: true,
        window: None,
        closest: None,
        cycle: None,
    }
}

#[test]
fn window_selector_defaults_to_focused() {
    let sel = commands::WindowSelector::from_args(default_window_selector());
    assert_eq!(sel, commands::WindowSelector::Focused);
}

#[test]
fn window_selector_takes_the_explicit_id() {
    let sel = commands::WindowSelector::from_args(args::WindowSelector {
        window: Some(5),
        ..default_window_selector()
    });
    assert_eq!(sel, commands::WindowSelector::Window(5));
}

#[test]
fn window_selector_takes_the_direction() {
    let sel = commands::WindowSelector::from_args(args::WindowSelector {
        closest: Some(args::CardinalDirection::South),
        ..default_window_selector()
    });
    assert_eq!(
        sel,
        commands::WindowSelector::Closest(commands::CardinalDirection::South)
    );
}

#[test]
fn workspace_selector_by_index_and_name() {
    let by_index = commands::WorkspaceSelector::from_args(args::WorkspaceSelector {
        index: Some(2),
        name: None,
    });
    assert_eq!(by_index, commands::WorkspaceSelector::Index(2));

    let by_name = commands::WorkspaceSelector::from_args(args::WorkspaceSelector {
        index: None,
        name: Some("mail".to_owned()),
    });
    assert_eq!(
        by_name,
        commands::WorkspaceSelector::Name("mail".to_owned())
    );
}

#[test]
fn cli_config_commands_map_to_border_settings() {
    let c = commands::Command::from_args(args::Command::Config(args::Config::BorderWidth {
        width: 4,
    }));
    assert_eq!(c, commands::Command::SetBorderWidth { width: 4 });

    let c = commands::Command::from_args(args::Command::RenameWorkspace {
        selector: args::WorkspaceSelector {
            index: Some(0),
            name: None,
        },
        new_name: "imp".to_owned(),
    });
    assert_eq!(
        c,
        commands::Command::RenameWorkspace {
            selector: commands::WorkspaceSelector::Index(0),
            name: "imp".to_owned(),
        }
    );
}
