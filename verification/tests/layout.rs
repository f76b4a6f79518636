use toniowm::layout::VerticalSplitLayout;
use toniowm::state::{Client, State};
use toniowm::Vector2D;

#[test]
fn vertical_split_divides_the_monitor_evenly() {
    // Build a client map through the registry, then lay it out.
    let mut state = State::default();
    state
        .add_client(1, Vector2D::new(0, 0), Vector2D::new(10, 10))
        .unwrap();
    state
        .add_client(2, Vector2D::new(0, 0), Vector2D::new(10, 10))
        .unwrap();

    let layout = VerticalSplitLayout {
        monitor_size: Vector2D::new(1000, 800),
        top_gap: 10,
        bottom_gap: 10,
        left_gap: 20,
        right_gap: 20,
        window_gap: 10,
    };

    let mut clients = state.active_workspace_clients().clone();
    layout.apply_layout(&mut clients);

    // Usable width: 1000 - 20 - 20 - 10 = 950; columns of 475.
    assert_eq!(
        clients.get(&1),
        Some(&Client {
            window: 1,
            pos: Vector2D::new(20, 10),
            size: Vector2D::new(475, 780),
        })
    );
    assert_eq!(
        clients.get(&2),
        Some(&Client {
            window: 2,
            pos: Vector2D::new(20 + 475 + 10, 10),
            size: Vector2D::new(475, 780),
        })
    );
}

#[test]
fn decimal_rendering_matches() {
    assert_eq!(toniowm::numfmt::usize_to_string(0), "0");
    assert_eq!(toniowm::numfmt::usize_to_string(7), "7");
    assert_eq!(toniowm::numfmt::usize_to_string(12345), "12345");
    assert_eq!(toniowm::numfmt::usize_to_string(1000000), "1000000");
}
