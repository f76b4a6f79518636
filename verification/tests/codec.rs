use toniowm::codec::{decode_command, encode_command};
use toniowm::commands::{
    CardinalDirection, Command, CycleDirection, WindowSelector, WorkspaceSelector,
};

fn round_trip(cmd: Command) {
    let bytes = encode_command(&cmd);
    let back = decode_command(&bytes);
    assert_eq!(back, Some(cmd));
}

#[test]
fn wire_round_trip_focus_window() {
    // The IPC round trip of the spec: serialize, carry the bytes, decode.
    let cmd = Command::Focus {
        selector: WindowSelector::Window(42),
    };
    let bytes = encode_command(&cmd);
    assert_eq!(bytes, b"{\"Focus\":{\"selector\":{\"Window\":42}}}".to_vec());
    assert_eq!(decode_command(&bytes), Some(cmd));
}

#[test]
fn wire_round_trip_every_variant() {
    round_trip(Command::Quit);
    round_trip(Command::Focus {
        selector: WindowSelector::Focused,
    });
    round_trip(Command::Focus {
        selector: WindowSelector::Closest(CardinalDirection::North),
    });
    round_trip(Command::Close {
        selector: WindowSelector::Cycle(CycleDirection::Prev),
    });
    round_trip(Command::AddWorkspace { name: None });
    round_trip(Command::AddWorkspace {
        name: Some("web".to_owned()),
    });
    round_trip(Command::RenameWorkspace {
        selector: WorkspaceSelector::Index(3),
        name: "mail".to_owned(),
    });
    round_trip(Command::RenameWorkspace {
        selector: WorkspaceSelector::Name("old".to_owned()),
        name: "new".to_owned(),
    });
    round_trip(Command::ActivateWorkspace {
        selector: WorkspaceSelector::Index(0),
    });
    round_trip(Command::SetBorderWidth { width: 0 });
    round_trip(Command::SetBorderWidth { width: 4294967295 });
    round_trip(Command::SetBorderColor { color: 0xcccccc });
    round_trip(Command::SetFocusedBorderColor { color: 0x00ccff });
}

#[test]
fn wire_quit_is_a_bare_string() {
    assert_eq!(encode_command(&Command::Quit), b"\"Quit\"".to_vec());
    assert_eq!(decode_command(&b"\"Quit\"".to_vec()), Some(Command::Quit));
}

#[test]
fn wire_escapes_names() {
    let cmd = Command::AddWorkspace {
        name: Some("a\"b\\c\nd\u{1b}e".to_owned()),
    };
    let bytes = encode_command(&cmd);
    assert_eq!(
        bytes,
        b"{\"AddWorkspace\":{\"name\":\"a\\\"b\\\\c\\nd\\u001be\"}}".to_vec()
    );
    assert_eq!(decode_command(&bytes), Some(cmd));
}

#[test]
fn wire_keeps_unicode_names() {
    round_trip(Command::AddWorkspace {
        name: Some("bureau \u{e9}t\u{e9} \u{1f5a5}".to_owned()),
    });
}

#[test]
fn wire_rejects_garbage() {
    assert_eq!(decode_command(&b"nonsense".to_vec()), None);
    assert_eq!(decode_command(&b"".to_vec()), None);
    assert_eq!(decode_command(&b"{\"Focus\":{\"selector\":\"Focused\"}}x".to_vec()), None);
    assert_eq!(decode_command(&b"{\"SetBorderWidth\":{\"width\":4294967296}}".to_vec()), None);
    assert_eq!(decode_command(&b"{\"SetBorderWidth\":{\"width\":007}}".to_vec()), None);
}

#[test]
fn wire_name_with_index_selector() {
    let cmd = Command::ActivateWorkspace {
        selector: WorkspaceSelector::Index(7),
    };
    assert_eq!(
        encode_command(&cmd),
        b"{\"ActivateWorkspace\":{\"selector\":{\"Index\":7}}}".to_vec()
    );
}
