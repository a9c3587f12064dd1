use tryfol::hyprland::events::{drain_events, Event, StreamError};
use tryfol::hyprland::legacy;
use tryfol::hyprland::{ParseError, WindowAddress, Workspace};

#[test]
fn workspace_from_id_sign() {
    assert!(matches!(Workspace::from(3, "three".to_string()), Workspace::Regular { id: 3, ref name } if name == "three"));
    assert!(matches!(Workspace::from(-98, "special".to_string()), Workspace::Special { id: -98, .. }));
    assert!(matches!(Workspace::from(0, String::new()), Workspace::Regular { id: 0, .. }));
}

#[test]
fn workspace_from_raw_text() {
    assert!(matches!(Workspace::from_raw("12", "x".to_string()), Ok(Workspace::Regular { id: 12, .. })));
    assert!(matches!(Workspace::from_raw("+7", "x".to_string()), Ok(Workspace::Regular { id: 7, .. })));
    assert!(matches!(Workspace::from_raw("-2147483648", "x".to_string()), Ok(Workspace::Special { id: i32::MIN, .. })));
    assert!(matches!(Workspace::from_raw("2147483648", "x".to_string()), Err(ParseError::InvalidWorkspaceId)));
    assert!(matches!(Workspace::from_raw("", "x".to_string()), Err(ParseError::InvalidWorkspaceId)));
    assert!(matches!(Workspace::from_raw("1a", "x".to_string()), Err(ParseError::InvalidWorkspaceId)));
}

#[test]
fn window_address_hex() {
    assert_eq!(WindowAddress::from("5a3f"), Ok(WindowAddress(0x5a3f)));
    assert_eq!(WindowAddress::from("FFFFFFFF"), Ok(WindowAddress(u32::MAX)));
    assert_eq!(WindowAddress::from("100000000"), Err(ParseError::InvalidWindowAddress));
    assert_eq!(WindowAddress::from("0x12"), Err(ParseError::InvalidWindowAddress));
    assert_eq!(WindowAddress::from(""), Err(ParseError::InvalidWindowAddress));
}

#[test]
fn window_address_prints_like_hash_x() {
    assert_eq!(WindowAddress(0x5a3f).to_hex_string(), format!("{:#x}", 0x5a3fu32));
    assert_eq!(WindowAddress(0).to_hex_string(), "0x0");
    assert_eq!(WindowAddress(u32::MAX).to_hex_string(), "0xffffffff");
    assert_eq!(legacy::WindowAddress(255).to_hex_string(), "0xff");
}

#[test]
fn printed_address_reads_back() {
    for v in [0u32, 1, 0xabc, 0xdead_beef, u32::MAX] {
        let text = WindowAddress(v).to_hex_string();
        assert_eq!(WindowAddress::from(&text[2..]), Ok(WindowAddress(v)));
    }
}

#[test]
fn event_workspacev2() {
    match Event::from("workspacev2>>3,three") {
        Ok(Event::WorkspaceV2(Workspace::Regular { id, name })) => {
            assert_eq!(id, 3);
            assert_eq!(name, "three");
        }
        other => panic!("unexpected {other:?}"),
    }
    assert!(matches!(
        Event::from("createworkspacev2>>-98,special:magic"),
        Ok(Event::CreateWorkspaceV2(Workspace::Special { id: -98, .. }))
    ));
    assert!(matches!(
        Event::from("destroyworkspacev2>>4,4"),
        Ok(Event::DestroyWorkspaceV2(Workspace::Regular { id: 4, .. }))
    ));
}

#[test]
fn event_activewindow_title_keeps_commas() {
    match Event::from("activewindow>>kitty,a, b, c") {
        Ok(Event::ActiveWindow { class, title }) => {
            assert_eq!(class, "kitty");
            assert_eq!(title, "a, b, c");
        }
        other => panic!("unexpected {other:?}"),
    }
    match Event::from("activewindow>>,") {
        Ok(Event::ActiveWindow { class, title }) => {
            assert_eq!(class, "");
            assert_eq!(title, "");
        }
        other => panic!("unexpected {other:?}"),
    }
}

#[test]
fn event_openwindow_four_fields() {
    match Event::from("openwindow>>5a3f,1,kitty,my title,with comma") {
        Ok(Event::OpenWindow { address, class, title, workspace_name }) => {
            assert_eq!(address, WindowAddress(0x5a3f));
            assert_eq!(workspace_name, "1");
            assert_eq!(class, "kitty");
            assert_eq!(title, "my title,with comma");
        }
        other => panic!("unexpected {other:?}"),
    }
}

#[test]
fn event_errors() {
    assert!(matches!(Event::from("nonsense"), Err(ParseError::MalformedEvent)));
    assert!(matches!(Event::from("foo>>bar"), Err(ParseError::UnknownEvent)));
    assert!(matches!(Event::from("workspacev2>>abc,name"), Err(ParseError::InvalidWorkspaceId)));
    assert!(matches!(Event::from("workspacev2>>3"), Err(ParseError::MalformedArguments)));
    assert!(matches!(Event::from("activewindow>>nocomma"), Err(ParseError::MalformedArguments)));
    assert!(matches!(Event::from("openwindow>>5a3f,1,kitty"), Err(ParseError::MalformedArguments)));
    assert!(matches!(Event::from("openwindow>>zz,1,a,b"), Err(ParseError::InvalidWindowAddress)));
}

#[test]
fn event_simple_names() {
    assert!(matches!(Event::from("workspace>>2"), Ok(Event::Workspace { ref name }) if name == "2"));
    assert!(matches!(Event::from("focusedmon>>DP-1,2"), Ok(Event::FocusedMonitor)));
    assert!(matches!(Event::from("closewindow>>5a3f"), Ok(Event::CloseWindow)));
    assert!(matches!(Event::from("configreloaded>>"), Ok(Event::ConfigReloaded)));
    assert!(matches!(Event::from("pin>>1,1"), Ok(Event::Pin)));
    assert!(matches!(Event::from("a>>b>>c"), Err(ParseError::UnknownEvent)));
}

#[test]
fn drain_complete_lines_keeps_rest() {
    let mut data = b"workspace>>1\nfocusedmon>>x\npartial".to_vec();
    let events = drain_events(&mut data).unwrap();
    assert_eq!(events.len(), 2);
    assert!(matches!(events[0], Ok(Event::Workspace { .. })));
    assert!(matches!(events[1], Ok(Event::FocusedMonitor)));
    assert_eq!(data, b"partial".to_vec());
}

#[test]
fn drain_without_newline_waits() {
    let mut data = b"workspace>>1".to_vec();
    let events = drain_events(&mut data).unwrap();
    assert!(events.is_empty());
    assert_eq!(data, b"workspace>>1".to_vec());
}

#[test]
fn drain_leading_newline_gives_no_event() {
    let mut data = b"\nrest".to_vec();
    let events = drain_events(&mut data).unwrap();
    assert!(events.is_empty());
    assert_eq!(data, b"rest".to_vec());
}

#[test]
fn drain_empty_line_is_an_error_event() {
    let mut data = b"workspace>>1\n\nfocusedmon>>x\n".to_vec();
    let events = drain_events(&mut data).unwrap();
    assert_eq!(events.len(), 3);
    assert!(matches!(events[1], Err(ParseError::MalformedEvent)));
    assert!(data.is_empty());
}

#[test]
fn drain_invalid_utf8_clears() {
    let mut data = vec![b'a', 0xff, b'\n'];
    assert_eq!(drain_events(&mut data).err(), Some(StreamError::InvalidUtf8));
    assert!(data.is_empty());
}

#[test]
fn legacy_workspace_id() {
    assert_eq!(legacy::WorkspaceId::from("5"), Ok(legacy::WorkspaceId(5)));
    assert_eq!(legacy::WorkspaceId::from("x"), Err(ParseError::InvalidWorkspaceId));
    assert!(legacy::WorkspaceId(-1).is_special());
    assert!(!legacy::WorkspaceId(0).is_special());
}

#[test]
fn legacy_window_address() {
    assert_eq!(legacy::WindowAddress::from("ff"), Ok(legacy::WindowAddress(255)));
    assert_eq!(legacy::WindowAddress::from("g"), Err(ParseError::InvalidWindowAddress));
}

#[test]
fn legacy_event_workspacev2() {
    match legacy::Event::from("workspacev2>>-5,special") {
        Ok(legacy::Event::WorkspaceV2 { id, name }) => {
            assert_eq!(id, legacy::WorkspaceId(-5));
            assert!(id.is_special());
            assert_eq!(name, "special");
        }
        other => panic!("unexpected {other:?}"),
    }
    assert!(matches!(legacy::Event::from("x"), Err(ParseError::MalformedEvent)));
}

#[test]
fn legacy_events_of_text() {
    let events = legacy::events_of("workspace>>1\nactivewindow>>a,b\n");
    assert_eq!(events.len(), 3);
    assert!(matches!(events[0], Ok(legacy::Event::Workspace { .. })));
    assert!(matches!(events[1], Ok(legacy::Event::ActiveWindow { .. })));
    assert!(matches!(events[2], Err(ParseError::MalformedEvent)));
}

fn event_names(events: &[Result<Event, ParseError>]) -> Vec<String> {
    events.iter().map(|e| format!("{:?}", e)).collect()
}

#[test]
fn drain_in_two_reads_matches_one_read() {
    let first = "workspace>>1\nactivewindow>>kitty,é".as_bytes();
    let second = "x\nworkspace>>2\nfocus".as_bytes();

    let mut whole = first.to_vec();
    whole.extend_from_slice(second);
    let at_once = drain_events(&mut whole).unwrap();

    let mut data = first.to_vec();
    let mut in_two = drain_events(&mut data).unwrap();
    data.extend_from_slice(second);
    in_two.extend(drain_events(&mut data).unwrap());

    assert_eq!(event_names(&in_two), event_names(&at_once));
    assert_eq!(in_two.len(), 3);
    assert!(matches!(&in_two[1], Ok(Event::ActiveWindow { title, .. }) if title == "éx"));
    assert_eq!(data, whole);
    assert_eq!(data, b"focus".to_vec());
}

#[test]
fn drain_lone_empty_line_depends_on_the_cut() {
    let mut whole = b"a>>1\n\nb".to_vec();
    let at_once = drain_events(&mut whole).unwrap();
    assert_eq!(at_once.len(), 2);

    let mut data = b"a>>1\n".to_vec();
    let mut in_two = drain_events(&mut data).unwrap();
    data.extend_from_slice(b"\nb");
    in_two.extend(drain_events(&mut data).unwrap());
    assert_eq!(in_two.len(), 1);
    assert_eq!(data, whole);
}

#[test]
fn window_address_hex_forms_read_back() {
    for v in [0u32, 1, 0xa, 0x5a3f, 0xdead_beef, u32::MAX] {
        assert_eq!(WindowAddress::from(&format!("{:x}", v)), Ok(WindowAddress(v)));
        assert_eq!(WindowAddress::from(&format!("{:X}", v)), Ok(WindowAddress(v)));
        assert_eq!(WindowAddress::from(&format!("{:08x}", v)), Ok(WindowAddress(v)));
        assert_eq!(WindowAddress::from(&format!("{:08X}", v)), Ok(WindowAddress(v)));
    }
}

#[test]
fn fieldless_events_ignore_their_arguments() {
    let names = [
        "focusedmon", "activewindowv2", "fullscreen", "monitorremoved", "monitoradded", "monitoraddedv2",
        "createworkspace", "destroyworkspace", "moveworkspace", "moveworkspacev2", "renameworkspace",
        "activespecial", "activelayout", "closewindow", "movewindow", "movewindowv2", "openlayer", "closelayer",
        "submap", "changefloatingmode", "urgent", "minimize", "screencast", "windowtitle", "togglegroup",
        "moveintogroup", "moveoutofgroup", "ignoregrouplock", "lockgroups", "configreloaded", "pin",
    ];
    assert_eq!(names.len(), 31);
    for n in names {
        let bare = format!("{:?}", Event::from(&format!("{n}>>")));
        assert!(bare.starts_with("Ok("), "{n}");
        for a in ["80a6c0", "DP-1,2", "x>>y", ""] {
            assert_eq!(format!("{:?}", Event::from(&format!("{n}>>{a}"))), bare, "{n}>>{a}");
        }
    }
    assert!(matches!(Event::from("closewindow>>80a6c0"), Ok(Event::CloseWindow)));
    assert!(matches!(Event::from("focusedmon>>DP-1,2"), Ok(Event::FocusedMonitor)));
}
