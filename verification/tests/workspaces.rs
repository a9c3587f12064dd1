use tryfol::hyprland::events::Event;
use tryfol::hyprland::{WindowAddress, Workspace};
use tryfol::title::{format_window, window_markup, window_rewrites};
use tryfol::workspaces::{is_autokill, japanese_text, window_action, NumberExt, StripAction, WorkspaceStrip};

#[test]
fn japanese_direct_numerals() {
    assert_eq!(0u32.to_japanese(), "〇");
    assert_eq!(7u32.to_japanese(), "七");
    assert_eq!(10u32.to_japanese(), "十");
    assert_eq!(100u32.to_japanese(), "百");
    assert_eq!(1000u32.to_japanese(), "千");
    assert_eq!(10_000u32.to_japanese(), "万");
    assert_eq!(100_000_000u32.to_japanese(), "億");
    assert_eq!(5u32.as_japanese_direct(), Some("五"));
    assert_eq!(11u32.as_japanese_direct(), None);
}

#[test]
fn japanese_composed_numerals() {
    assert_eq!(11u32.to_japanese(), "十一");
    assert_eq!(12u32.to_japanese(), "十二");
    assert_eq!(20u32.to_japanese(), "二十");
    assert_eq!(21u32.to_japanese(), "二十一");
    assert_eq!(99u32.to_japanese(), "九十九");
    assert_eq!(123u32.to_japanese(), "百二十三");
    assert_eq!(2024u32.to_japanese(), "二千二十四");
    assert_eq!(50_000u32.to_japanese(), "五万");
}

#[test]
fn japanese_missing_power_of_ten() {
    assert_eq!(japanese_text(100_000), None);
    assert_eq!(japanese_text(1_000_000), None);
    assert_eq!(japanese_text(42).as_deref(), Some("四十二"));
}

#[test]
fn first_digit_and_power() {
    assert_eq!(NumberExt::first_digit(0u32), (0, 0));
    assert_eq!(NumberExt::first_digit(9u32), (9, 0));
    assert_eq!(NumberExt::first_digit(10u32), (1, 1));
    assert_eq!(NumberExt::first_digit(4321u32), (4, 3));
    assert_eq!(NumberExt::first_digit(u32::MAX), (4, 9));
}

#[test]
fn autokill_titles() {
    assert!(is_autokill("Update - Sublime Text"));
    assert!(is_autokill("Update - Sublime Merge"));
    assert!(!is_autokill("Update - Sublime"));
    assert!(!is_autokill(""));
}

#[test]
fn strip_start_orders_ids() {
    let strip = WorkspaceStrip::start(&[3, 1, -5, 2, 1], 2);
    assert_eq!(strip.ids, vec![1, 1, 2, 3]);
    assert_eq!(strip.active, Some(2));
    assert_eq!(strip.active_index(), Some(2));
    let strip = WorkspaceStrip::start(&[4], -1);
    assert_eq!(strip.active, None);
    assert_eq!(strip.active_index(), None);
}

#[test]
fn strip_add_places_after_equal_ids() {
    let mut strip = WorkspaceStrip::start(&[1, 3], 1);
    assert_eq!(strip.add_workspace(2), 1);
    assert_eq!(strip.add_workspace(0), 0);
    assert_eq!(strip.add_workspace(9), 4);
    assert_eq!(strip.add_workspace(2), 3);
    assert_eq!(strip.ids, vec![0, 1, 2, 2, 3, 9]);
}

#[test]
fn strip_create_and_destroy() {
    let rules = window_rewrites().unwrap();
    let mut strip = WorkspaceStrip::start(&[1, 2, 5], 1);
    let a = strip.handle_message(Event::CreateWorkspaceV2(Workspace::Regular { id: 4, name: "4".to_string() }), &rules);
    assert!(matches!(a, StripAction::AddButton { index: 2, id: 4 }));
    assert_eq!(strip.ids, vec![1, 2, 4, 5]);
    let a = strip.handle_message(Event::DestroyWorkspaceV2(Workspace::Regular { id: 2, name: "2".to_string() }), &rules);
    assert!(matches!(a, StripAction::RemoveButton { index: 1 }));
    assert_eq!(strip.ids, vec![1, 4, 5]);
    let a = strip.handle_message(Event::DestroyWorkspaceV2(Workspace::Regular { id: 7, name: "7".to_string() }), &rules);
    assert!(matches!(a, StripAction::Nothing));
    assert_eq!(strip.ids, vec![1, 4, 5]);
    let a = strip.handle_message(Event::CreateWorkspaceV2(Workspace::Special { id: -98, name: "s".to_string() }), &rules);
    assert!(matches!(a, StripAction::Nothing));
    assert_eq!(strip.ids, vec![1, 4, 5]);
}

#[test]
fn strip_destroy_undoes_create() {
    let rules = window_rewrites().unwrap();
    let mut strip = WorkspaceStrip::start(&[1, 2, 2, 5], 1);
    let before = strip.ids.clone();
    strip.handle_message(Event::CreateWorkspaceV2(Workspace::Regular { id: 2, name: String::new() }), &rules);
    strip.handle_message(Event::DestroyWorkspaceV2(Workspace::Regular { id: 2, name: String::new() }), &rules);
    assert_eq!(strip.ids, before);
}

#[test]
fn strip_moves_active_mark() {
    let rules = window_rewrites().unwrap();
    let mut strip = WorkspaceStrip::start(&[1, 2, 3], 2);
    let a = strip.handle_message(Event::WorkspaceV2(Workspace::Regular { id: 3, name: "3".to_string() }), &rules);
    assert!(matches!(a, StripAction::Activate { previous: Some(1), current: Some(2) }));
    assert_eq!(strip.active, Some(3));
    let a = strip.handle_message(Event::WorkspaceV2(Workspace::Regular { id: 8, name: "8".to_string() }), &rules);
    assert!(matches!(a, StripAction::Activate { previous: Some(2), current: None }));
    assert_eq!(strip.active, Some(8));
    let a = strip.handle_message(Event::WorkspaceV2(Workspace::Regular { id: 1, name: "1".to_string() }), &rules);
    assert!(matches!(a, StripAction::Activate { previous: None, current: Some(0) }));
    let a = strip.handle_message(Event::WorkspaceV2(Workspace::Special { id: -1, name: "s".to_string() }), &rules);
    assert!(matches!(a, StripAction::Nothing));
    assert_eq!(strip.active, Some(1));
}

#[test]
fn strip_window_title() {
    let rules = window_rewrites().unwrap();
    let mut strip = WorkspaceStrip::start(&[], -1);
    let a = strip.handle_message(Event::ActiveWindow { class: "kitty".to_string(), title: String::new() }, &rules);
    assert!(matches!(a, StripAction::HideWindow));
    let a = strip.handle_message(Event::ActiveWindow { class: "kitty".to_string(), title: "vim".to_string() }, &rules);
    match a {
        StripAction::ShowWindow { markup } => assert_eq!(markup, "\u{e795}  vim"),
        other => panic!("unexpected {other:?}"),
    }
}

#[test]
fn strip_closes_update_windows() {
    let rules = window_rewrites().unwrap();
    let mut strip = WorkspaceStrip::start(&[1], 1);
    let a = strip.handle_message(
        Event::OpenWindow {
            address: WindowAddress(0xab),
            class: "sublime_text".to_string(),
            title: "Update - Sublime Text".to_string(),
            workspace_name: "1".to_string(),
        },
        &rules,
    );
    assert!(matches!(a, StripAction::CloseWindow { address: WindowAddress(0xab) }));
    let a = strip.handle_message(
        Event::OpenWindow {
            address: WindowAddress(0xab),
            class: "kitty".to_string(),
            title: "Update".to_string(),
            workspace_name: "1".to_string(),
        },
        &rules,
    );
    assert!(matches!(a, StripAction::Nothing));
    assert!(matches!(strip.handle_message(Event::Fullscreen, &rules), StripAction::Nothing));
}

#[test]
fn window_title_rewrites() {
    let rules = window_rewrites().unwrap();
    assert_eq!(format_window("firefox", "Video - YouTube — Mozilla Firefox", &rules), "󰈹 󰗃  Video");
    assert_eq!(format_window("firefox", "Page — Mozilla Firefox", &rules), "󰈹  Page");
    assert_eq!(
        format_window("firefox", "Page — Mozilla Firefox Private Browsing", &rules),
        "<span foreground=\"#b13dff\">󰈹</span>  Page"
    );
    assert_eq!(format_window("discord", "general - Discord", &rules), "󰙯  general");
    assert_eq!(format_window("subl", "main.rs - Sublime Text (UNREGISTERED)", &rules), "\u{e796}  main.rs");
    assert_eq!(format_window("other", "plain", &rules), "plain");
}

#[test]
fn window_title_escapes_markup() {
    let rules = window_rewrites().unwrap();
    assert_eq!(format_window("x", "a<b>&c", &rules), "a&lt;b&gt;&amp;c");
    assert_eq!(format_window("kitty", "<", &rules), "\u{e795}  &lt;");
}

#[test]
fn window_action_hides_empty_titles() {
    let rules = window_rewrites().unwrap();
    assert!(matches!(window_action("kitty", "", &rules), StripAction::HideWindow));
    assert!(matches!(window_action("x", "t", &rules), StripAction::ShowWindow { .. }));
}

#[test]
fn window_markup_prefixes_terminals() {
    assert_eq!(window_markup("kitty", "vim".to_string()), "\u{e795}  vim");
    assert_eq!(window_markup("firefox", "Page".to_string()), "Page");
    assert_eq!(window_markup("Kitty", "x".to_string()), "x");
}
