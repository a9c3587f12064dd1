use tryfol::menu::{BuiltItem, MenuNode};

fn item(id: i32, label: &str) -> MenuNode {
    MenuNode {
        id,
        kind: None,
        label: Some(label.to_string()),
        icon_name: None,
        visible: None,
        enabled: None,
        children_display: None,
        children: Vec::new(),
    }
}

fn separator(id: i32) -> MenuNode {
    MenuNode { kind: Some("separator".to_string()), label: None, ..item(id, "") }
}

#[test]
fn sections_split_at_separators() {
    let mut root = item(0, "root");
    root.children = vec![item(1, "Open"), separator(2), item(3, "Quit"), separator(4)];
    let mut actions = Vec::new();
    let menu = root.build_menu(&mut actions);
    assert_eq!(menu.sections.len(), 3);
    assert_eq!(menu.sections[0].len(), 1);
    assert_eq!(menu.sections[0][0].label, "Open");
    assert_eq!(menu.sections[1][0].id, 3);
    assert!(menu.sections[2].is_empty());
    assert_eq!(actions, vec![(1, true), (3, true)]);
}

#[test]
fn hidden_and_disabled_items() {
    let mut root = item(0, "root");
    let mut hidden = item(1, "Hidden");
    hidden.visible = Some(false);
    hidden.enabled = Some(false);
    let mut disabled = item(2, "Disabled");
    disabled.enabled = Some(false);
    disabled.icon_name = Some("edit".to_string());
    root.children = vec![hidden, disabled];
    let mut actions = Vec::new();
    let menu = root.build_menu(&mut actions);
    assert_eq!(menu.sections.len(), 1);
    assert_eq!(menu.sections[0].len(), 1);
    assert!(!menu.sections[0][0].enabled);
    assert_eq!(menu.sections[0][0].icon_name.as_deref(), Some("edit"));
    assert_eq!(actions, vec![(1, true), (2, false)]);
}

#[test]
fn submenus_are_built() {
    let mut root = item(0, "root");
    let mut parent = item(1, "More");
    parent.children_display = Some("submenu".to_string());
    parent.children = vec![item(5, "Inner")];
    root.children = vec![parent, item(2, "After")];
    let mut actions = Vec::new();
    let menu = root.build_menu(&mut actions);
    let sub = menu.sections[0][0].submenu.as_ref().unwrap();
    assert_eq!(sub.sections[0][0].label, "Inner");
    assert!(menu.sections[0][1].submenu.is_none());
    assert_eq!(actions, vec![(1, true), (5, true), (2, true)]);
}

#[test]
fn single_items() {
    let mut actions = Vec::new();
    assert!(matches!(separator(9).build_menuitem(&mut actions), Some(BuiltItem::Separator)));
    assert!(actions.is_empty());
    assert!(matches!(item(3, "x").build_menuitem(&mut actions), Some(BuiltItem::Item(ref e)) if e.label == "x"));
    assert_eq!(actions, vec![(3, true)]);
}
