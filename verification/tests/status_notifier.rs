use tryfol::status_notifier::{
    activation_result, address_from, after_activate, argb_to_rgba, choose_pixmap, host_name, is_shown, item_address, left_click, service_address,
    service_id, Category, Click, Orientation, Pixmap, Registry, Status,
};

fn pixmap(width: i32, height: i32) -> Pixmap {
    Pixmap { width, height, data: Vec::new() }
}

#[test]
fn property_names() {
    assert_eq!(Orientation::Horizontal.name(), "horizontal");
    assert_eq!(Orientation::Vertical.name(), "vertical");
    assert_eq!(Category::from_name("Hardware"), Some(Category::Hardware));
    assert_eq!(Category::from_name("hardware"), None);
    assert_eq!(Status::from_name("NeedsAttention"), Some(Status::NeedsAttention));
    assert_eq!(Status::from_name("Passive"), Some(Status::Passive));
    assert_eq!(Status::from_name(""), None);
}

#[test]
fn item_ids() {
    assert_eq!(item_address(":1.52/org/ayatana/NotificationItem/x").unwrap(), (":1.52".to_string(), "/org/ayatana/NotificationItem/x".to_string()));
    assert_eq!(item_address("org.kde.app/StatusNotifierItem").unwrap(), ("org.kde.app".to_string(), "/StatusNotifierItem".to_string()));
    assert_eq!(item_address("a/").unwrap(), ("a".to_string(), "/".to_string()));
    assert_eq!(item_address("nopath").unwrap_err().id, "nopath");
}

#[test]
fn pixmap_smallest_covering() {
    let pixmaps = vec![pixmap(16, 16), pixmap(64, 64), pixmap(32, 32), pixmap(24, 24)];
    assert_eq!(choose_pixmap(&pixmaps, 22), Some(3));
    assert_eq!(choose_pixmap(&pixmaps, 32), Some(2));
    assert_eq!(choose_pixmap(&pixmaps, 100), Some(1));
    assert_eq!(choose_pixmap(&pixmaps, 1), Some(0));
    assert_eq!(choose_pixmap(&Vec::new(), 22), None);
}

#[test]
fn pixmap_last_of_equals() {
    let pixmaps = vec![pixmap(32, 32), pixmap(32, 32), pixmap(16, 16)];
    assert_eq!(choose_pixmap(&pixmaps, 24), Some(1));
    let pixmaps = vec![pixmap(8, 8), pixmap(8, 8)];
    assert_eq!(choose_pixmap(&pixmaps, 24), Some(1));
}

#[test]
fn argb_pixels_become_rgba() {
    let mut data = vec![1, 2, 3, 4, 5, 6, 7, 8, 9, 10];
    argb_to_rgba(&mut data);
    assert_eq!(data, vec![2, 3, 4, 1, 6, 7, 8, 5, 9, 10]);
    let mut empty: Vec<u8> = Vec::new();
    argb_to_rgba(&mut empty);
    assert!(empty.is_empty());
}

#[test]
fn service_addresses() {
    assert_eq!(
        service_address("org.kde.StatusNotifierItem-1-1", None).unwrap(),
        ("org.kde.StatusNotifierItem-1-1".to_string(), "/StatusNotifierItem".to_string())
    );
    assert_eq!(
        service_address(":1.7", Some(":1.9")).unwrap(),
        (":1.7".to_string(), "/StatusNotifierItem".to_string())
    );
    assert_eq!(
        service_address("/org/ayatana/NotificationItem/nm", Some(":1.9")).unwrap(),
        (":1.9".to_string(), "/org/ayatana/NotificationItem/nm".to_string())
    );
    assert!(service_address("/path", None).is_err());
    assert_eq!(service_address("not a name", Some(":1.9")).unwrap_err().service, "not a name");
    assert_eq!(service_id(":1.9", "/a/b"), ":1.9/a/b");
}

#[test]
fn registry_hosts() {
    let mut r = Registry::new();
    assert!(!r.is_host_registered());
    let c = r.register_host("h1".to_string());
    assert!(c.announced && c.presence_changed);
    let c = r.register_host("h2".to_string());
    assert!(c.announced && !c.presence_changed);
    let c = r.register_host("h1".to_string());
    assert!(!c.announced && !c.presence_changed);
    let c = r.unregister_host("h1");
    assert!(c.announced && !c.presence_changed);
    let c = r.unregister_host("h2");
    assert!(c.announced && c.presence_changed);
    assert!(!r.is_host_registered());
    let c = r.unregister_host("h2");
    assert!(!c.announced && !c.presence_changed);
    assert_eq!(r.protocol_version(), 0);
}

#[test]
fn registry_items() {
    let mut r = Registry::new();
    assert!(r.register_item("a/x".to_string()));
    assert!(r.register_item("b/y".to_string()));
    assert!(!r.register_item("a/x".to_string()));
    assert_eq!(r.registered_items(), vec!["a/x".to_string(), "b/y".to_string()]);
    assert!(r.has_item("b/y"));
    assert!(r.unregister_item("a/x"));
    assert!(!r.unregister_item("a/x"));
    assert!(!r.has_item("a/x"));
    assert_eq!(r.registered_items(), vec!["b/y".to_string()]);
}

#[test]
fn host_names() {
    assert_eq!(host_name(1234, 0), "org.freedesktop.StatusNotifierHost-1234-0");
    assert_eq!(host_name(7, 12), "org.freedesktop.StatusNotifierHost-7-12");
}

#[test]
fn tray_decisions() {
    assert!(!is_shown(Status::Passive));
    assert!(is_shown(Status::Active));
    assert!(is_shown(Status::NeedsAttention));
    assert_eq!(left_click(Some(true)), Click::PopupMenu);
    assert_eq!(left_click(Some(false)), Click::Activate);
    assert_eq!(left_click(None), Click::Activate);
    assert_eq!(after_activate(true), Click::Done);
    assert_eq!(after_activate(false), Click::PopupMenu);
}

#[test]
fn address_from_checks() {
    let ok = address_from(":1.5", None, true, true, false).unwrap();
    assert_eq!(ok, (":1.5".to_string(), "/StatusNotifierItem".to_string()));
    assert!(address_from(":1.5", None, true, false, false).is_err());
    let ok = address_from("/org/item", Some(":1.9"), false, true, true).unwrap();
    assert_eq!(ok, (":1.9".to_string(), "/org/item".to_string()));
    assert_eq!(address_from("/org/item", None, false, true, true).unwrap_err().service, "/org/item");
    assert!(address_from("?", Some(":1.9"), false, true, false).is_err());
}

fn bus_name_char(c: char) -> bool {
    c.is_ascii_alphanumeric() || c == '_' || c == '-'
}

fn name_elements(parts: &[&str], no_digit_first: bool) -> bool {
    parts.len() >= 2
        && parts.iter().all(|e| {
            !e.is_empty()
                && e.chars().all(bus_name_char)
                && !(no_digit_first && e.chars().next().unwrap().is_ascii_digit())
        })
}

fn stated_bus_name(s: &str) -> bool {
    let chars: Vec<char> = s.chars().collect();
    let unique = chars.len() <= 255
        && chars.first() == Some(&':')
        && name_elements(&s[1..].split('.').collect::<Vec<_>>(), false);
    let well_known = chars.len() <= 255 && name_elements(&s.split('.').collect::<Vec<_>>(), true);
    unique || well_known
}

fn stated_object_path(s: &str) -> bool {
    s.starts_with('/')
        && (s.len() == 1
            || s[1..].split('/').all(|e| !e.is_empty() && e.chars().all(|c| c.is_ascii_alphanumeric() || c == '_')))
}

fn all_strings(alphabet: &[char], max_len: usize) -> Vec<String> {
    let mut out = vec![String::new()];
    let mut layer = vec![String::new()];
    for _ in 0..max_len {
        let mut next = Vec::new();
        for s in &layer {
            for c in alphabet {
                let mut t = s.clone();
                t.push(*c);
                next.push(t);
            }
        }
        out.extend(next.iter().cloned());
        layer = next;
    }
    out
}

#[test]
fn stated_name_rules_match_zbus() {
    for s in all_strings(&['a', 'Z', '1', '_', '-', '.', ':', '/', 'é'], 5) {
        assert_eq!(zbus::names::BusName::try_from(s.as_str()).is_ok(), stated_bus_name(&s), "bus name {s:?}");
        assert_eq!(zbus::zvariant::ObjectPath::try_from(s.as_str()).is_ok(), stated_object_path(&s), "path {s:?}");
    }
    for s in ["org.freedesktop.DBus", ":1.42", "org.kde.StatusNotifierItem-12-1", "a.b", "a..b", ".a.b", "1a.b", "/org/ayatana/NotificationItem/x"] {
        assert_eq!(zbus::names::BusName::try_from(s).is_ok(), stated_bus_name(s), "bus name {s:?}");
        assert_eq!(zbus::zvariant::ObjectPath::try_from(s).is_ok(), stated_object_path(s), "path {s:?}");
    }
    let long = format!("a.{}", "b".repeat(253));
    assert_eq!(zbus::names::BusName::try_from(long.as_str()).is_ok(), stated_bus_name(&long));
    let too_long = format!("a.{}", "b".repeat(254));
    assert_eq!(zbus::names::BusName::try_from(too_long.as_str()).is_ok(), stated_bus_name(&too_long));
}

#[test]
fn tray_host_steps_alternate() {
    let mut r = Registry::new();
    assert_eq!(r.initial_item(":1.5/item".to_string(), true), Some(true));
    assert_eq!(r.initial_item("bad".to_string(), false), None);
    assert!(!r.item_needs_building(true, ":1.5/item"));
    assert_eq!(r.item_event(true, ":1.5/item".to_string(), true), None);
    assert!(r.item_needs_building(true, ":1.6/item"));
    assert_eq!(r.item_event(true, ":1.6/item".to_string(), false), None);
    assert_eq!(r.item_event(false, ":1.6/item".to_string(), false), None);
    assert_eq!(r.item_event(false, ":1.5/item".to_string(), false), Some(false));
    assert_eq!(r.item_event(false, ":1.5/item".to_string(), false), None);
    assert_eq!(r.item_event(true, ":1.5/item".to_string(), true), Some(true));
    assert!(r.has_item(":1.5/item"));
}

#[test]
fn activation_results() {
    assert_eq!(activation_result::<&str>(Ok(()), None), Ok(true));
    assert_eq!(activation_result(Err("e"), Some("org.freedesktop.DBus.Error.UnknownMethod")), Ok(false));
    assert_eq!(activation_result(Err("e"), Some("org.freedesktop.DBus.Error.Failed")), Err("e"));
    assert_eq!(activation_result(Err("e"), None), Err("e"));
}
