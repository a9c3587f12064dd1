use tryfol::network::{
    default_route_index, network_view, rates_shown, route_candidate, signal_percent, wlan_blocked, AddressAttr, LinkAttr, LinkState,
    Route, RouteAttr, RouteMessage, WirelessAttr, MAIN_TABLE,
};
use tryfol::rfkill::Type;

fn default_route(oif: u32, priority: u32) -> RouteMessage {
    RouteMessage { table: MAIN_TABLE, attributes: vec![RouteAttr::Gateway, RouteAttr::Oif(oif), RouteAttr::Priority(priority)] }
}

#[test]
fn candidates() {
    assert_eq!(route_candidate(&default_route(2, 600)), Some((2, 600)));
    let mut m = default_route(2, 600);
    m.table = 255;
    assert_eq!(route_candidate(&m), None);
    let mut m = default_route(2, 600);
    m.attributes.push(RouteAttr::Destination);
    assert_eq!(route_candidate(&m), None);
    let m = RouteMessage { table: MAIN_TABLE, attributes: vec![RouteAttr::Oif(2), RouteAttr::Priority(1)] };
    assert_eq!(route_candidate(&m), None);
    let m = RouteMessage { table: MAIN_TABLE, attributes: vec![RouteAttr::Gateway, RouteAttr::Oif(2)] };
    assert_eq!(route_candidate(&m), None);
    let m = RouteMessage {
        table: MAIN_TABLE,
        attributes: vec![RouteAttr::Oif(1), RouteAttr::Gateway, RouteAttr::Other, RouteAttr::Priority(5), RouteAttr::Oif(3)],
    };
    assert_eq!(route_candidate(&m), Some((3, 5)));
}

#[test]
fn default_route_least_priority_first() {
    assert_eq!(default_route_index(&vec![]), None);
    let routes = vec![default_route(2, 600), default_route(3, 100), default_route(4, 100)];
    assert_eq!(default_route_index(&routes), Some(3));
    let routes = vec![default_route(5, 7), RouteMessage { table: 1, attributes: vec![] }];
    assert_eq!(default_route_index(&routes), Some(5));
}

#[test]
fn route_attributes() {
    let mut r = Route::new(3);
    r.apply_address(vec![
        AddressAttr::Address("10.0.0.2".to_string()),
        AddressAttr::Label("wlan0".to_string()),
        AddressAttr::Other,
        AddressAttr::Address("10.0.0.3".to_string()),
    ]);
    assert_eq!(r.address.as_deref(), Some("10.0.0.3"));
    assert_eq!(r.iname, "wlan0");
    r.apply_link(vec![LinkAttr::OperState(LinkState::Up), LinkAttr::Stats64 { rx_bytes: 10, tx_bytes: 20 }]);
    assert_eq!(r.state, LinkState::Up);
    assert_eq!((r.rx_bytes, r.tx_bytes), (10, 20));
    r.apply_wireless(vec![WirelessAttr::Ssid("home".to_string()), WirelessAttr::SignalMbm(-5400), WirelessAttr::Other]);
    assert_eq!(r.ssid.as_deref(), Some("home"));
    assert_eq!(r.signal_strength, Some(80));
}

fn connected_route() -> Route {
    let mut r = Route::new(3);
    r.iname = "wlan0".to_string();
    r.address = Some("10.0.0.2".to_string());
    r.state = LinkState::Up;
    r
}

#[test]
fn network_views() {
    let v = network_view(&None, true);
    assert_eq!((v.icon, v.tooltip.as_str(), v.connected), ("󰖪", "Wifi: Disabled\nEthernet: Not detected", false));
    let v = network_view(&None, false);
    assert_eq!((v.icon, v.tooltip.as_str(), v.connected), ("󰤯", "Wifi: Disconnected\nEthernet: Not detected", false));
    let mut down = connected_route();
    down.state = LinkState::Down;
    assert!(!network_view(&Some(down), false).connected);
    let mut linked = connected_route();
    linked.address = None;
    let v = network_view(&Some(linked), false);
    assert_eq!((v.icon, v.tooltip.as_str(), v.connected), ("󱚵", "Wifi: Linked", true));
    let v = network_view(&Some(connected_route()), false);
    assert_eq!((v.icon, v.tooltip.as_str(), v.connected), ("󰈁", "wlan0: 10.0.0.2", true));
    let mut wifi = connected_route();
    wifi.ssid = Some("home".to_string());
    let v = network_view(&Some(wifi.clone()), false);
    assert_eq!((v.icon, v.tooltip.as_str()), ("󱛇", "Wifi: home\nwlan0: 10.0.0.2"));
    for (s, icon) in [(0, "󰤟"), (25, "󰤟"), (26, "󰤢"), (50, "󰤢"), (51, "󰤥"), (75, "󰤥"), (76, "󰤨"), (100, "󰤨")] {
        wifi.signal_strength = Some(s);
        assert_eq!(network_view(&Some(wifi.clone()), false).icon, icon);
        assert_eq!(icon, ["󰤟", "󰤢", "󰤥", "󰤨"][(s as f64 / 25.1) as usize]);
    }
}

#[test]
fn wlan_switches() {
    assert!(!wlan_blocked(None));
    assert!(wlan_blocked(Some(vec![])));
    assert!(wlan_blocked(Some(vec![(Type::Bluetooth, false)])));
    assert!(!wlan_blocked(Some(vec![(Type::Bluetooth, true), (Type::Wlan, false), (Type::Wlan, true)])));
    assert!(wlan_blocked(Some(vec![(Type::Wlan, true)])));
}

#[test]
fn rates() {
    let a = Some(Route::new(1));
    let b = Some(Route::new(2));
    assert!(rates_shown(true, &a, &a, 1));
    assert!(!rates_shown(true, &a, &b, 1));
    assert!(!rates_shown(true, &a, &a, 0));
    assert!(!rates_shown(false, &a, &a, 1));
    assert!(!rates_shown(true, &a, &None, 1));
}

#[test]
fn signal_percent_values() {
    assert_eq!(signal_percent(-4500), 100);
    assert_eq!(signal_percent(-9000), 0);
    assert_eq!(signal_percent(0), 0);
    assert_eq!(signal_percent(-3000), 67);
    assert_eq!(signal_percent(-4510), 100);
    assert_eq!(signal_percent(-8990), 0);
    assert_eq!(signal_percent(-8970), 1);
    assert_eq!(signal_percent(i32::MIN), 0);
    assert_eq!(signal_percent(i32::MAX), 0);
}

fn float_signal_percent(mbm: i32) -> u32 {
    let strength = f64::from(mbm) / 100.;
    let hardware_optimum = -45.;
    let hardware_min = -90.;
    let strength = ((strength - hardware_optimum).abs() / (hardware_optimum - hardware_min)).mul_add(-100., 100.);
    strength.clamp(0., 100.).round() as u32
}

#[test]
fn signal_percent_agrees_with_the_float_formula() {
    for mbm in -20000..20000 {
        assert_eq!(signal_percent(mbm), float_signal_percent(mbm), "at {mbm} mBm");
    }
}

#[test]
fn element_names_keep_names_in_order() {
    let names = tryfol::network::element_names(vec![None, Some("home".to_string()), None, Some("guest".to_string())]);
    assert_eq!(names, vec!["home".to_string(), "guest".to_string()]);
    assert!(tryfol::network::element_names(vec![None]).is_empty());
}

#[test]
fn names_in_raw_elements() {
    // an SSID element "home", a channel element 6, an SSID element that is not UTF-8
    let raw = [0u8, 4, b'h', b'o', b'm', b'e', 3, 1, 6, 0, 1, 0xff];
    assert_eq!(tryfol::network::names_in_elements(&raw), vec!["home".to_string()]);
    assert!(tryfol::network::names_in_elements(&[]).is_empty());
}
