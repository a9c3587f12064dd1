use tryfol::audio::{
    bus_to_icon, form_factor_to_icon, input_icons, is_bus, is_form_factor, muted_text, output_icons, Direction,
};

#[test]
fn form_factor_icons() {
    assert_eq!(form_factor_to_icon("speaker"), "\u{f057e}");
    assert_eq!(form_factor_to_icon("headphone"), "\u{f02cb}");
    assert_eq!(form_factor_to_icon("headphones"), "\u{f02cb}");
    assert_eq!(form_factor_to_icon("headset"), "\u{f02ce}");
    assert_eq!(form_factor_to_icon("webcam"), "UFF");
    assert!(is_form_factor("hands-free"));
    assert!(!is_form_factor("bogus"));
}

#[test]
fn bus_icons() {
    assert_eq!(bus_to_icon(None), "");
    assert_eq!(bus_to_icon(Some("pci")), "");
    assert_eq!(bus_to_icon(Some("usb")), "UB");
    assert_eq!(bus_to_icon(Some("bluetooth")), "\u{f00af} ");
    assert!(is_bus(None));
    assert!(is_bus(Some("firewire")));
    assert!(!is_bus(Some("i2c")));
}

#[test]
fn device_icons() {
    assert_eq!(input_icons(Some("usb"), Some("headset")), "UB\u{f02ce} ");
    assert_eq!(input_icons(None, None), "\u{f130} ");
    assert_eq!(output_icons(Some("bluetooth"), Some("headphone")), "\u{f00af} \u{f02cb}");
    assert_eq!(output_icons(Some("pci"), None), "\u{f057e}");
    assert_eq!(muted_text(Direction::Input), "\u{f131}");
    assert_eq!(muted_text(Direction::Output), "\u{f0581}");
}
