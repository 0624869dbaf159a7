use rifrattometro::ports::{port_choices, selected_port};

#[test]
fn choices_start_with_placeholder() {
    let c = port_choices(vec!["/dev/ttyUSB0".to_string(), "/dev/ttyS1".to_string()]);
    assert_eq!(c, vec!["Selezionare...", "/dev/ttyUSB0", "/dev/ttyS1"]);
}

#[test]
fn no_ports_found_leaves_placeholder() {
    let c = port_choices(Vec::new());
    assert_eq!(c, vec!["Selezionare..."]);
    assert!(selected_port(&c, 0).is_none());
    assert!(selected_port(&c, 1).is_none());
}

#[test]
fn selection_skips_placeholder() {
    let c = port_choices(vec!["COM3".to_string()]);
    assert!(selected_port(&c, 0).is_none());
    assert_eq!(selected_port(&c, 1).map(|s| s.as_str()), Some("COM3"));
    assert!(selected_port(&c, 2).is_none());
}
