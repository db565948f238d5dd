use spindle_panel::config::{Configuration, DEFAULT_MAX_SPINDLE_SPEED};

#[test]
fn default_configuration_allows_one_thousand() {
    let c = Configuration::default();
    assert_eq!(c.max_spindle_speed, 1000);
    assert_eq!(DEFAULT_MAX_SPINDLE_SPEED, 1000);
}

#[test]
fn set_speed_is_read_back() {
    let mut c = Configuration::default();
    c.set_max_spindle_speed(24000);
    assert_eq!(c.get_max_spindle_speed(), 24000);
    c.set_max_spindle_speed(0);
    assert_eq!(c.get_max_spindle_speed(), 0);
}
