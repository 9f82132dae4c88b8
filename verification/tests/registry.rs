use backlightd::errors::BacklightError;
use backlightd::monitors::BackendKind;
use backlightd::monitors::Monitor;
use backlightd::monitors::MonitorRegistry;
use backlightd::monitors::parse_raw_brightness;
use backlightd::monitors::percent_to_raw;

fn sample_registry(percents: &[u8]) -> MonitorRegistry {
    let mut reg = MonitorRegistry::new();
    let mut monitors = Vec::new();
    for (i, p) in percents.iter().enumerate() {
        monitors.push(Monitor::new(format!("monitor{i}"), BackendKind::Ddc, 100, *p as u16));
    }
    reg.refresh_with(monitors, 1000);
    reg
}

#[test]
fn percent_derives_from_raw_reading() {
    let m = Monitor::new("m".to_string(), BackendKind::Acpi, 3, 1);
    assert_eq!(m.percent, 33);
    let m2 = Monitor::new("m".to_string(), BackendKind::Acpi, 255, 255);
    assert_eq!(m2.percent, 100);
    let m3 = Monitor::new("m".to_string(), BackendKind::Ddc, 100, 0);
    assert_eq!(m3.percent, 0);
}

#[test]
fn firmware_value_text_parses() {
    assert_eq!(parse_raw_brightness(b"255\n"), Some(255));
    assert_eq!(parse_raw_brightness(b" 7 "), Some(7));
    assert_eq!(parse_raw_brightness(b"65535"), Some(65535));
    assert_eq!(parse_raw_brightness(b"65536"), None); // beyond the raw range
    assert_eq!(parse_raw_brightness(b""), None);
    assert_eq!(parse_raw_brightness(b"\n"), None);
    assert_eq!(parse_raw_brightness(b"12a\n"), None);
    assert_eq!(parse_raw_brightness(b"-3\n"), None);
}

#[test]
fn raw_conversion_rounds() {
    assert_eq!(percent_to_raw(50, 3), 2); // 1.5 rounds up
    assert_eq!(percent_to_raw(33, 3), 1); // 0.99 rounds to 1
    assert_eq!(percent_to_raw(100, 3), 3);
    assert_eq!(percent_to_raw(0, 3), 0);
    assert_eq!(percent_to_raw(1, 65535), 655); // 655.35 rounds down
}

#[test]
fn set_brightness_updates_every_monitor() {
    let mut reg = sample_registry(&[20, 80]);
    let ok = vec![true, true];
    assert_eq!(reg.set_brightness_percent(55, &ok), Ok(()));
    assert_eq!(reg.monitors[0].percent, 55);
    assert_eq!(reg.monitors[1].percent, 55);
    assert_eq!(reg.monitors[0].raw, 55);
}

#[test]
fn set_brightness_keeps_failed_monitors_and_reports() {
    let mut reg = sample_registry(&[20, 80]);
    let ok = vec![false, true];
    assert_eq!(reg.set_brightness_percent(55, &ok), Err(BacklightError::Device));
    assert_eq!(reg.monitors[0].percent, 20); // untouched on failure
    assert_eq!(reg.monitors[1].percent, 55);
}

#[test]
fn increase_caps_at_one_hundred() {
    let mut reg = sample_registry(&[30, 95, 100]);
    let targets = reg.increase_brightness_targets(10);
    assert_eq!(targets, vec![40, 100, 100]);
    let ok = vec![true, true, true];
    assert_eq!(reg.increase_brightness_percent(10, &ok), Ok(()));
    assert_eq!(reg.monitors[0].percent, 40);
    assert_eq!(reg.monitors[1].percent, 100);
    assert_eq!(reg.monitors[2].percent, 100);
}

#[test]
fn decrease_floors_at_one() {
    let mut reg = sample_registry(&[5, 50, 0]);
    let targets = reg.decrease_brightness_targets(10);
    assert_eq!(targets, vec![1, 40, 1]);
    let ok = vec![true, true, true];
    assert_eq!(reg.decrease_brightness_percent(10, &ok), Ok(()));
    assert_eq!(reg.monitors[0].percent, 1); // never 0: no black screen
    assert_eq!(reg.monitors[1].percent, 40);
    assert_eq!(reg.monitors[2].percent, 1);
}

#[test]
fn average_floors_the_division() {
    let reg = sample_registry(&[20, 40, 41]);
    assert_eq!(reg.get_average_brightness(), 33); // floor of 101 / 3
}

#[test]
fn empty_registry_is_harmless() {
    let mut reg = MonitorRegistry::new();
    reg.refresh_with(Vec::new(), 42); // zero monitors is not an error
    assert_eq!(reg.monitors.len(), 0);
    assert_eq!(reg.get_average_brightness(), 0); // documented empty policy
    let no_outcomes: Vec<bool> = Vec::new();
    assert_eq!(reg.set_brightness_percent(50, &no_outcomes), Ok(()));
    assert_eq!(reg.increase_brightness_percent(10, &no_outcomes), Ok(()));
    assert_eq!(reg.decrease_brightness_percent(10, &no_outcomes), Ok(()));
    assert_eq!(reg.turn_off(&no_outcomes), Ok(()));
    assert_eq!(reg.turn_on(&no_outcomes), Ok(()));
}

#[test]
fn power_control_reports_not_supported_on_acpi() {
    let mut reg = MonitorRegistry::new();
    reg.refresh_with(
        vec![Monitor::new("acpi0".to_string(), BackendKind::Acpi, 255, 128)],
        0,
    );
    // the firmware backend has no power control, whatever the outcome says
    assert_eq!(reg.turn_off(&vec![true]), Err(BacklightError::NotSupported));
    assert_eq!(reg.turn_on(&vec![true]), Err(BacklightError::NotSupported));
}

#[test]
fn power_control_aggregates_ddc_outcomes() {
    let mut reg = MonitorRegistry::new();
    reg.refresh_with(
        vec![
            Monitor::new("d0".to_string(), BackendKind::Ddc, 100, 50),
            Monitor::new("d1".to_string(), BackendKind::Ddc, 100, 50),
        ],
        0,
    );
    assert_eq!(reg.turn_off(&vec![true, true]), Ok(()));
    assert_eq!(reg.turn_off(&vec![true, false]), Err(BacklightError::Device));
    assert_eq!(reg.turn_on(&vec![false, true]), Err(BacklightError::Device));
}

#[test]
fn refresh_follows_the_interval() {
    let mut reg = MonitorRegistry::new();
    assert!(reg.needs_refresh(0)); // never refreshed yet
    reg.refresh_with(Vec::new(), 100);
    assert!(!reg.needs_refresh(100));
    assert!(!reg.needs_refresh(160)); // exactly the interval: not yet
    assert!(reg.needs_refresh(161));
}

#[test]
fn refresh_replaces_the_whole_list() {
    let mut reg = sample_registry(&[10, 20, 30]);
    reg.refresh_with(
        vec![Monitor::new("only".to_string(), BackendKind::Ddc, 100, 70)],
        2000,
    );
    assert_eq!(reg.monitors.len(), 1);
    assert_eq!(reg.monitors[0].name, "only");
    assert_eq!(reg.last_refresh, Some(2000));
}
