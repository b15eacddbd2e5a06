use therminal::locate::{pick, sensor_name, FOLLOW_LINKS, HWMON_ROOT, MAX_DEPTH, THERMAL_ROOT};
use therminal::{get_available_temp_sensors, PatternError, WalkEntry};

fn entry(dir: &str, name: &str) -> WalkEntry {
    WalkEntry { path: format!("{}{}", dir, name), file_name: name.to_string() }
}

#[test]
fn thermal_zone_value_file_is_a_sensor() {
    assert_eq!(sensor_name("temp"), Ok(true));
}

#[test]
fn hardware_monitor_value_files_are_sensors() {
    for name in ["temp1_input", "temp_input", "temp12_input", "temperature_input", "temp _input"] {
        assert_eq!(sensor_name(name), Ok(true), "{}", name);
    }
}

#[test]
fn other_names_are_no_sensors() {
    for name in [
        "",
        "type",
        "temp1_label",
        "temp1_max",
        "temp1",
        "temps",
        "xtemp",
        "Temp",
        "temp1_input2",
        "atemp1_input",
        "tem_input",
        "in1_input",
        "fan1_input",
        "_input",
        "thermal_zone0",
        "hwmon0",
        " temp",
        "temp ",
    ] {
        assert_eq!(sensor_name(name), Ok(false), "{}", name);
    }
}

#[test]
fn choice_takes_a_name_that_either_pattern_matches() {
    assert_eq!(pick(Some(true), Some(false)), Ok(true));
    assert_eq!(pick(Some(false), Some(true)), Ok(true));
    assert_eq!(pick(Some(true), Some(true)), Ok(true));
    assert_eq!(pick(Some(false), Some(false)), Ok(false));
}

#[test]
fn choice_fails_where_a_pattern_did_not_compile() {
    assert_eq!(pick(None, Some(true)), Err(PatternError));
    assert_eq!(pick(Some(true), None), Err(PatternError));
    assert_eq!(pick(None, None), Err(PatternError));
}

#[test]
fn sensors_are_the_entries_with_sensor_names_in_order() {
    let entries = vec![
        entry("/sys/class/thermal/", ""),
        entry("/sys/class/thermal/", "thermal_zone0"),
        entry("/sys/class/thermal/thermal_zone0/", "type"),
        entry("/sys/class/thermal/thermal_zone0/", "temp"),
        entry("/sys/class/hwmon/", "hwmon1"),
        entry("/sys/class/hwmon/hwmon1/", "temp2_input"),
        entry("/sys/class/hwmon/hwmon1/", "temp2_label"),
        entry("/sys/class/hwmon/hwmon1/", "temp1_input"),
        entry("/sys/class/hwmon/hwmon1/", "fan1_input"),
    ];
    assert_eq!(
        get_available_temp_sensors(&entries),
        Ok(vec![
            "/sys/class/thermal/thermal_zone0/temp".to_string(),
            "/sys/class/hwmon/hwmon1/temp2_input".to_string(),
            "/sys/class/hwmon/hwmon1/temp1_input".to_string(),
        ])
    );
}

#[test]
fn choice_goes_by_the_file_name_not_the_path() {
    let entries = vec![
        WalkEntry { path: "/a/temp/other".to_string(), file_name: "other".to_string() },
        WalkEntry { path: "/a/other".to_string(), file_name: "temp".to_string() },
    ];
    assert_eq!(get_available_temp_sensors(&entries), Ok(vec!["/a/other".to_string()]));
}

#[test]
fn no_entries_give_no_sensors() {
    assert_eq!(get_available_temp_sensors(&Vec::new()), Ok(Vec::new()));
    let entries =
        vec![entry("/sys/class/hwmon/", "hwmon0"), entry("/sys/class/hwmon/hwmon0/", "name")];
    assert_eq!(get_available_temp_sensors(&entries), Ok(Vec::new()));
}

#[test]
fn walk_settings_are_fixed() {
    assert_eq!(THERMAL_ROOT, "/sys/class/thermal/");
    assert_eq!(HWMON_ROOT, "/sys/class/hwmon/");
    assert_eq!(MAX_DEPTH, 2);
    assert!(FOLLOW_LINKS);
}
