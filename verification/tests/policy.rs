use ecobee::policy::{
    decide_hvac_mode, find_column, first_nonempty_field, nth_field, sort_rows, PolicyError,
};
use ecobee::report::{RuntimeSensorMetadata, RuntimeSensorReport};
use ecobee::text::split_str;

fn strings(items: &[&str]) -> Vec<String> {
    items.iter().map(|s| s.to_string()).collect()
}

fn dry_sensor(id: Option<&str>) -> RuntimeSensorMetadata {
    RuntimeSensorMetadata {
        sensorId: id.map(|s| s.to_string()),
        sensorName: Some("door".to_string()),
        sensorType: Some("dryContact".to_string()),
        sensorUsage: None,
    }
}

fn temp_sensor() -> RuntimeSensorMetadata {
    RuntimeSensorMetadata {
        sensorId: Some("temp1".to_string()),
        sensorName: Some("temp".to_string()),
        sensorType: Some("temperature".to_string()),
        sensorUsage: None,
    }
}

fn report(
    sensors: Option<Vec<RuntimeSensorMetadata>>,
    columns: Option<Vec<String>>,
    data: Option<Vec<String>>,
) -> RuntimeSensorReport {
    RuntimeSensorReport { thermostatIdentifier: Some("1".to_string()), sensors, columns, data }
}

#[test]
fn split_edges() {
    assert_eq!(split_str("", ':'), vec!["".to_string()]);
    assert_eq!(split_str("a:b", ':'), strings(&["a", "b"]));
    assert_eq!(split_str("a:", ':'), strings(&["a", ""]));
    assert_eq!(split_str("::", ':'), strings(&["", "", ""]));
}

#[test]
fn column_lookup_reads_aligned_field() {
    let columns = strings(&["date", "time", "sensorX"]);
    let k = find_column(&columns, "sensorX").expect("column exists");
    assert_eq!(k, 2);
    let field = nth_field("2024-01-01,14:30,1", k).expect("row has the field");
    assert_eq!(field, "1");
}

#[test]
fn column_lookup_absent() {
    let columns = strings(&["date", "time"]);
    assert!(find_column(&columns, "sensorX").is_none());
    assert!(nth_field("a,b", 2).is_none());
}

#[test]
fn sort_puts_latest_date_first() {
    let rows = strings(&["2024-01-01,10:00,1", "2024-01-02,09:00,0"]);
    let sorted = sort_rows(&rows, 0, 1);
    assert_eq!(sorted[0], "2024-01-02,09:00,0");
    assert_eq!(sorted[1], "2024-01-01,10:00,1");

    let reversed = strings(&["2024-01-02,09:00,0", "2024-01-01,10:00,1"]);
    let sorted2 = sort_rows(&reversed, 0, 1);
    assert_eq!(sorted2[0], "2024-01-02,09:00,0");
    assert_eq!(sorted2[1], "2024-01-01,10:00,1");
}

#[test]
fn sort_breaks_date_ties_by_time() {
    let rows = strings(&[
        "2024-01-01,08:00,a",
        "2024-01-01,23:55,b",
        "2024-01-01,12:00,c",
    ]);
    let sorted = sort_rows(&rows, 0, 1);
    assert_eq!(sorted[0], "2024-01-01,23:55,b");
    assert_eq!(sorted[1], "2024-01-01,12:00,c");
    assert_eq!(sorted[2], "2024-01-01,08:00,a");
}

#[test]
fn first_nonempty_skips_blank_entries() {
    let rows = strings(&["2024-01-02,10:00,", "2024-01-01,09:00,1"]);
    let entry = first_nonempty_field(&rows, 2).expect("an entry is non-empty");
    assert_eq!(entry, "1");
    assert!(first_nonempty_field(&rows, 5).is_none());
}

#[test]
fn empty_data_no_update() {
    let r = report(
        Some(vec![dry_sensor(Some("door1"))]),
        Some(strings(&["date", "time", "door1"])),
        Some(vec![]),
    );
    assert_eq!(decide_hvac_mode(&r), Ok(None));
}

#[test]
fn open_door_turns_hvac_off() {
    let r = report(
        Some(vec![dry_sensor(Some("door1"))]),
        Some(strings(&["date", "time", "door1"])),
        Some(strings(&["2024-01-01,10:00,1", "2024-01-02,09:00,0"])),
    );
    assert_eq!(decide_hvac_mode(&r), Ok(Some("off".to_string())));
}

#[test]
fn closed_door_turns_hvac_auto() {
    let r = report(
        Some(vec![dry_sensor(Some("door1"))]),
        Some(strings(&["date", "time", "door1"])),
        Some(strings(&["2024-01-01,10:00,0", "2024-01-02,09:00,1"])),
    );
    assert_eq!(decide_hvac_mode(&r), Ok(Some("auto".to_string())));
}

#[test]
fn blank_latest_entry_falls_back_to_older_row() {
    let r = report(
        Some(vec![dry_sensor(Some("door1"))]),
        Some(strings(&["date", "time", "door1"])),
        Some(strings(&["2024-01-03,01:00,", "2024-01-02,09:00,0"])),
    );
    assert_eq!(decide_hvac_mode(&r), Ok(Some("off".to_string())));
}

#[test]
fn sensor_with_no_data_counts_closed() {
    let r = report(
        Some(vec![dry_sensor(Some("door1"))]),
        Some(strings(&["date", "time", "door1"])),
        Some(strings(&["2024-01-01,10:00,", "2024-01-02,09:00,"])),
    );
    assert_eq!(decide_hvac_mode(&r), Ok(Some("auto".to_string())));
}

#[test]
fn non_dry_sensors_are_ignored() {
    let r = report(
        Some(vec![temp_sensor()]),
        Some(strings(&["date", "time", "temp1"])),
        Some(strings(&["2024-01-01,10:00,0"])),
    );
    assert_eq!(decide_hvac_mode(&r), Ok(Some("auto".to_string())));
}

#[test]
fn missing_columns_error() {
    let r = report(Some(vec![]), None, Some(vec![]));
    assert_eq!(decide_hvac_mode(&r), Err(PolicyError::MissingColumns));
}

#[test]
fn missing_data_error() {
    let r = report(Some(vec![]), Some(strings(&["date", "time"])), None);
    assert_eq!(decide_hvac_mode(&r), Err(PolicyError::MissingData));
}

#[test]
fn missing_sensors_error() {
    let r = report(None, Some(strings(&["date", "time"])), Some(vec![]));
    assert_eq!(decide_hvac_mode(&r), Err(PolicyError::MissingSensors));
}

#[test]
fn date_column_missing_error() {
    let r = report(
        Some(vec![]),
        Some(strings(&["time"])),
        Some(strings(&["10:00"])),
    );
    assert_eq!(decide_hvac_mode(&r), Err(PolicyError::DateColumnMissing));
}

#[test]
fn time_column_missing_error() {
    let r = report(
        Some(vec![]),
        Some(strings(&["date"])),
        Some(strings(&["2024-01-01"])),
    );
    assert_eq!(decide_hvac_mode(&r), Err(PolicyError::TimeColumnMissing));
}

#[test]
fn sensor_id_missing_error() {
    let r = report(
        Some(vec![dry_sensor(None)]),
        Some(strings(&["date", "time"])),
        Some(strings(&["2024-01-01,10:00"])),
    );
    assert_eq!(decide_hvac_mode(&r), Err(PolicyError::SensorIdMissing));
}

#[test]
fn sensor_column_missing_error() {
    let r = report(
        Some(vec![dry_sensor(Some("ghost"))]),
        Some(strings(&["date", "time"])),
        Some(strings(&["2024-01-01,10:00"])),
    );
    assert_eq!(decide_hvac_mode(&r), Err(PolicyError::SensorColumnMissing));
}

#[test]
fn any_open_door_wins() {
    let r = report(
        Some(vec![dry_sensor(Some("door1")), dry_sensor(Some("door2"))]),
        Some(strings(&["date", "time", "door1", "door2"])),
        Some(strings(&["2024-01-02,09:00,1,0"])),
    );
    assert_eq!(decide_hvac_mode(&r), Ok(Some("off".to_string())));
}
