use ecobee::client::Ecobee;
use ecobee::report::GetRuntimeReport;
use ecobee::selection::{Selection, SelectionInclude, SelectionType};
use ecobee::summary::{CSVRevisionValues, GetThermostatSummaryResponseJson, Status};
use ecobee::text::i32_to_string;
use ecobee::update::{Settings, Thermostat, UpdateThermostat};

#[test]
fn selection_with_include_has_three_keys() {
    let sel = Selection {
        selectionType: SelectionType::registered,
        selectionMatch: "".to_string(),
        includeFlag: Some(SelectionInclude::includeDevice),
    };
    assert_eq!(
        sel.to_json(),
        "{\"selectionType\":\"registered\",\"selectionMatch\":\"\",\"includeDevice\":true}"
    );
}

#[test]
fn selection_without_include_has_two_keys() {
    let sel = Selection {
        selectionType: SelectionType::thermostats,
        selectionMatch: "home".to_string(),
        includeFlag: None,
    };
    assert_eq!(
        sel.to_json(),
        "{\"selectionType\":\"thermostats\",\"selectionMatch\":\"home\"}"
    );
}

#[test]
fn revision_round_trip() {
    let rec = CSVRevisionValues::from_str(
        "522697894617:My ecobee:true:220115212500:220103232041:220115222447:220115222000",
    )
    .expect("well-formed record must parse");
    assert_eq!(rec.thermostat_identifier, "522697894617");
    assert_eq!(rec.thermostat_name, "My ecobee");
    assert!(rec.connected);
    assert_eq!(rec.thermostat_revision, "220115212500");
    assert_eq!(rec.alerts_revision, "220103232041");
    assert_eq!(rec.runtime_revision, "220115222447");
    assert_eq!(rec.interval_revision, "220115222000");
}

#[test]
fn revision_connected_false() {
    let rec = CSVRevisionValues::from_str("1:n:false:a:b:c:d").expect("must parse");
    assert!(!rec.connected);
}

#[test]
fn revision_bad_connected_fails() {
    assert!(CSVRevisionValues::from_str("1:n:maybe:a:b:c:d").is_err());
}

#[test]
fn revision_extra_fields_ignored() {
    let rec = CSVRevisionValues::from_str("1:n:true:a:b:c:d:extra:junk").expect("must parse");
    assert_eq!(rec.interval_revision, "d");
}

#[test]
fn revision_too_few_fields_fails() {
    assert!(CSVRevisionValues::from_str("1:n:true").is_err());
    assert!(CSVRevisionValues::from_str("").is_err());
}

#[test]
fn summary_decodes_every_record() {
    let json = GetThermostatSummaryResponseJson {
        revisionList: vec![
            "1:one:true:a:b:c:d".to_string(),
            "2:two:false:e:f:g:h".to_string(),
        ],
        thermostatCount: 2,
        statusList: vec![],
        status: Status { code: 0, message: "".to_string() },
    };
    let resp = json.try_into_response().expect("all records are well formed");
    assert_eq!(resp.revisionList.len(), 2);
    assert_eq!(resp.revisionList[0].thermostat_identifier, "1");
    assert!(resp.revisionList[0].connected);
    assert_eq!(resp.revisionList[1].runtime_revision, "g");
    assert!(!resp.revisionList[1].connected);
    assert_eq!(resp.thermostatCount, 2);
}

#[test]
fn summary_one_bad_record_rejects_response() {
    let json = GetThermostatSummaryResponseJson {
        revisionList: vec![
            "1:one:true:a:b:c:d".to_string(),
            "2:two:broken:e:f:g:h".to_string(),
        ],
        thermostatCount: 2,
        statusList: vec![],
        status: Status { code: 0, message: "".to_string() },
    };
    assert!(json.try_into_response().is_err());
}

#[test]
fn update_body_nests_selection_as_object() {
    let update = UpdateThermostat {
        selection: Selection {
            selectionType: SelectionType::registered,
            selectionMatch: "".to_string(),
            includeFlag: None,
        },
        thermostat: Some(Thermostat {
            identifier: "123".to_string(),
            settings: Some(Settings { hvacMode: Some("auto".to_string()) }),
        }),
    };
    let body = update.to_body();
    assert_eq!(
        body,
        "{\"selection\":{\"selectionType\":\"registered\",\"selectionMatch\":\"\"},\
         \"thermostat\":{\"identifier\":\"123\",\"settings\":{\"hvacMode\":\"auto\"}}}"
    );
    assert!(body.contains("\"selection\":{"));
    assert!(!body.contains("\"selection\":\"{"));
}

#[test]
fn update_body_null_thermostat() {
    let update = UpdateThermostat {
        selection: Selection {
            selectionType: SelectionType::registered,
            selectionMatch: "".to_string(),
            includeFlag: None,
        },
        thermostat: None,
    };
    assert_eq!(
        update.to_body(),
        "{\"selection\":{\"selectionType\":\"registered\",\"selectionMatch\":\"\"},\"thermostat\":null}"
    );
}

#[test]
fn update_encoded_body_percent_encodes() {
    let update = UpdateThermostat {
        selection: Selection {
            selectionType: SelectionType::registered,
            selectionMatch: "".to_string(),
            includeFlag: None,
        },
        thermostat: Some(Thermostat {
            identifier: "123".to_string(),
            settings: Some(Settings { hvacMode: Some("auto".to_string()) }),
        }),
    };
    assert_eq!(
        update.to_encoded_body(),
        "%7B%22selection%22%3A%7B%22selectionType%22%3A%22registered%22%2C%22selectionMatch%22%3A%22%22%7D%2C%22thermostat%22%3A%7B%22identifier%22%3A%22123%22%2C%22settings%22%3A%7B%22hvacMode%22%3A%22auto%22%7D%7D%7D"
    );
}

#[test]
fn report_body_exact() {
    let report = GetRuntimeReport {
        selection: Selection {
            selectionType: SelectionType::thermostats,
            selectionMatch: "250891226344".to_string(),
            includeFlag: Some(SelectionInclude::includeDevice),
        },
        startDate: "2024-01-01".to_string(),
        startInterval: 0,
        endDate: "2024-01-01".to_string(),
        endInterval: 287,
        columns: "zoneHvacMode,zoneCalendarEvent".to_string(),
        includeSensors: true,
    };
    assert_eq!(
        report.to_body(),
        "{\"selection\":{\"selectionType\":\"thermostats\",\"selectionMatch\":\"250891226344\",\
         \"includeDevice\":true},\"startDate\":\"2024-01-01\",\"startInterval\":0,\
         \"endDate\":\"2024-01-01\",\"endInterval\":287,\
         \"columns\":\"zoneHvacMode,zoneCalendarEvent\",\"includeSensors\":true}"
    );
}

#[test]
fn report_default_values() {
    let report = GetRuntimeReport::default();
    assert_eq!(report.startInterval, 0);
    assert_eq!(report.endInterval, 287);
    assert_eq!(report.startDate, "");
    assert_eq!(report.endDate, "");
    assert_eq!(report.columns, "");
    assert!(!report.includeSensors);
    assert_eq!(report.selection.selectionMatch, "");
}

#[test]
fn report_into_json_renders_selection() {
    let report = GetRuntimeReport::default();
    let json = report.into_json();
    assert_eq!(
        json.selection,
        "{\"selectionType\":\"thermostats\",\"selectionMatch\":\"\"}"
    );
    assert_eq!(json.endInterval, 287);
}

#[test]
fn update_into_json_renders_selection() {
    let update = UpdateThermostat {
        selection: Selection {
            selectionType: SelectionType::managementSet,
            selectionMatch: "/".to_string(),
            includeFlag: None,
        },
        thermostat: None,
    };
    let json = update.into_json();
    assert_eq!(
        json.selection,
        "{\"selectionType\":\"managementSet\",\"selectionMatch\":\"/\"}"
    );
    assert!(json.thermostat.is_none());
}

#[test]
fn summary_url_exact() {
    let bee = Ecobee { auth: "tok".to_string(), refresh: "".to_string() };
    let sel = Selection {
        selectionType: SelectionType::registered,
        selectionMatch: "".to_string(),
        includeFlag: Some(SelectionInclude::includeDevice),
    };
    assert_eq!(
        bee.summary_url(&sel),
        "https://api.ecobee.com/1/thermostatSummary?format=json&body=\
         {\"selection\":{\"selectionType\":\"registered\",\"selectionMatch\":\"\",\
         \"includeDevice\":true}}"
    );
}

#[test]
fn auth_header_exact() {
    let bee = Ecobee { auth: "token123".to_string(), refresh: "".to_string() };
    assert_eq!(bee.auth_header(), "Bearer token123");
}

#[test]
fn runtime_report_url_has_prefix() {
    let bee = Ecobee { auth: "tok".to_string(), refresh: "".to_string() };
    let report = GetRuntimeReport::default();
    let url = bee.runtime_report_url(&report);
    assert!(url.starts_with("https://api.ecobee.com/1/runtimeReport?format=json&body={"));
    assert!(url.ends_with("}"));
}

#[test]
fn i32_rendering() {
    assert_eq!(i32_to_string(0), "0");
    assert_eq!(i32_to_string(287), "287");
    assert_eq!(i32_to_string(-42), "-42");
    assert_eq!(i32_to_string(i32::MAX), "2147483647");
    assert_eq!(i32_to_string(i32::MIN), "-2147483648");
}
