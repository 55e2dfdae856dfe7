//! The runtime-report request and response.  The request is rendered as
//! single-level JSON with the selection embedded as a true nested object,
//! ready to ride in the `body` query parameter of the report endpoint.

use vstd::prelude::*;

use crate::json::{bool_str, bool_text, object_text, quote_str, quoted, render_object};
use crate::selection::{selection_json, Selection, SelectionType};
use crate::text::{int_text, i32_to_string};

verus! {

/// A runtime-report request with the selection already rendered to its
/// JSON fragment.
#[derive(Debug)]
pub struct GetRuntimeReportJson {
    pub selection: String,
    pub startDate: String,
    pub startInterval: i32,
    pub endDate: String,
    pub endInterval: i32,
    pub columns: String,
    pub includeSensors: bool,
}

/// A typed runtime-report request: which thermostats, which day span,
/// which columns, and whether to report per-sensor data.
#[derive(Debug)]
pub struct GetRuntimeReport {
    pub selection: Selection,
    pub startDate: String,
    pub startInterval: i32,
    pub endDate: String,
    pub endInterval: i32,
    pub columns: String,
    pub includeSensors: bool,
}

/// The entries of the request body object, in wire order.
pub open spec fn report_entries(r: GetRuntimeReport) -> Seq<(Seq<char>, Seq<char>)> {
    seq![
        ("selection"@, selection_json(r.selection)),
        ("startDate"@, quoted(r.startDate@)),
        ("startInterval"@, int_text(r.startInterval as int)),
        ("endDate"@, quoted(r.endDate@)),
        ("endInterval"@, int_text(r.endInterval as int)),
        ("columns"@, quoted(r.columns@)),
        ("includeSensors"@, bool_text(r.includeSensors)),
    ]
}

/// The complete request body: single-level JSON whose `selection` value
/// is a nested object, not an escaped string.
pub open spec fn report_body_text(r: GetRuntimeReport) -> Seq<char> {
    object_text(report_entries(r))
}

impl GetRuntimeReport {
    /// Renders the request body.
    pub fn to_body(&self) -> (r: String)
        ensures
            r@ == report_body_text(*self),
    {
        let mut entries: Vec<(String, String)> = Vec::new();
        entries.push(("selection".to_owned(), self.selection.to_json()));
        entries.push(("startDate".to_owned(), quote_str(self.startDate.as_str())));
        entries.push(("startInterval".to_owned(), i32_to_string(self.startInterval)));
        entries.push(("endDate".to_owned(), quote_str(self.endDate.as_str())));
        entries.push(("endInterval".to_owned(), i32_to_string(self.endInterval)));
        entries.push(("columns".to_owned(), quote_str(self.columns.as_str())));
        entries.push(("includeSensors".to_owned(), bool_str(self.includeSensors).to_owned()));
        let r = render_object(&entries);
        proof {
            assert(entries@.map_values(|e: (String, String)| (e.0@, e.1@)) =~~= report_entries(
                *self,
            ));
        }
        r
    }

    /// Lowers the typed request to its JSON form, rendering the
    /// selection fragment and carrying every other field across.
    pub fn into_json(self) -> (j: GetRuntimeReportJson)
        ensures
            j.selection@ == selection_json(self.selection),
            j.startDate == self.startDate,
            j.startInterval == self.startInterval,
            j.endDate == self.endDate,
            j.endInterval == self.endInterval,
            j.columns == self.columns,
            j.includeSensors == self.includeSensors,
    {
        GetRuntimeReportJson {
            selection: self.selection.to_json(),
            startDate: self.startDate,
            startInterval: self.startInterval,
            endDate: self.endDate,
            endInterval: self.endInterval,
            columns: self.columns,
            includeSensors: self.includeSensors,
        }
    }
}

impl Default for GetRuntimeReport {
    /// The conventional starting point for a report request: all
    /// thermostats, empty dates and columns, the full day of intervals
    /// (0 through 287), and no per-sensor data.
    fn default() -> (r: Self)
        ensures
            r.selection.selectionType is thermostats,
            r.selection.selectionMatch@.len() == 0,
            r.selection.includeFlag is None,
            r.startDate@.len() == 0,
            r.startInterval == 0,
            r.endDate@.len() == 0,
            r.endInterval == 287,
            r.columns@.len() == 0,
            !r.includeSensors,
    {
        GetRuntimeReport {
            selection: Selection {
                selectionType: SelectionType::thermostats,
                selectionMatch: String::new(),
                includeFlag: None,
            },
            startDate: String::new(),
            startInterval: 0,
            endDate: String::new(),
            endInterval: 287,
            columns: String::new(),
            includeSensors: false,
        }
    }
}

/// Per-thermostat rows of a runtime report; the vendor may omit any of
/// these fields.
#[derive(Debug)]
pub struct RuntimeReport {
    pub thermostatIdentifier: Option<String>,
    pub rowCount: Option<i32>,
    pub rowList: Option<Vec<String>>,
}

/// What the vendor reports about one sensor.
#[derive(Debug, Clone)]
pub struct RuntimeSensorMetadata {
    pub sensorId: Option<String>,
    pub sensorName: Option<String>,
    pub sensorType: Option<String>,
    pub sensorUsage: Option<String>,
}

/// Per-sensor data of a runtime report: an ordered column-name list and
/// comma-delimited data rows, positionally aligned.
#[derive(Debug)]
pub struct RuntimeSensorReport {
    pub thermostatIdentifier: Option<String>,
    pub sensors: Option<Vec<RuntimeSensorMetadata>>,
    pub columns: Option<Vec<String>>,
    pub data: Option<Vec<String>>,
}

/// A full runtime-report response.
#[derive(Debug)]
pub struct GetRuntimeReportResponse {
    pub startDate: String,
    pub startInterval: i32,
    pub endDate: String,
    pub endInterval: i32,
    pub columns: String,
    pub reportList: Vec<RuntimeReport>,
    pub sensorList: Vec<RuntimeSensorReport>,
}

} // verus!
