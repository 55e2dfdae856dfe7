//! The client's credentials and the exact texts of the three vendor API
//! calls: the summary and report URLs with their JSON-in-query-string
//! bodies, and the update endpoint.  The HTTP transport itself lives
//! outside the library; it sends precisely the strings built here.

use vstd::prelude::*;

use crate::json::{object_text, render_object};
use crate::report::{report_body_text, GetRuntimeReport};
use crate::selection::{selection_json, Selection};

verus! {

/// Bearer-token credentials for the vendor API.
#[derive(Debug)]
pub struct Ecobee {
    pub auth: String,
    pub refresh: String,
}

/// The `body` parameter of a summary call: a one-entry object wrapping
/// the selection.
pub open spec fn wrapped_selection_text(sel: Selection) -> Seq<char> {
    object_text(seq![("selection"@, selection_json(sel))])
}

/// The full summary URL, selection included.
pub open spec fn summary_url_text(sel: Selection) -> Seq<char> {
    "https://api.ecobee.com/1/thermostatSummary?format=json&body="@ + wrapped_selection_text(sel)
}

/// The full runtime-report URL, request body included.
pub open spec fn report_url_text(r: GetRuntimeReport) -> Seq<char> {
    "https://api.ecobee.com/1/runtimeReport?format=json&body="@ + report_body_text(r)
}

/// The update endpoint; its payload travels in the POST body instead.
pub fn update_url() -> (r: &'static str)
    ensures
        r@ == "https://api.ecobee.com/1/thermostat?format=json"@,
{
    "https://api.ecobee.com/1/thermostat?format=json"
}

impl Ecobee {
    /// The value of the `Authorization` header for every call.
    pub fn auth_header(&self) -> (r: String)
        ensures
            r@ == "Bearer "@ + self.auth@,
    {
        let mut r = "Bearer ".to_owned();
        r.append(self.auth.as_str());
        r
    }

    /// The URL of a summary call for the given selection.
    pub fn summary_url(&self, selection: &Selection) -> (r: String)
        ensures
            r@ == summary_url_text(*selection),
    {
        let mut entries: Vec<(String, String)> = Vec::new();
        entries.push(("selection".to_owned(), selection.to_json()));
        let body = render_object(&entries);
        proof {
            assert(entries@.map_values(|e: (String, String)| (e.0@, e.1@)) =~~= seq![
                ("selection"@, selection_json(*selection)),
            ]);
        }
        let mut r = "https://api.ecobee.com/1/thermostatSummary?format=json&body=".to_owned();
        r.append(body.as_str());
        r
    }

    /// The URL of a runtime-report call for the given request.
    pub fn runtime_report_url(&self, data: &GetRuntimeReport) -> (r: String)
        ensures
            r@ == report_url_text(*data),
    {
        let body = data.to_body();
        let mut r = "https://api.ecobee.com/1/runtimeReport?format=json&body=".to_owned();
        r.append(body.as_str());
        r
    }
}

} // verus!
