//! The thermostat-summary response and the colon-delimited revision
//! records embedded in it.  Each entry of the vendor's revision list is a
//! record of seven colon-separated fields:
//! `identifier:name:connected:thermostatRevision:alertsRevision:runtimeRevision:intervalRevision`,
//! where `connected` must be literally `true` or `false`.

use vstd::prelude::*;

use crate::text::{split_on, split_str, str_eq};

verus! {

/// The status code/message pair the vendor attaches to a response.
#[derive(Debug)]
pub struct Status {
    pub code: i32,
    pub message: String,
}

/// A summary response as deserialized from JSON, with the revision list
/// still in its raw colon-delimited string form.
#[derive(Debug)]
pub struct GetThermostatSummaryResponseJson {
    pub revisionList: Vec<String>,
    pub thermostatCount: i32,
    pub statusList: Vec<String>,
    pub status: Status,
}

/// A summary response with every revision record decoded.
#[derive(Debug)]
pub struct GetThermostatSummaryResponse {
    pub revisionList: Vec<CSVRevisionValues>,
    pub thermostatCount: i32,
    pub statusList: Vec<String>,
    pub status: Status,
}

/// One decoded revision record.
#[derive(Debug, Clone)]
pub struct CSVRevisionValues {
    pub thermostat_identifier: String,
    pub thermostat_name: String,
    pub connected: bool,
    pub thermostat_revision: String,
    pub alerts_revision: String,
    pub runtime_revision: String,
    pub interval_revision: String,
}

/// A revision string is well formed when it carries at least seven
/// colon-separated fields and the third is literally `true` or `false`.
pub open spec fn revision_ok(s: Seq<char>) -> bool {
    let p = split_on(s, ':');
    p.len() >= 7 && (p[2] == "true"@ || p[2] == "false"@)
}

/// The record `rec` holds exactly the first seven fields of `s`.
pub open spec fn revision_matches(rec: CSVRevisionValues, s: Seq<char>) -> bool {
    let p = split_on(s, ':');
    &&& rec.thermostat_identifier@ == p[0]
    &&& rec.thermostat_name@ == p[1]
    &&& rec.connected == (p[2] == "true"@)
    &&& rec.thermostat_revision@ == p[3]
    &&& rec.alerts_revision@ == p[4]
    &&& rec.runtime_revision@ == p[5]
    &&& rec.interval_revision@ == p[6]
}

impl CSVRevisionValues {
    /// Decodes one colon-delimited revision record, for example
    /// `522697894617:My ecobee:true:220115212500:220103232041:220115222447:220115222000`.
    /// Fails exactly when a field is missing or `connected` is neither
    /// `true` nor `false`; any fields past the seventh are ignored.
    pub fn from_str(s: &str) -> (r: Result<CSVRevisionValues, ()>)
        ensures
            r is Ok <==> revision_ok(s@),
            r is Ok ==> revision_matches(r->Ok_0, s@),
    {
        let parts = split_str(s, ':');
        if parts.len() < 7 {
            return Err(());
        }
        let connected = if str_eq(parts[2].as_str(), "true") {
            true
        } else if str_eq(parts[2].as_str(), "false") {
            false
        } else {
            return Err(());
        };
        Ok(
            CSVRevisionValues {
                thermostat_identifier: parts[0].clone(),
                thermostat_name: parts[1].clone(),
                connected,
                thermostat_revision: parts[3].clone(),
                alerts_revision: parts[4].clone(),
                runtime_revision: parts[5].clone(),
                interval_revision: parts[6].clone(),
            },
        )
    }
}

impl GetThermostatSummaryResponseJson {
    /// Decodes every revision record of the raw response.  Succeeds
    /// exactly when every record is well formed; a single malformed
    /// record rejects the whole response.
    pub fn try_into_response(self) -> (r: Result<GetThermostatSummaryResponse, ()>)
        ensures
            r is Ok <==> (forall|i: int|
                0 <= i < self.revisionList@.len() ==> revision_ok(self.revisionList@[i]@)),
            r is Ok ==> {
                let resp = r->Ok_0;
                &&& resp.revisionList@.len() == self.revisionList@.len()
                &&& (forall|i: int|
                    0 <= i < self.revisionList@.len() ==> revision_matches(
                        resp.revisionList@[i],
                        self.revisionList@[i]@,
                    ))
                &&& resp.thermostatCount == self.thermostatCount
                &&& resp.statusList == self.statusList
                &&& resp.status == self.status
            },
    {
        let mut decoded: Vec<CSVRevisionValues> = Vec::new();
        let n = self.revisionList.len();
        let mut i: usize = 0;
        while i < n
            invariant
                i <= n,
                n == self.revisionList@.len(),
                decoded@.len() == i as int,
                forall|j: int| 0 <= j < i ==> revision_ok(self.revisionList@[j]@),
                forall|j: int|
                    0 <= j < i ==> revision_matches(decoded@[j], self.revisionList@[j]@),
            decreases n - i,
        {
            match CSVRevisionValues::from_str(self.revisionList[i].as_str()) {
                Ok(rec) => decoded.push(rec),
                Err(()) => {
                    return Err(());
                },
            }
            i = i + 1;
        }
        Ok(
            GetThermostatSummaryResponse {
                revisionList: decoded,
                thermostatCount: self.thermostatCount,
                statusList: self.statusList,
                status: self.status,
            },
        )
    }
}

} // verus!
