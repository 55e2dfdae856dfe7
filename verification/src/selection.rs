//! The selection block that every vendor API call carries: which
//! thermostats the call targets and, optionally, one include flag naming
//! the related data to return.

use vstd::prelude::*;

use crate::json::{bool_str, bool_text, object_text, quote_str, quoted, render_object};

verus! {

/// How the `selectionMatch` string is interpreted by the vendor.
#[derive(Debug, Clone, Copy)]
pub enum SelectionType {
    registered,
    thermostats,
    managementSet,
}

/// The optional include flag: at most one of these may be requested per
/// call, and it is serialized as its own boolean key set to `true`.
#[derive(Debug, Clone, Copy)]
pub enum SelectionInclude {
    includeRuntime,
    includeExtendedRuntime,
    includeElectricity,
    includeSettings,
    includeLocation,
    includeProgram,
    includeEvents,
    includeDevice,
    includeTechnician,
    includeUtility,
    includeManagement,
    includeAlerts,
    includeReminders,
    includeWeather,
    includeHouseDetails,
    includeOemCfg,
    includeEquipmentStatus,
    includeNotificationSettings,
    includePrivacy,
    includeVersion,
    includeSecuritySettings,
    includeSensors,
    includeAudio,
    includeEnergy,
    includeCapabilities,
}

/// Identifies the thermostats a call targets and what data to include.
#[derive(Debug)]
pub struct Selection {
    pub selectionType: SelectionType,
    pub selectionMatch: String,
    pub includeFlag: Option<SelectionInclude>,
}

/// The wire name of a selection type.
pub open spec fn selection_type_text(t: SelectionType) -> Seq<char> {
    match t {
        SelectionType::registered => "registered"@,
        SelectionType::thermostats => "thermostats"@,
        SelectionType::managementSet => "managementSet"@,
    }
}

/// The wire name of an include flag.
pub open spec fn include_name(inc: SelectionInclude) -> Seq<char> {
    match inc {
        SelectionInclude::includeRuntime => "includeRuntime"@,
        SelectionInclude::includeExtendedRuntime => "includeExtendedRuntime"@,
        SelectionInclude::includeElectricity => "includeElectricity"@,
        SelectionInclude::includeSettings => "includeSettings"@,
        SelectionInclude::includeLocation => "includeLocation"@,
        SelectionInclude::includeProgram => "includeProgram"@,
        SelectionInclude::includeEvents => "includeEvents"@,
        SelectionInclude::includeDevice => "includeDevice"@,
        SelectionInclude::includeTechnician => "includeTechnician"@,
        SelectionInclude::includeUtility => "includeUtility"@,
        SelectionInclude::includeManagement => "includeManagement"@,
        SelectionInclude::includeAlerts => "includeAlerts"@,
        SelectionInclude::includeReminders => "includeReminders"@,
        SelectionInclude::includeWeather => "includeWeather"@,
        SelectionInclude::includeHouseDetails => "includeHouseDetails"@,
        SelectionInclude::includeOemCfg => "includeOemCfg"@,
        SelectionInclude::includeEquipmentStatus => "includeEquipmentStatus"@,
        SelectionInclude::includeNotificationSettings => "includeNotificationSettings"@,
        SelectionInclude::includePrivacy => "includePrivacy"@,
        SelectionInclude::includeVersion => "includeVersion"@,
        SelectionInclude::includeSecuritySettings => "includeSecuritySettings"@,
        SelectionInclude::includeSensors => "includeSensors"@,
        SelectionInclude::includeAudio => "includeAudio"@,
        SelectionInclude::includeEnergy => "includeEnergy"@,
        SelectionInclude::includeCapabilities => "includeCapabilities"@,
    }
}

/// The key/value entries of the encoded selection object: the type and
/// match strings always, and the include flag, when present, as its own
/// boolean key set to `true`.
pub open spec fn selection_entries(sel: Selection) -> Seq<(Seq<char>, Seq<char>)> {
    match sel.includeFlag {
        Some(inc) => seq![
            ("selectionType"@, quoted(selection_type_text(sel.selectionType))),
            ("selectionMatch"@, quoted(sel.selectionMatch@)),
            (include_name(inc), bool_text(true)),
        ],
        None => seq![
            ("selectionType"@, quoted(selection_type_text(sel.selectionType))),
            ("selectionMatch"@, quoted(sel.selectionMatch@)),
        ],
    }
}

/// The selection rendered as a JSON object text.
pub open spec fn selection_json(sel: Selection) -> Seq<char> {
    object_text(selection_entries(sel))
}

/// The wire name of a selection type, as a string.
pub fn selection_type_str(t: &SelectionType) -> (r: &'static str)
    ensures
        r@ == selection_type_text(*t),
{
    match t {
        SelectionType::registered => "registered",
        SelectionType::thermostats => "thermostats",
        SelectionType::managementSet => "managementSet",
    }
}

/// The wire name of an include flag, as a string.
pub fn include_name_str(inc: &SelectionInclude) -> (r: &'static str)
    ensures
        r@ == include_name(*inc),
{
    match inc {
        SelectionInclude::includeRuntime => "includeRuntime",
        SelectionInclude::includeExtendedRuntime => "includeExtendedRuntime",
        SelectionInclude::includeElectricity => "includeElectricity",
        SelectionInclude::includeSettings => "includeSettings",
        SelectionInclude::includeLocation => "includeLocation",
        SelectionInclude::includeProgram => "includeProgram",
        SelectionInclude::includeEvents => "includeEvents",
        SelectionInclude::includeDevice => "includeDevice",
        SelectionInclude::includeTechnician => "includeTechnician",
        SelectionInclude::includeUtility => "includeUtility",
        SelectionInclude::includeManagement => "includeManagement",
        SelectionInclude::includeAlerts => "includeAlerts",
        SelectionInclude::includeReminders => "includeReminders",
        SelectionInclude::includeWeather => "includeWeather",
        SelectionInclude::includeHouseDetails => "includeHouseDetails",
        SelectionInclude::includeOemCfg => "includeOemCfg",
        SelectionInclude::includeEquipmentStatus => "includeEquipmentStatus",
        SelectionInclude::includeNotificationSettings => "includeNotificationSettings",
        SelectionInclude::includePrivacy => "includePrivacy",
        SelectionInclude::includeVersion => "includeVersion",
        SelectionInclude::includeSecuritySettings => "includeSecuritySettings",
        SelectionInclude::includeSensors => "includeSensors",
        SelectionInclude::includeAudio => "includeAudio",
        SelectionInclude::includeEnergy => "includeEnergy",
        SelectionInclude::includeCapabilities => "includeCapabilities",
    }
}

/// Every include flag's wire name starts with the letter `i`.
proof fn lemma_include_name_shape(inc: SelectionInclude)
    ensures
        include_name(inc).len() > 0,
        include_name(inc)[0] == 'i',
{
    match inc {
        SelectionInclude::includeRuntime => reveal_strlit("includeRuntime"),
        SelectionInclude::includeExtendedRuntime => reveal_strlit("includeExtendedRuntime"),
        SelectionInclude::includeElectricity => reveal_strlit("includeElectricity"),
        SelectionInclude::includeSettings => reveal_strlit("includeSettings"),
        SelectionInclude::includeLocation => reveal_strlit("includeLocation"),
        SelectionInclude::includeProgram => reveal_strlit("includeProgram"),
        SelectionInclude::includeEvents => reveal_strlit("includeEvents"),
        SelectionInclude::includeDevice => reveal_strlit("includeDevice"),
        SelectionInclude::includeTechnician => reveal_strlit("includeTechnician"),
        SelectionInclude::includeUtility => reveal_strlit("includeUtility"),
        SelectionInclude::includeManagement => reveal_strlit("includeManagement"),
        SelectionInclude::includeAlerts => reveal_strlit("includeAlerts"),
        SelectionInclude::includeReminders => reveal_strlit("includeReminders"),
        SelectionInclude::includeWeather => reveal_strlit("includeWeather"),
        SelectionInclude::includeHouseDetails => reveal_strlit("includeHouseDetails"),
        SelectionInclude::includeOemCfg => reveal_strlit("includeOemCfg"),
        SelectionInclude::includeEquipmentStatus => reveal_strlit("includeEquipmentStatus"),
        SelectionInclude::includeNotificationSettings => reveal_strlit(
            "includeNotificationSettings",
        ),
        SelectionInclude::includePrivacy => reveal_strlit("includePrivacy"),
        SelectionInclude::includeVersion => reveal_strlit("includeVersion"),
        SelectionInclude::includeSecuritySettings => reveal_strlit("includeSecuritySettings"),
        SelectionInclude::includeSensors => reveal_strlit("includeSensors"),
        SelectionInclude::includeAudio => reveal_strlit("includeAudio"),
        SelectionInclude::includeEnergy => reveal_strlit("includeEnergy"),
        SelectionInclude::includeCapabilities => reveal_strlit("includeCapabilities"),
    }
}

/// Law: the encoded selection object has exactly three keys when an
/// include flag is present and exactly two otherwise, and those keys are
/// pairwise distinct.
pub proof fn lemma_selection_key_count(sel: Selection)
    ensures
        selection_entries(sel).len() == if sel.includeFlag is Some {
            3int
        } else {
            2int
        },
        forall|i: int, j: int|
            0 <= i < j < selection_entries(sel).len() ==> selection_entries(sel)[i].0
                != selection_entries(sel)[j].0,
{
    reveal_strlit("selectionType");
    reveal_strlit("selectionMatch");
    assert("selectionType"@[9] == 'T');
    assert("selectionMatch"@[9] == 'M');
    assert("selectionType"@[0] == 's');
    assert("selectionMatch"@[0] == 's');
    if let Some(inc) = sel.includeFlag {
        lemma_include_name_shape(inc);
    }
}

impl Selection {
    /// Renders the selection as the JSON object fragment the vendor
    /// expects, for example
    /// `{"selectionType":"registered","selectionMatch":"","includeDevice":true}`.
    pub fn to_json(&self) -> (r: String)
        ensures
            r@ == selection_json(*self),
    {
        let mut entries: Vec<(String, String)> = Vec::new();
        entries.push(("selectionType".to_owned(), quote_str(selection_type_str(&self.selectionType))));
        entries.push(("selectionMatch".to_owned(), quote_str(self.selectionMatch.as_str())));
        if let Some(inc) = &self.includeFlag {
            entries.push((include_name_str(inc).to_owned(), bool_str(true).to_owned()));
        }
        let r = render_object(&entries);
        proof {
            assert(entries@.map_values(|e: (String, String)| (e.0@, e.1@)) =~~= selection_entries(
                *self,
            ));
        }
        r
    }
}

} // verus!
