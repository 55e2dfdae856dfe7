//! The thermostat-update request: targets one thermostat by identifier
//! and optionally carries a settings patch (currently only the HVAC
//! mode).  The POST body is single-level JSON with the selection as a
//! true nested object, percent-encoded before it is sent.

use vstd::prelude::*;

use crate::json::{object_text, quote_str, quoted, render_object};
use crate::selection::{selection_json, Selection};
use crate::summary::Status;
use crate::text::dec_digit;

verus! {

/// The settings patch an update may carry.
#[derive(Debug)]
pub struct Settings {
    pub hvacMode: Option<String>,
}

/// The thermostat block of an update call.
#[derive(Debug)]
pub struct Thermostat {
    pub identifier: String,
    pub settings: Option<Settings>,
}

/// A placeholder for the vendor's thermostat functions, which this
/// library does not implement.
#[derive(Debug)]
pub struct Function {}

/// A typed update request.
#[derive(Debug)]
pub struct UpdateThermostat {
    pub selection: Selection,
    pub thermostat: Option<Thermostat>,
}

/// An update request with the selection already rendered to its JSON
/// fragment.
#[derive(Debug)]
pub struct UpdateThermostatJson {
    pub selection: String,
    pub thermostat: Option<Thermostat>,
}

/// The vendor's answer to an update call.
#[derive(Debug)]
pub struct UpdateThermostatResponse {
    pub status: Status,
}

/// The rendering of an optional settings patch: `null` when absent.
pub open spec fn settings_text(s: Option<Settings>) -> Seq<char> {
    match s {
        None => "null"@,
        Some(st) => object_text(
            seq![
                ("hvacMode"@, match st.hvacMode {
                    None => "null"@,
                    Some(m) => quoted(m@),
                }),
            ],
        ),
    }
}

/// The rendering of an optional thermostat block: `null` when absent.
pub open spec fn thermostat_text(t: Option<Thermostat>) -> Seq<char> {
    match t {
        None => "null"@,
        Some(th) => object_text(
            seq![
                ("identifier"@, quoted(th.identifier@)),
                ("settings"@, settings_text(th.settings)),
            ],
        ),
    }
}

/// The entries of the update body object, in wire order.
pub open spec fn update_entries(u: UpdateThermostat) -> Seq<(Seq<char>, Seq<char>)> {
    seq![
        ("selection"@, selection_json(u.selection)),
        ("thermostat"@, thermostat_text(u.thermostat)),
    ]
}

/// The complete update body before percent-encoding: the selection rides
/// as a nested JSON object, never as an escaped string.
pub open spec fn update_body_text(u: UpdateThermostat) -> Seq<char> {
    object_text(update_entries(u))
}

/// Renders a settings patch.
fn settings_json(s: &Settings) -> (r: String)
    ensures
        r@ == settings_text(Some(*s)),
{
    let mut entries: Vec<(String, String)> = Vec::new();
    let mode = match &s.hvacMode {
        None => "null".to_owned(),
        Some(m) => quote_str(m.as_str()),
    };
    entries.push(("hvacMode".to_owned(), mode));
    let r = render_object(&entries);
    proof {
        assert(entries@.map_values(|e: (String, String)| (e.0@, e.1@)) =~~= seq![
            ("hvacMode"@, match s.hvacMode {
                None => "null"@,
                Some(m) => quoted(m@),
            }),
        ]);
    }
    r
}

/// Renders a thermostat block.
fn thermostat_json(t: &Thermostat) -> (r: String)
    ensures
        r@ == thermostat_text(Some(*t)),
{
    let mut entries: Vec<(String, String)> = Vec::new();
    entries.push(("identifier".to_owned(), quote_str(t.identifier.as_str())));
    let settings = match &t.settings {
        None => "null".to_owned(),
        Some(st) => settings_json(st),
    };
    entries.push(("settings".to_owned(), settings));
    let r = render_object(&entries);
    proof {
        assert(entries@.map_values(|e: (String, String)| (e.0@, e.1@)) =~~= seq![
            ("identifier"@, quoted(t.identifier@)),
            ("settings"@, settings_text(t.settings)),
        ]);
    }
    r
}

impl UpdateThermostat {
    /// Renders the update body as single-level JSON.
    pub fn to_body(&self) -> (r: String)
        ensures
            r@ == update_body_text(*self),
    {
        let mut entries: Vec<(String, String)> = Vec::new();
        entries.push(("selection".to_owned(), self.selection.to_json()));
        let thermostat = match &self.thermostat {
            None => "null".to_owned(),
            Some(t) => thermostat_json(t),
        };
        entries.push(("thermostat".to_owned(), thermostat));
        let r = render_object(&entries);
        proof {
            assert(entries@.map_values(|e: (String, String)| (e.0@, e.1@)) =~~= update_entries(
                *self,
            ));
        }
        r
    }

    /// Renders the percent-encoded POST body for the update endpoint.
    pub fn to_encoded_body(&self) -> (r: String)
        ensures
            r@ == pct_bytes(vstd::utf8::encode_utf8(update_body_text(*self))),
            vstd::utf8::is_ascii_chars(update_body_text(*self)) ==> r@ == pct_encoding(
                update_body_text(*self),
            ),
    {
        let body = self.to_body();
        proof {
            if vstd::utf8::is_ascii_chars(update_body_text(*self)) {
                lemma_pct_encoding_ascii(update_body_text(*self));
            }
        }
        encode_component(body.as_str())
    }

    /// Lowers the typed request to its JSON form, rendering the
    /// selection fragment and carrying the thermostat block across.
    pub fn into_json(self) -> (j: UpdateThermostatJson)
        ensures
            j.selection@ == selection_json(self.selection),
            j.thermostat == self.thermostat,
    {
        UpdateThermostatJson { selection: self.selection.to_json(), thermostat: self.thermostat }
    }
}

/// A byte that percent-encoding passes through unchanged: ASCII
/// alphanumerics and `-`, `.`, `_`, `~`.
pub open spec fn pct_unreserved(b: u8) -> bool {
    (48 <= b <= 57) || (65 <= b <= 90) || (97 <= b <= 122) || b == 45 || b == 46 || b == 95 || b
        == 126
}

/// The uppercase hexadecimal digit for a value below sixteen.
pub open spec fn hex_upper(d: int) -> char {
    if d < 10 {
        dec_digit(d)
    } else if d == 10 {
        'A'
    } else if d == 11 {
        'B'
    } else if d == 12 {
        'C'
    } else if d == 13 {
        'D'
    } else if d == 14 {
        'E'
    } else {
        'F'
    }
}

/// The percent-encoding of one byte.
pub open spec fn pct_byte(b: u8) -> Seq<char> {
    if pct_unreserved(b) {
        seq![b as char]
    } else {
        seq!['%', hex_upper(b as int / 16), hex_upper(b as int % 16)]
    }
}

/// The percent-encoding of a byte sequence.
pub open spec fn pct_bytes(bs: Seq<u8>) -> Seq<char>
    decreases bs.len(),
{
    if bs.len() == 0 {
        Seq::empty()
    } else {
        pct_byte(bs[0]) + pct_bytes(bs.drop_first())
    }
}

/// The percent-encoding of an all-ASCII string, character by character.
pub open spec fn pct_encoding(s: Seq<char>) -> Seq<char>
    decreases s.len(),
{
    if s.len() == 0 {
        Seq::empty()
    } else {
        pct_byte(s[0] as u8) + pct_encoding(s.drop_first())
    }
}

/// Law: on an ASCII string, percent-encoding the UTF-8 bytes is the
/// same as percent-encoding the characters one by one.
pub proof fn lemma_pct_encoding_ascii(s: Seq<char>)
    requires
        vstd::utf8::is_ascii_chars(s),
    ensures
        pct_bytes(vstd::utf8::encode_utf8(s)) == pct_encoding(s),
    decreases s.len(),
{
    vstd::utf8::is_ascii_chars_encode_utf8(s);
    let bs = vstd::utf8::encode_utf8(s);
    if s.len() == 0 {
        assert(pct_bytes(bs) =~= pct_encoding(s));
    } else {
        assert(vstd::utf8::is_ascii_chars(s.drop_first()));
        lemma_pct_encoding_ascii(s.drop_first());
        vstd::utf8::is_ascii_chars_encode_utf8(s.drop_first());
        assert(bs[0] == s[0] as u8);
        assert(bs.drop_first() =~= vstd::utf8::encode_utf8(s.drop_first())) by {
            assert(bs.len() == s.len());
            assert(vstd::utf8::encode_utf8(s.drop_first()).len() == s.len() - 1);
            assert forall|i: int|
                0 <= i < bs.len() - 1 implies bs.drop_first()[i] == vstd::utf8::encode_utf8(
                s.drop_first(),
            )[i] by {
                assert(bs[i + 1] == s[i + 1] as u8);
                assert(vstd::utf8::encode_utf8(s.drop_first())[i] == s.drop_first()[i] as u8);
            }
        }
        assert(pct_bytes(bs) =~= pct_byte(bs[0]) + pct_bytes(bs.drop_first()));
    }
}

/// Relies on `urlencoding::encode`: percent-encodes every byte of the
/// string's UTF-8 form except ASCII alphanumerics and `-`, `.`, `_`,
/// `~`, with uppercase hex digits, leaving unreserved bytes as they
/// are.
#[verifier::external_body]
fn encode_component(s: &str) -> (r: String)
    ensures
        r@ == pct_bytes(vstd::utf8::encode_utf8(s@)),
{
    urlencoding::encode(s).into_owned()
}

} // verus!
