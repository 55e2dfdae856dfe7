//! Client library for a thermostat vendor's cloud REST API.
//!
//! The heart of the library is the request/response marshaling layer: it
//! renders typed requests into the vendor's JSON-embedded-in-query-string
//! wire format, decodes the colon-delimited revision records that arrive
//! inside summary responses, and implements the door-sensor polling policy
//! that flips the HVAC mode.  All of that logic is verified; the HTTP
//! transport and the JSON deserialization of response bodies live outside
//! the library.

#![allow(non_camel_case_types)]
#![allow(non_snake_case)]

pub mod client;
pub mod json;
pub mod policy;
pub mod report;
pub mod selection;
pub mod summary;
pub mod text;
pub mod update;
