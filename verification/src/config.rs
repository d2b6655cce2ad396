//! The declarative description of a load test: a base URL, default headers and
//! the scenarios to replay. A configuration is read-only once it is loaded.

use crate::string_map::StringMap;
use vstd::prelude::*;

verus! {

/// The HTTP method an endpoint declares. Every call is sent as a GET; the
/// declared method is carried for the operator and is not dispatched on.
#[derive(Debug, Clone, Copy, PartialEq, Eq, Structural)]
pub enum RequestMethod {
    GET,
    PUT,
    PATCH,
    POST,
}

/// One HTTP call of a scenario.
#[derive(Debug, Clone)]
pub struct Endpoint {
    /// Appended to the base URL.
    pub path: String,
    /// A label for log lines.
    pub identifier: Option<String>,
    /// The declared method, if the description names one.
    pub method: Option<RequestMethod>,
    /// Query parameters, in the order in which they are written into the URL.
    pub params: StringMap,
}

/// A named, ordered sequence of endpoint calls, replayed `frequency` times
/// concurrently.
#[derive(Debug, Clone)]
pub struct Senario {
    pub title: String,
    pub frequency: i32,
    pub apis: Vec<Endpoint>,
}

/// A whole load test.
#[derive(Debug, Clone)]
pub struct Config {
    pub base_url: String,
    /// Default headers. They belong to the declared shape; no call sends them.
    pub headers: StringMap,
    pub senarios: Vec<Senario>,
}

impl Senario {
    /// The number of instances that run for this scenario: its frequency, and
    /// none at all for a frequency below one.
    pub open spec fn repetitions(&self) -> nat {
        if self.frequency > 0 {
            self.frequency as nat
        } else {
            0
        }
    }

    /// The number of instances that run for this scenario.
    pub fn repetition_count(&self) -> (count: usize)
        ensures
            count == self.repetitions(),
    {
        if self.frequency > 0 {
            self.frequency as usize
        } else {
            0
        }
    }
}

} // verus!
