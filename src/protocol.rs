use vstd::prelude::*;

verus! {

/// Actuator settings carried by a set request.
#[derive(Debug, Clone, Copy, PartialEq, Eq, Structural)]
pub struct Settings {
    pub lights: bool,
    pub fan: u16,
}

/// A request for the current status; it carries no data.
#[derive(Debug, Clone, Copy, PartialEq, Eq, Structural)]
pub struct Query {}

/// The command that a request carries.
#[derive(Debug, Clone, Copy, PartialEq, Eq, Structural)]
pub enum RequestBody {
    Query,
    Settings,
}

/// One request message of the command channel.
#[derive(Debug, Clone, Copy, PartialEq, Eq, Structural)]
pub struct Request {
    pub correlation_id: i32,
    pub body: RequestBody,
}

/// Fan state: PWM power setting and measured rotation rate.
#[derive(Debug, Clone, Copy, PartialEq, Eq, Structural)]
pub struct Fan {
    pub power: u16,
    pub rate: u16,
}

/// A climate reading, both values in tenths of a unit: `temp` in tenths of a
/// degree Celsius, `humidity` in tenths of a percent of relative humidity.
#[derive(Debug, Clone, Copy, PartialEq, Eq, Structural)]
pub struct Temp {
    pub temp: i16,
    pub humidity: i16,
}

/// The full status reported to the host.
#[derive(Debug, Clone, Copy, PartialEq, Eq, Structural)]
pub struct Status {
    pub temp: Temp,
    pub fan: Fan,
}

/// The kind of result that a response carries.
#[derive(Debug, Clone, Copy, PartialEq, Eq, Structural)]
pub enum ResponseBody {
    Status,
}

/// One response message of the command channel.
#[derive(Debug, Clone, Copy, PartialEq, Eq, Structural)]
pub struct Response {
    pub correlation_id: i32,
    pub body: ResponseBody,
}

} // verus!
