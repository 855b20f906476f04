//! The data model shared by client and server: positions, vehicle status and
//! the messages of the protocol.

use vstd::prelude::*;
use crate::text::{replace_char, replaced, trim, trimmed};
use crate::time::Timestamp;

verus! {

/// A position on Earth, in nanodegrees (billionths of a degree) of latitude
/// and longitude.
#[derive(Clone, Copy, Debug, PartialEq, Eq, Structural)]
pub struct Coordinate {
    pub lat: i64,
    pub lon: i64,
}

/// The smallest change of latitude or longitude, in nanodegrees, that counts as
/// a movement: one ten-millionth of a degree.
pub const MOVE_THRESHOLD: i64 = 100;

/// The absolute value of `x`.
pub open spec fn abs(x: int) -> int {
    if x < 0 {
        -x
    } else {
        x
    }
}

/// Whether `next` lies farther than the movement threshold from `prev` in
/// latitude or in longitude.
pub open spec fn spec_coordinate_changed(prev: Coordinate, next: Coordinate) -> bool {
    abs(next.lat - prev.lat) > MOVE_THRESHOLD || abs(next.lon - prev.lon) > MOVE_THRESHOLD
}

/// Whether the vehicle has moved from `prev` to `next`.
pub fn coordinate_changed(prev: Coordinate, next: Coordinate) -> (r: bool)
    ensures
        r == spec_coordinate_changed(prev, next),
{
    let dlat: i128 = next.lat as i128 - prev.lat as i128;
    let dlon: i128 = next.lon as i128 - prev.lon as i128;
    let alat: i128 = if dlat < 0 {
        -dlat
    } else {
        dlat
    };
    let alon: i128 = if dlon < 0 {
        -dlon
    } else {
        dlon
    };
    alat > MOVE_THRESHOLD as i128 || alon > MOVE_THRESHOLD as i128
}

/// The normalised text of a coordinate value: decimal commas become points and
/// surrounding whitespace is dropped, ready to be read as a decimal number.
pub fn normalize_coordinate_text(s: &str) -> (r: String)
    ensures
        r@ == trimmed(replaced(s@, ',', '.')),
{
    let t = replace_char(s, ',', '.');
    trim(t.as_str())
}

/// The state of a vehicle as the server sees it.
#[derive(Clone, Copy, Debug, PartialEq, Eq, Structural)]
pub enum UserStatus {
    Disconnected,
    Stationary,
    Moving,
}

/// The name under which a status is shown.
pub open spec fn status_text(s: UserStatus) -> Seq<char> {
    match s {
        UserStatus::Disconnected => "Disconnected"@,
        UserStatus::Stationary => "Stationary"@,
        UserStatus::Moving => "Moving"@,
    }
}

impl UserStatus {
    /// The name under which the status is shown.
    pub fn to_string(&self) -> (r: String)
        ensures
            r@ == status_text(*self),
    {
        match self {
            UserStatus::Disconnected => String::from_str("Disconnected"),
            UserStatus::Stationary => String::from_str("Stationary"),
            UserStatus::Moving => String::from_str("Moving"),
        }
    }
}

/// One recorded position report: when, where, and the status it led to.
#[derive(Clone, Copy, Debug, PartialEq, Eq, Structural)]
pub struct TrajectoryPoint {
    pub time: Timestamp,
    pub coord: Coordinate,
    pub status: UserStatus,
}

/// Messages from a client to the server.
#[derive(Clone, Debug)]
pub enum ClientMessage {
    Register { username: String, password: String },
    Login { username: String, password: String },
    PositionReport { coordinate: Coordinate, timestamp: Timestamp },
    TextMessage { text: String },
}

/// Messages from the server to a client.
#[derive(Clone, Debug)]
pub enum ServerMessage {
    AuthResponse { success: bool, message: String },
    TextMessage { sender: String, text: String },
    CommandResponse { success: bool, message: String },
}

impl ServerMessage {
    /// A copy of the message.
    pub fn duplicate(&self) -> (r: ServerMessage)
        ensures
            r == *self,
    {
        match self {
            ServerMessage::AuthResponse { success, message } => ServerMessage::AuthResponse {
                success: *success,
                message: message.clone(),
            },
            ServerMessage::TextMessage { sender, text } => ServerMessage::TextMessage {
                sender: sender.clone(),
                text: text.clone(),
            },
            ServerMessage::CommandResponse { success, message } => ServerMessage::CommandResponse {
                success: *success,
                message: message.clone(),
            },
        }
    }
}

} // verus!
