//! Fleet tracking core: session state machine, trajectory analysis,
//! credential hashing and the text formats spoken by the client and server.

pub mod text;
pub mod time;
pub mod model;
pub mod names;
pub mod credentials;
pub mod session;
pub mod state;
pub mod analysis;
pub mod laws;
pub mod protocol;
pub mod records;
pub mod client;
