//! What the connection reports to the client as the session runs.

pub mod update;
