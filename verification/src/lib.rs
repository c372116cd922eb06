//! Verified core of an RDP client library built around FreeRDP: the smartcard
//! redirection device (IRP dispatch, context registry, response framing), the
//! smartcard integration model, channel bookkeeping and a few Win32 helpers.

pub mod integrations;

pub mod addins;
pub mod callbacks;
pub mod channels;
pub mod connection;
pub mod geom;
pub mod utils;
pub mod windows_types;
pub mod wlog;
