//! Channel addins handled by this library.

pub mod smartcard;
