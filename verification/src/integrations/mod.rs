//! Consumer-provided integrations.

pub mod smartcard;

pub use smartcard::SmartcardIntegration;
