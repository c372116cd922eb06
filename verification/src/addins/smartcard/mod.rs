//! Smartcard channel addin: the RDPDR smartcard device. IRPs decoded from the
//! channel are dispatched to a [`crate::integrations::SmartcardIntegration`]
//! and their responses framed as MS-RDPESC requires.

pub mod consts;
pub mod device;
pub mod handlers;
pub mod irp;
