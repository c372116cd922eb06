//! WinPR log levels, as FreeRDP's `wLog` numbers them.

use vstd::prelude::*;

verus! {

/// `WLOG_TRACE`: the most verbose level.
pub const WLOG_TRACE: u32 = 0;
/// `WLOG_DEBUG`.
pub const WLOG_DEBUG: u32 = 1;
/// `WLOG_INFO`.
pub const WLOG_INFO: u32 = 2;
/// `WLOG_WARN`.
pub const WLOG_WARN: u32 = 3;
/// `WLOG_ERROR`.
pub const WLOG_ERROR: u32 = 4;
/// `WLOG_FATAL`: the least verbose level that still logs.
pub const WLOG_FATAL: u32 = 5;
/// `WLOG_OFF`: logging disabled.
pub const WLOG_OFF: u32 = 6;

/// Log level handed to FreeRDP's logger.
#[derive(Copy, Clone, Debug, PartialEq, Eq, Structural)]
pub enum WLogLevel {
    Fatal,
    Error,
    Warn,
    Info,
    Debug,
    Trace,
}

/// The WinPR number of each level.
pub open spec fn spec_wlog_level(level: WLogLevel) -> u32 {
    match level {
        WLogLevel::Fatal => WLOG_FATAL,
        WLogLevel::Error => WLOG_ERROR,
        WLogLevel::Warn => WLOG_WARN,
        WLogLevel::Info => WLOG_INFO,
        WLogLevel::Debug => WLOG_DEBUG,
        WLogLevel::Trace => WLOG_TRACE,
    }
}

impl WLogLevel {
    /// The number `WLog_SetLogLevel` takes for this level.
    pub fn level(self) -> (l: u32)
        ensures
            l == spec_wlog_level(self),
    {
        match self {
            WLogLevel::Fatal => WLOG_FATAL,
            WLogLevel::Error => WLOG_ERROR,
            WLogLevel::Warn => WLOG_WARN,
            WLogLevel::Info => WLOG_INFO,
            WLogLevel::Debug => WLOG_DEBUG,
            WLogLevel::Trace => WLOG_TRACE,
        }
    }
}

/// Distinct levels have distinct numbers, every number lies below
/// `WLOG_OFF`, and the numbers grow from `Trace` to `Fatal`.
pub proof fn lemma_wlog_levels(a: WLogLevel, b: WLogLevel)
    ensures
        spec_wlog_level(a) == spec_wlog_level(b) <==> a == b,
        spec_wlog_level(a) < WLOG_OFF,
        spec_wlog_level(WLogLevel::Trace) < spec_wlog_level(WLogLevel::Debug),
        spec_wlog_level(WLogLevel::Debug) < spec_wlog_level(WLogLevel::Info),
        spec_wlog_level(WLogLevel::Info) < spec_wlog_level(WLogLevel::Warn),
        spec_wlog_level(WLogLevel::Warn) < spec_wlog_level(WLogLevel::Error),
        spec_wlog_level(WLogLevel::Error) < spec_wlog_level(WLogLevel::Fatal),
{
}

} // verus!
