//! Win32 window commands exchanged over the remote-application channel.

use vstd::prelude::*;
use vstd::std_specs::convert::TryFromSpecImpl;

verus! {

/// Win32 ShowWindow commands (SW_* constants).
#[derive(Debug, Clone, Copy, PartialEq, Eq, Hash, Structural)]
pub enum ShowWindowCmd {
    Hide,
    ShowNormal,
    ShowMinimized,
    ShowMaximized,
    ShowNoActivate,
    Show,
    Minimize,
    ShowMinNoActive,
    ShowNa,
    Restore,
    ShowDefault,
    ForceMinimize,
}

/// The SW_* value of a command.
pub open spec fn spec_show_window_value(c: ShowWindowCmd) -> u32 {
    match c {
        ShowWindowCmd::Hide => 0,
        ShowWindowCmd::ShowNormal => 1,
        ShowWindowCmd::ShowMinimized => 2,
        ShowWindowCmd::ShowMaximized => 3,
        ShowWindowCmd::ShowNoActivate => 4,
        ShowWindowCmd::Show => 5,
        ShowWindowCmd::Minimize => 6,
        ShowWindowCmd::ShowMinNoActive => 7,
        ShowWindowCmd::ShowNa => 8,
        ShowWindowCmd::Restore => 9,
        ShowWindowCmd::ShowDefault => 10,
        ShowWindowCmd::ForceMinimize => 11,
    }
}

/// The command an SW_* value denotes; any other value is returned as the error.
pub open spec fn spec_show_window_from(value: u32) -> Result<ShowWindowCmd, u32> {
    if value == 0 {
        Ok(ShowWindowCmd::Hide)
    } else if value == 1 {
        Ok(ShowWindowCmd::ShowNormal)
    } else if value == 2 {
        Ok(ShowWindowCmd::ShowMinimized)
    } else if value == 3 {
        Ok(ShowWindowCmd::ShowMaximized)
    } else if value == 4 {
        Ok(ShowWindowCmd::ShowNoActivate)
    } else if value == 5 {
        Ok(ShowWindowCmd::Show)
    } else if value == 6 {
        Ok(ShowWindowCmd::Minimize)
    } else if value == 7 {
        Ok(ShowWindowCmd::ShowMinNoActive)
    } else if value == 8 {
        Ok(ShowWindowCmd::ShowNa)
    } else if value == 9 {
        Ok(ShowWindowCmd::Restore)
    } else if value == 10 {
        Ok(ShowWindowCmd::ShowDefault)
    } else if value == 11 {
        Ok(ShowWindowCmd::ForceMinimize)
    } else {
        Err(value)
    }
}

impl ShowWindowCmd {
    /// The SW_* value of the command.
    pub fn value(self) -> (v: u32)
        ensures
            v == spec_show_window_value(self),
    {
        match self {
            ShowWindowCmd::Hide => 0,
            ShowWindowCmd::ShowNormal => 1,
            ShowWindowCmd::ShowMinimized => 2,
            ShowWindowCmd::ShowMaximized => 3,
            ShowWindowCmd::ShowNoActivate => 4,
            ShowWindowCmd::Show => 5,
            ShowWindowCmd::Minimize => 6,
            ShowWindowCmd::ShowMinNoActive => 7,
            ShowWindowCmd::ShowNa => 8,
            ShowWindowCmd::Restore => 9,
            ShowWindowCmd::ShowDefault => 10,
            ShowWindowCmd::ForceMinimize => 11,
        }
    }
}

impl TryFrom<u32> for ShowWindowCmd {
    type Error = u32;

    fn try_from(value: u32) -> (r: Result<Self, Self::Error>) {
        match value {
            0 => Ok(Self::Hide),
            1 => Ok(Self::ShowNormal),
            2 => Ok(Self::ShowMinimized),
            3 => Ok(Self::ShowMaximized),
            4 => Ok(Self::ShowNoActivate),
            5 => Ok(Self::Show),
            6 => Ok(Self::Minimize),
            7 => Ok(Self::ShowMinNoActive),
            8 => Ok(Self::ShowNa),
            9 => Ok(Self::Restore),
            10 => Ok(Self::ShowDefault),
            11 => Ok(Self::ForceMinimize),
            _ => Err(value),
        }
    }
}

impl TryFromSpecImpl<u32> for ShowWindowCmd {
    open spec fn obeys_try_from_spec() -> bool {
        true
    }

    open spec fn try_from_spec(v: u32) -> Result<Self, u32> {
        spec_show_window_from(v)
    }
}

/// Win32 System Commands (SC_* constants, WM_SYSCOMMAND).
#[derive(Debug, Clone, Copy, PartialEq, Eq, Hash, Structural)]
pub enum SystemCommand {
    Size,
    Move,
    Minimize,
    Maximize,
    Close,
    KeyMenu,
    Restore,
}

/// The SC_* value of a system command.
pub open spec fn spec_system_command_value(c: SystemCommand) -> u32 {
    match c {
        SystemCommand::Size => 0xF000,
        SystemCommand::Move => 0xF010,
        SystemCommand::Minimize => 0xF020,
        SystemCommand::Maximize => 0xF030,
        SystemCommand::Close => 0xF060,
        SystemCommand::KeyMenu => 0xF100,
        SystemCommand::Restore => 0xF120,
    }
}

/// The system command an SC_* value denotes; any other value is returned as the error.
pub open spec fn spec_system_command_from(value: u32) -> Result<SystemCommand, u32> {
    if value == 0xF000 {
        Ok(SystemCommand::Size)
    } else if value == 0xF010 {
        Ok(SystemCommand::Move)
    } else if value == 0xF020 {
        Ok(SystemCommand::Minimize)
    } else if value == 0xF030 {
        Ok(SystemCommand::Maximize)
    } else if value == 0xF060 {
        Ok(SystemCommand::Close)
    } else if value == 0xF100 {
        Ok(SystemCommand::KeyMenu)
    } else if value == 0xF120 {
        Ok(SystemCommand::Restore)
    } else {
        Err(value)
    }
}

impl SystemCommand {
    /// The SC_* value of the system command.
    pub fn value(self) -> (v: u32)
        ensures
            v == spec_system_command_value(self),
    {
        match self {
            SystemCommand::Size => 0xF000,
            SystemCommand::Move => 0xF010,
            SystemCommand::Minimize => 0xF020,
            SystemCommand::Maximize => 0xF030,
            SystemCommand::Close => 0xF060,
            SystemCommand::KeyMenu => 0xF100,
            SystemCommand::Restore => 0xF120,
        }
    }
}

impl TryFrom<u32> for SystemCommand {
    type Error = u32;

    fn try_from(value: u32) -> (r: Result<Self, Self::Error>) {
        match value {
            0xF000 => Ok(Self::Size),
            0xF010 => Ok(Self::Move),
            0xF020 => Ok(Self::Minimize),
            0xF030 => Ok(Self::Maximize),
            0xF060 => Ok(Self::Close),
            0xF100 => Ok(Self::KeyMenu),
            0xF120 => Ok(Self::Restore),
            _ => Err(value),
        }
    }
}

impl TryFromSpecImpl<u32> for SystemCommand {
    open spec fn obeys_try_from_spec() -> bool {
        true
    }

    open spec fn try_from_spec(v: u32) -> Result<Self, u32> {
        spec_system_command_from(v)
    }
}

/// Decoding undoes encoding, and a decoded value encodes back to itself.
pub proof fn lemma_show_window_roundtrip(c: ShowWindowCmd, v: u32)
    ensures
        spec_show_window_from(spec_show_window_value(c)) == Ok::<ShowWindowCmd, u32>(c),
        spec_show_window_from(v) matches Ok(d) ==> spec_show_window_value(d) == v,
        spec_show_window_from(v) matches Err(e) ==> e == v && v > 11,
{
}

/// Decoding undoes encoding, and a decoded value encodes back to itself.
pub proof fn lemma_system_command_roundtrip(c: SystemCommand, v: u32)
    ensures
        spec_system_command_from(spec_system_command_value(c)) == Ok::<SystemCommand, u32>(c),
        spec_system_command_from(v) matches Ok(d) ==> spec_system_command_value(d) == v,
        spec_system_command_from(v) matches Err(e) ==> e == v,
{
}

} // verus!
