use rdp::callbacks::{EntrypointCallbacks, GraphicsCallbacks};
use rdp::channels::RdpChannels;
use rdp::windows_types::{ShowWindowCmd, SystemCommand};
use rdp::wlog::{WLogLevel, WLOG_OFF};

struct Client {
    started: u32,
}

impl EntrypointCallbacks for Client {}

impl GraphicsCallbacks for Client {}

#[test]
fn callbacks_default_to_success() {
    let mut c = Client { started: 0 };
    assert!(c.client_start());
    assert!(c.client_stop());
    assert_eq!(c.started, 0);
    assert!(c.on_pointer_new(0x1000));
    c.on_pointer_free(0x1000);
    assert!(c.on_pointer_set(0x1000));
    assert!(c.on_pointer_set_null());
    assert!(c.on_pointer_set_default());
    assert!(c.on_pointer_position(10, 20));
}

#[test]
fn channels_read_back_what_was_set() {
    let mut ch = RdpChannels::new();
    assert!(ch.disp().is_none());
    assert!(ch.cliprdr().is_none());
    assert!(ch.rail().is_none());
    assert!(ch.gfx().is_none());

    ch.set_disp_ptr(0x10);
    ch.set_cliprdr_ptr(0x20);
    ch.set_rail_ptr(0x30);
    ch.set_gfx_ptr(0x40);
    assert_eq!(ch.disp().unwrap().ptr(), 0x10);
    assert_eq!(ch.cliprdr().unwrap().ptr(), 0x20);
    assert_eq!(ch.rail().unwrap().ptr(), 0x30);
    assert_eq!(ch.gfx().unwrap().ptr(), 0x40);

    ch.clear_cliprdr();
    assert!(ch.cliprdr().is_none());
    assert_eq!(ch.disp().unwrap().ptr(), 0x10);
    assert_eq!(ch.rail().unwrap().ptr(), 0x30);
    ch.clear_disp();
    ch.clear_rail();
    ch.clear_gfx();
    assert!(ch.disp().is_none());
    assert!(ch.rail().is_none());
    assert!(ch.gfx().is_none());

    let d = RdpChannels::default();
    assert!(d.gfx().is_none());
}

#[test]
fn wlog_levels_match_winpr() {
    assert_eq!(WLogLevel::Trace.level(), 0);
    assert_eq!(WLogLevel::Debug.level(), 1);
    assert_eq!(WLogLevel::Info.level(), 2);
    assert_eq!(WLogLevel::Warn.level(), 3);
    assert_eq!(WLogLevel::Error.level(), 4);
    assert_eq!(WLogLevel::Fatal.level(), 5);
    assert!(WLogLevel::Fatal.level() < WLOG_OFF);
}

#[test]
fn show_window_roundtrip() {
    for v in 0u32..12 {
        let c = ShowWindowCmd::try_from(v).unwrap();
        assert_eq!(c.value(), v);
    }
    assert_eq!(ShowWindowCmd::try_from(3), Ok(ShowWindowCmd::ShowMaximized));
    assert_eq!(ShowWindowCmd::try_from(12), Err(12));
    assert_eq!(ShowWindowCmd::Restore.value(), 9);
}

#[test]
fn system_command_roundtrip() {
    assert_eq!(SystemCommand::try_from(0xF020), Ok(SystemCommand::Minimize));
    assert_eq!(SystemCommand::try_from(0xF060), Ok(SystemCommand::Close));
    assert_eq!(SystemCommand::try_from(0x1234), Err(0x1234));
    for c in [SystemCommand::Minimize, SystemCommand::Close] {
        assert_eq!(SystemCommand::try_from(c.value()), Ok(c));
    }
}
