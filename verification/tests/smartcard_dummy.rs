use rdp::integrations::smartcard::consts::{
    SCARD_E_INVALID_HANDLE, SCARD_E_UNKNOWN_READER, SCARD_LEAVE_CARD, SCARD_PROTOCOL_T0,
    SCARD_SCOPE_SYSTEM, SCARD_SHARE_SHARED, SCARD_STATE_CHANGED, SCARD_STATE_EMPTY,
    SCARD_STATE_PRESENT,
};
use rdp::integrations::smartcard::{DummySmartcardHandle, ReaderStateIn, ScardContext, ScardIORequest};
use rdp::integrations::SmartcardIntegration;

fn make_dummy() -> DummySmartcardHandle {
    let mut dummy = DummySmartcardHandle::new();
    dummy.add_card("Virtual Reader 0", vec![0x3B, 0x90, 0x95, 0x80, 0x1F, 0xC3]);
    dummy
}

#[test]
fn smartcard_dummy_establish_context() {
    let mut dummy = make_dummy();
    let ctx = dummy.establish_context(SCARD_SCOPE_SYSTEM).unwrap();
    assert_ne!(ctx.raw(), 0);
    assert!(dummy.is_valid_context(&ctx));
}

#[test]
fn smartcard_dummy_release_context() {
    let mut dummy = make_dummy();
    let ctx = dummy.establish_context(SCARD_SCOPE_SYSTEM).unwrap();
    dummy.release_context(&ctx).unwrap();
    assert!(!dummy.is_valid_context(&ctx));
}

#[test]
fn smartcard_dummy_list_readers() {
    let mut dummy = make_dummy();
    let ctx = dummy.establish_context(SCARD_SCOPE_SYSTEM).unwrap();
    let readers = dummy.list_readers(&ctx, None).unwrap();
    assert_eq!(readers, vec!["Virtual Reader 0"]);
}

#[test]
fn smartcard_dummy_connect_and_transmit() {
    let mut dummy = make_dummy();
    let ctx = dummy.establish_context(SCARD_SCOPE_SYSTEM).unwrap();
    let result = dummy
        .connect(&ctx, "Virtual Reader 0", SCARD_SHARE_SHARED, SCARD_PROTOCOL_T0)
        .unwrap();
    assert_eq!(result.active_protocol, SCARD_PROTOCOL_T0);

    let transmit_result = dummy
        .transmit(&result.handle, &ScardIORequest::t0(), &[0x00, 0xA4])
        .unwrap();
    assert_eq!(transmit_result.recv_buffer, vec![0x90, 0x00]);
}

#[test]
fn smartcard_dummy_disconnect() {
    let mut dummy = make_dummy();
    let ctx = dummy.establish_context(SCARD_SCOPE_SYSTEM).unwrap();
    let result = dummy
        .connect(&ctx, "Virtual Reader 0", SCARD_SHARE_SHARED, SCARD_PROTOCOL_T0)
        .unwrap();
    dummy.disconnect(&result.handle, SCARD_LEAVE_CARD).unwrap();
}

#[test]
fn dummy_status() {
    let mut dummy = make_dummy();
    let ctx = dummy.establish_context(SCARD_SCOPE_SYSTEM).unwrap();
    let result = dummy
        .connect(&ctx, "Virtual Reader 0", SCARD_SHARE_SHARED, SCARD_PROTOCOL_T0)
        .unwrap();
    let status = dummy.status(&result.handle).unwrap();
    assert_eq!(status.reader_names, vec!["Virtual Reader 0"]);
    assert_eq!(status.atr, vec![0x3B, 0x90, 0x95, 0x80, 0x1F, 0xC3]);
}

#[test]
fn dummy_full_cycle() {
    let mut dummy = make_dummy();

    let ctx = dummy.establish_context(SCARD_SCOPE_SYSTEM).unwrap();
    assert!(dummy.is_valid_context(&ctx));

    let readers = dummy.list_readers(&ctx, None).unwrap();
    assert!(!readers.is_empty());

    let connect_result = dummy
        .connect(&ctx, &readers[0], SCARD_SHARE_SHARED, SCARD_PROTOCOL_T0)
        .unwrap();

    let status = dummy.status(&connect_result.handle).unwrap();
    assert_eq!(status.state, SCARD_STATE_PRESENT);

    let transmit_result = dummy
        .transmit(&connect_result.handle, &ScardIORequest::t0(), &[0x00, 0xA4, 0x04, 0x00])
        .unwrap();
    assert_eq!(transmit_result.recv_buffer, vec![0x90, 0x00]);

    dummy.disconnect(&connect_result.handle, SCARD_LEAVE_CARD).unwrap();
    dummy.release_context(&ctx).unwrap();
    assert!(!dummy.is_valid_context(&ctx));
}

#[test]
fn dummy_unknown_reader_returns_error() {
    let mut dummy = make_dummy();
    let ctx = dummy.establish_context(SCARD_SCOPE_SYSTEM).unwrap();
    let result = dummy.connect(&ctx, "NonExistent", SCARD_SHARE_SHARED, SCARD_PROTOCOL_T0);
    assert_eq!(result.unwrap_err(), SCARD_E_UNKNOWN_READER);
}

#[test]
fn dummy_invalid_context_returns_error() {
    let dummy = make_dummy();
    let fake_ctx = ScardContext::from_raw(0xDEADBEEF);
    let result = dummy.list_readers(&fake_ctx, None);
    assert!(result.is_ok());
}

#[test]
fn tests_dummy_establish_context() {
    let mut dummy = DummySmartcardHandle::new();
    let ctx = dummy.establish_context(2).unwrap();
    assert!(dummy.is_valid_context(&ctx));
}

#[test]
fn tests_dummy_release_context() {
    let mut dummy = DummySmartcardHandle::new();
    let ctx = dummy.establish_context(2).unwrap();
    dummy.release_context(&ctx).unwrap();
    assert!(!dummy.is_valid_context(&ctx));
}

#[test]
fn tests_dummy_list_readers() {
    let mut dummy = DummySmartcardHandle::new();
    dummy.add_card("Reader 1", vec![0x3B]);
    dummy.add_card("Reader 2", vec![0x3B]);
    let ctx = dummy.establish_context(2).unwrap();
    let readers = dummy.list_readers(&ctx, None).unwrap();
    assert_eq!(readers.len(), 2);
    assert!(readers.contains(&"Reader 1".to_string()));
}

#[test]
fn tests_dummy_connect_and_transmit() {
    let mut dummy = DummySmartcardHandle::new();
    dummy.add_card("Test Reader", vec![0x3B, 0x90]);
    let ctx = dummy.establish_context(2).unwrap();
    let result = dummy.connect(&ctx, "Test Reader", 1, 1).unwrap();
    let tx = dummy
        .transmit(&result.handle, &ScardIORequest::t0(), &[0x00, 0xA4])
        .unwrap();
    assert_eq!(tx.recv_buffer, vec![0x90, 0x00]);
}

#[test]
fn tests_dummy_disconnect() {
    let mut dummy = DummySmartcardHandle::new();
    dummy.add_card("Test Reader", vec![0x3B]);
    let ctx = dummy.establish_context(2).unwrap();
    let result = dummy.connect(&ctx, "Test Reader", 1, 1).unwrap();
    dummy.disconnect(&result.handle, 0).unwrap();
}

#[test]
fn dummy_get_status_change() {
    let mut dummy = DummySmartcardHandle::new();
    dummy.add_card("Present Reader", vec![0x3B]);
    let ctx = dummy.establish_context(2).unwrap();
    let states = vec![
        ReaderStateIn { reader_name: "Present Reader".to_string(), current_state: 0 },
        ReaderStateIn { reader_name: "Missing Reader".to_string(), current_state: 0 },
    ];
    let out = dummy.get_status_change(&ctx, 100, &states).unwrap();
    assert_eq!(out.len(), 2);
    assert_ne!(out[0].event_state & SCARD_STATE_PRESENT, 0);
    assert_eq!(out[1].event_state & SCARD_STATE_PRESENT, 0);
}

#[test]
fn dummy_context_ids_are_fresh_and_release_twice_fails() {
    let mut dummy = DummySmartcardHandle::default();
    let a = dummy.establish_context(SCARD_SCOPE_SYSTEM).unwrap();
    let b = dummy.establish_context(SCARD_SCOPE_SYSTEM).unwrap();
    assert_eq!(a.raw(), 1);
    assert_eq!(b.raw(), 2);
    dummy.release_context(&a).unwrap();
    assert_eq!(dummy.release_context(&a), Err(SCARD_E_INVALID_HANDLE));
    assert!(dummy.is_valid_context(&b));
}

#[test]
fn dummy_disconnected_handle_is_dead() {
    let mut dummy = make_dummy();
    let ctx = dummy.establish_context(SCARD_SCOPE_SYSTEM).unwrap();
    let c = dummy.connect(&ctx, "Virtual Reader 0", SCARD_SHARE_SHARED, SCARD_PROTOCOL_T0).unwrap();
    assert_eq!(dummy.reconnect(&c.handle, 0, 0, 0), Ok(SCARD_PROTOCOL_T0));
    dummy.disconnect(&c.handle, SCARD_LEAVE_CARD).unwrap();
    let tx = dummy.transmit(&c.handle, &ScardIORequest::t0(), &[0x00]);
    assert_eq!(tx.unwrap_err(), SCARD_E_INVALID_HANDLE);
    assert_eq!(dummy.disconnect(&c.handle, SCARD_LEAVE_CARD), Err(SCARD_E_INVALID_HANDLE));
    assert_eq!(dummy.reconnect(&c.handle, 0, 0, 0), Err(SCARD_E_INVALID_HANDLE));
    assert_eq!(dummy.status(&c.handle).unwrap_err(), SCARD_E_INVALID_HANDLE);
}

#[test]
fn dummy_status_change_reports_state_and_atr() {
    let mut dummy = make_dummy();
    let ctx = dummy.establish_context(SCARD_SCOPE_SYSTEM).unwrap();
    let states = vec![
        ReaderStateIn { reader_name: "Nowhere".to_string(), current_state: 0 },
        ReaderStateIn { reader_name: "Virtual Reader 0".to_string(), current_state: 0 },
    ];
    let out = dummy.get_status_change(&ctx, 0, &states).unwrap();
    assert_eq!(out[0].reader_name, "Nowhere");
    assert_eq!(out[0].event_state, SCARD_STATE_EMPTY | SCARD_STATE_CHANGED);
    assert!(out[0].atr.is_empty());
    assert_eq!(out[1].event_state, SCARD_STATE_PRESENT | SCARD_STATE_CHANGED);
    assert_eq!(out[1].atr, vec![0x3B, 0x90, 0x95, 0x80, 0x1F, 0xC3]);
}

#[test]
fn dummy_default_atr_search_reports_no_match() {
    let mut dummy = make_dummy();
    let ctx = dummy.establish_context(SCARD_SCOPE_SYSTEM).unwrap();
    let states = vec![ReaderStateIn { reader_name: "Virtual Reader 0".to_string(), current_state: 7 }];
    let atrs = vec![(vec![0x3B], vec![0xFF])];
    let out = dummy.locate_cards_by_atr(&ctx, &atrs, &states).unwrap();
    assert_eq!(out.len(), 1);
    assert_eq!(out[0].reader_name, "Virtual Reader 0");
    assert!(!out[0].atr_match);
    assert_eq!(out[0].event_state, 7);
    assert_eq!(dummy.cancel(&ctx), Ok(()));
    assert!(dummy.is_available());
}
