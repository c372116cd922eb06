use std::collections::HashMap;

use rdp::addins::smartcard::consts::{
    ioctl_name, SCARD_IOCTL_CONNECTA, SCARD_IOCTL_CONNECTW, SCARD_IOCTL_DISCONNECT,
    SCARD_IOCTL_ESTABLISHCONTEXT, SCARD_IOCTL_GETDEVICETYPEID, SCARD_IOCTL_GETREADERICON,
    SCARD_IOCTL_GETSTATUSCHANGEW, SCARD_IOCTL_GETTRANSMITCOUNT, SCARD_IOCTL_ISVALIDCONTEXT,
    SCARD_IOCTL_LISTREADERGROUPSA, SCARD_IOCTL_LISTREADERSA, SCARD_IOCTL_LISTREADERSW,
    SCARD_IOCTL_LOCATECARDSA, SCARD_IOCTL_LOCATECARDSBYATRA, SCARD_IOCTL_READCACHEW,
    SCARD_IOCTL_RELEASECONTEXT, SCARD_IOCTL_STATUSA, SCARD_IOCTL_TRANSMIT, SCARD_IOCTL_WRITECACHEA,
};
use rdp::addins::smartcard::device::{AtrMask, OutstandingIrpTracker};
use rdp::addins::smartcard::handlers::{
    dispatch_ioctl, status_change_timeout_ms, CardCache, IoctlReturn, SmartcardOperation,
};
use rdp::addins::smartcard::irp::{
    fail_irp, finish_irp, release_all_contexts, route_irp, start_irp, teardown, IrpRoute,
};
use rdp::integrations::smartcard::consts::{
    SCARD_E_INVALID_HANDLE, SCARD_E_NO_READERS_AVAILABLE, SCARD_E_UNKNOWN_READER,
    SCARD_E_UNSUPPORTED_FEATURE, SCARD_PROTOCOL_T0, SCARD_STATE_ATRMATCH, SCARD_STATE_CHANGED,
    SCARD_STATE_PRESENT, SCARD_S_SUCCESS, SCARD_W_CACHE_ITEM_NOT_FOUND, STATUS_BUFFER_TOO_SMALL,
    STATUS_NOT_SUPPORTED, STATUS_SUCCESS, STATUS_UNSUCCESSFUL,
};
use rdp::integrations::smartcard::{
    ConnectResult, DummySmartcardHandle, ReaderStateIn, ReaderStateOut, ScardContext, ScardHandle,
    ScardIORequest, ScardStatus, TransmitResult,
};
use rdp::integrations::SmartcardIntegration;

fn op(ioctl: u32) -> SmartcardOperation {
    SmartcardOperation {
        io_control_code: ioctl,
        completion_id: 7,
        h_context: 0,
        output_buffer_length: 2048,
        scope: 2,
        reader: String::new(),
        share_mode: 2,
        preferred_protocols: SCARD_PROTOCOL_T0,
        initialization: 0,
        disposition: 0,
        h_card: [0; 8],
        send_pci: None,
        send_buffer: Vec::new(),
        control_code: 0,
        in_buffer: Vec::new(),
        attr_id: 0,
        attr_len: 0,
        attr: Vec::new(),
        timeout_ms: 0,
        reader_states: Vec::new(),
        atr_masks: Vec::new(),
        lookup_name: Vec::new(),
        data: Vec::new(),
    }
}

struct Device {
    card: DummySmartcardHandle,
    contexts: HashMap<u64, rdp::addins::smartcard::device::ContextEntry>,
    cache: CardCache,
}

impl Device {
    fn new() -> Self {
        let mut card = DummySmartcardHandle::new();
        card.add_card("Virtual Reader 0", vec![0x3B, 0x90, 0x95]);
        Device { card, contexts: HashMap::new(), cache: CardCache::new() }
    }

    fn call(&mut self, o: &SmartcardOperation) -> (u32, Option<IoctlReturn>) {
        dispatch_ioctl(o.io_control_code, o, &mut self.card, &mut self.contexts, &mut self.cache)
    }

    fn establish(&mut self) -> u64 {
        match self.call(&op(SCARD_IOCTL_ESTABLISHCONTEXT)) {
            (SCARD_S_SUCCESS, Some(IoctlReturn::EstablishContext { context })) => {
                let mut b = [0u8; 8];
                b.copy_from_slice(&context);
                u64::from_le_bytes(b)
            }
            other => panic!("unexpected answer {:?}", other),
        }
    }
}

#[test]
fn establish_then_valid_then_release_then_invalid() {
    let mut d = Device::new();
    let id = d.establish();
    assert_eq!(id, 1);
    let mut v = op(SCARD_IOCTL_ISVALIDCONTEXT);
    v.h_context = id;
    assert_eq!(d.call(&v).0, SCARD_S_SUCCESS);
    let mut r = op(SCARD_IOCTL_RELEASECONTEXT);
    r.h_context = id;
    let (code, body) = d.call(&r);
    assert_eq!(code, SCARD_S_SUCCESS);
    assert!(body.is_none());
    assert_eq!(d.call(&v).0, SCARD_E_INVALID_HANDLE);
    assert_eq!(d.call(&r).0, SCARD_E_INVALID_HANDLE);
    assert!(d.contexts.is_empty());
}

#[test]
fn unknown_context_is_rejected() {
    let mut d = Device::new();
    for ioctl in [SCARD_IOCTL_LISTREADERSA, SCARD_IOCTL_CONNECTA, SCARD_IOCTL_GETSTATUSCHANGEW, SCARD_IOCTL_LOCATECARDSBYATRA] {
        let mut o = op(ioctl);
        o.h_context = 99;
        o.reader = "Virtual Reader 0".to_string();
        let (code, body) = d.call(&o);
        assert_eq!(code, SCARD_E_INVALID_HANDLE, "{}", ioctl_name(ioctl));
        assert!(body.is_none());
    }
}

#[test]
fn list_readers_narrow_and_wide() {
    let mut d = Device::new();
    let id = d.establish();
    let mut o = op(SCARD_IOCTL_LISTREADERSA);
    o.h_context = id;
    match d.call(&o) {
        (SCARD_S_SUCCESS, Some(IoctlReturn::ListReaders { msz, unicode, groups })) => {
            let mut expected = b"Virtual Reader 0".to_vec();
            expected.push(0);
            expected.push(0);
            assert_eq!(msz, expected);
            assert!(!unicode);
            assert!(!groups);
        }
        other => panic!("unexpected answer {:?}", other),
    }
    let mut w = op(SCARD_IOCTL_LISTREADERSW);
    w.h_context = id;
    match d.call(&w) {
        (SCARD_S_SUCCESS, Some(IoctlReturn::ListReaders { msz, unicode, .. })) => {
            let mut expected: Vec<u8> = Vec::new();
            for u in "Virtual Reader 0".encode_utf16() {
                expected.extend_from_slice(&u.to_le_bytes());
            }
            expected.extend_from_slice(&[0, 0, 0, 0]);
            assert_eq!(msz, expected);
            assert!(unicode);
        }
        other => panic!("unexpected answer {:?}", other),
    }
    let mut g = op(SCARD_IOCTL_LISTREADERGROUPSA);
    g.h_context = id;
    match d.call(&g) {
        (SCARD_S_SUCCESS, Some(IoctlReturn::ListReaders { groups, .. })) => assert!(groups),
        other => panic!("unexpected answer {:?}", other),
    }
}

#[test]
fn list_readers_without_cards_is_no_readers() {
    let mut d = Device::new();
    d.card = DummySmartcardHandle::new();
    let id = d.establish();
    let mut o = op(SCARD_IOCTL_LISTREADERSA);
    o.h_context = id;
    let (code, body) = d.call(&o);
    assert_eq!(code, SCARD_E_NO_READERS_AVAILABLE);
    assert!(body.is_none());
}

#[test]
fn connect_transmit_status_disconnect_through_dispatch() {
    let mut d = Device::new();
    let id = d.establish();
    let mut c = op(SCARD_IOCTL_CONNECTW);
    c.h_context = id;
    c.reader = "Virtual Reader 0".to_string();
    let handle = match d.call(&c) {
        (SCARD_S_SUCCESS, Some(IoctlReturn::Connect { context, handle, active_protocol })) => {
            assert_eq!(context, id.to_le_bytes().to_vec());
            assert_eq!(active_protocol, SCARD_PROTOCOL_T0);
            handle
        }
        other => panic!("unexpected answer {:?}", other),
    };
    assert_eq!(handle, 1u64.to_le_bytes().to_vec());

    let mut t = op(SCARD_IOCTL_TRANSMIT);
    t.h_card.copy_from_slice(&handle);
    t.send_buffer = vec![0x00, 0xA4, 0x04, 0x00];
    match d.call(&t) {
        (SCARD_S_SUCCESS, Some(IoctlReturn::Transmit { recv_pci, recv_buffer })) => {
            assert!(recv_pci.is_none());
            assert_eq!(recv_buffer, vec![0x90, 0x00]);
        }
        other => panic!("unexpected answer {:?}", other),
    }

    let mut s = op(SCARD_IOCTL_STATUSA);
    s.h_card.copy_from_slice(&handle);
    match d.call(&s) {
        (SCARD_S_SUCCESS, Some(IoctlReturn::Status { reader_names, state, protocol, atr_len, atr, unicode })) => {
            assert_eq!(reader_names, b"Virtual Reader 0\0\0".to_vec());
            assert_eq!(state, SCARD_STATE_PRESENT);
            assert_eq!(protocol, SCARD_PROTOCOL_T0);
            assert_eq!(atr_len, 3);
            assert_eq!(&atr[..3], &[0x3B, 0x90, 0x95]);
            assert!(!unicode);
        }
        other => panic!("unexpected answer {:?}", other),
    }

    let mut x = op(SCARD_IOCTL_DISCONNECT);
    x.h_card.copy_from_slice(&handle);
    assert_eq!(d.call(&x).0, SCARD_S_SUCCESS);
    assert_eq!(d.call(&x).0, SCARD_E_INVALID_HANDLE);
    assert_eq!(d.call(&t).0, SCARD_E_INVALID_HANDLE);
}

#[test]
fn connect_to_unknown_reader_fails() {
    let mut d = Device::new();
    let id = d.establish();
    let mut c = op(SCARD_IOCTL_CONNECTA);
    c.h_context = id;
    c.reader = "Nowhere".to_string();
    let (code, body) = d.call(&c);
    assert_eq!(code, SCARD_E_UNKNOWN_READER);
    assert!(body.is_none());
}

#[test]
fn status_change_is_packed_for_the_wire() {
    let mut d = Device::new();
    let id = d.establish();
    let mut o = op(SCARD_IOCTL_GETSTATUSCHANGEW);
    o.h_context = id;
    o.timeout_ms = 0xFFFF_FFFF;
    o.reader_states = vec![ReaderStateIn { reader_name: "Virtual Reader 0".to_string(), current_state: 0 }];
    match d.call(&o) {
        (SCARD_S_SUCCESS, Some(IoctlReturn::GetStatusChange { states, unicode })) => {
            assert!(unicode);
            assert_eq!(states.len(), 1);
            assert_eq!(states[0].current_state, 0);
            assert_eq!(states[0].event_state, SCARD_STATE_PRESENT | SCARD_STATE_CHANGED);
            assert_eq!(states[0].atr_len, 3);
            assert_eq!(states[0].atr.len(), 36);
            assert_eq!(&states[0].atr[..4], &[0x3B, 0x90, 0x95, 0x00]);
        }
        other => panic!("unexpected answer {:?}", other),
    }
    assert_eq!(status_change_timeout_ms(0xFFFF_FFFF), 86_400_000);
    assert_eq!(status_change_timeout_ms(250), 250);
}

#[test]
fn locate_by_atr_with_default_search() {
    let mut d = Device::new();
    let id = d.establish();
    let mut o = op(SCARD_IOCTL_LOCATECARDSBYATRA);
    o.h_context = id;
    o.reader_states = vec![ReaderStateIn { reader_name: "Virtual Reader 0".to_string(), current_state: 0x10 }];
    o.atr_masks = vec![AtrMask { atr_len: 1, atr: vec![0x3B; 36], mask: vec![0xFF; 36] }];
    match d.call(&o) {
        (SCARD_S_SUCCESS, Some(IoctlReturn::LocateCards { states })) => {
            assert_eq!(states.len(), 1);
            assert_eq!(states[0].event_state & SCARD_STATE_ATRMATCH, 0);
        }
        other => panic!("unexpected answer {:?}", other),
    }
}

#[test]
fn fixed_answers() {
    let mut d = Device::new();
    assert_eq!(d.call(&op(SCARD_IOCTL_LOCATECARDSA)).0, SCARD_E_UNSUPPORTED_FEATURE);
    assert_eq!(d.call(&op(0x0009_0FFF)).0, SCARD_E_UNSUPPORTED_FEATURE);
    assert_eq!(d.call(&op(SCARD_IOCTL_GETREADERICON)).0, SCARD_S_SUCCESS);
    match d.call(&op(SCARD_IOCTL_GETTRANSMITCOUNT)) {
        (SCARD_S_SUCCESS, Some(IoctlReturn::GetTransmitCount { count })) => assert_eq!(count, 0),
        other => panic!("unexpected answer {:?}", other),
    }
    assert!(matches!(d.call(&op(SCARD_IOCTL_GETDEVICETYPEID)), (SCARD_S_SUCCESS, Some(IoctlReturn::DeviceTypeId))));
    match d.call(&op(SCARD_IOCTL_READCACHEW)) {
        (code, Some(IoctlReturn::ReadCache { return_code })) => {
            assert_eq!(code, SCARD_W_CACHE_ITEM_NOT_FOUND);
            assert_eq!(return_code, SCARD_W_CACHE_ITEM_NOT_FOUND);
        }
        other => panic!("unexpected answer {:?}", other),
    }
    let mut w = op(SCARD_IOCTL_WRITECACHEA);
    w.lookup_name = vec![0x41, 0x42];
    w.data = vec![1, 2, 3];
    assert_eq!(d.call(&w).0, SCARD_S_SUCCESS);
    assert!(d.contexts.is_empty());
}

/// A card that answers every command with `61 02` first, then hands out its
/// remaining data through GET RESPONSE.
struct ChainingCard {
    inner: DummySmartcardHandle,
    get_responses: Vec<Vec<u8>>,
}

impl SmartcardIntegration for ChainingCard {
    fn establish_context(&mut self, scope: u32) -> Result<ScardContext, u32> {
        self.inner.establish_context(scope)
    }
    fn release_context(&mut self, ctx: &ScardContext) -> Result<(), u32> {
        self.inner.release_context(ctx)
    }
    fn is_valid_context(&self, ctx: &ScardContext) -> bool {
        self.inner.is_valid_context(ctx)
    }
    fn list_readers(&self, ctx: &ScardContext, groups: Option<&[String]>) -> Result<Vec<String>, u32> {
        self.inner.list_readers(ctx, groups)
    }
    fn connect(&mut self, ctx: &ScardContext, reader: &str, share: u32, proto: u32) -> Result<ConnectResult, u32> {
        self.inner.connect(ctx, reader, share, proto)
    }
    fn disconnect(&mut self, handle: &ScardHandle, disposition: u32) -> Result<(), u32> {
        self.inner.disconnect(handle, disposition)
    }
    fn reconnect(&mut self, handle: &ScardHandle, share: u32, proto: u32, init: u32) -> Result<u32, u32> {
        self.inner.reconnect(handle, share, proto, init)
    }
    fn transmit(&mut self, _handle: &ScardHandle, _pci: &ScardIORequest, data: &[u8]) -> Result<TransmitResult, u32> {
        if data.len() == 5 && data[1] == 0xC0 {
            if self.get_responses.is_empty() {
                return Err(SCARD_E_INVALID_HANDLE);
            }
            let next = self.get_responses.remove(0);
            Ok(TransmitResult { recv_pci: None, recv_buffer: next })
        } else {
            Ok(TransmitResult {
                recv_pci: Some(ScardIORequest { protocol: 2, extra_bytes: vec![0xAA] }),
                recv_buffer: vec![0x01, 0x61, 0x02],
            })
        }
    }
    fn control(&mut self, handle: &ScardHandle, code: u32, data: &[u8]) -> Result<Vec<u8>, u32> {
        self.inner.control(handle, code, data)
    }
    fn status(&self, handle: &ScardHandle) -> Result<ScardStatus, u32> {
        self.inner.status(handle)
    }
    fn get_status_change(&mut self, ctx: &ScardContext, t: u64, s: &[ReaderStateIn]) -> Result<Vec<ReaderStateOut>, u32> {
        self.inner.get_status_change(ctx, t, s)
    }
    fn begin_transaction(&mut self, handle: &ScardHandle) -> Result<(), u32> {
        self.inner.begin_transaction(handle)
    }
    fn end_transaction(&mut self, handle: &ScardHandle, d: u32) -> Result<(), u32> {
        self.inner.end_transaction(handle, d)
    }
    fn get_attrib(&self, handle: &ScardHandle, id: u32) -> Result<Vec<u8>, u32> {
        self.inner.get_attrib(handle, id)
    }
    fn set_attrib(&mut self, handle: &ScardHandle, id: u32, data: &[u8]) -> Result<(), u32> {
        self.inner.set_attrib(handle, id, data)
    }
    fn is_available(&self) -> bool {
        true
    }
}

#[test]
fn transmit_chains_get_response() {
    let mut card = ChainingCard {
        inner: DummySmartcardHandle::new(),
        get_responses: vec![vec![0x02, 0x03, 0x61, 0x01], vec![0x04, 0x90, 0x00]],
    };
    let mut contexts = HashMap::new();
    let mut cache = CardCache::new();
    let mut t = op(SCARD_IOCTL_TRANSMIT);
    t.send_pci = Some(vec![1, 0, 0, 0, 8, 0, 0, 0]);
    t.send_buffer = vec![0x00, 0xB0, 0x00, 0x00, 0x00];
    match dispatch_ioctl(SCARD_IOCTL_TRANSMIT, &t, &mut card, &mut contexts, &mut cache) {
        (SCARD_S_SUCCESS, Some(IoctlReturn::Transmit { recv_pci, recv_buffer })) => {
            assert_eq!(recv_buffer, vec![0x01, 0x02, 0x03, 0x04, 0x90, 0x00]);
            assert_eq!(recv_pci, Some(vec![2, 0, 0, 0, 9, 0, 0, 0, 0xAA]));
        }
        other => panic!("unexpected answer {:?}", other),
    }
    // A failed GET RESPONSE round ends the chain with what was gathered.
    let mut card2 = ChainingCard { inner: DummySmartcardHandle::new(), get_responses: Vec::new() };
    match dispatch_ioctl(SCARD_IOCTL_TRANSMIT, &t, &mut card2, &mut contexts, &mut cache) {
        (SCARD_S_SUCCESS, Some(IoctlReturn::Transmit { recv_buffer, .. })) => {
            assert_eq!(recv_buffer, vec![0x01]);
        }
        other => panic!("unexpected answer {:?}", other),
    }
}

#[test]
fn irp_round_trip_frames_the_response() {
    let mut card = DummySmartcardHandle::new();
    let mut contexts = HashMap::new();
    let mut cache = CardCache::new();
    let mut tracker = OutstandingIrpTracker::new();
    let mut out = vec![0xEE; 16];
    let o = op(SCARD_IOCTL_ESTABLISHCONTEXT);
    let _token = tracker.register(o.completion_id);
    let pending = start_irp(&o, &mut card, &mut contexts, &mut cache, &mut out);
    assert_eq!(pending.body_pos, 40);
    assert_eq!(pending.return_code, SCARD_S_SUCCESS);
    assert!(tracker.is_outstanding(7));
    assert_eq!(out.len(), 40);
    // A four-byte body: padded to eight.
    out.extend_from_slice(&[1, 2, 3, 4]);
    let status = finish_irp(&mut out, &pending, &mut tracker);
    assert_eq!(status, STATUS_SUCCESS as i32);
    assert!(!tracker.is_outstanding(7));
    assert_eq!(out.len(), 48);
    assert_eq!(&out[..16], &[0xEE; 16]);
    assert_eq!(&out[16..20], &28u32.to_le_bytes());
    assert_eq!(&out[20..28], &[0x01, 0x10, 0x08, 0x00, 0xCC, 0xCC, 0xCC, 0xCC]);
    assert_eq!(&out[28..32], &12u32.to_le_bytes());
    assert_eq!(&out[32..36], &[0, 0, 0, 0]);
    assert_eq!(&out[36..40], &SCARD_S_SUCCESS.to_le_bytes());
    assert_eq!(&out[40..48], &[1, 2, 3, 4, 0, 0, 0, 0]);
}

#[test]
fn irp_response_over_limit_is_buffer_too_small() {
    let mut card = DummySmartcardHandle::new();
    let mut contexts = HashMap::new();
    let mut cache = CardCache::new();
    let mut tracker = OutstandingIrpTracker::new();
    let mut out = vec![0u8; 16];
    let mut o = op(SCARD_IOCTL_GETTRANSMITCOUNT);
    o.output_buffer_length = 10;
    let _token = tracker.register(o.completion_id);
    let pending = start_irp(&o, &mut card, &mut contexts, &mut cache, &mut out);
    out.extend_from_slice(&[0u8; 8]);
    let status = finish_irp(&mut out, &pending, &mut tracker);
    assert_eq!(status, STATUS_BUFFER_TOO_SMALL as i32);
    assert_eq!(&out[16..20], &[0, 0, 0, 0]);
    assert_eq!(&out[36..40], &STATUS_BUFFER_TOO_SMALL.to_le_bytes());
}

#[test]
fn undecodable_irp_fails() {
    let mut out = vec![0x11u8; 30];
    let status = fail_irp(&mut out, -5);
    assert_eq!(status, STATUS_UNSUCCESSFUL as i32);
    assert_eq!(out.len(), 40);
    assert_eq!(&out[..16], &[0x11; 16]);
    assert_eq!(&out[16..20], &[0, 0, 0, 0]);
    assert_eq!(&out[28..32], &[0, 0, 0, 0]);
    assert_eq!(&out[36..40], &(-5i32).to_le_bytes());
}

#[test]
fn teardown_cancels_and_releases_everything() {
    let mut d = Device::new();
    let a = d.establish();
    let b = d.establish();
    let mut tracker = OutstandingIrpTracker::new();
    let token = tracker.register(3);
    teardown(&mut d.card, &mut d.contexts, &mut tracker);
    assert!(tracker.is_cancelled(&token));
    assert!(d.contexts.is_empty());
    assert!(!d.card.is_valid_context(&ScardContext::from_raw(a)));
    assert!(!d.card.is_valid_context(&ScardContext::from_raw(b)));
    release_all_contexts(&mut d.card, &mut d.contexts);
    assert!(d.contexts.is_empty());
}

#[test]
fn ioctl_names() {
    assert_eq!(ioctl_name(SCARD_IOCTL_ESTABLISHCONTEXT), "ESTABLISH_CONTEXT");
    assert_eq!(ioctl_name(0x1234), "UNKNOWN");
}

#[test]
fn only_device_control_is_queued() {
    assert_eq!(route_irp(0x0E), IrpRoute::Enqueue);
    assert_eq!(route_irp(0x03), IrpRoute::Reject { io_status: STATUS_NOT_SUPPORTED as i32 });
}
