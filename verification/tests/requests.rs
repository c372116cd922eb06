use std::collections::HashMap;

use rdp::addins::smartcard::consts::{
    SCARD_IOCTL_ACCESSSTARTEDEVENT, SCARD_IOCTL_CONNECTW, SCARD_IOCTL_GETSTATUSCHANGEA,
    SCARD_IOCTL_ISVALIDCONTEXT, SCARD_IOCTL_LISTREADERSA, SCARD_IOCTL_LOCATECARDSA,
    SCARD_IOCTL_RELEASECONTEXT, SCARD_IOCTL_TRANSMIT,
};
use rdp::addins::smartcard::device::{AtrMask, ContextEntry};
use rdp::addins::smartcard::handlers::{
    chain_step, connect_request, dispatch_ioctl, get_response_command, locate_request, lookup_context,
    status_change_request, transmit_answer, transmit_request, CardCache, IoctlReturn, SmartcardOperation,
};
use rdp::addins::smartcard::irp::{registered_contexts, release_all_contexts};
use rdp::connection::update::{plan_update, GdiRegion, UpdatePlan};
use rdp::geom::Rect;
use rdp::integrations::smartcard::consts::{
    SCARD_E_INVALID_HANDLE, SCARD_E_NO_SMARTCARD, SCARD_E_UNSUPPORTED_FEATURE, SCARD_PROTOCOL_T0,
    SCARD_S_SUCCESS,
};
use rdp::integrations::smartcard::{
    ConnectResult, LocateCardResult, ReaderStateIn, ReaderStateOut, ScardContext, ScardHandle,
    ScardIORequest, ScardStatus, TransmitResult,
};
use rdp::integrations::SmartcardIntegration;

fn op(ioctl: u32) -> SmartcardOperation {
    SmartcardOperation {
        io_control_code: ioctl,
        completion_id: 1,
        h_context: 0,
        output_buffer_length: 4096,
        scope: 2,
        reader: String::new(),
        share_mode: 0,
        preferred_protocols: 0,
        initialization: 0,
        disposition: 0,
        h_card: [0; 8],
        send_pci: None,
        send_buffer: Vec::new(),
        control_code: 0,
        in_buffer: Vec::new(),
        attr_id: 0,
        attr_len: 0,
        attr: Vec::new(),
        timeout_ms: 0,
        reader_states: Vec::new(),
        atr_masks: Vec::new(),
        lookup_name: Vec::new(),
        data: Vec::new(),
    }
}

/// An integration that records every call and answers TRANSMIT from a script.
#[derive(Default)]
struct Recorder {
    calls: Vec<String>,
    transmit_script: Vec<Result<Vec<u8>, u32>>,
}

impl SmartcardIntegration for Recorder {
    fn establish_context(&mut self, scope: u32) -> Result<ScardContext, u32> {
        self.calls.push(format!("establish {}", scope));
        Ok(ScardContext::from_raw(1))
    }
    fn release_context(&mut self, ctx: &ScardContext) -> Result<(), u32> {
        self.calls.push(format!("release {}", ctx.raw()));
        Err(SCARD_E_NO_SMARTCARD)
    }
    fn is_valid_context(&self, _ctx: &ScardContext) -> bool {
        true
    }
    fn list_readers(&self, _ctx: &ScardContext, _groups: Option<&[String]>) -> Result<Vec<String>, u32> {
        Ok(vec!["R".to_string()])
    }
    fn connect(&mut self, ctx: &ScardContext, reader: &str, share: u32, proto: u32) -> Result<ConnectResult, u32> {
        self.calls.push(format!("connect {} {} {} {}", ctx.raw(), reader, share, proto));
        Ok(ConnectResult { handle: ScardHandle::from_raw(7, proto), active_protocol: proto })
    }
    fn disconnect(&mut self, _handle: &ScardHandle, _d: u32) -> Result<(), u32> {
        Ok(())
    }
    fn reconnect(&mut self, _handle: &ScardHandle, _s: u32, _p: u32, _i: u32) -> Result<u32, u32> {
        Ok(1)
    }
    fn transmit(&mut self, handle: &ScardHandle, pci: &ScardIORequest, data: &[u8]) -> Result<TransmitResult, u32> {
        self.calls.push(format!(
            "transmit {} {} {} {} {:?}",
            handle.raw(),
            handle.active_protocol(),
            pci.protocol,
            pci.extra_bytes.len(),
            data
        ));
        let next = self.transmit_script.remove(0);
        next.map(|b| TransmitResult { recv_pci: None, recv_buffer: b })
    }
    fn control(&mut self, _h: &ScardHandle, _c: u32, _d: &[u8]) -> Result<Vec<u8>, u32> {
        Ok(Vec::new())
    }
    fn status(&self, _h: &ScardHandle) -> Result<ScardStatus, u32> {
        Err(SCARD_E_NO_SMARTCARD)
    }
    fn get_status_change(&mut self, ctx: &ScardContext, t: u64, s: &[ReaderStateIn]) -> Result<Vec<ReaderStateOut>, u32> {
        self.calls.push(format!("status_change {} {} {}", ctx.raw(), t, s.len()));
        Ok(Vec::new())
    }
    fn begin_transaction(&mut self, _h: &ScardHandle) -> Result<(), u32> {
        Ok(())
    }
    fn end_transaction(&mut self, _h: &ScardHandle, _d: u32) -> Result<(), u32> {
        Ok(())
    }
    fn get_attrib(&self, _h: &ScardHandle, _a: u32) -> Result<Vec<u8>, u32> {
        Ok(Vec::new())
    }
    fn set_attrib(&mut self, _h: &ScardHandle, _a: u32, _d: &[u8]) -> Result<(), u32> {
        Ok(())
    }
    fn locate_cards_by_atr(
        &mut self,
        ctx: &ScardContext,
        atrs: &[(Vec<u8>, Vec<u8>)],
        states: &[ReaderStateIn],
    ) -> Result<Vec<LocateCardResult>, u32> {
        self.calls.push(format!("locate {} {:?} {}", ctx.raw(), atrs, states.len()));
        Ok(Vec::new())
    }
    fn is_available(&self) -> bool {
        true
    }
}

fn registry(id: u64) -> HashMap<u64, ContextEntry> {
    let mut m = HashMap::new();
    m.insert(id, ContextEntry { context: ScardContext::from_raw(id) });
    m
}

#[test]
fn transmit_chains_one_get_response() {
    let mut rec = Recorder {
        transmit_script: vec![Ok(vec![0xAA, 0x61, 0x02]), Ok(vec![0xBB, 0xCC, 0x90, 0x00])],
        ..Recorder::default()
    };
    let mut t = op(SCARD_IOCTL_TRANSMIT);
    t.h_card = 7u64.to_le_bytes();
    t.send_buffer = vec![0x00, 0xA4];
    let (code, body) = dispatch_ioctl(SCARD_IOCTL_TRANSMIT, &t, &mut rec, &mut HashMap::new(), &mut CardCache::new());
    assert_eq!(code, SCARD_S_SUCCESS);
    match body {
        Some(IoctlReturn::Transmit { recv_pci, recv_buffer }) => {
            assert!(recv_pci.is_none());
            assert_eq!(recv_buffer, vec![0xAA, 0xBB, 0xCC, 0x90, 0x00]);
        }
        other => panic!("unexpected answer {:?}", other),
    }
    assert_eq!(rec.calls, vec!["transmit 7 0 1 0 [0, 164]", "transmit 7 0 1 0 [0, 192, 0, 0, 2]"]);
}

#[test]
fn failed_get_response_keeps_what_came_before() {
    let mut rec = Recorder {
        transmit_script: vec![Ok(vec![0x01, 0x02, 0x61, 0x05]), Err(SCARD_E_NO_SMARTCARD)],
        ..Recorder::default()
    };
    let t = op(SCARD_IOCTL_TRANSMIT);
    match dispatch_ioctl(SCARD_IOCTL_TRANSMIT, &t, &mut rec, &mut HashMap::new(), &mut CardCache::new()) {
        (SCARD_S_SUCCESS, Some(IoctlReturn::Transmit { recv_buffer, .. })) => assert_eq!(recv_buffer, vec![0x01, 0x02]),
        other => panic!("unexpected answer {:?}", other),
    }
    assert_eq!(rec.calls.len(), 2);
    assert!(rec.calls[1].ends_with("[0, 192, 0, 0, 5]"));
}

#[test]
fn no_chaining_without_61_xx() {
    let mut rec = Recorder { transmit_script: vec![Ok(vec![0x6A, 0x82])], ..Recorder::default() };
    let t = op(SCARD_IOCTL_TRANSMIT);
    match dispatch_ioctl(SCARD_IOCTL_TRANSMIT, &t, &mut rec, &mut HashMap::new(), &mut CardCache::new()) {
        (SCARD_S_SUCCESS, Some(IoctlReturn::Transmit { recv_buffer, .. })) => assert_eq!(recv_buffer, vec![0x6A, 0x82]),
        other => panic!("unexpected answer {:?}", other),
    }
    assert_eq!(rec.calls.len(), 1);
    let mut rec = Recorder { transmit_script: vec![Err(SCARD_E_NO_SMARTCARD)], ..Recorder::default() };
    let (code, body) = dispatch_ioctl(SCARD_IOCTL_TRANSMIT, &t, &mut rec, &mut HashMap::new(), &mut CardCache::new());
    assert_eq!(code, SCARD_E_NO_SMARTCARD);
    assert!(body.is_none());
    assert_eq!(rec.calls.len(), 1);
}

#[test]
fn integration_left_alone_without_need() {
    let mut rec = Recorder::default();
    let mut contexts = HashMap::new();
    let mut cache = CardCache::new();
    assert_eq!(dispatch_ioctl(0xDEADBEEF, &op(0xDEADBEEF), &mut rec, &mut contexts, &mut cache).0, SCARD_E_UNSUPPORTED_FEATURE);
    assert_eq!(dispatch_ioctl(SCARD_IOCTL_LOCATECARDSA, &op(SCARD_IOCTL_LOCATECARDSA), &mut rec, &mut contexts, &mut cache).0, SCARD_E_UNSUPPORTED_FEATURE);
    assert_eq!(dispatch_ioctl(SCARD_IOCTL_ISVALIDCONTEXT, &op(SCARD_IOCTL_ISVALIDCONTEXT), &mut rec, &mut contexts, &mut cache).0, SCARD_E_INVALID_HANDLE);
    assert_eq!(dispatch_ioctl(SCARD_IOCTL_ACCESSSTARTEDEVENT, &op(SCARD_IOCTL_ACCESSSTARTEDEVENT), &mut rec, &mut contexts, &mut cache).0, SCARD_S_SUCCESS);
    for ioctl in [SCARD_IOCTL_RELEASECONTEXT, SCARD_IOCTL_CONNECTW, SCARD_IOCTL_GETSTATUSCHANGEA, SCARD_IOCTL_LISTREADERSA] {
        assert_eq!(dispatch_ioctl(ioctl, &op(ioctl), &mut rec, &mut contexts, &mut cache).0, SCARD_E_INVALID_HANDLE);
    }
    assert!(rec.calls.is_empty());
    assert!(contexts.is_empty());
}

#[test]
fn release_removes_even_when_the_integration_fails() {
    let mut rec = Recorder::default();
    let mut contexts = registry(9);
    let mut r = op(SCARD_IOCTL_RELEASECONTEXT);
    r.h_context = 9;
    let (code, _) = dispatch_ioctl(SCARD_IOCTL_RELEASECONTEXT, &r, &mut rec, &mut contexts, &mut CardCache::new());
    assert_eq!(code, SCARD_E_NO_SMARTCARD);
    assert!(contexts.is_empty());
    assert_eq!(rec.calls, vec!["release 9"]);
}

#[test]
fn connect_hands_over_the_call_values() {
    let mut rec = Recorder::default();
    let mut contexts = registry(4);
    let mut c = op(SCARD_IOCTL_CONNECTW);
    c.h_context = 4;
    c.reader = "Reader X".to_string();
    c.share_mode = 2;
    c.preferred_protocols = 3;
    let req = connect_request(&contexts, &c).unwrap();
    assert_eq!(req.context.raw(), 4);
    assert_eq!(req.reader, "Reader X");
    assert_eq!((req.share_mode, req.preferred_protocols), (2, 3));
    dispatch_ioctl(SCARD_IOCTL_CONNECTW, &c, &mut rec, &mut contexts, &mut CardCache::new());
    assert_eq!(rec.calls, vec!["connect 4 Reader X 2 3"]);
    c.h_context = 5;
    assert!(connect_request(&contexts, &c).is_none());
    assert!(lookup_context(&contexts, 5).is_none());
    assert_eq!(lookup_context(&contexts, 4).unwrap().raw(), 4);
}

#[test]
fn status_change_and_locate_requests() {
    let mut rec = Recorder::default();
    let mut contexts = registry(3);
    let mut g = op(SCARD_IOCTL_GETSTATUSCHANGEA);
    g.h_context = 3;
    g.timeout_ms = 0xFFFF_FFFF;
    g.reader_states = vec![ReaderStateIn { reader_name: "R".to_string(), current_state: 0 }];
    let q = status_change_request(&contexts, &g).unwrap();
    assert_eq!((q.context.raw(), q.timeout_ms), (3, 86_400_000));
    dispatch_ioctl(SCARD_IOCTL_GETSTATUSCHANGEA, &g, &mut rec, &mut contexts, &mut CardCache::new());
    assert_eq!(rec.calls, vec!["status_change 3 86400000 1"]);

    let mut l = op(0);
    l.h_context = 3;
    l.atr_masks = vec![AtrMask { atr_len: 2, atr: vec![0x3B; 36], mask: vec![0xF0; 36] }];
    let q = locate_request(&contexts, &l).unwrap();
    assert_eq!(q.context.raw(), 3);
    assert_eq!(q.atrs, vec![(vec![0x3B, 0x3B], vec![0xF0, 0xF0])]);
    l.h_context = 8;
    assert!(locate_request(&contexts, &l).is_none());
}

#[test]
fn transmit_request_decodes_handle_and_pci() {
    let mut t = op(SCARD_IOCTL_TRANSMIT);
    t.h_card = 0x0102u64.to_le_bytes();
    t.send_pci = Some(vec![2, 0, 0, 0, 10, 0, 0, 0, 0xAB, 0xCD]);
    let q = transmit_request(&t);
    assert_eq!(q.handle.raw(), 0x0102);
    assert_eq!(q.handle.active_protocol(), 0);
    assert_eq!(q.send_pci.protocol, 2);
    assert_eq!(q.send_pci.extra_bytes, vec![0xAB, 0xCD]);
    t.send_pci = None;
    let q = transmit_request(&t);
    assert_eq!(q.send_pci.protocol, SCARD_PROTOCOL_T0);
    assert!(q.send_pci.extra_bytes.is_empty());
}

#[test]
fn get_response_steps() {
    assert_eq!(get_response_command(&[0x01, 0x61, 0x10]), Some(vec![0x00, 0xC0, 0x00, 0x00, 0x10]));
    assert_eq!(get_response_command(&[0x90, 0x00]), None);
    assert_eq!(get_response_command(&[0x61]), None);
    let mut recv = vec![0x01, 0x61, 0x02];
    chain_step(&mut recv, &Some(vec![0x02, 0x03]));
    assert_eq!(recv, vec![0x01, 0x02, 0x03]);
    let mut recv = vec![0x01, 0x61, 0x02];
    chain_step(&mut recv, &None);
    assert_eq!(recv, vec![0x01]);
    let first = TransmitResult { recv_pci: None, recv_buffer: vec![0xAA, 0x61, 0x02] };
    match transmit_answer(Ok(first), &[Some(vec![0xBB, 0x61, 0x01]), Some(vec![0xCC, 0x90, 0x00])]) {
        (SCARD_S_SUCCESS, Some(IoctlReturn::Transmit { recv_buffer, .. })) => {
            assert_eq!(recv_buffer, vec![0xAA, 0xBB, 0xCC, 0x90, 0x00]);
        }
        other => panic!("unexpected answer {:?}", other),
    }
    assert!(matches!(transmit_answer(Err(SCARD_E_NO_SMARTCARD), &[]), (SCARD_E_NO_SMARTCARD, None)));
}

#[test]
fn every_registered_context_is_released() {
    let mut rec = Recorder::default();
    let mut contexts = registry(2);
    contexts.insert(5, ContextEntry { context: ScardContext::from_raw(5) });
    let mut ids: Vec<u64> = registered_contexts(&contexts).iter().map(|c| c.raw()).collect();
    ids.sort();
    assert_eq!(ids, vec![2, 5]);
    release_all_contexts(&mut rec, &mut contexts);
    assert!(contexts.is_empty());
    let mut calls = rec.calls.clone();
    calls.sort();
    assert_eq!(calls, vec!["release 2", "release 5"]);
}

#[test]
fn update_plans() {
    let inv = GdiRegion { null: false, x: 0, y: 0, w: 4, h: 4 };
    let empty = GdiRegion { null: true, x: 0, y: 0, w: 0, h: 0 };
    assert_eq!(plan_update(true, &inv, None, 0), UpdatePlan { send: None, reset: false });
    assert_eq!(plan_update(false, &empty, None, 0), UpdatePlan { send: None, reset: false });
    assert_eq!(plan_update(false, &empty, None, 1), UpdatePlan { send: None, reset: true });
    assert_eq!(plan_update(false, &inv, None, 0), UpdatePlan { send: Some(vec![Rect::new(0, 0, 4, 4)]), reset: true });
}

#[test]
fn well_formed_operations() {
    let mut o = op(SCARD_IOCTL_TRANSMIT);
    assert!(o.is_well_formed());
    o.send_pci = Some(vec![1, 0, 0, 0]);
    assert!(!o.is_well_formed());
    o.send_pci = Some(vec![1, 0, 0, 0, 8, 0, 0, 0]);
    assert!(o.is_well_formed());
    o.send_pci = Some(vec![1, 0, 0, 0, 12, 0, 0, 0, 1, 2]);
    assert!(!o.is_well_formed());
    o.send_pci = Some(vec![1, 0, 0, 0, 10, 0, 0, 0, 1, 2]);
    assert!(o.is_well_formed());
    o.atr_masks = vec![AtrMask { atr_len: 1, atr: vec![0; 36], mask: vec![0; 35] }];
    assert!(!o.is_well_formed());
    o.atr_masks = vec![AtrMask { atr_len: 1, atr: vec![0; 36], mask: vec![0; 36] }];
    assert!(o.is_well_formed());
}

#[test]
fn default_atr_search_answers_no_match() {
    let states = vec![
        ReaderStateIn { reader_name: "A".to_string(), current_state: 0x10 },
        ReaderStateIn { reader_name: "B".to_string(), current_state: 0x22 },
    ];
    let v = rdp::integrations::smartcard::no_atr_matches(&states);
    assert_eq!(v.len(), 2);
    assert_eq!(v[0].reader_name, "A");
    assert_eq!(v[1].reader_name, "B");
    assert!(!v[0].atr_match && !v[1].atr_match);
    assert_eq!((v[0].event_state, v[1].event_state), (0x10, 0x22));
}
