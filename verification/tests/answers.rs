use std::collections::HashMap;

use rdp::addins::smartcard::handlers::{
    connect_answer, control_answer, establish_context_answer, get_attrib_answer,
    get_status_change_answer, list_readers_answer, locate_cards_by_atr_answer, reconnect_answer,
    state_answer, status_answer, unit_answer, IoctlReturn,
};
use rdp::integrations::smartcard::consts::{
    SCARD_E_NO_READERS_AVAILABLE, SCARD_E_NO_SMARTCARD, SCARD_E_TIMEOUT, SCARD_STATE_ATRMATCH,
    SCARD_STATE_PRESENT, SCARD_S_SUCCESS,
};
use rdp::integrations::smartcard::{
    ConnectResult, LocateCardResult, ReaderStateIn, ReaderStateOut, ScardContext, ScardHandle,
    ScardStatus,
};

#[test]
fn establish_answer_registers_the_context() {
    let mut contexts = HashMap::new();
    match establish_context_answer(Ok(ScardContext::from_raw(0x0102)), &mut contexts) {
        (SCARD_S_SUCCESS, Some(IoctlReturn::EstablishContext { context })) => {
            assert_eq!(context, vec![0x02, 0x01, 0, 0, 0, 0, 0, 0]);
        }
        other => panic!("unexpected answer {:?}", other),
    }
    assert!(contexts.contains_key(&0x0102));
    let (code, body) = establish_context_answer(Err(SCARD_E_TIMEOUT), &mut contexts);
    assert_eq!(code, SCARD_E_TIMEOUT);
    assert!(body.is_none());
    assert_eq!(contexts.len(), 1);
}

#[test]
fn unit_and_reconnect_answers() {
    assert!(matches!(unit_answer(Ok(())), (SCARD_S_SUCCESS, None)));
    assert!(matches!(unit_answer(Err(SCARD_E_NO_SMARTCARD)), (SCARD_E_NO_SMARTCARD, None)));
    assert!(matches!(reconnect_answer(Ok(2)), (SCARD_S_SUCCESS, Some(IoctlReturn::Reconnect { active_protocol: 2 }))));
    assert!(matches!(reconnect_answer(Err(SCARD_E_TIMEOUT)), (SCARD_E_TIMEOUT, None)));
}

#[test]
fn connect_answer_carries_both_handles() {
    let cr = ConnectResult { handle: ScardHandle::from_raw(9, 2), active_protocol: 2 };
    match connect_answer(5, Ok(cr)) {
        (SCARD_S_SUCCESS, Some(IoctlReturn::Connect { context, handle, active_protocol })) => {
            assert_eq!(context, 5u64.to_le_bytes().to_vec());
            assert_eq!(handle, 9u64.to_le_bytes().to_vec());
            assert_eq!(active_protocol, 2);
        }
        other => panic!("unexpected answer {:?}", other),
    }
}

#[test]
fn list_readers_answer_cases() {
    assert!(matches!(list_readers_answer(Ok(Vec::new()), false, false), (SCARD_E_NO_READERS_AVAILABLE, None)));
    match list_readers_answer(Ok(vec!["A".to_string(), "BC".to_string()]), false, true) {
        (SCARD_S_SUCCESS, Some(IoctlReturn::ListReaders { msz, unicode, groups })) => {
            assert_eq!(msz, vec![b'A', 0, b'B', b'C', 0, 0]);
            assert!(!unicode);
            assert!(groups);
        }
        other => panic!("unexpected answer {:?}", other),
    }
    match list_readers_answer(Ok(vec!["é".to_string()]), true, false) {
        (SCARD_S_SUCCESS, Some(IoctlReturn::ListReaders { msz, .. })) => {
            assert_eq!(msz, vec![0xE9, 0x00, 0, 0, 0, 0]);
        }
        other => panic!("unexpected answer {:?}", other),
    }
}

#[test]
fn state_and_status_answers_cut_the_atr() {
    let long_atr: Vec<u8> = (0u8..40).collect();
    let st = ScardStatus {
        reader_names: vec!["R".to_string()],
        state: SCARD_STATE_PRESENT,
        protocol: 1,
        atr: long_atr.clone(),
    };
    match state_answer(Ok(st.clone())) {
        (SCARD_S_SUCCESS, Some(IoctlReturn::State { state, protocol, atr_len, atr })) => {
            assert_eq!(state, SCARD_STATE_PRESENT);
            assert_eq!(protocol, 1);
            assert_eq!(atr_len, 36);
            assert_eq!(atr, long_atr[..36].to_vec());
        }
        other => panic!("unexpected answer {:?}", other),
    }
    match status_answer(Ok(st), true) {
        (SCARD_S_SUCCESS, Some(IoctlReturn::Status { reader_names, atr_len, atr, unicode, .. })) => {
            assert_eq!(reader_names, vec![b'R', 0, 0, 0, 0, 0]);
            assert_eq!(atr_len, 32);
            assert_eq!(atr, long_atr[..32].to_vec());
            assert!(unicode);
        }
        other => panic!("unexpected answer {:?}", other),
    }
    assert!(matches!(status_answer(Err(SCARD_E_NO_SMARTCARD), false), (SCARD_E_NO_SMARTCARD, None)));
}

#[test]
fn control_and_attrib_answers() {
    match control_answer(Ok(vec![1, 2])) {
        (SCARD_S_SUCCESS, Some(IoctlReturn::Control { out_buffer })) => assert_eq!(out_buffer, vec![1, 2]),
        other => panic!("unexpected answer {:?}", other),
    }
    match get_attrib_answer(0x0009_0303, 64, Ok(vec![7])) {
        (SCARD_S_SUCCESS, Some(IoctlReturn::GetAttrib { attr, attr_id, requested_len })) => {
            assert_eq!(attr, vec![7]);
            assert_eq!(attr_id, 0x0009_0303);
            assert_eq!(requested_len, 64);
        }
        other => panic!("unexpected answer {:?}", other),
    }
    assert!(matches!(get_attrib_answer(1, 1, Err(SCARD_E_TIMEOUT)), (SCARD_E_TIMEOUT, None)));
}

#[test]
fn status_change_answer_packs_states() {
    let out = vec![ReaderStateOut { reader_name: "R".to_string(), event_state: 0x22, atr: vec![0x3B, 0x01] }];
    match get_status_change_answer(Ok(out), false) {
        (SCARD_S_SUCCESS, Some(IoctlReturn::GetStatusChange { states, unicode })) => {
            assert!(!unicode);
            assert_eq!(states[0].current_state, 0);
            assert_eq!(states[0].event_state, 0x22);
            assert_eq!(states[0].atr_len, 2);
            let mut expected = vec![0u8; 36];
            expected[0] = 0x3B;
            expected[1] = 0x01;
            assert_eq!(states[0].atr, expected);
        }
        other => panic!("unexpected answer {:?}", other),
    }
    assert!(matches!(get_status_change_answer(Err(SCARD_E_TIMEOUT), true), (SCARD_E_TIMEOUT, None)));
}

#[test]
fn locate_answer_reports_match_and_caller_state() {
    let states_in = vec![
        ReaderStateIn { reader_name: "A".to_string(), current_state: 0x10 },
        ReaderStateIn { reader_name: "B".to_string(), current_state: 0x20 },
    ];
    let results = vec![
        LocateCardResult { reader_name: "B".to_string(), atr_match: true, event_state: 0x22 },
        LocateCardResult { reader_name: "C".to_string(), atr_match: false, event_state: 0x12 },
    ];
    match locate_cards_by_atr_answer(&states_in, Ok(results)) {
        (SCARD_S_SUCCESS, Some(IoctlReturn::LocateCards { states })) => {
            assert_eq!(states.len(), 2);
            assert_eq!(states[0].current_state, 0x20);
            assert_eq!(states[0].event_state, 0x22 | SCARD_STATE_ATRMATCH);
            assert_eq!(states[0].atr_len, 0);
            assert_eq!(states[0].atr, vec![0u8; 36]);
            assert_eq!(states[1].current_state, 0);
            assert_eq!(states[1].event_state, 0x12);
        }
        other => panic!("unexpected answer {:?}", other),
    }
}
