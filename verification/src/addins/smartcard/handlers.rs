//! IOCTL dispatch and handler functions for smartcard IRPs.
//!
//! A decoded IRP arrives as a [`SmartcardOperation`]; dispatching it yields
//! the return code of the call and, when the call answers with a body, the
//! [`IoctlReturn`] to pack into the response.

use std::collections::HashMap;

use vstd::prelude::*;
use vstd::bytes::{spec_u64_from_le_bytes, spec_u64_to_le_bytes};
use vstd::bytes::u32_from_le_bytes;
use vstd::slice::{slice_subrange, slice_to_vec};

use crate::integrations::smartcard::consts::{
    SCARD_E_INVALID_HANDLE, SCARD_E_NO_READERS_AVAILABLE, SCARD_E_UNSUPPORTED_FEATURE,
    SCARD_STATE_ATRMATCH, SCARD_STATE_PRESENT, SCARD_S_SUCCESS, SCARD_TRANSMIT_MAX, SCARD_W_CACHE_ITEM_NOT_FOUND,
};
use crate::integrations::smartcard::spec_no_atr_matches;
use crate::integrations::smartcard::types::spec_match_atr;
use crate::integrations::smartcard::types::{
    ConnectResult, LocateCardResult, ReaderStateIn, ReaderStateOut, ScardContext, ScardHandle,
    ScardIORequest, ScardStatus, TransmitResult,
};
use crate::integrations::SmartcardIntegration;

use super::consts::{
    SCARD_IOCTL_ACCESSSTARTEDEVENT, SCARD_IOCTL_BEGINTRANSACTION, SCARD_IOCTL_CANCEL,
    SCARD_IOCTL_CONNECTA, SCARD_IOCTL_CONNECTW, SCARD_IOCTL_CONTROL, SCARD_IOCTL_DISCONNECT,
    SCARD_IOCTL_ENDTRANSACTION, SCARD_IOCTL_ESTABLISHCONTEXT, SCARD_IOCTL_GETATTRIB,
    SCARD_IOCTL_GETDEVICETYPEID, SCARD_IOCTL_GETREADERICON, SCARD_IOCTL_GETSTATUSCHANGEA,
    SCARD_IOCTL_GETSTATUSCHANGEW, SCARD_IOCTL_GETTRANSMITCOUNT, SCARD_IOCTL_ISVALIDCONTEXT,
    SCARD_IOCTL_LISTREADERGROUPSA, SCARD_IOCTL_LISTREADERGROUPSW, SCARD_IOCTL_LISTREADERSA,
    SCARD_IOCTL_LISTREADERSW, SCARD_IOCTL_LOCATECARDSA, SCARD_IOCTL_LOCATECARDSBYATRA,
    SCARD_IOCTL_LOCATECARDSBYATRW, SCARD_IOCTL_LOCATECARDSW, SCARD_IOCTL_READCACHEA,
    SCARD_IOCTL_READCACHEW, SCARD_IOCTL_RECONNECT, SCARD_IOCTL_RELEASECONTEXT,
    SCARD_IOCTL_RELEASETARTEDEVENT, SCARD_IOCTL_SETATTRIB, SCARD_IOCTL_STATE, SCARD_IOCTL_STATUSA,
    SCARD_IOCTL_STATUSW, SCARD_IOCTL_TRANSMIT, SCARD_IOCTL_WRITECACHEA, SCARD_IOCTL_WRITECACHEW,
};
use super::device::{
    build_multi_string_ascii, build_multi_string_utf16, encode_io_request, fit_bytes, get_atr_masks,
    get_card_handle, get_io_request, handle_bytes, pack_reader_states_out, spec_atr_mask_wf,
    spec_atr_pattern, spec_encode_io_request, spec_fit, spec_io_request, spec_multi_string_ascii,
    spec_multi_string_utf16, spec_pack_reader_state, spec_pci_wf, string_views, zeros, AtrMask,
    ContextEntry, ReaderStateReturn,
};

verus! {

broadcast use vstd::std_specs::hash::group_hash_axioms;

// ---------------------------------------------------------------------------
// Decoded operations and their answers
// ---------------------------------------------------------------------------

/// A decoded smartcard IRP: its header fields and the arguments of the call.
/// Each call reads the arguments it needs; the others stay at their
/// defaults (zero, empty).
#[derive(Debug, Clone)]
pub struct SmartcardOperation {
    pub io_control_code: u32,
    pub completion_id: u32,
    /// The context the call names (`hContext`), as a raw id.
    pub h_context: u64,
    /// The most the caller accepts after the OutputBufferLength field.
    pub output_buffer_length: u32,
    /// ESTABLISH_CONTEXT: the scope.
    pub scope: u32,
    /// CONNECT: the reader's name.
    pub reader: String,
    /// CONNECT, RECONNECT: share mode and preferred protocols.
    pub share_mode: u32,
    pub preferred_protocols: u32,
    /// RECONNECT: the initialization to apply.
    pub initialization: u32,
    /// DISCONNECT, END_TRANSACTION: the card disposition.
    pub disposition: u32,
    /// Calls on a card: its `pbHandle` field.
    pub h_card: [u8; 8],
    /// TRANSMIT: the serialized send PCI, if any, and the command APDU.
    pub send_pci: Option<Vec<u8>>,
    pub send_buffer: Vec<u8>,
    /// CONTROL: the control code and input buffer.
    pub control_code: u32,
    pub in_buffer: Vec<u8>,
    /// GET_ATTRIB, SET_ATTRIB: the attribute, its requested length, and the value to set.
    pub attr_id: u32,
    pub attr_len: u32,
    pub attr: Vec<u8>,
    /// GET_STATUS_CHANGE: the timeout in milliseconds (0xFFFFFFFF: infinite).
    pub timeout_ms: u32,
    /// GET_STATUS_CHANGE, LOCATE_CARDS_BY_ATR: the watched readers.
    pub reader_states: Vec<ReaderStateIn>,
    /// LOCATE_CARDS_BY_ATR: the ATR patterns.
    pub atr_masks: Vec<AtrMask>,
    /// READ_CACHE, WRITE_CACHE: the lookup name (UTF-16 units) and the data to store.
    pub lookup_name: Vec<u16>,
    pub data: Vec<u8>,
}

impl SmartcardOperation {
    /// The operation's arguments have the shape their wire structures have.
    pub open spec fn wf(&self) -> bool {
        &&& self.send_pci matches Some(b) ==> spec_pci_wf(b@)
        &&& forall|i: int| 0 <= i < self.atr_masks@.len() ==> spec_atr_mask_wf(#[trigger] self.atr_masks@[i])
    }

    /// Whether the operation's arguments have the shape their wire
    /// structures have: a send PCI holds its 8-byte header and the extra
    /// bytes it announces, and every ATR mask has its 36-byte fields.
    pub fn is_well_formed(&self) -> (r: bool)
        ensures
            r == self.wf(),
    {
        let pci_ok = match &self.send_pci {
            None => true,
            Some(b) => {
                if b.len() < 8 {
                    false
                } else {
                    let cb = u32_from_le_bytes(slice_subrange(b.as_slice(), 4, 8));
                    cb <= 8 || (cb as usize) <= b.len()
                }
            },
        };
        if !pci_ok {
            return false;
        }
        let mut i: usize = 0;
        while i < self.atr_masks.len()
            invariant
                i <= self.atr_masks@.len(),
                forall|j: int| 0 <= j < i ==> spec_atr_mask_wf(#[trigger] self.atr_masks@[j]),
            decreases self.atr_masks@.len() - i,
        {
            if self.atr_masks[i].atr.len() != 36 || self.atr_masks[i].mask.len() != 36 {
                return false;
            }
            i = i + 1;
        }
        true
    }
}

/// The body of an answer, as the response packer writes it.
#[derive(Debug, Clone)]
pub enum IoctlReturn {
    EstablishContext { context: Vec<u8> },
    ListReaders { msz: Vec<u8>, unicode: bool, groups: bool },
    Connect { context: Vec<u8>, handle: Vec<u8>, active_protocol: u32 },
    Reconnect { active_protocol: u32 },
    State { state: u32, protocol: u32, atr_len: u32, atr: Vec<u8> },
    Status { reader_names: Vec<u8>, state: u32, protocol: u32, atr_len: u32, atr: Vec<u8>, unicode: bool },
    Transmit { recv_pci: Option<Vec<u8>>, recv_buffer: Vec<u8> },
    Control { out_buffer: Vec<u8> },
    GetAttrib { attr: Vec<u8>, attr_id: u32, requested_len: u32 },
    GetStatusChange { states: Vec<ReaderStateReturn>, unicode: bool },
    LocateCards { states: Vec<ReaderStateReturn> },
    GetTransmitCount { count: u32 },
    DeviceTypeId,
    ReadCache { return_code: u32 },
}

/// The registry of established contexts, by raw id.
pub type ContextMap = HashMap<u64, ContextEntry>;

/// The return code of a call that answers with no body.
pub open spec fn spec_unit_code(res: Result<(), u32>) -> u32 {
    match res {
        Ok(()) => SCARD_S_SUCCESS,
        Err(code) => code,
    }
}

fn unit_code(res: Result<(), u32>) -> (code: u32)
    ensures
        code == spec_unit_code(res),
{
    match res {
        Ok(()) => SCARD_S_SUCCESS,
        Err(code) => code,
    }
}

/// The answer to a call that answers with no body, once the integration
/// answered `res`.
pub fn unit_answer(res: Result<(), u32>) -> (r: (u32, Option<IoctlReturn>))
    ensures
        spec_bare(r, spec_unit_code(res)),
{
    (unit_code(res), None)
}

/// The view of an integration's byte-buffer answer.
pub open spec fn bytes_result(res: Result<Vec<u8>, u32>) -> Result<Seq<u8>, u32> {
    match res {
        Ok(v) => Ok(v@),
        Err(code) => Err(code),
    }
}

/// The view of an integration's list of names.
pub open spec fn names_result(res: Result<Vec<String>, u32>) -> Result<Seq<Seq<char>>, u32> {
    match res {
        Ok(v) => Ok(string_views(v@)),
        Err(code) => Err(code),
    }
}

/// The view of an integration's list of items.
pub open spec fn items_result<T>(res: Result<Vec<T>, u32>) -> Result<Seq<T>, u32> {
    match res {
        Ok(v) => Ok(v@),
        Err(code) => Err(code),
    }
}

/// An answer with the given code and no body.
pub open spec fn spec_bare(r: (u32, Option<IoctlReturn>), code: u32) -> bool {
    r.0 == code && r.1 is None
}

// ---------------------------------------------------------------------------
// Card cache
// ---------------------------------------------------------------------------

/// Key-value store written by WRITE_CACHE.
#[derive(Debug)]
pub struct CardCache {
    entries: Vec<(Vec<u16>, Vec<u8>)>,
}

impl CardCache {
    /// The stored items, by lookup name.
    pub closed spec fn items(&self) -> Map<Seq<u16>, Seq<u8>> {
        Map::new(
            |k: Seq<u16>| exists|i: int| 0 <= i < self.entries@.len() && #[trigger] self.entries@[i].0@ == k,
            |k: Seq<u16>|
                self.entries@[choose|i: int| 0 <= i < self.entries@.len() && #[trigger] self.entries@[i].0@ == k].1@,
        )
    }

    /// No lookup name is stored twice.
    pub closed spec fn wf(&self) -> bool {
        forall|i: int, j: int|
            0 <= i < self.entries@.len() && 0 <= j < self.entries@.len() && #[trigger] self.entries@[i].0@
                == #[trigger] self.entries@[j].0@ ==> i == j
    }

    /// An empty cache.
    pub fn new() -> (c: Self)
        ensures
            c.wf(),
            c.items() == Map::<Seq<u16>, Seq<u8>>::empty(),
    {
        let c = CardCache { entries: Vec::new() };
        assert(c.items() =~= Map::<Seq<u16>, Seq<u8>>::empty());
        c
    }

    fn find(&self, key: &Vec<u16>) -> (r: Option<usize>)
        ensures
            match r {
                Some(i) => i < self.entries@.len() && self.entries@[i as int].0@ == key@,
                None => forall|i: int| 0 <= i < self.entries@.len() ==> #[trigger] self.entries@[i].0@ != key@,
            },
    {
        let mut i: usize = 0;
        while i < self.entries.len()
            invariant
                i <= self.entries@.len(),
                forall|j: int| 0 <= j < i ==> #[trigger] self.entries@[j].0@ != key@,
            decreases self.entries@.len() - i,
        {
            let k = &self.entries[i].0;
            let mut same = k.len() == key.len();
            let mut t: usize = 0;
            while same && t < key.len()
                invariant
                    same ==> k@.len() == key@.len(),
                    t <= key@.len(),
                    same ==> forall|u: int| 0 <= u < t ==> k@[u] == key@[u],
                    !same ==> k@ != key@,
                decreases key@.len() - t,
            {
                if k[t] != key[t] {
                    same = false;
                }
                t = t + 1;
            }
            if same {
                assert(k@ =~= key@);
                return Some(i);
            }
            i = i + 1;
        }
        None
    }

    /// Store `value` under `key`, replacing what was stored there.
    pub fn insert(&mut self, key: Vec<u16>, value: Vec<u8>)
        requires
            old(self).wf(),
        ensures
            final(self).wf(),
            final(self).items() == old(self).items().insert(key@, value@),
    {
        let ghost k = key@;
        let ghost v = value@;
        match self.find(&key) {
            Some(i) => {
                self.entries[i].1 = value;
                proof {
                    assert forall|k2: Seq<u16>| #[trigger] self.items().contains_key(k2) == old(self).items().insert(k, v).contains_key(k2) by {
                        if old(self).items().contains_key(k2) {
                            let j = choose|j: int| 0 <= j < old(self).entries@.len() && #[trigger] old(self).entries@[j].0@ == k2;
                            assert(self.entries@[j].0@ == k2);
                        }
                        if k2 == k {
                            assert(self.entries@[i as int].0@ == k2);
                        }
                    }
                    assert forall|k2: Seq<u16>| #[trigger] self.items().contains_key(k2) implies self.items()[k2] == old(self).items().insert(k, v)[k2] by {
                        let j = choose|j: int| 0 <= j < self.entries@.len() && #[trigger] self.entries@[j].0@ == k2;
                        if k2 != k {
                            assert(old(self).entries@[j].0@ == k2);
                            let j0 = choose|j0: int| 0 <= j0 < old(self).entries@.len() && #[trigger] old(self).entries@[j0].0@ == k2;
                            assert(j0 == j);
                        } else {
                            assert(j == i as int);
                        }
                    }
                }
            },
            None => {
                self.entries.push((key, value));
                proof {
                    let n = old(self).entries@.len() as int;
                    assert forall|k2: Seq<u16>| #[trigger] self.items().contains_key(k2) == old(self).items().insert(k, v).contains_key(k2) by {
                        if old(self).items().contains_key(k2) {
                            let j = choose|j: int| 0 <= j < old(self).entries@.len() && #[trigger] old(self).entries@[j].0@ == k2;
                            assert(self.entries@[j].0@ == k2);
                        }
                        if k2 == k {
                            assert(self.entries@[n].0@ == k2);
                        }
                    }
                    assert forall|k2: Seq<u16>| #[trigger] self.items().contains_key(k2) implies self.items()[k2] == old(self).items().insert(k, v)[k2] by {
                        let j = choose|j: int| 0 <= j < self.entries@.len() && #[trigger] self.entries@[j].0@ == k2;
                        if k2 != k {
                            assert(j < n);
                            let j0 = choose|j0: int| 0 <= j0 < old(self).entries@.len() && #[trigger] old(self).entries@[j0].0@ == k2;
                            assert(self.entries@[j0].0@ == k2);
                            assert(j0 == j);
                        } else {
                            assert(self.entries@[n].0@ == k2);
                            assert(j == n);
                        }
                    }
                }
            },
        }
        assert(self.items() =~= old(self).items().insert(k, v));
    }
}

// ---------------------------------------------------------------------------
// What each call hands to the integration, and what it does with the answer
// ---------------------------------------------------------------------------

/// The card handle a call on a card names: the id in its `pbHandle` field;
/// the protocol is not carried there.
pub open spec fn op_card(op: SmartcardOperation) -> (u64, u32) {
    (spec_u64_from_le_bytes(op.h_card@), 0u32)
}

/// ESTABLISH_CONTEXT: the call's scope was handed to the integration, and
/// its answer `res` decided the reply and the registry.
pub open spec fn establish_done<I: SmartcardIntegration>(
    op: SmartcardOperation,
    oc: Map<u64, ContextEntry>,
    nc: Map<u64, ContextEntry>,
    i0: I,
    i1: I,
    r: (u32, Option<IoctlReturn>),
) -> bool {
    exists|res: Result<ScardContext, u32>|
        #[trigger] I::establish_context_answered(i0, i1, op.scope, res) && establish_context_post(oc, nc, res, r)
}

/// RELEASE_CONTEXT on a registered id: that id's context was handed to the
/// integration, and its answer is the reply's code.
pub open spec fn release_done<I: SmartcardIntegration>(
    op: SmartcardOperation,
    oc: Map<u64, ContextEntry>,
    nc: Map<u64, ContextEntry>,
    i0: I,
    i1: I,
    r: (u32, Option<IoctlReturn>),
) -> bool {
    oc.contains_key(op.h_context) ==> exists|res: Result<(), u32>|
        #[trigger] I::release_context_answered(i0, i1, oc[op.h_context].context, res) && release_context_post(
            op.h_context,
            oc,
            nc,
            res,
            r,
        )
}

/// CANCEL on a registered id: that id's context was handed to the
/// integration, and its answer is the reply's code.
pub open spec fn cancel_done<I: SmartcardIntegration>(
    op: SmartcardOperation,
    oc: Map<u64, ContextEntry>,
    i0: I,
    i1: I,
    r: (u32, Option<IoctlReturn>),
) -> bool {
    oc.contains_key(op.h_context) ==> exists|res: Result<(), u32>|
        (#[trigger] I::cancel_answered(i0, i1, oc[op.h_context].context, res) || (res == Ok::<(), u32>(()) && i1
            == i0)) && spec_bare(r, spec_unit_code(res))
}

/// LIST_READERS on a registered id: the integration was asked for its
/// readers in that context (no group filter), and its answer decided the reply.
pub open spec fn list_readers_done<I: SmartcardIntegration>(
    op: SmartcardOperation,
    oc: Map<u64, ContextEntry>,
    unicode: bool,
    i0: I,
    i1: I,
    r: (u32, Option<IoctlReturn>),
) -> bool {
    oc.contains_key(op.h_context) ==> i1 == i0 && exists|res: Result<Vec<String>, u32>|
        #[trigger] i0.list_readers_answered(oc[op.h_context].context, None, res) && list_readers_post(
            names_result(res),
            unicode,
            is_list_groups(op.io_control_code),
            r,
        )
}

/// CONNECT on a registered id: that context, the reader name, share mode and
/// preferred protocols were handed to the integration, and its answer
/// decided the reply.
pub open spec fn connect_done<I: SmartcardIntegration>(
    op: SmartcardOperation,
    oc: Map<u64, ContextEntry>,
    i0: I,
    i1: I,
    r: (u32, Option<IoctlReturn>),
) -> bool {
    oc.contains_key(op.h_context) ==> exists|res: Result<ConnectResult, u32>|
        #[trigger] I::connect_answered(
            i0,
            i1,
            oc[op.h_context].context,
            op.reader@,
            op.share_mode,
            op.preferred_protocols,
            res,
        ) && connect_post(op.h_context, res, r)
}

/// RECONNECT: the card handle, share mode, preferred protocols and
/// initialization were handed to the integration, and its answer decided
/// the reply.
pub open spec fn reconnect_done<I: SmartcardIntegration>(op: SmartcardOperation, i0: I, i1: I, r: (u32, Option<IoctlReturn>)) -> bool {
    exists|h: ScardHandle, res: Result<u32, u32>|
        h@ == op_card(op) && #[trigger] I::reconnect_answered(
            i0,
            i1,
            h,
            op.share_mode,
            op.preferred_protocols,
            op.initialization,
            res,
        ) && reconnect_post(res, r)
}

/// DISCONNECT: the card handle and disposition were handed to the
/// integration, and its answer is the reply's code.
pub open spec fn disconnect_done<I: SmartcardIntegration>(op: SmartcardOperation, i0: I, i1: I, r: (u32, Option<IoctlReturn>)) -> bool {
    exists|h: ScardHandle, res: Result<(), u32>|
        h@ == op_card(op) && #[trigger] I::disconnect_answered(i0, i1, h, op.disposition, res) && spec_bare(
            r,
            spec_unit_code(res),
        )
}

/// BEGIN_TRANSACTION: the card handle was handed to the integration, and
/// its answer is the reply's code.
pub open spec fn begin_transaction_done<I: SmartcardIntegration>(
    op: SmartcardOperation,
    i0: I,
    i1: I,
    r: (u32, Option<IoctlReturn>),
) -> bool {
    exists|h: ScardHandle, res: Result<(), u32>|
        h@ == op_card(op) && #[trigger] I::begin_transaction_answered(i0, i1, h, res) && spec_bare(
            r,
            spec_unit_code(res),
        )
}

/// END_TRANSACTION: the card handle and disposition were handed to the
/// integration, and its answer is the reply's code.
pub open spec fn end_transaction_done<I: SmartcardIntegration>(
    op: SmartcardOperation,
    i0: I,
    i1: I,
    r: (u32, Option<IoctlReturn>),
) -> bool {
    exists|h: ScardHandle, res: Result<(), u32>|
        h@ == op_card(op) && #[trigger] I::end_transaction_answered(i0, i1, h, op.disposition, res) && spec_bare(
            r,
            spec_unit_code(res),
        )
}

/// SET_ATTRIB: the card handle, attribute id and value were handed to the
/// integration, and its answer is the reply's code.
pub open spec fn set_attrib_done<I: SmartcardIntegration>(op: SmartcardOperation, i0: I, i1: I, r: (u32, Option<IoctlReturn>)) -> bool {
    exists|h: ScardHandle, res: Result<(), u32>|
        h@ == op_card(op) && #[trigger] I::set_attrib_answered(i0, i1, h, op.attr_id, op.attr@, res) && spec_bare(
            r,
            spec_unit_code(res),
        )
}

/// CONTROL: the card handle, control code and input were handed to the
/// integration, and its answer decided the reply.
pub open spec fn control_done<I: SmartcardIntegration>(op: SmartcardOperation, i0: I, i1: I, r: (u32, Option<IoctlReturn>)) -> bool {
    exists|h: ScardHandle, res: Result<Vec<u8>, u32>|
        h@ == op_card(op) && #[trigger] I::control_answered(i0, i1, h, op.control_code, op.in_buffer@, res)
            && control_post(bytes_result(res), r)
}

/// GET_ATTRIB: the integration was asked for the attribute of the card
/// handle, and its answer decided the reply.
pub open spec fn get_attrib_done<I: SmartcardIntegration>(op: SmartcardOperation, i0: I, i1: I, r: (u32, Option<IoctlReturn>)) -> bool {
    i1 == i0 && exists|h: ScardHandle, res: Result<Vec<u8>, u32>|
        h@ == op_card(op) && #[trigger] i0.get_attrib_answered(h, op.attr_id, res) && get_attrib_post(
            op.attr_id,
            op.attr_len,
            bytes_result(res),
            r,
        )
}

/// STATE: the integration was asked for the status of the card handle, and
/// its answer decided the reply.
pub open spec fn state_done<I: SmartcardIntegration>(op: SmartcardOperation, i0: I, i1: I, r: (u32, Option<IoctlReturn>)) -> bool {
    i1 == i0 && exists|h: ScardHandle, res: Result<ScardStatus, u32>|
        h@ == op_card(op) && #[trigger] i0.status_answered(h, res) && state_post(res, r)
}

/// STATUS: the integration was asked for the status of the card handle, and
/// its answer decided the reply.
pub open spec fn status_done<I: SmartcardIntegration>(
    op: SmartcardOperation,
    unicode: bool,
    i0: I,
    i1: I,
    r: (u32, Option<IoctlReturn>),
) -> bool {
    i1 == i0 && exists|h: ScardHandle, res: Result<ScardStatus, u32>|
        h@ == op_card(op) && #[trigger] i0.status_answered(h, res) && status_post(res, unicode, r)
}

/// GET_STATUS_CHANGE on a registered id: that context, the timeout and the
/// call's reader states were handed to the integration, and its answer
/// decided the reply.
pub open spec fn status_change_done<I: SmartcardIntegration>(
    op: SmartcardOperation,
    oc: Map<u64, ContextEntry>,
    unicode: bool,
    i0: I,
    i1: I,
    r: (u32, Option<IoctlReturn>),
) -> bool {
    oc.contains_key(op.h_context) ==> exists|res: Result<Vec<ReaderStateOut>, u32>|
        #[trigger] I::status_change_answered(
            i0,
            i1,
            oc[op.h_context].context,
            spec_status_change_timeout_ms(op.timeout_ms),
            op.reader_states@,
            res,
        ) && get_status_change_post(items_result(res), unicode, r)
}

/// The (pattern, mask) pairs are the call's ATR masks, each cut to its length.
pub open spec fn atr_patterns_of(atrs: Seq<(Vec<u8>, Vec<u8>)>, masks: Seq<AtrMask>) -> bool {
    &&& atrs.len() == masks.len()
    &&& forall|i: int| 0 <= i < atrs.len() ==> (#[trigger] atrs[i].0@, atrs[i].1@) == spec_atr_pattern(masks[i])
}

/// LOCATE_CARDS_BY_ATR on a registered id: that context, the call's ATR
/// patterns and its reader states were handed to the integration, and its
/// answer decided the reply.
pub open spec fn locate_done<I: SmartcardIntegration>(
    op: SmartcardOperation,
    oc: Map<u64, ContextEntry>,
    i0: I,
    i1: I,
    r: (u32, Option<IoctlReturn>),
) -> bool {
    oc.contains_key(op.h_context) ==> exists|atrs: Seq<(Vec<u8>, Vec<u8>)>, res: Result<Vec<LocateCardResult>, u32>|
        atr_patterns_of(atrs, op.atr_masks@) && (#[trigger] I::locate_answered(
            i0,
            i1,
            oc[op.h_context].context,
            atrs,
            op.reader_states@,
            res,
        ) || (res matches Ok(v) && spec_no_atr_matches(op.reader_states@, v@) && i1 == i0))
            && locate_cards_by_atr_post(op.reader_states@, items_result(res), r)
}

// ---------------------------------------------------------------------------
// Context management
// ---------------------------------------------------------------------------

/// ESTABLISH_CONTEXT answered with `res` by the integration: a new context is
/// registered and returned as 8 little-endian bytes; an error is passed on.
pub open spec fn establish_context_post(
    old_contexts: Map<u64, ContextEntry>,
    new_contexts: Map<u64, ContextEntry>,
    res: Result<ScardContext, u32>,
    r: (u32, Option<IoctlReturn>),
) -> bool {
    match res {
        Ok(ctx) => {
            &&& r.0 == SCARD_S_SUCCESS
            &&& r.1 matches Some(IoctlReturn::EstablishContext { context }) && context@ == spec_u64_to_le_bytes(ctx@)
            &&& new_contexts == old_contexts.insert(ctx@, ContextEntry { context: ctx })
        },
        Err(code) => spec_bare(r, code) && new_contexts == old_contexts,
    }
}

fn handle_establish_context<I: SmartcardIntegration>(
    integration: &mut I,
    contexts: &mut ContextMap,
    operation: &SmartcardOperation,
) -> (r: (u32, Option<IoctlReturn>))
    ensures
        exists|res: Result<ScardContext, u32>| #[trigger] establish_context_post(old(contexts)@, final(contexts)@, res, r),
        establish_done(*operation, old(contexts)@, final(contexts)@, *old(integration), *final(integration), r),
{
    let res = integration.establish_context(operation.scope);
    let r = establish_context_answer(res, contexts);
    r
}

/// The answer to ESTABLISH_CONTEXT once the integration answered `res`:
/// a new context is registered and returned.
pub fn establish_context_answer(res: Result<ScardContext, u32>, contexts: &mut ContextMap) -> (r: (
    u32,
    Option<IoctlReturn>,
))
    ensures
        establish_context_post(old(contexts)@, final(contexts)@, res, r),
{
    match res {
        Ok(ctx) => {
            let ctx_id = ctx.raw();
            contexts.insert(ctx_id, ContextEntry { context: ctx });
            (SCARD_S_SUCCESS, Some(IoctlReturn::EstablishContext { context: handle_bytes(ctx_id) }))
        },
        Err(code) => (code, None),
    }
}

/// RELEASE_CONTEXT: an unknown context is SCARD_E_INVALID_HANDLE; a known one
/// leaves the registry whatever the integration answers, and its answer is
/// passed on.
pub open spec fn release_context_post(
    h_context: u64,
    old_contexts: Map<u64, ContextEntry>,
    new_contexts: Map<u64, ContextEntry>,
    res: Result<(), u32>,
    r: (u32, Option<IoctlReturn>),
) -> bool {
    if old_contexts.contains_key(h_context) {
        spec_bare(r, spec_unit_code(res)) && new_contexts == old_contexts.remove(h_context)
    } else {
        spec_bare(r, SCARD_E_INVALID_HANDLE) && new_contexts == old_contexts
    }
}

fn handle_release_context<I: SmartcardIntegration>(
    integration: &mut I,
    contexts: &mut ContextMap,
    operation: &SmartcardOperation,
) -> (r: (u32, Option<IoctlReturn>))
    ensures
        exists|res: Result<(), u32>| #[trigger] release_context_post(operation.h_context, old(contexts)@, final(contexts)@, res, r),
        !old(contexts)@.contains_key(operation.h_context) ==> *final(integration) == *old(integration),
        release_done(*operation, old(contexts)@, final(contexts)@, *old(integration), *final(integration), r),
{
    let ctx_id = operation.h_context;
    match contexts.remove(&ctx_id) {
        Some(entry) => {
            let res = integration.release_context(&entry.context);
            let r = unit_answer(res);
            assert(release_context_post(ctx_id, old(contexts)@, contexts@, res, r));
            r
        },
        None => {
            let r = (SCARD_E_INVALID_HANDLE, None);
            assert(contexts@ =~= old(contexts)@);
            assert(release_context_post(ctx_id, old(contexts)@, contexts@, Ok(()), r));
            r
        },
    }
}

/// IS_VALID_CONTEXT: success exactly for a registered context.
pub open spec fn is_valid_context_post(h_context: u64, contexts: Map<u64, ContextEntry>, r: (u32, Option<IoctlReturn>)) -> bool {
    spec_bare(r, if contexts.contains_key(h_context) { SCARD_S_SUCCESS } else { SCARD_E_INVALID_HANDLE })
}

fn handle_is_valid_context(contexts: &ContextMap, operation: &SmartcardOperation) -> (r: (u32, Option<IoctlReturn>))
    ensures
        is_valid_context_post(operation.h_context, contexts@, r),
{
    let ctx_id = operation.h_context;
    if contexts.contains_key(&ctx_id) {
        (SCARD_S_SUCCESS, None)
    } else {
        (SCARD_E_INVALID_HANDLE, None)
    }
}

/// A call that needs a registered context and answers with no body: an
/// unknown context is SCARD_E_INVALID_HANDLE, otherwise the integration's
/// answer is passed on.
pub open spec fn context_unit_post(
    h_context: u64,
    contexts: Map<u64, ContextEntry>,
    res: Result<(), u32>,
    r: (u32, Option<IoctlReturn>),
) -> bool {
    if contexts.contains_key(h_context) {
        spec_bare(r, spec_unit_code(res))
    } else {
        spec_bare(r, SCARD_E_INVALID_HANDLE)
    }
}

fn handle_cancel<I: SmartcardIntegration>(
    integration: &mut I,
    contexts: &ContextMap,
    operation: &SmartcardOperation,
) -> (r: (u32, Option<IoctlReturn>))
    ensures
        exists|res: Result<(), u32>| #[trigger] context_unit_post(operation.h_context, contexts@, res, r),
        !contexts@.contains_key(operation.h_context) ==> *final(integration) == *old(integration),
        cancel_done(*operation, contexts@, *old(integration), *final(integration), r),
{
    let ctx_id = operation.h_context;
    match contexts.get(&ctx_id) {
        Some(entry) => {
            let res = integration.cancel(&entry.context);
            let r = unit_answer(res);
            assert(context_unit_post(ctx_id, contexts@, res, r));
            r
        },
        None => {
            let r = (SCARD_E_INVALID_HANDLE, None);
            assert(context_unit_post(ctx_id, contexts@, Ok(()), r));
            r
        },
    }
}

fn handle_access_started_event(_operation: &SmartcardOperation) -> (r: (u32, Option<IoctlReturn>))
    ensures
        spec_bare(r, SCARD_S_SUCCESS),
{
    (SCARD_S_SUCCESS, None)
}

fn handle_release_started_event(_operation: &SmartcardOperation) -> (r: (u32, Option<IoctlReturn>))
    ensures
        spec_bare(r, SCARD_S_SUCCESS),
{
    (SCARD_S_SUCCESS, None)
}

/// The context a call on `h_context` hands to the integration: the one
/// registered under that id, if any (none: the call is rejected).
pub fn lookup_context(contexts: &ContextMap, h_context: u64) -> (r: Option<ScardContext>)
    ensures
        match r {
            Some(ctx) => contexts@.contains_key(h_context) && contexts@[h_context].context == ctx,
            None => !contexts@.contains_key(h_context),
        },
{
    match contexts.get(&h_context) {
        Some(entry) => Some(entry.context),
        None => None,
    }
}

// ---------------------------------------------------------------------------
// Reader discovery
// ---------------------------------------------------------------------------

/// The IOCTL lists reader groups rather than readers.
pub open spec fn is_list_groups(ioctl: u32) -> bool {
    ioctl == SCARD_IOCTL_LISTREADERGROUPSA || ioctl == SCARD_IOCTL_LISTREADERGROUPSW
}

/// A multi-string of `names`, wide or narrow.
pub open spec fn spec_multi_string(names: Seq<Seq<char>>, unicode: bool) -> Seq<u8> {
    if unicode {
        spec_multi_string_utf16(names)
    } else {
        spec_multi_string_ascii(names)
    }
}

/// LIST_READERS / LIST_READER_GROUPS answered with `res`: no readers is
/// SCARD_E_NO_READERS_AVAILABLE; otherwise the names as a multi-string.
pub open spec fn list_readers_post(res: Result<Seq<Seq<char>>, u32>, unicode: bool, groups: bool, r: (u32, Option<IoctlReturn>)) -> bool {
    match res {
        Ok(names) => if names.len() == 0 {
            spec_bare(r, SCARD_E_NO_READERS_AVAILABLE)
        } else {
            &&& r.0 == SCARD_S_SUCCESS
            &&& r.1 matches Some(IoctlReturn::ListReaders { msz, unicode: u, groups: g }) && msz@ == spec_multi_string(
                names,
                unicode,
            ) && u == unicode && g == groups
        },
        Err(code) => spec_bare(r, code),
    }
}

fn build_multi_string(names: &[String], unicode: bool) -> (r: Vec<u8>)
    ensures
        r@ == spec_multi_string(string_views(names@), unicode),
{
    if unicode {
        build_multi_string_utf16(names)
    } else {
        build_multi_string_ascii(names)
    }
}

fn handle_list_readers<I: SmartcardIntegration>(
    integration: &mut I,
    contexts: &ContextMap,
    operation: &SmartcardOperation,
    unicode: bool,
) -> (r: (u32, Option<IoctlReturn>))
    ensures
        !contexts@.contains_key(operation.h_context) ==> spec_bare(r, SCARD_E_INVALID_HANDLE),
        contexts@.contains_key(operation.h_context) ==> exists|res: Result<Seq<Seq<char>>, u32>| #[trigger] list_readers_post(
            res,
            unicode,
            is_list_groups(operation.io_control_code),
            r,
        ),
        !contexts@.contains_key(operation.h_context) ==> *final(integration) == *old(integration),
        list_readers_done(*operation, contexts@, unicode, *old(integration), *final(integration), r),
{
    let ioctl = operation.io_control_code;
    let groups = ioctl == SCARD_IOCTL_LISTREADERGROUPSA || ioctl == SCARD_IOCTL_LISTREADERGROUPSW;
    let ctx = match lookup_context(contexts, operation.h_context) {
        Some(ctx) => ctx,
        None => return (SCARD_E_INVALID_HANDLE, None),
    };
    let res = integration.list_readers(&ctx, None);
    let r = list_readers_answer(res, unicode, groups);
    assert(list_readers_post(names_result(res), unicode, is_list_groups(operation.io_control_code), r));
    r
}

/// The answer to LIST_READERS (or LIST_READER_GROUPS, `groups`) once the
/// integration answered `res`.
pub fn list_readers_answer(res: Result<Vec<String>, u32>, unicode: bool, groups: bool) -> (r: (
    u32,
    Option<IoctlReturn>,
))
    ensures
        list_readers_post(names_result(res), unicode, groups, r),
{
    match res {
        Ok(readers) => {
            if readers.len() == 0 {
                return (SCARD_E_NO_READERS_AVAILABLE, None);
            }
            let msz = build_multi_string(readers.as_slice(), unicode);
            (SCARD_S_SUCCESS, Some(IoctlReturn::ListReaders { msz, unicode, groups }))
        },
        Err(code) => (code, None),
    }
}

// ---------------------------------------------------------------------------
// Card connection
// ---------------------------------------------------------------------------

/// CONNECT answered with `res`: the context and the new card handle, each as
/// 8 little-endian bytes, and the negotiated protocol.
pub open spec fn connect_post(h_context: u64, res: Result<ConnectResult, u32>, r: (u32, Option<IoctlReturn>)) -> bool {
    match res {
        Ok(cr) => {
            &&& r.0 == SCARD_S_SUCCESS
            &&& r.1 matches Some(IoctlReturn::Connect { context, handle, active_protocol }) && context@
                == spec_u64_to_le_bytes(h_context) && handle@ == spec_u64_to_le_bytes(cr.handle@.0)
                && active_protocol == cr.active_protocol
        },
        Err(code) => spec_bare(r, code),
    }
}

fn handle_connect<I: SmartcardIntegration>(
    integration: &mut I,
    contexts: &ContextMap,
    operation: &SmartcardOperation,
) -> (r: (u32, Option<IoctlReturn>))
    ensures
        !contexts@.contains_key(operation.h_context) ==> spec_bare(r, SCARD_E_INVALID_HANDLE),
        contexts@.contains_key(operation.h_context) ==> exists|res: Result<ConnectResult, u32>| #[trigger] connect_post(operation.h_context, res, r),
        !contexts@.contains_key(operation.h_context) ==> *final(integration) == *old(integration),
        connect_done(*operation, contexts@, *old(integration), *final(integration), r),
{
    let ctx_id = operation.h_context;
    let req = match connect_request(contexts, operation) {
        Some(req) => req,
        None => return (SCARD_E_INVALID_HANDLE, None),
    };
    let res = integration.connect(&req.context, req.reader.as_str(), req.share_mode, req.preferred_protocols);
    connect_answer(ctx_id, res)
}

/// What CONNECT hands to the integration.
#[derive(Debug, Clone)]
pub struct ConnectRequest {
    pub context: ScardContext,
    pub reader: String,
    pub share_mode: u32,
    pub preferred_protocols: u32,
}

/// CONNECT hands over the context registered under the call's id, and the
/// call's reader name, share mode and preferred protocols.
pub open spec fn spec_connect_request(contexts: Map<u64, ContextEntry>, op: SmartcardOperation, q: ConnectRequest) -> bool {
    &&& q.context == contexts[op.h_context].context
    &&& q.reader@ == op.reader@
    &&& q.share_mode == op.share_mode
    &&& q.preferred_protocols == op.preferred_protocols
}

/// What CONNECT hands to the integration; none when the call's context is
/// not registered.
pub fn connect_request(contexts: &ContextMap, operation: &SmartcardOperation) -> (q: Option<ConnectRequest>)
    ensures
        q is Some <==> contexts@.contains_key(operation.h_context),
        q matches Some(q) ==> spec_connect_request(contexts@, *operation, q),
{
    match lookup_context(contexts, operation.h_context) {
        Some(ctx) => Some(
            ConnectRequest {
                context: ctx,
                reader: operation.reader.clone(),
                share_mode: operation.share_mode,
                preferred_protocols: operation.preferred_protocols,
            },
        ),
        None => None,
    }
}

/// The answer to CONNECT on context `h_context` once the integration
/// answered `res`.
pub fn connect_answer(h_context: u64, res: Result<ConnectResult, u32>) -> (r: (u32, Option<IoctlReturn>))
    ensures
        connect_post(h_context, res, r),
{
    match &res {
        Ok(result) => (
            SCARD_S_SUCCESS,
            Some(
                IoctlReturn::Connect {
                    context: handle_bytes(h_context),
                    handle: handle_bytes(result.handle.raw()),
                    active_protocol: result.active_protocol,
                },
            ),
        ),
        Err(code) => (*code, None),
    }
}

/// RECONNECT answered with `res`: the new active protocol.
pub open spec fn reconnect_post(res: Result<u32, u32>, r: (u32, Option<IoctlReturn>)) -> bool {
    match res {
        Ok(p) => r.0 == SCARD_S_SUCCESS && r.1 == Some(IoctlReturn::Reconnect { active_protocol: p }),
        Err(code) => spec_bare(r, code),
    }
}

fn handle_reconnect<I: SmartcardIntegration>(integration: &mut I, operation: &SmartcardOperation) -> (r: (
    u32,
    Option<IoctlReturn>,
))
    ensures
        exists|res: Result<u32, u32>| #[trigger] reconnect_post(res, r),
        reconnect_done(*operation, *old(integration), *final(integration), r),
{
    let card_handle = get_card_handle(&operation.h_card);
    let res = integration.reconnect(
        &card_handle,
        operation.share_mode,
        operation.preferred_protocols,
        operation.initialization,
    );
    reconnect_answer(res)
}

/// The answer to RECONNECT once the integration answered `res`.
pub fn reconnect_answer(res: Result<u32, u32>) -> (r: (u32, Option<IoctlReturn>))
    ensures
        reconnect_post(res, r),
{
    match res {
        Ok(active_protocol) => (SCARD_S_SUCCESS, Some(IoctlReturn::Reconnect { active_protocol })),
        Err(code) => (code, None),
    }
}

/// A call on a card that answers with no body: the integration's answer.
pub open spec fn card_unit_post(res: Result<(), u32>, r: (u32, Option<IoctlReturn>)) -> bool {
    spec_bare(r, spec_unit_code(res))
}

fn handle_disconnect<I: SmartcardIntegration>(integration: &mut I, operation: &SmartcardOperation) -> (r: (
    u32,
    Option<IoctlReturn>,
))
    ensures
        exists|res: Result<(), u32>| #[trigger] card_unit_post(res, r),
        disconnect_done(*operation, *old(integration), *final(integration), r),
{
    let card_handle = get_card_handle(&operation.h_card);
    let res = integration.disconnect(&card_handle, operation.disposition);
    let r = unit_answer(res);
    assert(card_unit_post(res, r));
    r
}

fn handle_begin_transaction<I: SmartcardIntegration>(integration: &mut I, operation: &SmartcardOperation) -> (r: (
    u32,
    Option<IoctlReturn>,
))
    ensures
        exists|res: Result<(), u32>| #[trigger] card_unit_post(res, r),
        begin_transaction_done(*operation, *old(integration), *final(integration), r),
{
    let card_handle = get_card_handle(&operation.h_card);
    let res = integration.begin_transaction(&card_handle);
    let r = unit_answer(res);
    assert(card_unit_post(res, r));
    r
}

fn handle_end_transaction<I: SmartcardIntegration>(integration: &mut I, operation: &SmartcardOperation) -> (r: (
    u32,
    Option<IoctlReturn>,
))
    ensures
        exists|res: Result<(), u32>| #[trigger] card_unit_post(res, r),
        end_transaction_done(*operation, *old(integration), *final(integration), r),
{
    let card_handle = get_card_handle(&operation.h_card);
    let res = integration.end_transaction(&card_handle, operation.disposition);
    let r = unit_answer(res);
    assert(card_unit_post(res, r));
    r
}

fn handle_set_attrib<I: SmartcardIntegration>(integration: &mut I, operation: &SmartcardOperation) -> (r: (
    u32,
    Option<IoctlReturn>,
))
    ensures
        exists|res: Result<(), u32>| #[trigger] card_unit_post(res, r),
        set_attrib_done(*operation, *old(integration), *final(integration), r),
{
    let card_handle = get_card_handle(&operation.h_card);
    let res = integration.set_attrib(&card_handle, operation.attr_id, operation.attr.as_slice());
    let r = unit_answer(res);
    assert(card_unit_post(res, r));
    r
}

// ---------------------------------------------------------------------------
// Status
// ---------------------------------------------------------------------------

/// `n` capped at `cap`.
pub open spec fn spec_min(n: nat, cap: nat) -> nat {
    if n < cap { n } else { cap }
}

/// STATE answered with `res`: the card's state and protocol, and its ATR cut
/// (or zero-padded) to 36 bytes.
pub open spec fn state_post(res: Result<ScardStatus, u32>, r: (u32, Option<IoctlReturn>)) -> bool {
    match res {
        Ok(st) => {
            &&& r.0 == SCARD_S_SUCCESS
            &&& r.1 matches Some(IoctlReturn::State { state, protocol, atr_len, atr }) && state == st.state
                && protocol == st.protocol && atr_len == spec_min(st.atr@.len(), 36) && atr@ == spec_fit(
                st.atr@,
                36,
            )
        },
        Err(code) => spec_bare(r, code),
    }
}

fn handle_state<I: SmartcardIntegration>(integration: &mut I, operation: &SmartcardOperation) -> (r: (
    u32,
    Option<IoctlReturn>,
))
    ensures
        exists|res: Result<ScardStatus, u32>| #[trigger] state_post(res, r),
        state_done(*operation, *old(integration), *final(integration), r),
{
    let card_handle = get_card_handle(&operation.h_card);
    let res = integration.status(&card_handle);
    state_answer(res)
}

/// The answer to STATE once the integration's status call answered `res`.
pub fn state_answer(res: Result<ScardStatus, u32>) -> (r: (u32, Option<IoctlReturn>))
    ensures
        state_post(res, r),
{
    match &res {
        Ok(status_info) => {
            let atr_len = if status_info.atr.len() < 36 { status_info.atr.len() } else { 36 };
            (
                SCARD_S_SUCCESS,
                Some(
                    IoctlReturn::State {
                        state: status_info.state,
                        protocol: status_info.protocol,
                        atr_len: atr_len as u32,
                        atr: fit_bytes(status_info.atr.as_slice(), 36),
                    },
                ),
            )
        },
        Err(code) => (*code, None),
    }
}

/// STATUS answered with `res`: the reader names as a multi-string, the
/// card's state and protocol, and its ATR cut (or zero-padded) to 32 bytes.
pub open spec fn status_post(res: Result<ScardStatus, u32>, unicode: bool, r: (u32, Option<IoctlReturn>)) -> bool {
    match res {
        Ok(st) => {
            &&& r.0 == SCARD_S_SUCCESS
            &&& r.1 matches Some(
                IoctlReturn::Status { reader_names, state, protocol, atr_len, atr, unicode: u },
            ) && reader_names@ == spec_multi_string(string_views(st.reader_names@), unicode) && state == st.state
                && protocol == st.protocol && atr_len == spec_min(st.atr@.len(), 32) && atr@ == spec_fit(
                st.atr@,
                32,
            ) && u == unicode
        },
        Err(code) => spec_bare(r, code),
    }
}

fn handle_status<I: SmartcardIntegration>(integration: &mut I, operation: &SmartcardOperation, unicode: bool) -> (r: (
    u32,
    Option<IoctlReturn>,
))
    ensures
        exists|res: Result<ScardStatus, u32>| #[trigger] status_post(res, unicode, r),
        status_done(*operation, unicode, *old(integration), *final(integration), r),
{
    let card_handle = get_card_handle(&operation.h_card);
    let res = integration.status(&card_handle);
    status_answer(res, unicode)
}

/// The answer to STATUS once the integration answered `res`.
pub fn status_answer(res: Result<ScardStatus, u32>, unicode: bool) -> (r: (u32, Option<IoctlReturn>))
    ensures
        status_post(res, unicode, r),
{
    let r = match &res {
        Ok(status_info) => {
            let atr_len = if status_info.atr.len() < 32 { status_info.atr.len() } else { 32 };
            (
                SCARD_S_SUCCESS,
                Some(
                    IoctlReturn::Status {
                        reader_names: build_multi_string(status_info.reader_names.as_slice(), unicode),
                        state: status_info.state,
                        protocol: status_info.protocol,
                        atr_len: atr_len as u32,
                        atr: fit_bytes(status_info.atr.as_slice(), 32),
                        unicode,
                    },
                ),
            )
        },
        Err(code) => (*code, None),
    };
    assert(status_post(res, unicode, r));
    r
}

// ---------------------------------------------------------------------------
// Control and attributes
// ---------------------------------------------------------------------------

/// CONTROL answered with `res`: the reader's output buffer.
pub open spec fn control_post(res: Result<Seq<u8>, u32>, r: (u32, Option<IoctlReturn>)) -> bool {
    match res {
        Ok(out) => {
            &&& r.0 == SCARD_S_SUCCESS
            &&& r.1 matches Some(IoctlReturn::Control { out_buffer }) && out_buffer@ == out
        },
        Err(code) => spec_bare(r, code),
    }
}

fn handle_control<I: SmartcardIntegration>(integration: &mut I, operation: &SmartcardOperation) -> (r: (
    u32,
    Option<IoctlReturn>,
))
    ensures
        exists|res: Result<Seq<u8>, u32>| #[trigger] control_post(res, r),
        control_done(*operation, *old(integration), *final(integration), r),
{
    let card_handle = get_card_handle(&operation.h_card);
    let res = integration.control(&card_handle, operation.control_code, operation.in_buffer.as_slice());
    control_answer(res)
}

/// The answer to CONTROL once the integration answered `res`.
pub fn control_answer(res: Result<Vec<u8>, u32>) -> (r: (u32, Option<IoctlReturn>))
    ensures
        control_post(bytes_result(res), r),
{
    match res {
        Ok(out_data) => (SCARD_S_SUCCESS, Some(IoctlReturn::Control { out_buffer: out_data })),
        Err(code) => (code, None),
    }
}

/// GET_ATTRIB answered with `res`: the attribute's value, with the
/// attribute id and the length the caller asked for.
pub open spec fn get_attrib_post(
    attr_id: u32,
    requested_len: u32,
    res: Result<Seq<u8>, u32>,
    r: (u32, Option<IoctlReturn>),
) -> bool {
    match res {
        Ok(value) => {
            &&& r.0 == SCARD_S_SUCCESS
            &&& r.1 matches Some(IoctlReturn::GetAttrib { attr, attr_id: a, requested_len: l }) && attr@ == value
                && a == attr_id && l == requested_len
        },
        Err(code) => spec_bare(r, code),
    }
}

fn handle_get_attrib<I: SmartcardIntegration>(integration: &mut I, operation: &SmartcardOperation) -> (r: (
    u32,
    Option<IoctlReturn>,
))
    ensures
        exists|res: Result<Seq<u8>, u32>| #[trigger] get_attrib_post(operation.attr_id, operation.attr_len, res, r),
        get_attrib_done(*operation, *old(integration), *final(integration), r),
{
    let card_handle = get_card_handle(&operation.h_card);
    let res = integration.get_attrib(&card_handle, operation.attr_id);
    get_attrib_answer(operation.attr_id, operation.attr_len, res)
}

/// The answer to GET_ATTRIB for `attr_id`, of which the caller asked
/// `requested_len` bytes, once the integration answered `res`.
pub fn get_attrib_answer(attr_id: u32, requested_len: u32, res: Result<Vec<u8>, u32>) -> (r: (
    u32,
    Option<IoctlReturn>,
))
    ensures
        get_attrib_post(attr_id, requested_len, bytes_result(res), r),
{
    match res {
        Ok(attr_data) => (SCARD_S_SUCCESS, Some(IoctlReturn::GetAttrib { attr: attr_data, attr_id, requested_len })),
        Err(code) => (code, None),
    }
}

// ---------------------------------------------------------------------------
// Card communication
// ---------------------------------------------------------------------------

/// Most GET RESPONSE rounds chained onto one TRANSMIT: a well-behaved card
/// sends at least one byte per round of a response that cannot exceed
/// SCARD_TRANSMIT_MAX bytes.
pub const MAX_GET_RESPONSE_ROUNDS: usize = SCARD_TRANSMIT_MAX;

/// The response ends with status word `61 XX`: XX more bytes are waiting.
pub open spec fn more_data(buf: Seq<u8>) -> bool {
    buf.len() >= 2 && buf[buf.len() - 2] == 0x61
}

/// The response without its trailing status word.
pub open spec fn strip_status(buf: Seq<u8>) -> Seq<u8> {
    buf.take(buf.len() - 2)
}

/// The GET RESPONSE command that fetches the `sw2` bytes announced by `61 sw2`.
pub open spec fn spec_get_response_apdu(sw2: u8) -> Seq<u8> {
    seq![0x00u8, 0xC0u8, 0x00u8, 0x00u8, sw2]
}

/// The response after GET RESPONSE rounds whose answers were `answers`
/// (`None`: the round failed): each round drops the `61 XX` status word and
/// appends what the card answered.
pub open spec fn spec_chain(first: Seq<u8>, answers: Seq<Option<Seq<u8>>>) -> Seq<u8>
    decreases answers.len(),
{
    if answers.len() == 0 {
        first
    } else {
        let prev = strip_status(spec_chain(first, answers.drop_last()));
        match answers.last() {
            None => prev,
            Some(a) => prev + a,
        }
    }
}

/// Each round was asked for because the response so far announced more
/// data, and only the last round may have failed.
pub open spec fn spec_chain_valid(first: Seq<u8>, answers: Seq<Option<Seq<u8>>>) -> bool {
    &&& forall|i: int| 0 <= i < answers.len() ==> #[trigger] more_data(spec_chain(first, answers.take(i)))
    &&& forall|i: int| 0 <= i < answers.len() - 1 ==> #[trigger] answers[i] is Some
}

/// The chaining stopped because a round failed, the response announces no
/// more data, or the round limit was reached.
pub open spec fn spec_chain_done(first: Seq<u8>, answers: Seq<Option<Seq<u8>>>) -> bool {
    ||| answers.len() > 0 && answers.last() is None
    ||| !more_data(spec_chain(first, answers))
    ||| answers.len() == MAX_GET_RESPONSE_ROUNDS
}

/// The answers of GET RESPONSE rounds, each as a byte sequence (`None`: the
/// round failed).
pub open spec fn answers_view(answers: Seq<Option<Vec<u8>>>) -> Seq<Option<Seq<u8>>> {
    answers.map_values(
        |a: Option<Vec<u8>>|
            match a {
                Some(v) => Some(v@),
                None => None,
            },
    )
}

/// The command of the next GET RESPONSE round: `00 C0 00 00 XX` when the
/// reply so far ends with the status word `61 XX`, none otherwise.
pub fn get_response_command(recv: &[u8]) -> (c: Option<Vec<u8>>)
    ensures
        c is Some <==> more_data(recv@),
        c matches Some(v) ==> v@ == spec_get_response_apdu(recv@.last()),
{
    let n = recv.len();
    if n >= 2 && recv[n - 2] == 0x61 {
        let cmd: Vec<u8> = vec![0x00, 0xC0, 0x00, 0x00, recv[n - 1]];
        assert(cmd@ =~= spec_get_response_apdu(recv@.last()));
        Some(cmd)
    } else {
        None
    }
}

/// `recv` after one GET RESPONSE round answered `answer`: its `61 XX`
/// status word dropped, and what the card answered appended.
pub fn chain_step(recv: &mut Vec<u8>, answer: &Option<Vec<u8>>)
    requires
        old(recv)@.len() >= 2,
    ensures
        final(recv)@ == match *answer {
            Some(a) => strip_status(old(recv)@) + a@,
            None => strip_status(old(recv)@),
        },
{
    let n = recv.len();
    recv.truncate(n - 2);
    match answer {
        Some(a) => recv.extend_from_slice(a.as_slice()),
        None => {},
    }
    assert(recv@ =~= match *answer {
        Some(a) => strip_status(old(recv)@) + a@,
        None => strip_status(old(recv)@),
    });
}

/// What a GET RESPONSE round contributes: the card's reply, or nothing
/// when the round failed.
pub open spec fn round_answer(rk: Result<TransmitResult, u32>) -> Option<Vec<u8>> {
    match rk {
        Ok(t) => Some(t.recv_buffer),
        Err(_) => None,
    }
}

/// The command of GET RESPONSE round `k`: built from the reply as it stood
/// after the first `k` rounds.
pub open spec fn round_command(first: Seq<u8>, answers: Seq<Option<Vec<u8>>>, k: int) -> Seq<u8> {
    spec_get_response_apdu(spec_chain(first, answers_view(answers.take(k))).last())
}

/// One GET RESPONSE round: `cmd` was handed to the integration with the
/// card handle and send PCI, taking it from `s0` to `s1`, and `a` is what
/// its answer contributes.
pub open spec fn round_answered<I: SmartcardIntegration>(
    s0: I,
    s1: I,
    h: ScardHandle,
    pci: ScardIORequest,
    cmd: Seq<u8>,
    a: Option<Vec<u8>>,
) -> bool {
    exists|rk: Result<TransmitResult, u32>| #[trigger] I::transmit_answered(s0, s1, h, pci, cmd, rk) && a == round_answer(rk)
}

/// The GET RESPONSE rounds after the reply `first`: round `k` took the
/// integration from `states[k]` to `states[k + 1]` and gave `answers[k]`.
pub open spec fn rounds_answered<I: SmartcardIntegration>(
    states: Seq<I>,
    h: ScardHandle,
    pci: ScardIORequest,
    first: Seq<u8>,
    answers: Seq<Option<Vec<u8>>>,
) -> bool {
    &&& states.len() == answers.len() + 1
    &&& forall|k: int|
        0 <= k < answers.len() ==> #[trigger] round_answered(
            states[k],
            states[k + 1],
            h,
            pci,
            round_command(first, answers, k),
            answers[k],
        )
}

/// Ask, with GET RESPONSE, for the data each `61 XX` status word announces,
/// on and on from the reply `first`, and return what each round answered.
fn fetch_get_responses<I: SmartcardIntegration>(
    integration: &mut I,
    card_handle: &ScardHandle,
    send_pci: &ScardIORequest,
    first: &[u8],
) -> (res: (Vec<Option<Vec<u8>>>, Ghost<Seq<I>>))
    ensures
        spec_chain_valid(first@, answers_view(res.0@)),
        spec_chain_done(first@, answers_view(res.0@)),
        rounds_answered(res.1@, *card_handle, *send_pci, first@, res.0@),
        res.1@[0] == *old(integration),
        res.1@.last() == *final(integration),
{
    let mut recv = slice_to_vec(first);
    let mut answers: Vec<Option<Vec<u8>>> = Vec::new();
    let ghost mut states: Seq<I> = seq![*integration];
    loop
        invariant_except_break
            answers@.len() <= MAX_GET_RESPONSE_ROUNDS,
            recv@ == spec_chain(first@, answers_view(answers@)),
            spec_chain_valid(first@, answers_view(answers@)),
            forall|i: int| 0 <= i < answers@.len() ==> #[trigger] answers@[i] is Some,
            rounds_answered(states, *card_handle, *send_pci, first@, answers@),
            states[0] == *old(integration),
            states.last() == *integration,
        ensures
            spec_chain_valid(first@, answers_view(answers@)),
            spec_chain_done(first@, answers_view(answers@)),
            rounds_answered(states, *card_handle, *send_pci, first@, answers@),
            states[0] == *old(integration),
            states.last() == *integration,
        decreases MAX_GET_RESPONSE_ROUNDS - answers@.len(),
    {
        if answers.len() >= MAX_GET_RESPONSE_ROUNDS {
            break;
        }
        let cmd = match get_response_command(recv.as_slice()) {
            Some(c) => c,
            None => break,
        };
        let ghost s_before = *integration;
        let reply = integration.transmit(card_handle, send_pci, cmd.as_slice());
        let ghost reply_g = reply;
        let answer = match reply {
            Ok(gr) => Some(gr.recv_buffer),
            Err(_) => None,
        };
        let ghost before = answers_view(answers@);
        let ghost old_answers = answers@;
        let ghost old_states = states;
        chain_step(&mut recv, &answer);
        let failed = answer.is_none();
        answers.push(answer);
        proof {
            states = states.push(*integration);
            let n = old_answers.len() as int;
            assert(answers@.take(n) =~= old_answers);
            assert(answers_view(old_answers.take(n)) =~= answers_view(old_answers));
            assert(round_command(first@, answers@, n) == cmd@);
            assert(I::transmit_answered(s_before, *integration, *card_handle, *send_pci, cmd@, reply_g));
            assert(round_answered(states[n], states[n + 1], *card_handle, *send_pci, cmd@, answers@[n]));
            assert forall|k: int| 0 <= k < answers@.len() implies #[trigger] round_answered(
                states[k],
                states[k + 1],
                *card_handle,
                *send_pci,
                round_command(first@, answers@, k),
                answers@[k],
            ) by {
                if k < n {
                    assert(answers@.take(k) =~= old_answers.take(k));
                    assert(states[k] == old_states[k] && states[k + 1] == old_states[k + 1]);
                    assert(round_command(first@, answers@, k) == round_command(first@, old_answers, k));
                }
            }
            let after = answers_view(answers@);
            assert(after.drop_last() =~= before);
            assert(after.last() == match answers@.last() {
                Some(v) => Some(v@),
                None => None::<Seq<u8>>,
            });
            assert(recv@ =~= spec_chain(first@, after));
            assert forall|i: int| 0 <= i < after.len() implies #[trigger] more_data(spec_chain(first@, after.take(i))) by {
                if i < before.len() {
                    assert(after.take(i) =~= before.take(i));
                } else {
                    assert(after.take(i) =~= before);
                }
            }
            assert forall|i: int| 0 <= i < after.len() - 1 implies #[trigger] after[i] is Some by {
                assert(after[i] == before[i]);
            }
        }
        if failed {
            break;
        }
    }
    (answers, Ghost(states))
}

/// The reply of TRANSMIT's first call, or nothing when it failed.
pub open spec fn first_reply(res: Result<TransmitResult, u32>) -> Seq<u8> {
    match res {
        Ok(t) => t.recv_buffer@,
        Err(_) => Seq::empty(),
    }
}

/// TRANSMIT: the card handle, send PCI and APDU were handed to the
/// integration; then each GET RESPONSE round's command, with the same
/// handle and PCI; and their answers decided the reply.
pub open spec fn transmit_done<I: SmartcardIntegration>(op: SmartcardOperation, i0: I, i1: I, r: (u32, Option<IoctlReturn>)) -> bool {
    exists|
        h: ScardHandle,
        pci: ScardIORequest,
        res: Result<TransmitResult, u32>,
        answers: Seq<Option<Vec<u8>>>,
        states: Seq<I>,
    |
        {
            &&& h@ == op_card(op)
            &&& (pci.protocol, pci.extra_bytes@) == spec_io_request(
                match op.send_pci {
                    Some(b) => Some(b@),
                    None => None,
                },
            )
            &&& #[trigger] I::transmit_answered(i0, states[0], h, pci, op.send_buffer@, res)
            &&& #[trigger] rounds_answered(states, h, pci, first_reply(res), answers)
            &&& states.last() == i1
            &&& transmit_post(res, answers_view(answers), r)
        }
}

/// TRANSMIT's reply once the card answered `res` and the GET RESPONSE
/// rounds answered `answers`: the complete response, each round's `61 XX`
/// replaced by what it fetched, and the card's receive PCI serialized.
pub open spec fn transmit_reply(
    res: Result<TransmitResult, u32>,
    answers: Seq<Option<Seq<u8>>>,
    r: (u32, Option<IoctlReturn>),
) -> bool {
    match res {
        Ok(t) => {
            &&& r.0 == SCARD_S_SUCCESS
            &&& r.1 matches Some(IoctlReturn::Transmit { recv_pci, recv_buffer }) && {
                &&& recv_buffer@ == spec_chain(t.recv_buffer@, answers)
                &&& match t.recv_pci {
                    None => recv_pci is None,
                    Some(p) => recv_pci matches Some(b) && b@ == spec_encode_io_request(p.protocol, p.extra_bytes@),
                }
            }
        },
        Err(code) => spec_bare(r, code),
    }
}

/// TRANSMIT answered with `res`, then chained over GET RESPONSE rounds
/// answered with `answers`, each asked for because the response announced
/// more data, until a round failed, no more data was announced, or the
/// round limit was reached.
pub open spec fn transmit_post(
    res: Result<TransmitResult, u32>,
    answers: Seq<Option<Seq<u8>>>,
    r: (u32, Option<IoctlReturn>),
) -> bool {
    &&& transmit_reply(res, answers, r)
    &&& res matches Ok(t) ==> spec_chain_valid(t.recv_buffer@, answers) && spec_chain_done(t.recv_buffer@, answers)
    &&& res is Err ==> answers.len() == 0
}

/// The reply to TRANSMIT once the card answered `res` and the GET RESPONSE
/// rounds (asked for because the response announced more data, all but the
/// last successful) answered `answers`.
pub fn transmit_answer(res: Result<TransmitResult, u32>, answers: &[Option<Vec<u8>>]) -> (r: (u32, Option<IoctlReturn>))
    requires
        res matches Ok(t) ==> spec_chain_valid(t.recv_buffer@, answers_view(answers@)),
    ensures
        transmit_reply(res, answers_view(answers@), r),
{
    match res {
        Ok(result) => {
            let TransmitResult { recv_pci, recv_buffer } = result;
            let ghost first = recv_buffer@;
            let mut recv = recv_buffer;
            let mut i: usize = 0;
            while i < answers.len()
                invariant
                    i <= answers@.len(),
                    spec_chain_valid(first, answers_view(answers@)),
                    recv@ == spec_chain(first, answers_view(answers@).take(i as int)),
                decreases answers@.len() - i,
            {
                let ghost av = answers_view(answers@);
                proof {
                    assert(more_data(spec_chain(first, av.take(i as int))));
                }
                chain_step(&mut recv, &answers[i]);
                proof {
                    assert(av.take(i + 1).drop_last() =~= av.take(i as int));
                    assert(av.take(i + 1).last() == av[i as int]);
                }
                i = i + 1;
                assert(recv@ =~= spec_chain(first, av.take(i as int)));
            }
            assert(answers_view(answers@).take(answers@.len() as int) =~= answers_view(answers@));
            let pio_recv_pci = match &recv_pci {
                Some(p) => Some(encode_io_request(p)),
                None => None,
            };
            (SCARD_S_SUCCESS, Some(IoctlReturn::Transmit { recv_pci: pio_recv_pci, recv_buffer: recv }))
        },
        Err(code) => (code, None),
    }
}

/// The reply is the complete response: when no round failed and fewer than
/// `MAX_GET_RESPONSE_ROUNDS` rounds were needed, it no longer announces more
/// data behind a `61 XX` status word.
pub proof fn lemma_transmit_reply_complete(
    res: Result<TransmitResult, u32>,
    answers: Seq<Option<Seq<u8>>>,
    r: (u32, Option<IoctlReturn>),
)
    requires
        transmit_post(res, answers, r),
        res is Ok,
        answers.len() < MAX_GET_RESPONSE_ROUNDS,
        forall|i: int| 0 <= i < answers.len() ==> #[trigger] answers[i] is Some,
    ensures
        r.1 matches Some(IoctlReturn::Transmit { recv_buffer, .. }) && !more_data(recv_buffer@),
{
    if answers.len() > 0 {
        assert(answers[answers.len() - 1] is Some);
    }
}

/// What TRANSMIT hands to the integration besides the command APDU (the
/// call's send buffer), and again with each GET RESPONSE command.
#[derive(Debug, Clone)]
pub struct TransmitRequest {
    pub handle: ScardHandle,
    pub send_pci: ScardIORequest,
}

/// What TRANSMIT hands to the integration besides the command APDU: the
/// card handle decoded from `pbHandle`, and the send PCI decoded (T=0
/// without extra bytes when absent).
pub fn transmit_request(operation: &SmartcardOperation) -> (q: TransmitRequest)
    requires
        operation.wf(),
    ensures
        q.handle@ == (spec_u64_from_le_bytes(operation.h_card@), 0u32),
        (q.send_pci.protocol, q.send_pci.extra_bytes@) == spec_io_request(
            match operation.send_pci {
                Some(b) => Some(b@),
                None => None,
            },
        ),
{
    let handle = get_card_handle(&operation.h_card);
    let send_pci = match &operation.send_pci {
        Some(b) => get_io_request(Some(b.as_slice())),
        None => get_io_request(None),
    };
    TransmitRequest { handle, send_pci }
}

fn handle_transmit<I: SmartcardIntegration>(integration: &mut I, operation: &SmartcardOperation) -> (r: (
    u32,
    Option<IoctlReturn>,
))
    requires
        operation.wf(),
    ensures
        exists|res: Result<TransmitResult, u32>, answers: Seq<Option<Seq<u8>>>| #[trigger] transmit_post(res, answers, r),
        transmit_done(*operation, *old(integration), *final(integration), r),
{
    let req = transmit_request(operation);
    let card_handle = req.handle;
    let send_pci = req.send_pci;
    let res = integration.transmit(&card_handle, &send_pci, operation.send_buffer.as_slice());
    let ghost res_g = res;
    let (answers, states) = match &res {
        Ok(result) => fetch_get_responses(integration, &card_handle, &send_pci, result.recv_buffer.as_slice()),
        Err(_) => {
            let none: Vec<Option<Vec<u8>>> = Vec::new();
            let ghost st: Seq<I> = seq![*integration];
            let states: Ghost<Seq<I>> = Ghost(st);
            (none, states)
        },
    };
    let ghost av = answers_view(answers@);
    let r = transmit_answer(res, answers.as_slice());
    assert(transmit_post(res_g, av, r));
    proof {
        assert(rounds_answered(states@, card_handle, send_pci, first_reply(res_g), answers@));
        assert(I::transmit_answered(*old(integration), states@[0], card_handle, send_pci, operation.send_buffer@, res_g));
    }
    r
}

// ---------------------------------------------------------------------------
// Reader state
// ---------------------------------------------------------------------------

/// The timeout handed to the integration: `0xFFFFFFFF` (INFINITE) waits a
/// day; any other value is that many milliseconds.
pub open spec fn spec_status_change_timeout_ms(timeout_ms: u32) -> u64 {
    if timeout_ms == 0xFFFF_FFFF { 86_400_000 } else { timeout_ms as u64 }
}

/// The timeout, in milliseconds, that GET_STATUS_CHANGE waits for.
pub fn status_change_timeout_ms(timeout_ms: u32) -> (r: u64)
    ensures
        r == spec_status_change_timeout_ms(timeout_ms),
{
    if timeout_ms == 0xFFFF_FFFF {
        3600 * 24 * 1000
    } else {
        timeout_ms as u64
    }
}

/// GET_STATUS_CHANGE answered with `res`: each returned state packed for the wire.
pub open spec fn get_status_change_post(res: Result<Seq<ReaderStateOut>, u32>, unicode: bool, r: (u32, Option<IoctlReturn>)) -> bool {
    match res {
        Ok(states) => {
            &&& r.0 == SCARD_S_SUCCESS
            &&& r.1 matches Some(IoctlReturn::GetStatusChange { states: packed, unicode: u }) && u == unicode
                && packed@.len() == states.len() && forall|i: int|
                0 <= i < states.len() ==> spec_pack_reader_state(states[i], #[trigger] packed@[i])
        },
        Err(code) => spec_bare(r, code),
    }
}

fn handle_get_status_change<I: SmartcardIntegration>(
    integration: &mut I,
    contexts: &ContextMap,
    operation: &SmartcardOperation,
    unicode: bool,
) -> (r: (u32, Option<IoctlReturn>))
    ensures
        !contexts@.contains_key(operation.h_context) ==> spec_bare(r, SCARD_E_INVALID_HANDLE),
        contexts@.contains_key(operation.h_context) ==> exists|res: Result<Seq<ReaderStateOut>, u32>| #[trigger] get_status_change_post(res, unicode, r),
        !contexts@.contains_key(operation.h_context) ==> *final(integration) == *old(integration),
        status_change_done(*operation, contexts@, unicode, *old(integration), *final(integration), r),
{
    let req = match status_change_request(contexts, operation) {
        Some(req) => req,
        None => return (SCARD_E_INVALID_HANDLE, None),
    };
    let res = integration.get_status_change(&req.context, req.timeout_ms, operation.reader_states.as_slice());
    get_status_change_answer(res, unicode)
}

/// What GET_STATUS_CHANGE hands to the integration besides the call's
/// reader states, in order.
#[derive(Debug, Clone, Copy)]
pub struct StatusChangeRequest {
    pub context: ScardContext,
    pub timeout_ms: u64,
}

/// What GET_STATUS_CHANGE hands to the integration besides the call's reader
/// states: the registered context and the timeout (INFINITE: a day); none
/// when the call's context is not registered.
pub fn status_change_request(contexts: &ContextMap, operation: &SmartcardOperation) -> (q: Option<StatusChangeRequest>)
    ensures
        q is Some <==> contexts@.contains_key(operation.h_context),
        q matches Some(q) ==> q.context == contexts@[operation.h_context].context && q.timeout_ms
            == spec_status_change_timeout_ms(operation.timeout_ms),
{
    match lookup_context(contexts, operation.h_context) {
        Some(ctx) => Some(StatusChangeRequest { context: ctx, timeout_ms: status_change_timeout_ms(operation.timeout_ms) }),
        None => None,
    }
}

/// The answer to GET_STATUS_CHANGE once the integration answered `res`.
pub fn get_status_change_answer(res: Result<Vec<ReaderStateOut>, u32>, unicode: bool) -> (r: (
    u32,
    Option<IoctlReturn>,
))
    ensures
        get_status_change_post(items_result(res), unicode, r),
{
    match res {
        Ok(result_states) => {
            let returned_states = pack_reader_states_out(result_states.as_slice());
            (SCARD_S_SUCCESS, Some(IoctlReturn::GetStatusChange { states: returned_states, unicode }))
        },
        Err(code) => (code, None),
    }
}

fn handle_locate_cards(_operation: &SmartcardOperation, _unicode: bool) -> (r: (u32, Option<IoctlReturn>))
    ensures
        spec_bare(r, SCARD_E_UNSUPPORTED_FEATURE),
{
    (SCARD_E_UNSUPPORTED_FEATURE, None)
}

/// The state the caller reported for the first watched reader named `name`,
/// or 0 when it watched no such reader.
pub open spec fn spec_reported_state(states: Seq<ReaderStateIn>, name: Seq<char>) -> u32 {
    if exists|j: int| 0 <= j < states.len() && #[trigger] states[j].reader_name@ == name {
        states[choose|j: int|
            0 <= j < states.len() && states[j].reader_name@ == name && forall|k: int|
                0 <= k < j ==> #[trigger] states[k].reader_name@ != name].current_state
    } else {
        0
    }
}

fn reported_state(states: &[ReaderStateIn], name: &String) -> (r: u32)
    ensures
        r == spec_reported_state(states@, name@),
{
    let mut j: usize = 0;
    while j < states.len()
        invariant
            j <= states@.len(),
            forall|k: int| 0 <= k < j ==> #[trigger] states@[k].reader_name@ != name@,
        decreases states@.len() - j,
    {
        if states[j].reader_name == *name {
            proof {
                let c = choose|c: int|
                    0 <= c < states@.len() && states@[c].reader_name@ == name@ && forall|k: int|
                        0 <= k < c ==> #[trigger] states@[k].reader_name@ != name@;
                assert(c == j as int) by {
                    if c < j as int {
                        assert(states@[c].reader_name@ != name@);
                    } else if c > j as int {
                        assert(states@[j as int].reader_name@ != name@);
                    }
                }
            }
            return states[j].current_state;
        }
        j = j + 1;
    }
    0
}

/// The wire form of one LOCATE_CARDS_BY_ATR result: the caller's state for
/// that reader, the event state with ATRMATCH raised on a match, no ATR.
pub open spec fn spec_locate_state(states_in: Seq<ReaderStateIn>, res: LocateCardResult, r: ReaderStateReturn) -> bool {
    &&& r.current_state == spec_reported_state(states_in, res.reader_name@)
    &&& r.event_state == (if res.atr_match { res.event_state | SCARD_STATE_ATRMATCH } else { res.event_state })
    &&& r.atr_len == 0
    &&& r.atr@ == zeros(36)
}

/// LOCATE_CARDS_BY_ATR answered with `res`: each result packed for the wire.
pub open spec fn locate_cards_by_atr_post(
    states_in: Seq<ReaderStateIn>,
    res: Result<Seq<LocateCardResult>, u32>,
    r: (u32, Option<IoctlReturn>),
) -> bool {
    match res {
        Ok(results) => {
            &&& r.0 == SCARD_S_SUCCESS
            &&& r.1 matches Some(IoctlReturn::LocateCards { states }) && states@.len() == results.len() && forall|
                i: int,
            | 0 <= i < results.len() ==> spec_locate_state(states_in, results[i], #[trigger] states@[i])
        },
        Err(code) => spec_bare(r, code),
    }
}

fn handle_locate_cards_by_atr<I: SmartcardIntegration>(
    integration: &mut I,
    contexts: &ContextMap,
    operation: &SmartcardOperation,
) -> (r: (u32, Option<IoctlReturn>))
    requires
        operation.wf(),
    ensures
        !contexts@.contains_key(operation.h_context) ==> spec_bare(r, SCARD_E_INVALID_HANDLE),
        contexts@.contains_key(operation.h_context) ==> exists|res: Result<Seq<LocateCardResult>, u32>| #[trigger] locate_cards_by_atr_post(
            operation.reader_states@,
            res,
            r,
        ),
        !contexts@.contains_key(operation.h_context) ==> *final(integration) == *old(integration),
        locate_done(*operation, contexts@, *old(integration), *final(integration), r),
{
    let req = match locate_request(contexts, operation) {
        Some(req) => req,
        None => return (SCARD_E_INVALID_HANDLE, None),
    };
    let states_in = &operation.reader_states;
    let res = integration.locate_cards_by_atr(&req.context, req.atrs.as_slice(), states_in.as_slice());
    locate_cards_by_atr_answer(states_in.as_slice(), res)
}

/// What LOCATE_CARDS_BY_ATR hands to the integration besides the call's
/// reader states, in order.
#[derive(Debug, Clone)]
pub struct LocateRequest {
    pub context: ScardContext,
    /// The (pattern, mask) pairs.
    pub atrs: Vec<(Vec<u8>, Vec<u8>)>,
}

/// What LOCATE_CARDS_BY_ATR hands to the integration besides the call's
/// reader states: the registered context and each ATR mask as a (pattern,
/// mask) pair cut to its length; none when the call's context is not
/// registered.
pub fn locate_request(contexts: &ContextMap, operation: &SmartcardOperation) -> (q: Option<LocateRequest>)
    requires
        operation.wf(),
    ensures
        q is Some <==> contexts@.contains_key(operation.h_context),
        q matches Some(q) ==> {
            &&& q.context == contexts@[operation.h_context].context
            &&& q.atrs@.len() == operation.atr_masks@.len()
            &&& forall|i: int|
                0 <= i < q.atrs@.len() ==> (#[trigger] q.atrs@[i].0@, q.atrs@[i].1@) == spec_atr_pattern(
                    operation.atr_masks@[i],
                )
        },
{
    match lookup_context(contexts, operation.h_context) {
        Some(ctx) => Some(LocateRequest { context: ctx, atrs: get_atr_masks(operation.atr_masks.as_slice()) }),
        None => None,
    }
}

/// The answer to LOCATE_CARDS_BY_ATR over the watched `states_in` once the
/// integration answered `res`.
pub fn locate_cards_by_atr_answer(states_in: &[ReaderStateIn], res: Result<Vec<LocateCardResult>, u32>) -> (r: (
    u32,
    Option<IoctlReturn>,
))
    ensures
        locate_cards_by_atr_post(states_in@, items_result(res), r),
{
    match res {
        Ok(results) => {
            let mut returned: Vec<ReaderStateReturn> = Vec::new();
            let mut i: usize = 0;
            while i < results.len()
                invariant
                    i <= results@.len(),
                    returned@.len() == i,
                    forall|k: int| 0 <= k < i ==> spec_locate_state(states_in@, results@[k], #[trigger] returned@[k]),
                decreases results@.len() - i,
            {
                let res_i = &results[i];
                let mut event_state = res_i.event_state;
                if res_i.atr_match {
                    event_state = event_state | SCARD_STATE_ATRMATCH;
                }
                returned.push(
                    ReaderStateReturn {
                        current_state: reported_state(states_in, &res_i.reader_name),
                        event_state,
                        atr_len: 0,
                        atr: fit_bytes(&[], 36),
                    },
                );
                proof {
                    assert(spec_fit(Seq::<u8>::empty(), 36) =~= zeros(36));
                }
                i = i + 1;
            }
            (SCARD_S_SUCCESS, Some(IoctlReturn::LocateCards { states: returned }))
        },
        Err(code) => (code, None),
    }
}

// ---------------------------------------------------------------------------
// Miscellaneous calls
// ---------------------------------------------------------------------------

fn handle_get_transmit_count(_operation: &SmartcardOperation) -> (r: (u32, Option<IoctlReturn>))
    ensures
        r == (SCARD_S_SUCCESS, Some(IoctlReturn::GetTransmitCount { count: 0 })),
{
    (SCARD_S_SUCCESS, Some(IoctlReturn::GetTransmitCount { count: 0 }))
}

fn handle_get_device_type_id(_operation: &SmartcardOperation) -> (r: (u32, Option<IoctlReturn>))
    ensures
        r == (SCARD_S_SUCCESS, Some(IoctlReturn::DeviceTypeId)),
{
    (SCARD_S_SUCCESS, Some(IoctlReturn::DeviceTypeId))
}

/// WRITE_CACHE: non-empty data is stored under the lookup name; the call
/// always succeeds.
pub open spec fn write_cache_post(
    operation: SmartcardOperation,
    old_items: Map<Seq<u16>, Seq<u8>>,
    new_items: Map<Seq<u16>, Seq<u8>>,
    r: (u32, Option<IoctlReturn>),
) -> bool {
    &&& spec_bare(r, SCARD_S_SUCCESS)
    &&& new_items == if operation.data@.len() == 0 {
        old_items
    } else {
        old_items.insert(operation.lookup_name@, operation.data@)
    }
}

fn copy_u16s(v: &Vec<u16>) -> (r: Vec<u16>)
    ensures
        r@ == v@,
{
    let mut r: Vec<u16> = Vec::new();
    let mut i: usize = 0;
    while i < v.len()
        invariant
            i <= v@.len(),
            r@ == v@.take(i as int),
        decreases v@.len() - i,
    {
        r.push(v[i]);
        i = i + 1;
        assert(r@ =~= v@.take(i as int));
    }
    assert(v@.take(v@.len() as int) =~= v@);
    r
}

fn handle_write_cache(operation: &SmartcardOperation, cache: &mut CardCache, _is_wide: bool) -> (r: (u32, Option<IoctlReturn>))
    requires
        old(cache).wf(),
    ensures
        final(cache).wf(),
        write_cache_post(*operation, old(cache).items(), final(cache).items(), r),
{
    if operation.data.len() == 0 {
        return (SCARD_S_SUCCESS, None);
    }
    let name = copy_u16s(&operation.lookup_name);
    let data = fit_bytes(operation.data.as_slice(), operation.data.len());
    assert(data@ =~= operation.data@);
    cache.insert(name, data);
    (SCARD_S_SUCCESS, None)
}

fn handle_read_cache(_operation: &SmartcardOperation, _is_wide: bool) -> (r: (u32, Option<IoctlReturn>))
    ensures
        r == (SCARD_W_CACHE_ITEM_NOT_FOUND, Some(IoctlReturn::ReadCache { return_code: SCARD_W_CACHE_ITEM_NOT_FOUND })),
{
    (SCARD_W_CACHE_ITEM_NOT_FOUND, Some(IoctlReturn::ReadCache { return_code: SCARD_W_CACHE_ITEM_NOT_FOUND }))
}

// ---------------------------------------------------------------------------
// IOCTL dispatcher
// ---------------------------------------------------------------------------

/// The IOCTL is the wide-character (`W`) variant of its call.
pub open spec fn is_wide(ioctl: u32) -> bool {
    ioctl == SCARD_IOCTL_LISTREADERGROUPSW || ioctl == SCARD_IOCTL_LISTREADERSW || ioctl == SCARD_IOCTL_STATUSW
        || ioctl == SCARD_IOCTL_GETSTATUSCHANGEW
}

/// A call that needs a registered context: without one it is
/// SCARD_E_INVALID_HANDLE, with one `post` holds.
pub open spec fn with_context(contexts: Map<u64, ContextEntry>, h_context: u64, r: (u32, Option<IoctlReturn>), post: bool) -> bool {
    if contexts.contains_key(h_context) {
        post
    } else {
        spec_bare(r, SCARD_E_INVALID_HANDLE)
    }
}

/// What dispatching `ioctl` with `op` answers (`r`) and does to the context
/// registry, for every answer the integration may give.
pub open spec fn dispatch_post(
    ioctl: u32,
    op: SmartcardOperation,
    oc: Map<u64, ContextEntry>,
    nc: Map<u64, ContextEntry>,
    r: (u32, Option<IoctlReturn>),
) -> bool {
    let h = op.h_context;
    if ioctl == SCARD_IOCTL_ESTABLISHCONTEXT {
        exists|res: Result<ScardContext, u32>| #[trigger] establish_context_post(oc, nc, res, r)
    } else if ioctl == SCARD_IOCTL_RELEASECONTEXT {
        exists|res: Result<(), u32>| #[trigger] release_context_post(h, oc, nc, res, r)
    } else {
        &&& nc == oc
        &&& if ioctl == SCARD_IOCTL_ISVALIDCONTEXT {
            is_valid_context_post(h, oc, r)
        } else if ioctl == SCARD_IOCTL_CANCEL {
            exists|res: Result<(), u32>| #[trigger] context_unit_post(h, oc, res, r)
        } else if ioctl == SCARD_IOCTL_ACCESSSTARTEDEVENT || ioctl == SCARD_IOCTL_RELEASETARTEDEVENT
            || ioctl == SCARD_IOCTL_GETREADERICON {
            spec_bare(r, SCARD_S_SUCCESS)
        } else if ioctl == SCARD_IOCTL_LISTREADERGROUPSA || ioctl == SCARD_IOCTL_LISTREADERSA
            || ioctl == SCARD_IOCTL_LISTREADERGROUPSW || ioctl == SCARD_IOCTL_LISTREADERSW {
            with_context(
                oc,
                h,
                r,
                exists|res: Result<Seq<Seq<char>>, u32>| #[trigger] list_readers_post(
                    res,
                    is_wide(ioctl),
                    is_list_groups(op.io_control_code),
                    r,
                ),
            )
        } else if ioctl == SCARD_IOCTL_CONNECTA || ioctl == SCARD_IOCTL_CONNECTW {
            with_context(oc, h, r, exists|res: Result<ConnectResult, u32>| #[trigger] connect_post(h, res, r))
        } else if ioctl == SCARD_IOCTL_RECONNECT {
            exists|res: Result<u32, u32>| #[trigger] reconnect_post(res, r)
        } else if ioctl == SCARD_IOCTL_DISCONNECT || ioctl == SCARD_IOCTL_BEGINTRANSACTION
            || ioctl == SCARD_IOCTL_ENDTRANSACTION || ioctl == SCARD_IOCTL_SETATTRIB {
            exists|res: Result<(), u32>| #[trigger] card_unit_post(res, r)
        } else if ioctl == SCARD_IOCTL_TRANSMIT {
            exists|res: Result<TransmitResult, u32>, answers: Seq<Option<Seq<u8>>>| #[trigger] transmit_post(res, answers, r)
        } else if ioctl == SCARD_IOCTL_CONTROL {
            exists|res: Result<Seq<u8>, u32>| #[trigger] control_post(res, r)
        } else if ioctl == SCARD_IOCTL_GETATTRIB {
            exists|res: Result<Seq<u8>, u32>| #[trigger] get_attrib_post(op.attr_id, op.attr_len, res, r)
        } else if ioctl == SCARD_IOCTL_STATE {
            exists|res: Result<ScardStatus, u32>| #[trigger] state_post(res, r)
        } else if ioctl == SCARD_IOCTL_STATUSA || ioctl == SCARD_IOCTL_STATUSW {
            exists|res: Result<ScardStatus, u32>| #[trigger] status_post(res, is_wide(ioctl), r)
        } else if ioctl == SCARD_IOCTL_GETSTATUSCHANGEA || ioctl == SCARD_IOCTL_GETSTATUSCHANGEW {
            with_context(
                oc,
                h,
                r,
                exists|res: Result<Seq<ReaderStateOut>, u32>| #[trigger] get_status_change_post(
                    res,
                    is_wide(ioctl),
                    r,
                ),
            )
        } else if ioctl == SCARD_IOCTL_LOCATECARDSBYATRA || ioctl == SCARD_IOCTL_LOCATECARDSBYATRW {
            with_context(
                oc,
                h,
                r,
                exists|res: Result<Seq<LocateCardResult>, u32>| #[trigger] locate_cards_by_atr_post(
                    op.reader_states@,
                    res,
                    r,
                ),
            )
        } else if ioctl == SCARD_IOCTL_GETTRANSMITCOUNT {
            r == (SCARD_S_SUCCESS, Some(IoctlReturn::GetTransmitCount { count: 0 }))
        } else if ioctl == SCARD_IOCTL_GETDEVICETYPEID {
            r == (SCARD_S_SUCCESS, Some(IoctlReturn::DeviceTypeId))
        } else if ioctl == SCARD_IOCTL_READCACHEA || ioctl == SCARD_IOCTL_READCACHEW {
            r == (SCARD_W_CACHE_ITEM_NOT_FOUND, Some(IoctlReturn::ReadCache { return_code: SCARD_W_CACHE_ITEM_NOT_FOUND }))
        } else if ioctl == SCARD_IOCTL_WRITECACHEA || ioctl == SCARD_IOCTL_WRITECACHEW {
            spec_bare(r, SCARD_S_SUCCESS)
        } else {
            // LOCATE_CARDS is answered as unsupported, like every unknown IOCTL.
            spec_bare(r, SCARD_E_UNSUPPORTED_FEATURE)
        }
    }
}

/// What dispatching `ioctl` with `op` does to the card cache: WRITE_CACHE
/// stores non-empty data under the lookup name; nothing else touches it.
pub open spec fn dispatch_cache_post(
    ioctl: u32,
    op: SmartcardOperation,
    old_items: Map<Seq<u16>, Seq<u8>>,
    new_items: Map<Seq<u16>, Seq<u8>>,
) -> bool {
    if (ioctl == SCARD_IOCTL_WRITECACHEA || ioctl == SCARD_IOCTL_WRITECACHEW) && op.data@.len() != 0 {
        new_items == old_items.insert(op.lookup_name@, op.data@)
    } else {
        new_items == old_items
    }
}

/// Only ESTABLISH_CONTEXT and RELEASE_CONTEXT change the context registry.
pub proof fn lemma_registry_changes_only_by_establish_release(
    ioctl: u32,
    op: SmartcardOperation,
    oc: Map<u64, ContextEntry>,
    nc: Map<u64, ContextEntry>,
    r: (u32, Option<IoctlReturn>),
)
    requires
        dispatch_post(ioctl, op, oc, nc, r),
        ioctl != SCARD_IOCTL_ESTABLISHCONTEXT,
        ioctl != SCARD_IOCTL_RELEASECONTEXT,
    ensures
        nc == oc,
{
}

/// A context that ESTABLISH_CONTEXT hands out is valid: IS_VALID_CONTEXT on
/// its id then succeeds.
pub proof fn lemma_established_context_is_valid(
    op1: SmartcardOperation,
    c0: Map<u64, ContextEntry>,
    c1: Map<u64, ContextEntry>,
    r1: (u32, Option<IoctlReturn>),
    id: u64,
    op2: SmartcardOperation,
    c2: Map<u64, ContextEntry>,
    r2: (u32, Option<IoctlReturn>),
)
    requires
        dispatch_post(SCARD_IOCTL_ESTABLISHCONTEXT, op1, c0, c1, r1),
        r1.1 matches Some(IoctlReturn::EstablishContext { context }) && context@ == spec_u64_to_le_bytes(id),
        op2.h_context == id,
        dispatch_post(SCARD_IOCTL_ISVALIDCONTEXT, op2, c1, c2, r2),
    ensures
        spec_bare(r2, SCARD_S_SUCCESS),
        c2 == c1,
{
    vstd::bytes::lemma_auto_spec_u64_to_from_le_bytes();
    let res = choose|res: Result<ScardContext, u32>| #[trigger] establish_context_post(c0, c1, res, r1);
    match res {
        Ok(ctx) => {
            assert(spec_u64_from_le_bytes(spec_u64_to_le_bytes(ctx@)) == ctx@);
            assert(spec_u64_from_le_bytes(spec_u64_to_le_bytes(id)) == id);
            assert(ctx@ == id);
            assert(c1.contains_key(id));
        },
        Err(_) => {},
    }
}

/// After RELEASE_CONTEXT, whatever its answer, the id is no longer valid:
/// IS_VALID_CONTEXT answers SCARD_E_INVALID_HANDLE, and so does a second
/// RELEASE_CONTEXT.
pub proof fn lemma_released_context_is_invalid(
    op1: SmartcardOperation,
    c0: Map<u64, ContextEntry>,
    c1: Map<u64, ContextEntry>,
    r1: (u32, Option<IoctlReturn>),
    op2: SmartcardOperation,
    c2: Map<u64, ContextEntry>,
    r2: (u32, Option<IoctlReturn>),
    ioctl2: u32,
)
    requires
        dispatch_post(SCARD_IOCTL_RELEASECONTEXT, op1, c0, c1, r1),
        op2.h_context == op1.h_context,
        ioctl2 == SCARD_IOCTL_ISVALIDCONTEXT || ioctl2 == SCARD_IOCTL_RELEASECONTEXT,
        dispatch_post(ioctl2, op2, c1, c2, r2),
    ensures
        !c1.contains_key(op1.h_context),
        spec_bare(r2, SCARD_E_INVALID_HANDLE),
        c2 == c1,
{
}

/// A call that needs a context, on an id the registry does not hold,
/// answers SCARD_E_INVALID_HANDLE, leaves the registry as it was, and is
/// not one of the calls that reach the integration (so `dispatch_ioctl`
/// leaves the integration untouched).
pub proof fn lemma_unknown_context_rejected(
    ioctl: u32,
    op: SmartcardOperation,
    oc: Map<u64, ContextEntry>,
    nc: Map<u64, ContextEntry>,
    r: (u32, Option<IoctlReturn>),
)
    requires
        dispatch_post(ioctl, op, oc, nc, r),
        !oc.contains_key(op.h_context),
        ioctl == SCARD_IOCTL_ISVALIDCONTEXT || ioctl == SCARD_IOCTL_RELEASECONTEXT || ioctl == SCARD_IOCTL_CANCEL
            || ioctl == SCARD_IOCTL_LISTREADERSA || ioctl == SCARD_IOCTL_LISTREADERSW
            || ioctl == SCARD_IOCTL_LISTREADERGROUPSA || ioctl == SCARD_IOCTL_LISTREADERGROUPSW
            || ioctl == SCARD_IOCTL_CONNECTA || ioctl == SCARD_IOCTL_CONNECTW
            || ioctl == SCARD_IOCTL_GETSTATUSCHANGEA || ioctl == SCARD_IOCTL_GETSTATUSCHANGEW
            || ioctl == SCARD_IOCTL_LOCATECARDSBYATRA || ioctl == SCARD_IOCTL_LOCATECARDSBYATRW,
    ensures
        spec_bare(r, SCARD_E_INVALID_HANDLE),
        nc == oc,
        !dispatch_reaches_integration(ioctl, op, oc),
{
}

/// Whether dispatching `ioctl` with `op` may call the integration: the
/// calls on a card always do, the calls on a context only when it is
/// registered, ESTABLISH_CONTEXT always, and nothing else.
pub open spec fn dispatch_reaches_integration(ioctl: u32, op: SmartcardOperation, contexts: Map<u64, ContextEntry>) -> bool {
    ||| ioctl == SCARD_IOCTL_ESTABLISHCONTEXT
    ||| (ioctl == SCARD_IOCTL_RELEASECONTEXT || ioctl == SCARD_IOCTL_CANCEL || ioctl == SCARD_IOCTL_LISTREADERGROUPSA
        || ioctl == SCARD_IOCTL_LISTREADERSA || ioctl == SCARD_IOCTL_LISTREADERGROUPSW || ioctl == SCARD_IOCTL_LISTREADERSW
        || ioctl == SCARD_IOCTL_CONNECTA || ioctl == SCARD_IOCTL_CONNECTW || ioctl == SCARD_IOCTL_GETSTATUSCHANGEA
        || ioctl == SCARD_IOCTL_GETSTATUSCHANGEW || ioctl == SCARD_IOCTL_LOCATECARDSBYATRA
        || ioctl == SCARD_IOCTL_LOCATECARDSBYATRW) && contexts.contains_key(op.h_context)
    ||| ioctl == SCARD_IOCTL_RECONNECT || ioctl == SCARD_IOCTL_DISCONNECT || ioctl == SCARD_IOCTL_BEGINTRANSACTION
        || ioctl == SCARD_IOCTL_ENDTRANSACTION || ioctl == SCARD_IOCTL_TRANSMIT || ioctl == SCARD_IOCTL_CONTROL
        || ioctl == SCARD_IOCTL_GETATTRIB || ioctl == SCARD_IOCTL_SETATTRIB || ioctl == SCARD_IOCTL_STATE
        || ioctl == SCARD_IOCTL_STATUSA || ioctl == SCARD_IOCTL_STATUSW
}

/// RECONNECT reports the protocol the integration negotiated: with an
/// integration that answers every reconnect with the protocol `proto`, the
/// reply is success with `proto`, whatever protocols the caller preferred.
pub proof fn lemma_reconnect_reports_negotiated_protocol<I: SmartcardIntegration>(
    op: SmartcardOperation,
    oc: Map<u64, ContextEntry>,
    nc: Map<u64, ContextEntry>,
    i0: I,
    i1: I,
    r: (u32, Option<IoctlReturn>),
    proto: u32,
)
    requires
        dispatch_answered(SCARD_IOCTL_RECONNECT, op, oc, nc, i0, i1, r),
        forall|b: I, a: I, h: ScardHandle, share: u32, pref: u32, init: u32, res: Result<u32, u32>|
            #[trigger] I::reconnect_answered(b, a, h, share, pref, init, res) ==> res == Ok::<u32, u32>(proto),
    ensures
        r == (SCARD_S_SUCCESS, Some(IoctlReturn::Reconnect { active_protocol: proto })),
{
}

/// STATE reports the card the integration reported: with an integration
/// whose status of every card is `st`, the reply is success with `st`'s
/// state and protocol, its ATR length capped at 36, and its ATR bytes
/// (zero-padded to 36).
pub proof fn lemma_state_reports_card_status<I: SmartcardIntegration>(
    op: SmartcardOperation,
    oc: Map<u64, ContextEntry>,
    nc: Map<u64, ContextEntry>,
    i0: I,
    i1: I,
    r: (u32, Option<IoctlReturn>),
    st: ScardStatus,
)
    requires
        dispatch_answered(SCARD_IOCTL_STATE, op, oc, nc, i0, i1, r),
        forall|i: I, h: ScardHandle, res: Result<ScardStatus, u32>|
            #[trigger] i.status_answered(h, res) ==> res == Ok::<ScardStatus, u32>(st),
    ensures
        r.0 == SCARD_S_SUCCESS,
        r.1 matches Some(IoctlReturn::State { state, protocol, atr_len, atr }) && {
            &&& state == st.state
            &&& protocol == st.protocol
            &&& atr_len == (if st.atr@.len() < 36 { st.atr@.len() } else { 36 })
            &&& atr@.len() == 36
            &&& forall|k: int| 0 <= k < 36 ==> #[trigger] atr@[k] == (if k < st.atr@.len() { st.atr@[k] } else { 0u8 })
        },
{
    if let Some(IoctlReturn::State { state, protocol, atr_len, atr }) = r.1 {
        assert forall|k: int| 0 <= k < 36 implies #[trigger] atr@[k] == (if k < st.atr@.len() { st.atr@[k] } else { 0u8 }) by {
        }
    }
}

/// GET_ATTRIB reports the value the integration read: with an integration
/// whose every attribute reads `value`, the reply is success with `value`,
/// the attribute id asked for, and the length the caller asked for.
pub proof fn lemma_get_attrib_reports_value<I: SmartcardIntegration>(
    op: SmartcardOperation,
    oc: Map<u64, ContextEntry>,
    nc: Map<u64, ContextEntry>,
    i0: I,
    i1: I,
    r: (u32, Option<IoctlReturn>),
    value: Vec<u8>,
)
    requires
        dispatch_answered(SCARD_IOCTL_GETATTRIB, op, oc, nc, i0, i1, r),
        forall|i: I, h: ScardHandle, id: u32, res: Result<Vec<u8>, u32>|
            #[trigger] i.get_attrib_answered(h, id, res) ==> res == Ok::<Vec<u8>, u32>(value),
    ensures
        r.0 == SCARD_S_SUCCESS,
        r.1 matches Some(IoctlReturn::GetAttrib { attr, attr_id, requested_len }) && attr@ == value@ && attr_id
            == op.attr_id && requested_len == op.attr_len,
{
}

/// BEGIN_TRANSACTION passes the integration's refusal on: with an
/// integration that refuses every transaction with `code`, the reply is
/// `code` with no body, never success.
pub proof fn lemma_begin_transaction_passes_refusal_on<I: SmartcardIntegration>(
    op: SmartcardOperation,
    oc: Map<u64, ContextEntry>,
    nc: Map<u64, ContextEntry>,
    i0: I,
    i1: I,
    r: (u32, Option<IoctlReturn>),
    code: u32,
)
    requires
        dispatch_answered(SCARD_IOCTL_BEGINTRANSACTION, op, oc, nc, i0, i1, r),
        forall|b: I, a: I, h: ScardHandle, res: Result<(), u32>|
            #[trigger] I::begin_transaction_answered(b, a, h, res) ==> res == Err::<(), u32>(code),
    ensures
        r == (code, None::<IoctlReturn>),
{
}

/// LOCATE_CARDS_BY_ATR searches with the call's own ATR patterns. Take an
/// integration that, for every watched reader, reports a present card with
/// ATR `card`, matched exactly when some pattern it is given matches `card`,
/// and a call whose caller knows no reader state. Then either the answer is
/// the default one (every reader left at its reported state 0), or every
/// reader is reported present, with ATRMATCH exactly when one of the call's
/// masks (cut to its length) matches `card`.
pub proof fn lemma_locate_searches_with_call_patterns<I: SmartcardIntegration>(
    ioctl: u32,
    op: SmartcardOperation,
    oc: Map<u64, ContextEntry>,
    nc: Map<u64, ContextEntry>,
    i0: I,
    i1: I,
    r: (u32, Option<IoctlReturn>),
    card: Seq<u8>,
)
    requires
        ioctl == SCARD_IOCTL_LOCATECARDSBYATRA || ioctl == SCARD_IOCTL_LOCATECARDSBYATRW,
        dispatch_answered(ioctl, op, oc, nc, i0, i1, r),
        oc.contains_key(op.h_context),
        forall|k: int| 0 <= k < op.reader_states@.len() ==> #[trigger] op.reader_states@[k].current_state == 0,
        forall|
            b: I,
            a: I,
            ctx: ScardContext,
            atrs: Seq<(Vec<u8>, Vec<u8>)>,
            states: Seq<ReaderStateIn>,
            res: Result<Vec<LocateCardResult>, u32>,
        |
            #[trigger] I::locate_answered(b, a, ctx, atrs, states, res) ==> (res matches Ok(v) && v@.len()
                == states.len() && forall|k: int|
                0 <= k < v@.len() ==> {
                    &&& #[trigger] v@[k].reader_name@ == states[k].reader_name@
                    &&& v@[k].event_state == SCARD_STATE_PRESENT
                    &&& v@[k].atr_match == exists|j: int|
                        0 <= j < atrs.len() && spec_match_atr(card, #[trigger] atrs[j].0@, atrs[j].1@)
                }),
    ensures
        r.0 == SCARD_S_SUCCESS,
        r.1 matches Some(IoctlReturn::LocateCards { states }) && states@.len() == op.reader_states@.len() && ({
            ||| forall|k: int| 0 <= k < states@.len() ==> #[trigger] states@[k].event_state == 0
            ||| forall|k: int|
                0 <= k < states@.len() ==> #[trigger] states@[k].event_state == if exists|j: int|
                    0 <= j < op.atr_masks@.len() && spec_match_atr(
                        card,
                        #[trigger] spec_atr_pattern(op.atr_masks@[j]).0,
                        spec_atr_pattern(op.atr_masks@[j]).1,
                    ) {
                    SCARD_STATE_PRESENT | SCARD_STATE_ATRMATCH
                } else {
                    SCARD_STATE_PRESENT
                }
        }),
{
    let h = op.h_context;
    let ctx = oc[h].context;
    let (atrs, res) = choose|atrs: Seq<(Vec<u8>, Vec<u8>)>, res: Result<Vec<LocateCardResult>, u32>|
        atr_patterns_of(atrs, op.atr_masks@) && (#[trigger] I::locate_answered(
            i0,
            i1,
            ctx,
            atrs,
            op.reader_states@,
            res,
        ) || (res matches Ok(v) && spec_no_atr_matches(op.reader_states@, v@) && i1 == i0))
            && locate_cards_by_atr_post(op.reader_states@, items_result(res), r);
    if I::locate_answered(i0, i1, ctx, atrs, op.reader_states@, res) {
        let v = res->Ok_0;
        let matched = exists|j: int|
            0 <= j < op.atr_masks@.len() && spec_match_atr(
                card,
                #[trigger] spec_atr_pattern(op.atr_masks@[j]).0,
                spec_atr_pattern(op.atr_masks@[j]).1,
            );
        assert(matched == exists|j: int| 0 <= j < atrs.len() && spec_match_atr(card, #[trigger] atrs[j].0@, atrs[j].1@)) by {
            if matched {
                let j = choose|j: int|
                    0 <= j < op.atr_masks@.len() && spec_match_atr(
                        card,
                        #[trigger] spec_atr_pattern(op.atr_masks@[j]).0,
                        spec_atr_pattern(op.atr_masks@[j]).1,
                    );
                assert((atrs[j].0@, atrs[j].1@) == spec_atr_pattern(op.atr_masks@[j]));
                assert(spec_match_atr(card, atrs[j].0@, atrs[j].1@));
            }
            if exists|j: int| 0 <= j < atrs.len() && spec_match_atr(card, #[trigger] atrs[j].0@, atrs[j].1@) {
                let j = choose|j: int| 0 <= j < atrs.len() && spec_match_atr(card, #[trigger] atrs[j].0@, atrs[j].1@);
                assert((atrs[j].0@, atrs[j].1@) == spec_atr_pattern(op.atr_masks@[j]));
                assert(spec_match_atr(card, spec_atr_pattern(op.atr_masks@[j]).0, spec_atr_pattern(op.atr_masks@[j]).1));
            }
        }
        if let Some(IoctlReturn::LocateCards { states }) = r.1 {
            assert forall|k: int| 0 <= k < states@.len() implies #[trigger] states@[k].event_state == if matched {
                SCARD_STATE_PRESENT | SCARD_STATE_ATRMATCH
            } else {
                SCARD_STATE_PRESENT
            } by {
                assert(spec_locate_state(op.reader_states@, v@[k], states@[k]));
                assert(v@[k].reader_name@ == op.reader_states@[k].reader_name@);
            }
        }
    } else {
        let v = res->Ok_0;
        if let Some(IoctlReturn::LocateCards { states }) = r.1 {
            assert forall|k: int| 0 <= k < states@.len() implies #[trigger] states@[k].event_state == 0 by {
                assert(spec_locate_state(op.reader_states@, v@[k], states@[k]));
                assert(v@[k].event_state == op.reader_states@[k].current_state);
            }
        }
    }
}

/// For every IOCTL that reaches the integration: what was handed to it, and
/// that its answer, whatever it was, decided the reply.
pub open spec fn dispatch_answered<I: SmartcardIntegration>(
    ioctl: u32,
    op: SmartcardOperation,
    oc: Map<u64, ContextEntry>,
    nc: Map<u64, ContextEntry>,
    i0: I,
    i1: I,
    r: (u32, Option<IoctlReturn>),
) -> bool {
    &&& ioctl == SCARD_IOCTL_ESTABLISHCONTEXT ==> establish_done(op, oc, nc, i0, i1, r)
    &&& ioctl == SCARD_IOCTL_RELEASECONTEXT ==> release_done(op, oc, nc, i0, i1, r)
    &&& ioctl == SCARD_IOCTL_CANCEL ==> cancel_done(op, oc, i0, i1, r)
    &&& (ioctl == SCARD_IOCTL_LISTREADERGROUPSA || ioctl == SCARD_IOCTL_LISTREADERSA) ==> list_readers_done(
        op,
        oc,
        false,
        i0,
        i1,
        r,
    )
    &&& (ioctl == SCARD_IOCTL_LISTREADERGROUPSW || ioctl == SCARD_IOCTL_LISTREADERSW) ==> list_readers_done(
        op,
        oc,
        true,
        i0,
        i1,
        r,
    )
    &&& (ioctl == SCARD_IOCTL_CONNECTA || ioctl == SCARD_IOCTL_CONNECTW) ==> connect_done(op, oc, i0, i1, r)
    &&& ioctl == SCARD_IOCTL_RECONNECT ==> reconnect_done(op, i0, i1, r)
    &&& ioctl == SCARD_IOCTL_DISCONNECT ==> disconnect_done(op, i0, i1, r)
    &&& ioctl == SCARD_IOCTL_BEGINTRANSACTION ==> begin_transaction_done(op, i0, i1, r)
    &&& ioctl == SCARD_IOCTL_ENDTRANSACTION ==> end_transaction_done(op, i0, i1, r)
    &&& ioctl == SCARD_IOCTL_SETATTRIB ==> set_attrib_done(op, i0, i1, r)
    &&& ioctl == SCARD_IOCTL_CONTROL ==> control_done(op, i0, i1, r)
    &&& ioctl == SCARD_IOCTL_GETATTRIB ==> get_attrib_done(op, i0, i1, r)
    &&& ioctl == SCARD_IOCTL_STATE ==> state_done(op, i0, i1, r)
    &&& ioctl == SCARD_IOCTL_STATUSA ==> status_done(op, false, i0, i1, r)
    &&& ioctl == SCARD_IOCTL_STATUSW ==> status_done(op, true, i0, i1, r)
    &&& ioctl == SCARD_IOCTL_GETSTATUSCHANGEA ==> status_change_done(op, oc, false, i0, i1, r)
    &&& ioctl == SCARD_IOCTL_GETSTATUSCHANGEW ==> status_change_done(op, oc, true, i0, i1, r)
    &&& (ioctl == SCARD_IOCTL_LOCATECARDSBYATRA || ioctl == SCARD_IOCTL_LOCATECARDSBYATRW) ==> locate_done(
        op,
        oc,
        i0,
        i1,
        r,
    )
    &&& ioctl == SCARD_IOCTL_TRANSMIT ==> transmit_done(op, i0, i1, r)
}

/// Dispatch a decoded IRP to its handler. Returns the call's return code
/// and, when the call answers with a body, that body.
pub fn dispatch_ioctl<I: SmartcardIntegration>(
    ioctl: u32,
    operation: &SmartcardOperation,
    integration: &mut I,
    contexts: &mut ContextMap,
    cache: &mut CardCache,
) -> (r: (u32, Option<IoctlReturn>))
    requires
        operation.wf(),
        old(cache).wf(),
    ensures
        final(cache).wf(),
        dispatch_post(ioctl, *operation, old(contexts)@, final(contexts)@, r),
        dispatch_cache_post(ioctl, *operation, old(cache).items(), final(cache).items()),
        !dispatch_reaches_integration(ioctl, *operation, old(contexts)@) ==> *final(integration) == *old(integration),
        dispatch_answered(ioctl, *operation, old(contexts)@, final(contexts)@, *old(integration), *final(integration), r),
{
    let r = match ioctl {
        SCARD_IOCTL_ESTABLISHCONTEXT => handle_establish_context(integration, contexts, operation),
        SCARD_IOCTL_RELEASECONTEXT => handle_release_context(integration, contexts, operation),
        SCARD_IOCTL_ISVALIDCONTEXT => handle_is_valid_context(contexts, operation),
        SCARD_IOCTL_CANCEL => handle_cancel(integration, contexts, operation),
        SCARD_IOCTL_ACCESSSTARTEDEVENT => handle_access_started_event(operation),
        SCARD_IOCTL_RELEASETARTEDEVENT => handle_release_started_event(operation),
        SCARD_IOCTL_LISTREADERGROUPSA | SCARD_IOCTL_LISTREADERSA => {
            assert(is_wide(ioctl) == false);
            handle_list_readers(integration, contexts, operation, false)
        },
        SCARD_IOCTL_LISTREADERGROUPSW | SCARD_IOCTL_LISTREADERSW => {
            assert(is_wide(ioctl) == true);
            handle_list_readers(integration, contexts, operation, true)
        },
        SCARD_IOCTL_CONNECTA | SCARD_IOCTL_CONNECTW => handle_connect(integration, contexts, operation),
        SCARD_IOCTL_RECONNECT => handle_reconnect(integration, operation),
        SCARD_IOCTL_DISCONNECT => handle_disconnect(integration, operation),
        SCARD_IOCTL_BEGINTRANSACTION => handle_begin_transaction(integration, operation),
        SCARD_IOCTL_ENDTRANSACTION => handle_end_transaction(integration, operation),
        SCARD_IOCTL_TRANSMIT => handle_transmit(integration, operation),
        SCARD_IOCTL_CONTROL => handle_control(integration, operation),
        SCARD_IOCTL_GETATTRIB => handle_get_attrib(integration, operation),
        SCARD_IOCTL_SETATTRIB => handle_set_attrib(integration, operation),
        SCARD_IOCTL_STATE => handle_state(integration, operation),
        SCARD_IOCTL_STATUSA => {
            assert(is_wide(ioctl) == false);
            handle_status(integration, operation, false)
        },
        SCARD_IOCTL_STATUSW => {
            assert(is_wide(ioctl) == true);
            handle_status(integration, operation, true)
        },
        SCARD_IOCTL_GETSTATUSCHANGEA => {
            assert(is_wide(ioctl) == false);
            handle_get_status_change(integration, contexts, operation, false)
        },
        SCARD_IOCTL_GETSTATUSCHANGEW => {
            assert(is_wide(ioctl) == true);
            handle_get_status_change(integration, contexts, operation, true)
        },
        SCARD_IOCTL_LOCATECARDSA => handle_locate_cards(operation, false),
        SCARD_IOCTL_LOCATECARDSW => handle_locate_cards(operation, true),
        SCARD_IOCTL_LOCATECARDSBYATRA | SCARD_IOCTL_LOCATECARDSBYATRW => handle_locate_cards_by_atr(
            integration,
            contexts,
            operation,
        ),
        SCARD_IOCTL_GETTRANSMITCOUNT => handle_get_transmit_count(operation),
        SCARD_IOCTL_GETDEVICETYPEID => handle_get_device_type_id(operation),
        SCARD_IOCTL_READCACHEA | SCARD_IOCTL_READCACHEW => handle_read_cache(
            operation,
            ioctl == SCARD_IOCTL_READCACHEW,
        ),
        SCARD_IOCTL_WRITECACHEA | SCARD_IOCTL_WRITECACHEW => handle_write_cache(
            operation,
            cache,
            ioctl == SCARD_IOCTL_WRITECACHEW,
        ),
        SCARD_IOCTL_GETREADERICON => (SCARD_S_SUCCESS, None),
        _ => (SCARD_E_UNSUPPORTED_FEATURE, None),
    };
    r
}

} // verus!
