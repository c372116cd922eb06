//! Device-side building blocks: outstanding IRP tracking, multi-string and
//! handle encodings, and the framing of IRP responses.

use std::collections::HashMap;

use vstd::prelude::*;
use vstd::bytes::{
    spec_u32_from_le_bytes, spec_u32_to_le_bytes, spec_u64_from_le_bytes, spec_u64_to_le_bytes,
    u32_from_le_bytes, u32_to_le_bytes, u64_from_le_bytes, u64_to_le_bytes,
};
use vstd::slice::{slice_subrange, slice_to_vec};
use vstd::utf8::encode_utf8;

use crate::integrations::smartcard::consts::{
    SCARD_PROTOCOL_T0, SCARD_S_SUCCESS, STATUS_BUFFER_TOO_SMALL, STATUS_SUCCESS,
};
use crate::integrations::smartcard::types::{
    ReaderStateOut, ScardContext, ScardHandle, ScardIORequest,
};
use super::consts::RDPDR_DTYP_SMARTCARD;

verus! {

broadcast use vstd::std_specs::hash::group_hash_axioms;

// ---------------------------------------------------------------------------
// Outstanding IRP tracking
// ---------------------------------------------------------------------------

/// The cancellation flag handed out for one registered IRP.
#[derive(Debug, Clone, Copy)]
pub struct CancelToken {
    index: usize,
}

impl CancelToken {
    /// Which flag of the tracker this token reads.
    pub closed spec fn index(&self) -> nat {
        self.index as nat
    }
}

/// `t1` is `t0` after `register(id)` issued `token`: a fresh, lowered flag,
/// which `id` now refers to.
pub open spec fn register_post(t0: OutstandingIrpTracker, id: u32, t1: OutstandingIrpTracker, token: CancelToken) -> bool {
    &&& t1.wf()
    &&& token.index() == t0.flags().len()
    &&& t1.flags() == t0.flags().push(false)
    &&& t1.outstanding() == t0.outstanding().insert(id, token.index())
}

/// `t1` is `t0` after `complete(id)`: `id` is no longer outstanding and no
/// flag changed.
pub open spec fn complete_post(t0: OutstandingIrpTracker, id: u32, t1: OutstandingIrpTracker) -> bool {
    &&& t1.wf()
    &&& t1.flags() == t0.flags()
    &&& t1.outstanding() == t0.outstanding().remove(id)
}

/// `t1` is `t0` after `cancel_all()`: the flag of every outstanding IRP is
/// raised, the others keep their value, and the outstanding IRPs stay.
pub open spec fn cancel_all_post(t0: OutstandingIrpTracker, t1: OutstandingIrpTracker) -> bool {
    &&& t1.wf()
    &&& t1.outstanding() == t0.outstanding()
    &&& t1.flags().len() == t0.flags().len()
    &&& forall|i: int|
        0 <= i < t1.flags().len() ==> #[trigger] t1.flags()[i] == (t0.flags()[i] || exists|id: u32|
            t0.outstanding().contains_key(id) && t0.outstanding()[id] == i)
}

/// The value of the flag `token` reads in `t`; `false` for a flag `t` never issued.
pub open spec fn spec_is_cancelled(t: OutstandingIrpTracker, token: CancelToken) -> bool {
    token.index() < t.flags().len() && t.flags()[token.index() as int]
}

/// Tracks outstanding IRPs for cancellation and cleanup.
///
/// Every registration issues a fresh cancellation flag; the tracker maps each
/// outstanding completion id to the flag of its latest registration.
/// Cancelling raises the flags of all outstanding IRPs; a flag, once issued,
/// keeps its value after its IRP completes.
#[derive(Debug)]
pub struct OutstandingIrpTracker {
    irps: HashMap<u32, usize>,
    cancelled: Vec<bool>,
    live: Vec<bool>,
}

impl OutstandingIrpTracker {
    /// Outstanding completion ids, each with the index of its flag.
    pub closed spec fn outstanding(&self) -> Map<u32, nat> {
        Map::new(|id: u32| self.irps@.contains_key(id), |id: u32| self.irps@[id] as nat)
    }

    /// The value of every flag issued so far, by index.
    pub closed spec fn flags(&self) -> Seq<bool> {
        self.cancelled@
    }

    /// The tracker's internal bookkeeping is consistent: every outstanding
    /// IRP refers to its own issued flag, and a flag is marked live exactly
    /// when an outstanding IRP refers to it.
    pub closed spec fn wf(&self) -> bool {
        &&& self.live@.len() == self.cancelled@.len()
        &&& forall|id: u32|
            #[trigger] self.irps@.contains_key(id) ==> self.irps@[id] < self.cancelled@.len() && self.live@[self.irps@[id] as int]
        &&& forall|id1: u32, id2: u32|
            #![trigger self.irps@[id1], self.irps@[id2]]
            self.irps@.contains_key(id1) && self.irps@.contains_key(id2) && self.irps@[id1] == self.irps@[id2] ==> id1 == id2
        &&& forall|i: int|
            0 <= i < self.live@.len() && #[trigger] self.live@[i] ==> exists|id: u32|
                self.irps@.contains_key(id) && self.irps@[id] == i
    }

    /// Well-formed trackers refer only to issued flags.
    pub proof fn lemma_outstanding_in_range(&self, id: u32)
        requires
            self.wf(),
            self.outstanding().contains_key(id),
        ensures
            self.outstanding()[id] < self.flags().len(),
    {
    }

    /// An empty tracker.
    pub fn new() -> (t: Self)
        ensures
            t.wf(),
            t.outstanding() == Map::<u32, nat>::empty(),
            t.flags() == Seq::<bool>::empty(),
    {
        let t = OutstandingIrpTracker { irps: HashMap::new(), cancelled: Vec::new(), live: Vec::new() };
        assert(t.outstanding() =~= Map::<u32, nat>::empty());
        t
    }

    /// Register an IRP as outstanding and issue its (lowered) cancellation
    /// flag. A previous registration of the same id stops being tracked.
    pub fn register(&mut self, completion_id: u32) -> (token: CancelToken)
        requires
            old(self).wf(),
            old(self).flags().len() < usize::MAX,
        ensures
            register_post(*old(self), completion_id, *final(self), token),
    {
        let index = self.cancelled.len();
        match self.irps.get(&completion_id) {
            Some(j) => {
                let j = *j;
                self.live.set(j, false);
            },
            None => {},
        }
        self.cancelled.push(false);
        self.live.push(true);
        self.irps.insert(completion_id, index);
        proof {
            let m0 = old(self).irps@;
            assert forall|i: int|
                0 <= i < self.live@.len() && #[trigger] self.live@[i] implies exists|id: u32|
                    self.irps@.contains_key(id) && self.irps@[id] == i by {
                if i == index as int {
                    assert(self.irps@[completion_id] == index);
                } else {
                    assert(old(self).live@[i]);
                    let id = choose|id: u32| m0.contains_key(id) && m0[id] == i;
                    assert(id != completion_id);
                    assert(self.irps@[id] == i);
                }
            }
            assert forall|id: u32| #[trigger] self.irps@.contains_key(id) implies self.irps@[id] < self.cancelled@.len()
                && self.live@[self.irps@[id] as int] by {
                if id != completion_id {
                    assert(m0.contains_key(id));
                    if m0.contains_key(completion_id) {
                        assert(m0[id] != m0[completion_id]);
                    }
                }
            }
        }
        assert(self.outstanding() =~= old(self).outstanding().insert(completion_id, index as nat));
        CancelToken { index }
    }

    /// Stop tracking an IRP; its flag keeps its value.
    pub fn complete(&mut self, completion_id: u32)
        requires
            old(self).wf(),
        ensures
            complete_post(*old(self), completion_id, *final(self)),
    {
        match self.irps.remove(&completion_id) {
            Some(j) => {
                self.live.set(j, false);
            },
            None => {},
        }
        proof {
            let m0 = old(self).irps@;
            assert forall|i: int|
                0 <= i < self.live@.len() && #[trigger] self.live@[i] implies exists|id: u32|
                    self.irps@.contains_key(id) && self.irps@[id] == i by {
                assert(old(self).live@[i]);
                let id = choose|id: u32| m0.contains_key(id) && m0[id] == i;
                assert(id != completion_id);
                assert(self.irps@[id] == i);
            }
            assert forall|id: u32| #[trigger] self.irps@.contains_key(id) implies self.irps@[id] < self.cancelled@.len()
                && self.live@[self.irps@[id] as int] by {
                assert(m0.contains_key(id));
                if m0.contains_key(completion_id) {
                    assert(m0[id] != m0[completion_id]);
                }
            }
        }
        assert(self.outstanding() =~= old(self).outstanding().remove(completion_id));
    }

    /// Raise the cancellation flag of every outstanding IRP.
    pub fn cancel_all(&mut self)
        requires
            old(self).wf(),
        ensures
            cancel_all_post(*old(self), *final(self)),
    {
        let n = self.cancelled.len();
        let mut i: usize = 0;
        while i < n
            invariant
                n == self.cancelled@.len(),
                i <= n,
                self.irps@ == old(self).irps@,
                self.live@ == old(self).live@,
                self.cancelled@.len() == old(self).cancelled@.len(),
                old(self).wf(),
                forall|k: int|
                    0 <= k < n ==> #[trigger] self.cancelled@[k] == (old(self).cancelled@[k] || (k < i
                        && self.live@[k])),
            decreases n - i,
        {
            if self.live[i] {
                self.cancelled.set(i, true);
            }
            i = i + 1;
        }
        proof {
            let m0 = old(self).irps@;
            assert forall|k: int|
                0 <= k < n implies #[trigger] self.cancelled@[k] == (old(self).flags()[k] || exists|id: u32|
                    old(self).outstanding().contains_key(id) && old(self).outstanding()[id] == k) by {
                if self.live@[k] {
                    let id = choose|id: u32| m0.contains_key(id) && m0[id] == k;
                    assert(old(self).outstanding().contains_key(id) && old(self).outstanding()[id] == k);
                }
                if exists|id: u32| old(self).outstanding().contains_key(id) && old(self).outstanding()[id] == k {
                    let id = choose|id: u32| old(self).outstanding().contains_key(id) && old(self).outstanding()[id] == k;
                    assert(m0.contains_key(id));
                }
            }
        }
        assert(self.outstanding() =~= old(self).outstanding());
    }

    /// The current value of the flag `token` reads; `false` for a token
    /// this tracker never issued.
    pub fn is_cancelled(&self, token: &CancelToken) -> (r: bool)
        ensures
            r == spec_is_cancelled(*self, *token),
    {
        if token.index < self.cancelled.len() {
            self.cancelled[token.index]
        } else {
            false
        }
    }

    /// Whether an IRP with this completion id is outstanding.
    pub fn is_outstanding(&self, completion_id: u32) -> (r: bool)
        ensures
            r == self.outstanding().contains_key(completion_id),
    {
        self.irps.contains_key(&completion_id)
    }
}

/// A freshly registered IRP is outstanding and its flag is lowered.
pub proof fn lemma_fresh_token_not_cancelled(t0: OutstandingIrpTracker, id: u32, t1: OutstandingIrpTracker, token: CancelToken)
    requires
        register_post(t0, id, t1, token),
    ensures
        t1.outstanding().contains_key(id),
        !spec_is_cancelled(t1, token),
{
}

/// Completing an IRP undoes its registration: the outstanding IRPs are
/// those from before, less any earlier registration of the same id, and the
/// only trace left is its issued (still lowered) flag.
pub proof fn lemma_register_then_complete(
    t0: OutstandingIrpTracker,
    id: u32,
    t1: OutstandingIrpTracker,
    token: CancelToken,
    t2: OutstandingIrpTracker,
)
    requires
        register_post(t0, id, t1, token),
        complete_post(t1, id, t2),
    ensures
        t2.outstanding() == t0.outstanding().remove(id),
        t2.flags() == t0.flags().push(false),
        !spec_is_cancelled(t2, token),
{
    assert(t2.outstanding() =~= t0.outstanding().remove(id));
}

/// `cancel_all` raises the flag of an IRP registered before it.
pub proof fn lemma_cancel_all_reaches_registered(
    t0: OutstandingIrpTracker,
    id: u32,
    t1: OutstandingIrpTracker,
    token: CancelToken,
    t2: OutstandingIrpTracker,
)
    requires
        register_post(t0, id, t1, token),
        cancel_all_post(t1, t2),
    ensures
        spec_is_cancelled(t2, token),
{
    assert(t1.outstanding().contains_key(id) && t1.outstanding()[id] == token.index());
    assert(t2.flags()[token.index() as int]);
}

/// An IRP completed before `cancel_all` keeps its flag lowered: cancelling
/// reaches only outstanding IRPs.
pub proof fn lemma_completed_not_cancelled(
    t0: OutstandingIrpTracker,
    id: u32,
    t1: OutstandingIrpTracker,
    token: CancelToken,
    t2: OutstandingIrpTracker,
    t3: OutstandingIrpTracker,
)
    requires
        register_post(t0, id, t1, token),
        complete_post(t1, id, t2),
        cancel_all_post(t2, t3),
    ensures
        !spec_is_cancelled(t3, token),
        !t3.outstanding().contains_key(id),
{
    let k = token.index() as int;
    assert(!t2.flags()[k]);
    assert forall|id2: u32| t2.outstanding().contains_key(id2) implies t2.outstanding()[id2] != k by {
        assert(id2 != id);
        assert(t1.outstanding().contains_key(id2));
        assert(t1.outstanding().contains_key(id));
        assert(t1.outstanding()[id] == k);
        if t1.outstanding()[id2] == k {
            assert(t1.irps@[id2] as nat == k && t1.irps@[id] as nat == k);
            assert(t1.irps@[id2] == t1.irps@[id]);
            assert(id2 == id);
        }
    }
    assert(!t3.flags()[k]);
}

/// Cancelling twice is cancelling once.
pub proof fn lemma_cancel_all_idempotent(t0: OutstandingIrpTracker, t1: OutstandingIrpTracker, t2: OutstandingIrpTracker)
    requires
        cancel_all_post(t0, t1),
        cancel_all_post(t1, t2),
    ensures
        t2.flags() == t1.flags(),
        t2.outstanding() == t1.outstanding(),
{
    assert forall|i: int| 0 <= i < t2.flags().len() implies #[trigger] t2.flags()[i] == t1.flags()[i] by {
        if exists|id: u32| t1.outstanding().contains_key(id) && t1.outstanding()[id] == i {
            let id = choose|id: u32| t1.outstanding().contains_key(id) && t1.outstanding()[id] == i;
            assert(t0.outstanding().contains_key(id) && t0.outstanding()[id] == i);
            assert(t1.flags()[i]);
        }
    }
    assert(t2.flags() =~= t1.flags());
}

/// On a tracker with nothing outstanding, `cancel_all` changes nothing.
pub proof fn lemma_cancel_all_empty_noop(t0: OutstandingIrpTracker, t1: OutstandingIrpTracker)
    requires
        t0.outstanding() == Map::<u32, nat>::empty(),
        cancel_all_post(t0, t1),
    ensures
        t1.flags() == t0.flags(),
        t1.outstanding() == t0.outstanding(),
{
    assert forall|i: int| 0 <= i < t1.flags().len() implies #[trigger] t1.flags()[i] == t0.flags()[i] by {
        if exists|id: u32| t0.outstanding().contains_key(id) && t0.outstanding()[id] == i {
            let id = choose|id: u32| t0.outstanding().contains_key(id) && t0.outstanding()[id] == i;
            assert(!t0.outstanding().contains_key(id));
        }
    }
    assert(t1.flags() =~= t0.flags());
}

// ---------------------------------------------------------------------------
// Context registry
// ---------------------------------------------------------------------------

/// An established context, as the device keeps it.
#[derive(Debug, Clone, Copy)]
pub struct ContextEntry {
    pub context: ScardContext,
}

// ---------------------------------------------------------------------------
// Multi-strings
// ---------------------------------------------------------------------------

/// The strings, each UTF-8 encoded and followed by a NUL byte, one after the other.
pub open spec fn spec_utf8_entries(strings: Seq<Seq<char>>) -> Seq<u8>
    decreases strings.len(),
{
    if strings.len() == 0 {
        Seq::empty()
    } else {
        spec_utf8_entries(strings.drop_last()) + encode_utf8(strings.last()) + seq![0u8]
    }
}

/// A narrow multi-string: the NUL-terminated UTF-8 entries, closed by one more NUL.
pub open spec fn spec_multi_string_ascii(strings: Seq<Seq<char>>) -> Seq<u8> {
    spec_utf8_entries(strings) + seq![0u8]
}

/// The views of a sequence of strings.
pub open spec fn string_views(strings: Seq<String>) -> Seq<Seq<char>> {
    strings.map_values(|s: String| s@)
}

/// Build a narrow (`A`) multi-string from a list of strings.
pub fn build_multi_string_ascii(strings: &[String]) -> (r: Vec<u8>)
    ensures
        r@ == spec_multi_string_ascii(string_views(strings@)),
{
    let mut result: Vec<u8> = Vec::new();
    let mut i: usize = 0;
    while i < strings.len()
        invariant
            i <= strings@.len(),
            result@ == spec_utf8_entries(string_views(strings@).take(i as int)),
        decreases strings@.len() - i,
    {
        let bytes = strings[i].as_str().as_bytes();
        result.extend_from_slice(bytes);
        result.push(0);
        proof {
            let vs = string_views(strings@);
            assert(vs.take(i + 1).drop_last() =~= vs.take(i as int));
            assert(vs.take(i + 1).last() == strings@[i as int]@);
        }
        i = i + 1;
        assert(result@ =~= spec_utf8_entries(string_views(strings@).take(i as int)));
    }
    result.push(0);
    assert(string_views(strings@).take(strings@.len() as int) =~= string_views(strings@));
    result
}

/// The UTF-16 code units of one character, each as two little-endian bytes.
pub open spec fn spec_utf16le_char(c: char) -> Seq<u8> {
    let v = c as u32;
    if v < 0x1_0000 {
        seq![(v % 256) as u8, (v / 256) as u8]
    } else {
        let hi = 0xD800 + (v - 0x1_0000) / 1024;
        let lo = 0xDC00 + (v - 0x1_0000) % 1024;
        seq![(hi % 256) as u8, (hi / 256) as u8, (lo % 256) as u8, (lo / 256) as u8]
    }
}

/// A string in UTF-16, little-endian bytes.
pub open spec fn spec_utf16le(s: Seq<char>) -> Seq<u8>
    decreases s.len(),
{
    if s.len() == 0 {
        Seq::empty()
    } else {
        spec_utf16le(s.drop_last()) + spec_utf16le_char(s.last())
    }
}

/// The strings, each in UTF-16LE followed by a NUL code unit, one after the other.
pub open spec fn spec_utf16_entries(strings: Seq<Seq<char>>) -> Seq<u8>
    decreases strings.len(),
{
    if strings.len() == 0 {
        Seq::empty()
    } else {
        spec_utf16_entries(strings.drop_last()) + spec_utf16le(strings.last()) + seq![0u8, 0u8]
    }
}

/// A wide multi-string: the NUL-terminated UTF-16LE entries, closed by one more NUL unit.
pub open spec fn spec_multi_string_utf16(strings: Seq<Seq<char>>) -> Seq<u8> {
    spec_utf16_entries(strings) + seq![0u8, 0u8]
}

/// Append the UTF-16LE encoding of `c`.
fn push_utf16le_char(out: &mut Vec<u8>, c: char)
    ensures
        final(out)@ == old(out)@ + spec_utf16le_char(c),
{
    let v = c as u32;
    if v < 0x1_0000 {
        out.push((v % 256) as u8);
        out.push((v / 256) as u8);
    } else {
        let hi = 0xD800 + (v - 0x1_0000) / 1024;
        let lo = 0xDC00 + (v - 0x1_0000) % 1024;
        out.push((hi % 256) as u8);
        out.push((hi / 256) as u8);
        out.push((lo % 256) as u8);
        out.push((lo / 256) as u8);
    }
    assert(out@ =~= old(out)@ + spec_utf16le_char(c));
}

/// Append the UTF-16LE encoding of `s`.
fn push_utf16le(out: &mut Vec<u8>, s: &str)
    ensures
        final(out)@ == old(out)@ + spec_utf16le(s@),
{
    for c in it: s.chars()
        invariant
            it.seq() == s@,
            out@ == old(out)@ + spec_utf16le(it.seq().take(it.index() as int)),
    {
        let ghost before = out@;
        push_utf16le_char(out, c);
        proof {
            let k = it.index();
            assert(it.seq().take(k + 1).drop_last() =~= it.seq().take(k));
            assert(it.seq().take(k + 1).last() == c);
            assert(out@ =~= old(out)@ + spec_utf16le(it.seq().take(k + 1)));
        }
    }
    assert(s@.take(s@.len() as int) =~= s@);
}

/// Build a wide (`W`) multi-string, UTF-16LE, from a list of strings.
pub fn build_multi_string_utf16(strings: &[String]) -> (r: Vec<u8>)
    ensures
        r@ == spec_multi_string_utf16(string_views(strings@)),
{
    let mut result: Vec<u8> = Vec::new();
    let mut i: usize = 0;
    while i < strings.len()
        invariant
            i <= strings@.len(),
            result@ == spec_utf16_entries(string_views(strings@).take(i as int)),
        decreases strings@.len() - i,
    {
        push_utf16le(&mut result, strings[i].as_str());
        result.push(0);
        result.push(0);
        proof {
            let vs = string_views(strings@);
            assert(vs.take(i + 1).drop_last() =~= vs.take(i as int));
            assert(vs.take(i + 1).last() == strings@[i as int]@);
        }
        i = i + 1;
        assert(result@ =~= spec_utf16_entries(string_views(strings@).take(i as int)));
    }
    result.push(0);
    result.push(0);
    assert(string_views(strings@).take(strings@.len() as int) =~= string_views(strings@));
    assert(result@ =~= spec_multi_string_utf16(string_views(strings@)));
    result
}

// ---------------------------------------------------------------------------
// Handles and I/O requests on the wire
// ---------------------------------------------------------------------------

/// The little-endian bytes of a raw context or card handle id, as the
/// 8-byte `pbContext` / `pbHandle` fields carry it.
pub fn handle_bytes(id: u64) -> (r: Vec<u8>)
    ensures
        r@ == spec_u64_to_le_bytes(id),
        r@.len() == 8,
{
    u64_to_le_bytes(id)
}

/// Decode the card handle of an IRP from its 8-byte `pbHandle` field.
/// The active protocol is not carried there and reads as 0.
pub fn get_card_handle(h_card: &[u8; 8]) -> (h: ScardHandle)
    ensures
        h@ == (spec_u64_from_le_bytes(h_card@), 0u32),
{
    let id = u64_from_le_bytes(h_card.as_slice());
    ScardHandle::from_raw(id, 0)
}

/// The bytes of a serialized `SCARD_IO_REQUEST` are well formed: they hold
/// the 8-byte header (protocol, total length), and when the total length
/// announces extra bytes, all of them.
pub open spec fn spec_pci_wf(pci: Seq<u8>) -> bool {
    &&& pci.len() >= 8
    &&& spec_u32_from_le_bytes(pci.subrange(4, 8)) > 8 ==> spec_u32_from_le_bytes(pci.subrange(4, 8)) <= pci.len()
}

/// The I/O request that a serialized `SCARD_IO_REQUEST` denotes: an absent
/// one is T=0 without extra bytes; otherwise the protocol, and the extra
/// bytes that the total length announces beyond the 8-byte header.
pub open spec fn spec_io_request(pci: Option<Seq<u8>>) -> (u32, Seq<u8>) {
    match pci {
        None => (SCARD_PROTOCOL_T0, Seq::empty()),
        Some(b) => {
            let cb = spec_u32_from_le_bytes(b.subrange(4, 8));
            (spec_u32_from_le_bytes(b.subrange(0, 4)), if cb > 8 { b.subrange(8, cb as int) } else { Seq::empty() })
        },
    }
}

/// Decode the send PCI of a TRANSMIT call.
pub fn get_io_request(pci: Option<&[u8]>) -> (r: ScardIORequest)
    requires
        pci matches Some(b) ==> spec_pci_wf(b@),
    ensures
        (r.protocol, r.extra_bytes@) == spec_io_request(
            match pci {
                None => None,
                Some(b) => Some(b@),
            },
        ),
{
    match pci {
        None => ScardIORequest::t0(),
        Some(b) => {
            let protocol = u32_from_le_bytes(slice_subrange(b, 0, 4));
            let cb = u32_from_le_bytes(slice_subrange(b, 4, 8));
            let extra_bytes = if cb > 8 {
                slice_to_vec(slice_subrange(b, 8, cb as usize))
            } else {
                Vec::new()
            };
            ScardIORequest { protocol, extra_bytes }
        },
    }
}

/// The serialized form of an I/O request: protocol, total length (8 plus
/// the extra bytes, truncated to 32 bits), then the extra bytes.
pub open spec fn spec_encode_io_request(protocol: u32, extra: Seq<u8>) -> Seq<u8> {
    spec_u32_to_le_bytes(protocol) + spec_u32_to_le_bytes(((extra.len() + 8) % 0x1_0000_0000) as u32) + extra
}

/// Serialize the receive PCI of a TRANSMIT answer.
pub fn encode_io_request(r: &ScardIORequest) -> (b: Vec<u8>)
    ensures
        b@ == spec_encode_io_request(r.protocol, r.extra_bytes@),
{
    let len = r.extra_bytes.len();
    let total = (len as u32).wrapping_add(8);
    assert(total == ((len + 8) % 0x1_0000_0000) as u32) by (bit_vector)
        requires total == (len as u32).wrapping_add(8);
    let mut b = u32_to_le_bytes(r.protocol);
    let t = u32_to_le_bytes(total);
    b.extend_from_slice(t.as_slice());
    b.extend_from_slice(r.extra_bytes.as_slice());
    assert(b@ =~= spec_encode_io_request(r.protocol, r.extra_bytes@));
    b
}

/// The 8 bytes `handle_bytes` writes for an id decode, through
/// `get_card_handle`, to that id.
pub proof fn lemma_handle_bytes_roundtrip(id: u64)
    ensures
        spec_u64_to_le_bytes(id).len() == 8,
        spec_u64_from_le_bytes(spec_u64_to_le_bytes(id)) == id,
{
    vstd::bytes::lemma_auto_spec_u64_to_from_le_bytes();
}

/// A serialized I/O request decodes to the request it was made from, as
/// long as its total length fits the 32-bit length field.
pub proof fn lemma_io_request_roundtrip(protocol: u32, extra: Seq<u8>)
    requires
        extra.len() + 8 <= u32::MAX,
    ensures
        spec_pci_wf(spec_encode_io_request(protocol, extra)),
        spec_io_request(Some(spec_encode_io_request(protocol, extra))) == (protocol, extra),
{
    vstd::bytes::lemma_auto_spec_u32_to_from_le_bytes();
    let total = ((extra.len() + 8) % 0x1_0000_0000) as u32;
    let p = spec_u32_to_le_bytes(protocol);
    let t = spec_u32_to_le_bytes(total);
    let b = spec_encode_io_request(protocol, extra);
    assert(total == extra.len() + 8);
    assert(b.subrange(0, 4) =~= p);
    assert(b.subrange(4, 8) =~= t);
    assert(b.len() == extra.len() + 8);
    if total > 8 {
        assert(b.subrange(8, total as int) =~= extra);
    } else {
        assert(extra =~= Seq::<u8>::empty());
    }
}

// ---------------------------------------------------------------------------
// Reader states and ATR masks on the wire
// ---------------------------------------------------------------------------

/// Capacity of the ATR field of a reader state.
pub const READER_STATE_ATR_LEN: usize = 36;

/// One `ReaderState_Return` of a GET_STATUS_CHANGE or LOCATE_CARDS answer.
#[derive(Debug, Clone)]
pub struct ReaderStateReturn {
    pub current_state: u32,
    pub event_state: u32,
    /// Number of meaningful bytes of `atr`.
    pub atr_len: u32,
    /// The ATR, zero-padded to 36 bytes.
    pub atr: Vec<u8>,
}

/// `s` cut or zero-padded to exactly `n` bytes.
pub open spec fn spec_fit(s: Seq<u8>, n: nat) -> Seq<u8> {
    if s.len() >= n {
        s.take(n as int)
    } else {
        s + Seq::new((n - s.len()) as nat, |i: int| 0u8)
    }
}

/// `s` cut or zero-padded to `n` bytes.
pub fn fit_bytes(s: &[u8], n: usize) -> (r: Vec<u8>)
    ensures
        r@ == spec_fit(s@, n as nat),
{
    let mut r: Vec<u8> = Vec::new();
    let mut i: usize = 0;
    while i < n
        invariant
            i <= n,
            r@.len() == i,
            forall|k: int| 0 <= k < i ==> #[trigger] r@[k] == (if k < s@.len() { s@[k] } else { 0u8 }),
        decreases n - i,
    {
        if i < s.len() {
            r.push(s[i]);
        } else {
            r.push(0);
        }
        i = i + 1;
    }
    assert(r@ =~= spec_fit(s@, n as nat));
    r
}

/// The wire form of one state out of GET_STATUS_CHANGE.
pub open spec fn spec_pack_reader_state(rs: ReaderStateOut, r: ReaderStateReturn) -> bool {
    let n = if rs.atr@.len() < 36 { rs.atr@.len() } else { 36 };
    &&& r.current_state == 0
    &&& r.event_state == rs.event_state
    &&& r.atr_len == n
    &&& r.atr@ == spec_fit(rs.atr@, 36)
}

/// Pack the reader states a GET_STATUS_CHANGE returns for the wire: the
/// event state, and the ATR cut to 36 bytes.
pub fn pack_reader_states_out(states_out: &[ReaderStateOut]) -> (r: Vec<ReaderStateReturn>)
    ensures
        r@.len() == states_out@.len(),
        forall|i: int| 0 <= i < r@.len() ==> spec_pack_reader_state(states_out@[i], #[trigger] r@[i]),
{
    let mut r: Vec<ReaderStateReturn> = Vec::new();
    let mut i: usize = 0;
    while i < states_out.len()
        invariant
            i <= states_out@.len(),
            r@.len() == i,
            forall|k: int| 0 <= k < i ==> spec_pack_reader_state(states_out@[k], #[trigger] r@[k]),
        decreases states_out@.len() - i,
    {
        let rs = &states_out[i];
        let atr_len = if rs.atr.len() < READER_STATE_ATR_LEN { rs.atr.len() } else { READER_STATE_ATR_LEN };
        r.push(
            ReaderStateReturn {
                current_state: 0,
                event_state: rs.event_state,
                atr_len: atr_len as u32,
                atr: fit_bytes(rs.atr.as_slice(), READER_STATE_ATR_LEN),
            },
        );
        i = i + 1;
    }
    r
}

/// One ATR pattern of a LOCATE_CARDS_BY_ATR call: the pattern and mask
/// fields are 36 bytes wide, of which `atr_len` are meaningful.
#[derive(Debug, Clone)]
pub struct AtrMask {
    pub atr_len: u32,
    pub atr: Vec<u8>,
    pub mask: Vec<u8>,
}

/// The mask has the 36-byte pattern and mask fields of the wire structure.
pub open spec fn spec_atr_mask_wf(m: AtrMask) -> bool {
    m.atr@.len() == 36 && m.mask@.len() == 36
}

/// The (pattern, mask) pair an ATR mask denotes: both fields cut to the
/// announced length, at most 36.
pub open spec fn spec_atr_pattern(m: AtrMask) -> (Seq<u8>, Seq<u8>) {
    let n = if m.atr_len < 36 { m.atr_len as int } else { 36 };
    (m.atr@.take(n), m.mask@.take(n))
}

/// Decode the ATR patterns of a LOCATE_CARDS_BY_ATR call.
pub fn get_atr_masks(masks: &[AtrMask]) -> (r: Vec<(Vec<u8>, Vec<u8>)>)
    requires
        forall|i: int| 0 <= i < masks@.len() ==> spec_atr_mask_wf(#[trigger] masks@[i]),
    ensures
        r@.len() == masks@.len(),
        forall|i: int|
            0 <= i < r@.len() ==> (#[trigger] r@[i].0@, r@[i].1@) == spec_atr_pattern(masks@[i]),
{
    let mut r: Vec<(Vec<u8>, Vec<u8>)> = Vec::new();
    let mut i: usize = 0;
    while i < masks.len()
        invariant
            i <= masks@.len(),
            r@.len() == i,
            forall|k: int| 0 <= k < masks@.len() ==> spec_atr_mask_wf(#[trigger] masks@[k]),
            forall|k: int| 0 <= k < i ==> (#[trigger] r@[k].0@, r@[k].1@) == spec_atr_pattern(masks@[k]),
        decreases masks@.len() - i,
    {
        let m = &masks[i];
        let n: usize = if m.atr_len < 36 { m.atr_len as usize } else { 36 };
        let pattern = slice_to_vec(slice_subrange(m.atr.as_slice(), 0, n));
        let mask = slice_to_vec(slice_subrange(m.mask.as_slice(), 0, n));
        r.push((pattern, mask));
        i = i + 1;
    }
    r
}

// ---------------------------------------------------------------------------
// Response framing
// ---------------------------------------------------------------------------

/// Bytes of the reserved response header: OutputBufferLength, the RPCE
/// common and private type headers, and the Result field.
pub const RESPONSE_HEADER_LEN: usize = 24;

/// Offset of the OutputBufferLength field in an IRP response: it follows
/// the 16-byte device I/O response header.
pub const OUTPUT_BUFFER_LENGTH_OFFSET: usize = 16;

/// `n` zero bytes.
pub open spec fn zeros(n: nat) -> Seq<u8> {
    Seq::new(n, |i: int| 0u8)
}

/// `s` with the bytes from `pos` on replaced by `t` (and kept beyond it).
pub open spec fn splice(s: Seq<u8>, pos: int, t: Seq<u8>) -> Seq<u8> {
    s.subrange(0, pos) + t + s.subrange(pos + t.len(), s.len() as int)
}

/// The RPCE type serialization version 1 common type header: version 1,
/// little-endian, header length 8, filler 0xCCCCCCCC.
pub open spec fn spec_common_type_header() -> Seq<u8> {
    seq![0x01u8, 0x10u8, 0x08u8, 0x00u8, 0xCCu8, 0xCCu8, 0xCCu8, 0xCCu8]
}

/// The RPCE private type header: the object buffer length, then a zero filler.
pub open spec fn spec_private_type_header(object_buffer_length: u32) -> Seq<u8> {
    spec_u32_to_le_bytes(object_buffer_length) + seq![0u8, 0u8, 0u8, 0u8]
}

/// The 24 header bytes of a response.
pub open spec fn spec_response_header(output_buffer_length: u32, object_buffer_length: u32, result: u32) -> Seq<u8> {
    spec_u32_to_le_bytes(output_buffer_length) + spec_common_type_header() + spec_private_type_header(
        object_buffer_length,
    ) + spec_u32_to_le_bytes(result)
}

/// Padding that brings a body of `body_len` bytes to a multiple of 8.
pub open spec fn spec_padding(body_len: int) -> int {
    (8 - body_len % 8) % 8
}

/// The stream after `end_response`: the body padded with zeros to a
/// multiple of 8 bytes, and the header filled in. When the response
/// (everything after OutputBufferLength) exceeds what the caller accepts,
/// both lengths read 0 and the result is STATUS_BUFFER_TOO_SMALL.
pub open spec fn spec_end_response(out: Seq<u8>, body_pos: int, result: i32, limit: u32) -> (Seq<u8>, i32) {
    let padded = out + zeros(spec_padding(out.len() - body_pos) as nat);
    let output_len = padded.len() - 20;
    if output_len > limit {
        (
            splice(padded, 16, spec_response_header(0, 0, STATUS_BUFFER_TOO_SMALL)),
            STATUS_BUFFER_TOO_SMALL as i32,
        )
    } else {
        (
            splice(padded, 16, spec_response_header(output_len as u32, (output_len - 16) as u32, result as u32)),
            STATUS_SUCCESS as i32,
        )
    }
}

/// Overwrite the bytes at `pos` with `t`.
fn write_at(out: &mut Vec<u8>, pos: usize, t: &[u8])
    requires
        pos + t@.len() <= old(out)@.len(),
    ensures
        final(out)@ == splice(old(out)@, pos as int, t@),
{
    let n = out.len();
    let mut k: usize = 0;
    while k < t.len()
        invariant
            n == out@.len(),
            pos + t@.len() <= out@.len(),
            out@.len() == old(out)@.len(),
            k <= t@.len(),
            out@ == splice(old(out)@, pos as int, t@.take(k as int)),
        decreases t@.len() - k,
    {
        out.set(pos + k, t[k]);
        k = k + 1;
        assert(out@ =~= splice(old(out)@, pos as int, t@.take(k as int)));
    }
    assert(t@.take(t@.len() as int) =~= t@);
}

/// The 24 header bytes of a response.
fn response_header(output_buffer_length: u32, object_buffer_length: u32, result: u32) -> (h: Vec<u8>)
    ensures
        h@ == spec_response_header(output_buffer_length, object_buffer_length, result),
        h@.len() == 24,
{
    let mut h = u32_to_le_bytes(output_buffer_length);
    let common: Vec<u8> = vec![0x01, 0x10, 0x08, 0x00, 0xCC, 0xCC, 0xCC, 0xCC];
    h.extend_from_slice(common.as_slice());
    let obj = u32_to_le_bytes(object_buffer_length);
    h.extend_from_slice(obj.as_slice());
    let filler: Vec<u8> = vec![0, 0, 0, 0];
    h.extend_from_slice(filler.as_slice());
    let res = u32_to_le_bytes(result);
    h.extend_from_slice(res.as_slice());
    assert(h@ =~= spec_response_header(output_buffer_length, object_buffer_length, result));
    h
}

/// Reserve the 24 response header bytes; the body starts after them.
pub fn begin_response(out: &mut Vec<u8>) -> (body_pos: usize)
    requires
        old(out)@.len() + RESPONSE_HEADER_LEN <= usize::MAX,
    ensures
        final(out)@ == old(out)@ + zeros(24),
        body_pos == final(out)@.len(),
{
    let mut k: usize = 0;
    while k < RESPONSE_HEADER_LEN
        invariant
            k <= 24,
            out@ == old(out)@ + zeros(k as nat),
        decreases 24 - k,
    {
        out.push(0);
        k = k + 1;
        assert(out@ =~= old(out)@ + zeros(k as nat));
    }
    out.len()
}

/// Pad the body to a multiple of 8 bytes and fill in the response header;
/// returns the IoStatus of the IRP.
pub fn end_response(out: &mut Vec<u8>, body_pos: usize, result: i32, output_buffer_length_limit: u32) -> (io_status: i32)
    requires
        OUTPUT_BUFFER_LENGTH_OFFSET + RESPONSE_HEADER_LEN <= body_pos <= old(out)@.len(),
        old(out)@.len() + 8 <= usize::MAX,
    ensures
        (final(out)@, io_status) == spec_end_response(old(out)@, body_pos as int, result, output_buffer_length_limit),
{
    let body_len = out.len() - body_pos;
    let padding = (8 - (body_len % 8)) % 8;
    let mut k: usize = 0;
    while k < padding
        invariant
            padding < 8,
            k <= padding,
            out@ == old(out)@ + zeros(k as nat),
        decreases padding - k,
    {
        out.push(0);
        k = k + 1;
        assert(out@ =~= old(out)@ + zeros(k as nat));
    }
    let ghost padded = out@;
    let total_len = out.len();
    let output_buf_len = total_len - 20;
    let io_status: i32;
    let header: Vec<u8>;
    if output_buf_len > output_buffer_length_limit as usize {
        io_status = #[verifier::truncate] (STATUS_BUFFER_TOO_SMALL as i32);
        header = response_header(0, 0, STATUS_BUFFER_TOO_SMALL);
    } else {
        io_status = STATUS_SUCCESS as i32;
        header = response_header(output_buf_len as u32, (output_buf_len - 16) as u32, result as u32);
    }
    write_at(out, OUTPUT_BUFFER_LENGTH_OFFSET, header.as_slice());
    io_status
}

/// `end_response` pads the body to a multiple of 8 bytes with fewer than 8
/// zeros, keeps the bytes before the header and the body, and reports
/// OutputBufferLength as the length of everything after that field, or 0
/// when that exceeds the caller's limit.
pub proof fn lemma_end_response_shape(out: Seq<u8>, body_pos: int, result: i32, limit: u32)
    requires
        40 <= body_pos <= out.len(),
    ensures
        ({
            let (res, _) = spec_end_response(out, body_pos, result, limit);
            &&& (res.len() - body_pos) % 8 == 0
            &&& out.len() <= res.len() < out.len() + 8
            &&& res.subrange(0, 16) == out.subrange(0, 16)
            &&& res.subrange(body_pos, out.len() as int) == out.subrange(body_pos, out.len() as int)
            &&& res.subrange(16, 20) == spec_u32_to_le_bytes(
                if res.len() - 20 > limit { 0u32 } else { (res.len() - 20) as u32 },
            )
        }),
{
    let padded = out + zeros(spec_padding(out.len() - body_pos) as nat);
    let output_len = padded.len() - 20;
    let h = if output_len > limit {
        spec_response_header(0, 0, STATUS_BUFFER_TOO_SMALL)
    } else {
        spec_response_header(output_len as u32, (output_len - 16) as u32, result as u32)
    };
    vstd::bytes::lemma_auto_spec_u32_to_from_le_bytes();
    assert(h.len() == 24);
    let res = splice(padded, 16, h);
    assert(res.len() == padded.len());
    assert(res.subrange(0, 16) =~= out.subrange(0, 16));
    assert(res.subrange(body_pos, out.len() as int) =~= out.subrange(body_pos, out.len() as int));
    assert(res.subrange(16, 20) =~= h.subrange(0, 4));
    assert(h.subrange(0, 4) =~= spec_u32_to_le_bytes(if output_len > limit { 0u32 } else { output_len as u32 }));
}

/// The stream after `decode_failure_response`: the device I/O response
/// header kept, then an empty response carrying `decode_status` as result.
pub open spec fn spec_decode_failure_response(out: Seq<u8>, decode_status: i32) -> Seq<u8> {
    out.take(16) + spec_response_header(0, 0, decode_status as u32)
}

/// Answer an IRP that could not be decoded: an empty response whose result
/// is the decoder's status.
pub fn decode_failure_response(out: &mut Vec<u8>, decode_status: i32)
    requires
        old(out)@.len() >= OUTPUT_BUFFER_LENGTH_OFFSET,
    ensures
        final(out)@ == spec_decode_failure_response(old(out)@, decode_status),
{
    out.truncate(OUTPUT_BUFFER_LENGTH_OFFSET);
    let header = response_header(0, 0, decode_status as u32);
    out.extend_from_slice(header.as_slice());
    assert(out@ =~= spec_decode_failure_response(old(out)@, decode_status));
}

/// The body of a GET_DEVICE_TYPE_ID answer: success, then the smartcard device type.
pub open spec fn spec_device_type_id_body() -> Seq<u8> {
    spec_u32_to_le_bytes(SCARD_S_SUCCESS) + spec_u32_to_le_bytes(RDPDR_DTYP_SMARTCARD)
}

/// Write the body of a GET_DEVICE_TYPE_ID answer.
pub fn pack_device_type_id(out: &mut Vec<u8>)
    ensures
        final(out)@ == old(out)@ + spec_device_type_id_body(),
{
    let a = u32_to_le_bytes(SCARD_S_SUCCESS);
    let b = u32_to_le_bytes(RDPDR_DTYP_SMARTCARD);
    out.extend_from_slice(a.as_slice());
    out.extend_from_slice(b.as_slice());
    assert(out@ =~= old(out)@ + spec_device_type_id_body());
}

} // verus!
