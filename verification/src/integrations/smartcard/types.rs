//! Smartcard opaque handles, auxiliary types, and error classification.

use vstd::prelude::*;

use super::consts::{SCARD_PROTOCOL_T0, SCARD_PROTOCOL_T1};

verus! {

// ---------------------------------------------------------------------------
// Handle generation
// ---------------------------------------------------------------------------

/// Source of opaque handle identifiers: a wrapping 64-bit counter from which
/// the value 0 is never handed out (0 is reserved for "invalid handle").
#[derive(Debug)]
pub struct IdCounter {
    next: u64,
}

/// The identifier that `next_nonzero` hands out when the counter stands at `n`.
pub open spec fn spec_next_id(n: u64) -> u64 {
    if n == 0 { 1 } else { n }
}

/// Where the counter stands after `next_nonzero` when it stood at `n`.
pub open spec fn spec_counter_after(n: u64) -> u64 {
    if n == 0 { 2 } else if n == u64::MAX { 0 } else { (n + 1) as u64 }
}

impl IdCounter {
    /// Where the counter stands: the next candidate identifier.
    pub closed spec fn position(&self) -> u64 {
        self.next
    }

    /// A fresh counter; the first identifier it hands out is 1.
    pub fn new() -> (c: Self)
        ensures
            c.position() == 1,
    {
        IdCounter { next: 1 }
    }

    /// A counter standing at `next` (e.g. to resume a saved sequence).
    pub fn starting_at(next: u64) -> (c: Self)
        ensures
            c.position() == next,
    {
        IdCounter { next }
    }
}

/// Take the next identifier from `counter`, skipping the reserved value 0.
pub fn next_nonzero(counter: &mut IdCounter) -> (id: u64)
    ensures
        id != 0,
        id == spec_next_id(old(counter).position()),
        final(counter).position() == spec_counter_after(old(counter).position()),
{
    loop
        invariant
            old(counter).position() == 0 ==> counter.next <= 1,
            old(counter).position() != 0 ==> counter.next == old(counter).position(),
        decreases (if counter.next == 0 { 1int } else { 0int }),
    {
        let id = counter.next;
        counter.next = if counter.next == u64::MAX { 0 } else { counter.next + 1 };
        if id != 0 {
            return id;
        }
        // 0 is reserved (SCARD_E_INVALID_HANDLE in some implementations)
    }
}

/// Where a counter standing at `n` stands after `k` identifiers were taken.
pub open spec fn spec_counter_after_n(n: u64, k: nat) -> u64
    decreases k,
{
    if k == 0 {
        n
    } else {
        spec_counter_after(spec_counter_after_n(n, (k - 1) as nat))
    }
}

/// The `k`-th identifier (counting from 0) a counter standing at `n` hands out.
pub open spec fn spec_nth_id(n: u64, k: nat) -> u64 {
    spec_next_id(spec_counter_after_n(n, k))
}

/// The number of identifiers a counter can hand out before repeating: every
/// `u64` but the reserved 0.
pub open spec fn id_period() -> int {
    u64::MAX as int
}

/// The identifiers run through the non-zero values in order, wrapping from
/// `u64::MAX` back to 1.
proof fn lemma_nth_id_closed_form(n: u64, k: nat)
    ensures
        spec_nth_id(n, k) == ((spec_next_id(n) - 1 + k) % id_period()) + 1,
    decreases k,
{
    let m = id_period();
    if k == 0 {
        vstd::arithmetic::div_mod::lemma_small_mod((spec_next_id(n) - 1) as nat, m as nat);
    } else {
        lemma_nth_id_closed_form(n, (k - 1) as nat);
        let a = spec_next_id(n) - 1 + (k - 1);
        let v = spec_nth_id(n, (k - 1) as nat);
        assert(v == (a % m) + 1);
        assert(0 <= a % m < m);
        vstd::arithmetic::div_mod::lemma_add_mod_noop(a, 1, m);
        vstd::arithmetic::div_mod::lemma_small_mod(1, m as nat);
        if a % m + 1 < m {
            vstd::arithmetic::div_mod::lemma_small_mod((a % m + 1) as nat, m as nat);
        } else {
            assert(a % m + 1 == m);
            vstd::arithmetic::div_mod::lemma_mod_self_0(m);
        }
        assert(spec_nth_id(n, k) == ((a + 1) % m) + 1);
    }
}

/// A counter hands out `u64::MAX` pairwise distinct identifiers, none of
/// them 0, before any identifier comes back.
pub proof fn lemma_ids_distinct(n: u64, i: nat, j: nat)
    requires
        i < j < u64::MAX,
    ensures
        spec_nth_id(n, i) != spec_nth_id(n, j),
        spec_nth_id(n, i) != 0,
{
    let m = id_period();
    lemma_nth_id_closed_form(n, i);
    lemma_nth_id_closed_form(n, j);
    let q = spec_next_id(n) - 1;
    assert(0 <= q < m);
    let x = q + i;
    let y = q + j;
    assert(0 <= x < y < 2 * m);
    if x < m {
        vstd::arithmetic::div_mod::lemma_small_mod(x as nat, m as nat);
    } else {
        vstd::arithmetic::div_mod::lemma_mod_sub_multiples_vanish(x, m);
        vstd::arithmetic::div_mod::lemma_small_mod((x - m) as nat, m as nat);
    }
    if y < m {
        vstd::arithmetic::div_mod::lemma_small_mod(y as nat, m as nat);
    } else {
        vstd::arithmetic::div_mod::lemma_mod_sub_multiples_vanish(y, m);
        vstd::arithmetic::div_mod::lemma_small_mod((y - m) as nat, m as nat);
    }
}

// ---------------------------------------------------------------------------
// Opaque handles
// ---------------------------------------------------------------------------

/// Opaque handle representing an established smartcard context.
///
/// Corresponds to `SCARDCONTEXT` in the PC/SC specification. The handle is
/// generated locally and echoed back by the RDP server in subsequent IOCTLs.
#[derive(Debug, Clone, Copy, PartialEq, Eq, Hash, Structural)]
pub struct ScardContext(u64);

impl View for ScardContext {
    type V = u64;

    /// The raw identifier of the context.
    closed spec fn view(&self) -> u64 {
        self.0
    }
}

impl ScardContext {
    /// Create a new context with a unique, non-zero ID taken from `counter`.
    pub fn new(counter: &mut IdCounter) -> (ctx: Self)
        ensures
            ctx@ != 0,
            ctx@ == spec_next_id(old(counter).position()),
            final(counter).position() == spec_counter_after(old(counter).position()),
    {
        ScardContext(next_nonzero(counter))
    }

    /// Create a context from a raw u64 (e.g. when decoding from an IRP).
    pub fn from_raw(raw: u64) -> (ctx: Self)
        ensures
            ctx@ == raw,
    {
        ScardContext(raw)
    }

    /// Return the raw u64 representation.
    pub fn raw(&self) -> (r: u64)
        ensures
            r == self@,
    {
        self.0
    }
}

/// Opaque handle representing a connection to a specific smartcard.
///
/// Corresponds to `SCARDHANDLE` in the PC/SC specification.
#[derive(Debug, Clone, Copy, PartialEq, Eq, Hash, Structural)]
pub struct ScardHandle {
    handle: u64,
    active_protocol: u32,
}

impl View for ScardHandle {
    type V = (u64, u32);

    /// The raw handle identifier and the active protocol.
    closed spec fn view(&self) -> (u64, u32) {
        (self.handle, self.active_protocol)
    }
}

impl ScardHandle {
    /// Create a new handle with a unique ID taken from `counter`.
    pub fn new(counter: &mut IdCounter, active_protocol: u32) -> (h: Self)
        ensures
            h@.0 != 0,
            h@ == (spec_next_id(old(counter).position()), active_protocol),
            final(counter).position() == spec_counter_after(old(counter).position()),
    {
        ScardHandle { handle: next_nonzero(counter), active_protocol }
    }

    /// Create a handle from raw values (e.g. when decoding from an IRP).
    pub fn from_raw(handle: u64, active_protocol: u32) -> (h: Self)
        ensures
            h@ == (handle, active_protocol),
    {
        ScardHandle { handle, active_protocol }
    }

    /// Return the raw u64 handle.
    pub fn raw(&self) -> (r: u64)
        ensures
            r == self@.0,
    {
        self.handle
    }

    /// Return the active protocol negotiated during `connect`.
    pub fn active_protocol(&self) -> (r: u32)
        ensures
            r == self@.1,
    {
        self.active_protocol
    }
}

/// Two handles with the same raw identifier and protocol are the same handle.
pub proof fn lemma_handle_view_injective(a: ScardHandle, b: ScardHandle)
    requires
        a@ == b@,
    ensures
        a == b,
{
}

/// Two contexts with the same raw identifier are the same context.
pub proof fn lemma_context_view_injective(a: ScardContext, b: ScardContext)
    requires
        a@ == b@,
    ensures
        a == b,
{
}

// ---------------------------------------------------------------------------
// Auxiliary types
// ---------------------------------------------------------------------------

/// I/O request structure used in `transmit`.
///
/// Maps to `SCARD_IO_REQUEST` in the PC/SC spec.
#[derive(Debug, Clone)]
pub struct ScardIORequest {
    pub protocol: u32,
    pub extra_bytes: Vec<u8>,
}

impl ScardIORequest {
    /// Protocol T=0 (byte-oriented)
    pub fn t0() -> (r: Self)
        ensures
            r.protocol == SCARD_PROTOCOL_T0,
            r.extra_bytes@.len() == 0,
    {
        ScardIORequest { protocol: SCARD_PROTOCOL_T0, extra_bytes: Vec::new() }
    }

    /// Protocol T=1 (block-oriented)
    pub fn t1() -> (r: Self)
        ensures
            r.protocol == SCARD_PROTOCOL_T1,
            r.extra_bytes@.len() == 0,
    {
        ScardIORequest { protocol: SCARD_PROTOCOL_T1, extra_bytes: Vec::new() }
    }
}

/// Result of a `transmit` operation.
#[derive(Debug, Clone)]
pub struct TransmitResult {
    /// The I/O request returned by the card (may differ from the send PCI).
    pub recv_pci: Option<ScardIORequest>,
    /// The response bytes from the card (including SW1 SW2 at the end).
    pub recv_buffer: Vec<u8>,
}

/// Status of a connected card, returned by `status`.
#[derive(Debug, Clone)]
pub struct ScardStatus {
    /// Names of the reader(s) associated with the card (multi-string).
    pub reader_names: Vec<String>,
    /// Current card state (SCARD_STATE_* flags).
    pub state: u32,
    /// Active protocol (SCARD_PROTOCOL_* value).
    pub protocol: u32,
    /// ATR (Answer To Reset) of the card.
    pub atr: Vec<u8>,
}

/// Input state for `get_status_change` — describes the current known state
/// of a reader from the caller's perspective.
#[derive(Debug, Clone)]
pub struct ReaderStateIn {
    /// Name of the reader to watch.
    pub reader_name: String,
    /// Current state as known by the caller (SCARD_STATE_* flags).
    pub current_state: u32,
}

/// Output state returned by `get_status_change` — the new state after the call.
#[derive(Debug, Clone)]
pub struct ReaderStateOut {
    /// Name of the reader.
    pub reader_name: String,
    /// The state that triggered the return (SCARD_STATE_* flags).
    pub event_state: u32,
    /// ATR of the card (if present in the reader).
    pub atr: Vec<u8>,
}

/// Result of `locate_cards_by_atr` — which readers matched the ATR pattern.
#[derive(Debug, Clone)]
pub struct LocateCardResult {
    /// Name of the reader.
    pub reader_name: String,
    /// Whether the card's ATR matched the search pattern.
    pub atr_match: bool,
    /// The event state flags.
    pub event_state: u32,
}

/// Connect result, returned by `connect` and `reconnect`.
#[derive(Debug, Clone)]
pub struct ConnectResult {
    /// Opaque handle to the connected card.
    pub handle: ScardHandle,
    /// Active protocol negotiated with the card.
    pub active_protocol: u32,
}

// ---------------------------------------------------------------------------
// Error classification
// ---------------------------------------------------------------------------

/// An error code is an NTSTATUS when its two high bits are both set.
pub open spec fn spec_is_ntstatus(code: u32) -> bool {
    code >= 0xC000_0000
}

/// Returns `true` if the given error code is an NTSTATUS (high 2 bits are 11).
pub fn is_ntstatus(code: u32) -> (r: bool)
    ensures
        r == spec_is_ntstatus(code),
{
    let r = (code & 0xC000_0000) == 0xC000_0000;
    assert(((code & 0xC000_0000) == 0xC000_0000) == (code >= 0xC000_0000)) by (bit_vector);
    r
}

/// Where to place an error code in the IRP response.
#[derive(Debug, Clone, Copy, PartialEq, Eq, Structural)]
pub enum ErrorPlacement {
    /// Error goes in the IRP header's `IoStatus` field (NTSTATUS).
    IoStatus,
    /// Error goes in the NDR body's `ReturnCode` field (SCARD code).
    ReturnCode,
}

/// Classify an error code: does it belong in IoStatus or ReturnCode?
pub fn classify_error(code: u32) -> (p: ErrorPlacement)
    ensures
        p == (if spec_is_ntstatus(code) { ErrorPlacement::IoStatus } else { ErrorPlacement::ReturnCode }),
{
    if is_ntstatus(code) {
        ErrorPlacement::IoStatus
    } else {
        ErrorPlacement::ReturnCode
    }
}

// ---------------------------------------------------------------------------
// ATR matching
// ---------------------------------------------------------------------------

/// A card ATR matches a (pattern, mask) pair when the ATR is at least as long
/// as the pattern, pattern and mask have the same length, and every masked
/// byte of the ATR equals the masked byte of the pattern.
pub open spec fn spec_match_atr(atr: Seq<u8>, pattern: Seq<u8>, mask: Seq<u8>) -> bool {
    &&& atr.len() >= pattern.len()
    &&& pattern.len() == mask.len()
    &&& forall|i: int| 0 <= i < pattern.len() ==> #[trigger] (atr[i] & mask[i]) == (pattern[i] & mask[i])
}

/// Compare a card ATR against a pattern + mask.
///
/// Returns `true` if `(atr[i] & mask[i]) == (pattern[i] & mask[i])` for every byte.
pub fn match_atr(atr: &[u8], pattern: &[u8], mask: &[u8]) -> (r: bool)
    ensures
        r == spec_match_atr(atr@, pattern@, mask@),
{
    if atr.len() < pattern.len() || pattern.len() != mask.len() {
        return false;
    }
    let n = pattern.len();
    let mut i: usize = 0;
    while i < n
        invariant
            n == pattern@.len(),
            n == mask@.len(),
            atr@.len() >= n,
            i <= n,
            forall|j: int| 0 <= j < i ==> #[trigger] (atr@[j] & mask@[j]) == (pattern@[j] & mask@[j]),
        decreases n - i,
    {
        if (atr[i] & mask[i]) != (pattern[i] & mask[i]) {
            return false;
        }
        i = i + 1;
    }
    true
}

/// Every ATR matches itself, whatever the mask of its length.
pub proof fn lemma_match_atr_self(atr: Seq<u8>, mask: Seq<u8>)
    requires
        mask.len() == atr.len(),
    ensures
        spec_match_atr(atr, atr, mask),
{
}

/// An all-zero mask matches every ATR at least as long as the pattern.
pub proof fn lemma_match_atr_zero_mask(atr: Seq<u8>, pattern: Seq<u8>, mask: Seq<u8>)
    requires
        atr.len() >= pattern.len(),
        mask.len() == pattern.len(),
        forall|i: int| 0 <= i < mask.len() ==> mask[i] == 0,
    ensures
        spec_match_atr(atr, pattern, mask),
{
    assert forall|i: int| 0 <= i < pattern.len() implies #[trigger] (atr[i] & mask[i]) == (pattern[i] & mask[i]) by {
        let (a, p, z) = (atr[i], pattern[i], mask[i]);
        assert(z == 0u8 ==> (a & z) == (p & z)) by (bit_vector);
    }
}

// ---------------------------------------------------------------------------
// Reader filter
// ---------------------------------------------------------------------------

/// The Unicode lowercase mapping of a string, as `str::to_lowercase`
/// computes it (Unicode Derived Core Property `Lowercase`, locale-free).
pub uninterp spec fn lowercase(s: Seq<char>) -> Seq<char>;

/// Calls `str::to_lowercase`.
///
/// Trusted: the result is the string's lowercase mapping, named `lowercase`;
/// the Unicode case tables are not stated.
#[verifier::external_body]
fn to_lowercase(s: &str) -> (r: String)
    ensures
        r@ == lowercase(s@),
{
    s.to_lowercase()
}

/// `needle` occurs as a contiguous run of characters inside `hay`.
pub open spec fn is_substring(needle: Seq<char>, hay: Seq<char>) -> bool {
    exists|k: int| 0 <= k && k + needle.len() <= hay.len() && #[trigger] hay.subrange(k, k + needle.len()) == needle
}

/// The characters of a string, in order.
fn chars_of(s: &str) -> (v: Vec<char>)
    ensures
        v@ == s@,
{
    let mut v: Vec<char> = Vec::new();
    for c in it: s.chars()
        invariant
            v@ == it.seq().take(it.index() as int),
    {
        v.push(c);
    }
    v
}

/// Does `needle` occur in `hay`?
fn contains_chars(hay: &Vec<char>, needle: &Vec<char>) -> (r: bool)
    ensures
        r == is_substring(needle@, hay@),
{
    let n = needle.len();
    let h = hay.len();
    if n > h {
        assert forall|k: int| 0 <= k && k + n <= h implies #[trigger] hay@.subrange(k, k + n) != needle@ by {}
        return false;
    }
    let mut k: usize = 0;
    while k <= h - n
        invariant
            n == needle@.len(),
            h == hay@.len(),
            n <= h,
            k <= h - n + 1,
            forall|k2: int| 0 <= k2 < k ==> #[trigger] hay@.subrange(k2, k2 + n) != needle@,
        decreases h - k,
    {
        let mut j: usize = 0;
        let mut same = true;
        while j < n
            invariant
                n == needle@.len(),
                h == hay@.len(),
                k + n <= h,
                j <= n,
                same == (forall|j2: int| 0 <= j2 < j ==> hay@[k + j2] == needle@[j2]),
            decreases n - j,
        {
            if hay[k + j] != needle[j] {
                same = false;
            }
            j = j + 1;
        }
        if same {
            assert(hay@.subrange(k as int, k + n) =~= needle@);
            return true;
        }
        assert(hay@.subrange(k as int, k + n) != needle@) by {
            let j2 = choose|j2: int| 0 <= j2 < n && hay@[k + j2] != needle@[j2];
            assert(hay@.subrange(k as int, k + n)[j2] == hay@[k + j2]);
        }
        k = k + 1;
    }
    assert forall|k2: int| 0 <= k2 && k2 + n <= h implies #[trigger] hay@.subrange(k2, k2 + n) != needle@ by {
        assert(k2 < k);
    }
    false
}

/// Does `needle` occur, character for character, in `hay`? This is the
/// comparison `filter_reader` makes once both names are lowercased.
pub fn contains_substring(hay: &str, needle: &str) -> (r: bool)
    ensures
        r == is_substring(needle@, hay@),
{
    let h = chars_of(hay);
    let n = chars_of(needle);
    contains_chars(&h, &n)
}

/// Whether `reader` passes the (optional) `filter`: an absent or empty
/// filter admits every reader; otherwise the lowercased filter must occur in
/// the lowercased reader name.
pub open spec fn spec_filter_reader(filter: Option<Seq<char>>, reader: Seq<char>) -> bool {
    match filter {
        None => true,
        Some(f) => f.len() == 0 || is_substring(lowercase(f), lowercase(reader)),
    }
}

/// The reader filter is case-insensitive: two filters with the same
/// lowercase form, applied to two reader names with the same lowercase form,
/// give the same answer (as long as both filters are empty or neither is).
pub proof fn lemma_filter_reader_case_insensitive(f1: Seq<char>, f2: Seq<char>, r1: Seq<char>, r2: Seq<char>)
    requires
        lowercase(f1) == lowercase(f2),
        lowercase(r1) == lowercase(r2),
        (f1.len() == 0) == (f2.len() == 0),
    ensures
        spec_filter_reader(Some(f1), r1) == spec_filter_reader(Some(f2), r2),
{
}

/// An absent or empty filter admits every reader.
pub proof fn lemma_filter_reader_admits_all(reader: Seq<char>)
    ensures
        spec_filter_reader(None, reader),
        spec_filter_reader(Some(Seq::<char>::empty()), reader),
{
}

/// Substring-based reader name filter (case-insensitive), matching FreeRDP behavior.
pub fn filter_reader(filter: Option<&str>, reader: &str) -> (r: bool)
    ensures
        r == spec_filter_reader(
            match filter {
                None => None,
                Some(f) => Some(f@),
            },
            reader@,
        ),
{
    match filter {
        None => true,
        Some(f) => {
            if f.is_empty() {
                true
            } else {
                let lr = to_lowercase(reader);
                let lf = to_lowercase(f);
                contains_substring(lr.as_str(), lf.as_str())
            }
        },
    }
}

} // verus!
