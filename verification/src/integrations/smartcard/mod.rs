//! Smartcard integration trait and auxiliary types.
//!
//! The addin layer (`addins::smartcard`) receives IRPs from the RDPDR channel,
//! decodes them, and dispatches them to the appropriate method of
//! [`SmartcardIntegration`].

pub mod consts;
pub mod dummy;
pub mod types;

pub use dummy::DummySmartcardHandle;
pub use types::{
    classify_error, filter_reader, is_ntstatus, match_atr, next_nonzero, ConnectResult,
    ErrorPlacement, IdCounter, LocateCardResult, ReaderStateIn, ReaderStateOut, ScardContext,
    ScardHandle, ScardIORequest, ScardStatus, TransmitResult,
};

use vstd::prelude::*;

verus! {

/// The default answer to an ATR search: every reader, in the caller's order,
/// reported with no ATR match and its current state echoed back.
pub open spec fn spec_no_atr_matches(reader_states: Seq<ReaderStateIn>, r: Seq<LocateCardResult>) -> bool {
    &&& r.len() == reader_states.len()
    &&& forall|i: int|
        0 <= i < r.len() ==> {
            &&& #[trigger] r[i].reader_name@ == reader_states[i].reader_name@
            &&& !r[i].atr_match
            &&& r[i].event_state == reader_states[i].current_state
        }
}

/// The default answer to an ATR search: every watched reader, in order,
/// with no ATR match and the state the caller reported for it.
pub fn no_atr_matches(reader_states: &[ReaderStateIn]) -> (v: Vec<LocateCardResult>)
    ensures
        spec_no_atr_matches(reader_states@, v@),
{
    let mut out: Vec<LocateCardResult> = Vec::new();
    let mut i: usize = 0;
    while i < reader_states.len()
        invariant
            i <= reader_states@.len(),
            out@.len() == i,
            forall|j: int|
                0 <= j < i ==> {
                    &&& #[trigger] out@[j].reader_name@ == reader_states@[j].reader_name@
                    &&& !out@[j].atr_match
                    &&& out@[j].event_state == reader_states@[j].current_state
                },
        decreases reader_states@.len() - i,
    {
        let rs = &reader_states[i];
        let ghost prev = out@;
        let entry = LocateCardResult { reader_name: rs.reader_name.clone(), atr_match: false, event_state: rs.current_state };
        assert(entry.reader_name@ == reader_states@[i as int].reader_name@);
        out.push(entry);
        assert(out@[i as int] == entry);
        assert(!entry.atr_match && entry.event_state == reader_states@[i as int].current_state);
        assert forall|j: int| 0 <= j <= i implies {
            &&& #[trigger] out@[j].reader_name@ == reader_states@[j].reader_name@
            &&& !out@[j].atr_match
            &&& out@[j].event_state == reader_states@[j].current_state
        } by {
            if j < i {
                assert(out@[j] == prev[j]);
            }
        }
        i = i + 1;
    }
    out
}

/// Backend-agnostic trait for smartcard integration.
///
/// The consumer implements this trait with whichever backend it needs
/// (predefined responses, a PC/SC library, a proxy to a remote reader).
/// All methods are synchronous (blocking); the addin layer owns the
/// threading. Every fallible method reports failure as a PC/SC or NTSTATUS
/// code in `Err`.
///
/// Each call is tied by its `ensures` to a relation named after it (such as
/// `reconnect_answered`) between the integration before and after the call,
/// the call's arguments, and its answer. An implementation states what it
/// answers by overriding these relations; by default they state nothing.
/// What the device does with an answer is stated over these relations, so it
/// is stated for the answer each call actually gave, to the arguments it
/// was actually given.
pub trait SmartcardIntegration: Sized {
    /// What this integration states of ESTABLISH_CONTEXT answering `r` to `scope`.
    open spec fn establish_context_answered(before: Self, after: Self, scope: u32, r: Result<ScardContext, u32>) -> bool {
        true
    }

    /// What this integration states of RELEASE_CONTEXT answering `r` for `ctx`.
    open spec fn release_context_answered(before: Self, after: Self, ctx: ScardContext, r: Result<(), u32>) -> bool {
        true
    }

    /// What this integration states of listing its readers.
    open spec fn list_readers_answered(
        &self,
        ctx: ScardContext,
        groups: Option<Seq<String>>,
        r: Result<Vec<String>, u32>,
    ) -> bool {
        true
    }

    /// What this integration states of connecting to the card in `reader`.
    open spec fn connect_answered(
        before: Self,
        after: Self,
        ctx: ScardContext,
        reader: Seq<char>,
        share_mode: u32,
        preferred_protocols: u32,
        r: Result<ConnectResult, u32>,
    ) -> bool {
        true
    }

    /// What this integration states of disconnecting `handle`.
    open spec fn disconnect_answered(
        before: Self,
        after: Self,
        handle: ScardHandle,
        disposition: u32,
        r: Result<(), u32>,
    ) -> bool {
        true
    }

    /// What this integration states of reconnecting `handle`.
    open spec fn reconnect_answered(
        before: Self,
        after: Self,
        handle: ScardHandle,
        share_mode: u32,
        preferred_protocols: u32,
        initialization: u32,
        r: Result<u32, u32>,
    ) -> bool {
        true
    }

    /// What this integration states of transmitting `data` to `handle`.
    open spec fn transmit_answered(
        before: Self,
        after: Self,
        handle: ScardHandle,
        send_pci: ScardIORequest,
        data: Seq<u8>,
        r: Result<TransmitResult, u32>,
    ) -> bool {
        true
    }

    /// What this integration states of a control command to `handle`'s reader.
    open spec fn control_answered(
        before: Self,
        after: Self,
        handle: ScardHandle,
        control_code: u32,
        in_data: Seq<u8>,
        r: Result<Vec<u8>, u32>,
    ) -> bool {
        true
    }

    /// What this integration states of the status of `handle`'s card.
    open spec fn status_answered(&self, handle: ScardHandle, r: Result<ScardStatus, u32>) -> bool {
        true
    }

    /// What this integration states of waiting for reader changes.
    open spec fn status_change_answered(
        before: Self,
        after: Self,
        ctx: ScardContext,
        timeout_ms: u64,
        reader_states: Seq<ReaderStateIn>,
        r: Result<Vec<ReaderStateOut>, u32>,
    ) -> bool {
        true
    }

    /// What this integration states of beginning a transaction on `handle`.
    open spec fn begin_transaction_answered(before: Self, after: Self, handle: ScardHandle, r: Result<(), u32>) -> bool {
        true
    }

    /// What this integration states of ending a transaction on `handle`.
    open spec fn end_transaction_answered(
        before: Self,
        after: Self,
        handle: ScardHandle,
        disposition: u32,
        r: Result<(), u32>,
    ) -> bool {
        true
    }

    /// What this integration states of reading attribute `attr_id`.
    open spec fn get_attrib_answered(&self, handle: ScardHandle, attr_id: u32, r: Result<Vec<u8>, u32>) -> bool {
        true
    }

    /// What this integration states of writing attribute `attr_id`.
    open spec fn set_attrib_answered(
        before: Self,
        after: Self,
        handle: ScardHandle,
        attr_id: u32,
        data: Seq<u8>,
        r: Result<(), u32>,
    ) -> bool {
        true
    }

    /// What this integration states of an ATR search with the patterns `atrs`.
    open spec fn locate_answered(
        before: Self,
        after: Self,
        ctx: ScardContext,
        atrs: Seq<(Vec<u8>, Vec<u8>)>,
        reader_states: Seq<ReaderStateIn>,
        r: Result<Vec<LocateCardResult>, u32>,
    ) -> bool {
        true
    }

    /// What this integration states of cancelling the calls on `ctx`.
    open spec fn cancel_answered(before: Self, after: Self, ctx: ScardContext, r: Result<(), u32>) -> bool {
        true
    }

    /// Establish a new smartcard resource manager context.
    ///
    /// `scope` is typically `SCARD_SCOPE_SYSTEM`.
    fn establish_context(&mut self, scope: u32) -> (r: Result<ScardContext, u32>)
        ensures
            Self::establish_context_answered(*old(self), *final(self), scope, r),
    ;

    /// Release a previously established context.
    fn release_context(&mut self, ctx: &ScardContext) -> (r: Result<(), u32>)
        ensures
            Self::release_context_answered(*old(self), *final(self), *ctx, r),
    ;

    /// Check whether a context handle is still valid.
    fn is_valid_context(&self, ctx: &ScardContext) -> bool;

    /// List all readers currently available.
    ///
    /// `groups` filters by reader group names (`None` for all groups).
    fn list_readers(&self, ctx: &ScardContext, groups: Option<&[String]>) -> (r: Result<Vec<String>, u32>)
        ensures
            self.list_readers_answered(
                *ctx,
                match groups {
                    Some(g) => Some(g@),
                    None => None,
                },
                r,
            ),
    ;

    /// Connect to a card in the named reader.
    fn connect(
        &mut self,
        ctx: &ScardContext,
        reader: &str,
        share_mode: u32,
        preferred_protocols: u32,
    ) -> (r: Result<ConnectResult, u32>)
        ensures
            Self::connect_answered(*old(self), *final(self), *ctx, reader@, share_mode, preferred_protocols, r),
    ;

    /// Disconnect from a card.
    fn disconnect(&mut self, handle: &ScardHandle, disposition: u32) -> (r: Result<(), u32>)
        ensures
            Self::disconnect_answered(*old(self), *final(self), *handle, disposition, r),
    ;

    /// Re-establish a connection to a card; returns the new active protocol.
    fn reconnect(
        &mut self,
        handle: &ScardHandle,
        share_mode: u32,
        preferred_protocols: u32,
        initialization: u32,
    ) -> (r: Result<u32, u32>)
        ensures
            Self::reconnect_answered(
                *old(self),
                *final(self),
                *handle,
                share_mode,
                preferred_protocols,
                initialization,
                r,
            ),
    ;

    /// Send a command APDU to the card and receive the response.
    fn transmit(&mut self, handle: &ScardHandle, send_pci: &ScardIORequest, data: &[u8]) -> (r: Result<
        TransmitResult,
        u32,
    >)
        ensures
            Self::transmit_answered(*old(self), *final(self), *handle, *send_pci, data@, r),
    ;

    /// Send a control command to the reader.
    fn control(&mut self, handle: &ScardHandle, control_code: u32, in_data: &[u8]) -> (r: Result<Vec<u8>, u32>)
        ensures
            Self::control_answered(*old(self), *final(self), *handle, control_code, in_data@, r),
    ;

    /// Query the status of a connected card.
    fn status(&self, handle: &ScardHandle) -> (r: Result<ScardStatus, u32>)
        ensures
            self.status_answered(*handle, r),
    ;

    /// Block until one of the readers changes state or `timeout_ms`
    /// milliseconds have elapsed.
    fn get_status_change(
        &mut self,
        ctx: &ScardContext,
        timeout_ms: u64,
        reader_states: &[ReaderStateIn],
    ) -> (r: Result<Vec<ReaderStateOut>, u32>)
        ensures
            Self::status_change_answered(*old(self), *final(self), *ctx, timeout_ms, reader_states@, r),
    ;

    /// Begin an exclusive transaction on the card.
    fn begin_transaction(&mut self, handle: &ScardHandle) -> (r: Result<(), u32>)
        ensures
            Self::begin_transaction_answered(*old(self), *final(self), *handle, r),
    ;

    /// End an exclusive transaction on the card.
    fn end_transaction(&mut self, handle: &ScardHandle, disposition: u32) -> (r: Result<(), u32>)
        ensures
            Self::end_transaction_answered(*old(self), *final(self), *handle, disposition, r),
    ;

    /// Get an attribute of the card or reader.
    fn get_attrib(&self, handle: &ScardHandle, attr_id: u32) -> (r: Result<Vec<u8>, u32>)
        ensures
            self.get_attrib_answered(*handle, attr_id, r),
    ;

    /// Set an attribute of the card or reader.
    fn set_attrib(&mut self, handle: &ScardHandle, attr_id: u32, data: &[u8]) -> (r: Result<(), u32>)
        ensures
            Self::set_attrib_answered(*old(self), *final(self), *handle, attr_id, data@, r),
    ;

    /// Locate cards by ATR pattern matching.
    ///
    /// `atrs` is a list of (pattern, mask) pairs. The default implementation
    /// reports no match for any reader. Its answer is either what the
    /// integration states of the search, or that default answer.
    fn locate_cards_by_atr(
        &mut self,
        ctx: &ScardContext,
        atrs: &[(Vec<u8>, Vec<u8>)],
        reader_states: &[ReaderStateIn],
    ) -> (r: Result<Vec<LocateCardResult>, u32>)
        ensures
            Self::locate_answered(*old(self), *final(self), *ctx, atrs@, reader_states@, r) || (r matches Ok(v)
                && spec_no_atr_matches(reader_states@, v@) && *final(self) == *old(self)),
        default_ensures
            r matches Ok(v) && spec_no_atr_matches(reader_states@, v@),
    {
        Ok(no_atr_matches(reader_states))
    }

    /// Cancel all pending operations on the given context. The default
    /// implementation has nothing to cancel and succeeds. Its answer is
    /// either what the integration states of the cancel, or that default.
    fn cancel(&mut self, ctx: &ScardContext) -> (r: Result<(), u32>)
        ensures
            Self::cancel_answered(*old(self), *final(self), *ctx, r) || (r == Ok::<(), u32>(()) && *final(self)
                == *old(self)),
        default_ensures
            r == Ok::<(), u32>(()),
    {
        Ok(())
    }

    /// Whether the smartcard subsystem is available and ready to serve requests.
    fn is_available(&self) -> bool;
}

} // verus!
