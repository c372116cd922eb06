//! The life of one smartcard IRP on the device thread, and the release of
//! every context when the device is (re)initialized or torn down.
//!
//! An IRP is decoded by the channel and registered as outstanding with the
//! tracker, then started here: given a reserved response header, and
//! dispatched. The body of the answer is packed by the caller in the wire
//! format; finishing the IRP pads the body, fills in the header and stops
//! tracking it.

use vstd::prelude::*;

use crate::integrations::smartcard::consts::{IRP_MJ_DEVICE_CONTROL, STATUS_NOT_SUPPORTED, STATUS_UNSUCCESSFUL};
use crate::integrations::smartcard::ScardContext;
use crate::integrations::SmartcardIntegration;
use vstd::std_specs::hash::spec_hash_map_iter;
use vstd::std_specs::iter::IteratorSpec;

use super::device::{
    begin_response, cancel_all_post, ContextEntry, complete_post, decode_failure_response, end_response,
    spec_decode_failure_response, spec_end_response, zeros, OutstandingIrpTracker,
    OUTPUT_BUFFER_LENGTH_OFFSET,
};
use super::handlers::{
    dispatch_cache_post, dispatch_ioctl, dispatch_post, dispatch_reaches_integration, CardCache, ContextMap, IoctlReturn,
    SmartcardOperation,
};

verus! {

broadcast use vstd::std_specs::hash::group_hash_axioms;

/// An IRP that has been dispatched and whose answer awaits its body.
#[derive(Debug)]
pub struct PendingIrp {
    /// The IRP's completion id, which the tracker knows it by.
    pub completion_id: u32,
    /// Where the body starts in the output stream, after the reserved header.
    pub body_pos: usize,
    /// The return code of the call.
    pub return_code: u32,
    /// The body to pack, if the call answers with one.
    pub body: Option<IoctlReturn>,
    /// The most the caller accepts after the OutputBufferLength field.
    pub output_buffer_length: u32,
}

/// Where the channel sends an incoming IRP.
#[derive(Debug, Clone, Copy, PartialEq, Eq, Structural)]
pub enum IrpRoute {
    /// Queue it for the device thread.
    Enqueue,
    /// Complete it at once with this IoStatus.
    Reject { io_status: i32 },
}

/// Route an incoming IRP by its major function: device-control requests go
/// to the device thread; any other request is not supported.
pub fn route_irp(major_function: u32) -> (r: IrpRoute)
    ensures
        major_function == IRP_MJ_DEVICE_CONTROL ==> r == IrpRoute::Enqueue,
        major_function != IRP_MJ_DEVICE_CONTROL ==> r == (IrpRoute::Reject { io_status: STATUS_NOT_SUPPORTED as i32 }),
{
    if major_function == IRP_MJ_DEVICE_CONTROL {
        IrpRoute::Enqueue
    } else {
        IrpRoute::Reject {
            io_status: #[verifier::truncate]
            (STATUS_NOT_SUPPORTED as i32),
        }
    }
}

/// Answer an IRP that could not be decoded: the response carries the
/// decoder's status as its result, and the IRP's IoStatus is
/// STATUS_UNSUCCESSFUL.
pub fn fail_irp(out: &mut Vec<u8>, decode_status: i32) -> (io_status: i32)
    requires
        old(out)@.len() >= OUTPUT_BUFFER_LENGTH_OFFSET,
    ensures
        final(out)@ == spec_decode_failure_response(old(out)@, decode_status),
        io_status == STATUS_UNSUCCESSFUL as i32,
{
    decode_failure_response(out, decode_status);
    #[verifier::truncate]
    (STATUS_UNSUCCESSFUL as i32)
}

/// Start a decoded IRP, once it is registered as outstanding with the
/// tracker (which stays free meanwhile, so that cancelling can reach the IRP
/// while the call runs): reserve the response header after the 16-byte
/// device I/O header, and dispatch the IRP.
pub fn start_irp<I: SmartcardIntegration>(
    operation: &SmartcardOperation,
    integration: &mut I,
    contexts: &mut ContextMap,
    cache: &mut CardCache,
    out: &mut Vec<u8>,
) -> (p: PendingIrp)
    requires
        operation.wf(),
        old(cache).wf(),
        old(out)@.len() >= OUTPUT_BUFFER_LENGTH_OFFSET,
        old(out)@.len() + 24 <= usize::MAX,
    ensures
        final(out)@ == old(out)@ + zeros(24),
        p.body_pos == final(out)@.len(),
        p.completion_id == operation.completion_id,
        p.output_buffer_length == operation.output_buffer_length,
        dispatch_post(operation.io_control_code, *operation, old(contexts)@, final(contexts)@, (p.return_code, p.body)),
        final(cache).wf(),
        dispatch_cache_post(operation.io_control_code, *operation, old(cache).items(), final(cache).items()),
        !dispatch_reaches_integration(operation.io_control_code, *operation, old(contexts)@) ==> *final(integration)
            == *old(integration),
{
    let body_pos = begin_response(out);
    let (return_code, body) = dispatch_ioctl(operation.io_control_code, operation, integration, contexts, cache);
    PendingIrp {
        completion_id: operation.completion_id,
        body_pos,
        return_code,
        body,
        output_buffer_length: operation.output_buffer_length,
    }
}

/// Finish an IRP whose body has been packed after its header: pad the body,
/// fill in the header, and stop tracking the IRP. Returns its IoStatus.
pub fn finish_irp(out: &mut Vec<u8>, pending: &PendingIrp, tracker: &mut OutstandingIrpTracker) -> (io_status: i32)
    requires
        OUTPUT_BUFFER_LENGTH_OFFSET + 24 <= pending.body_pos <= old(out)@.len(),
        old(out)@.len() + 8 <= usize::MAX,
        old(tracker).wf(),
    ensures
        (final(out)@, io_status) == spec_end_response(
            old(out)@,
            pending.body_pos as int,
            pending.return_code as i32,
            pending.output_buffer_length,
        ),
        complete_post(*old(tracker), pending.completion_id, *final(tracker)),
{
    let io_status = end_response(out, pending.body_pos, pending.return_code as i32, pending.output_buffer_length);
    tracker.complete(pending.completion_id);
    io_status
}

/// `ctx` is the context of some registered id.
pub open spec fn is_registered(contexts: Map<u64, ContextEntry>, ctx: ScardContext) -> bool {
    exists|k: u64| #[trigger] contexts.contains_key(k) && contexts[k].context == ctx
}

/// The contexts that releasing every context hands to the integration: the
/// context of each registered id, once each.
pub fn registered_contexts(contexts: &ContextMap) -> (v: Vec<ScardContext>)
    ensures
        v@.len() == contexts@.dom().len(),
        forall|k: u64| #[trigger] contexts@.contains_key(k) ==> v@.contains(contexts@[k].context),
        forall|i: int| 0 <= i < v@.len() ==> is_registered(contexts@, #[trigger] v@[i]),
{
    let mut v: Vec<ScardContext> = Vec::new();
    for (k, e) in it: contexts.iter()
        invariant
            it.seq() == spec_hash_map_iter(contexts).remaining(),
            v@.len() == it.index(),
            forall|j: int| 0 <= j < it.index() ==> #[trigger] v@[j] == it.seq()[j].1.context,
    {
        v.push(e.context);
    }
    proof {
        let s = spec_hash_map_iter(contexts).remaining();
        assert(v@.len() == s.len());
        assert forall|k: u64| #[trigger] contexts@.contains_key(k) implies v@.contains(contexts@[k].context) by {
            assert(s.contains((&k, &contexts@[k])));
            let j = choose|j: int| 0 <= j < s.len() && s[j] == (&k, &contexts@[k]);
            assert(v@[j] == contexts@[k].context);
        }
        assert forall|i: int| 0 <= i < v@.len() implies is_registered(contexts@, #[trigger] v@[i]) by {
            let k = *s[i].0;
            assert(contexts@.contains_key(k) && contexts@[k] == *s[i].1);
        }
    }
    v
}

/// The integration went from `states[k]` to `states[k + 1]` releasing
/// `list[k]`, whatever it answered.
pub open spec fn release_step<I: SmartcardIntegration>(states: Seq<I>, list: Seq<ScardContext>, k: int) -> bool {
    exists|res: Result<(), u32>| #[trigger] I::release_context_answered(states[k], states[k + 1], list[k], res)
}

/// The integration went through `states`, releasing each context of `list`
/// in turn.
pub open spec fn releases_answered<I: SmartcardIntegration>(states: Seq<I>, list: Seq<ScardContext>) -> bool {
    &&& states.len() == list.len() + 1
    &&& forall|k: int| 0 <= k < list.len() ==> #[trigger] release_step(states, list, k)
}

/// `list` holds the context of each registered id, once per id, and nothing else.
pub open spec fn lists_registered(contexts: Map<u64, ContextEntry>, list: Seq<ScardContext>) -> bool {
    &&& list.len() == contexts.dom().len()
    &&& forall|k: u64| #[trigger] contexts.contains_key(k) ==> list.contains(contexts[k].context)
    &&& forall|i: int| 0 <= i < list.len() ==> is_registered(contexts, #[trigger] list[i])
}

/// Release every registered context through the integration and empty the
/// registry, as the device does when it is initialized or torn down. Each
/// context of `registered_contexts` is handed to `release_context`, in turn;
/// what the integration answers does not matter.
pub fn release_all_contexts<I: SmartcardIntegration>(integration: &mut I, contexts: &mut ContextMap)
    ensures
        final(contexts)@ == Map::<u64, ContextEntry>::empty(),
        exists|list: Seq<ScardContext>, states: Seq<I>|
            lists_registered(old(contexts)@, list) && #[trigger] releases_answered(states, list) && states[0]
                == *old(integration) && states.last() == *final(integration),
{
    let to_release = registered_contexts(contexts);
    let ghost mut states: Seq<I> = seq![*integration];
    let mut i: usize = 0;
    while i < to_release.len()
        invariant
            i <= to_release@.len(),
            states.len() == i + 1,
            states[0] == *old(integration),
            states.last() == *integration,
            forall|k: int| 0 <= k < i ==> #[trigger] release_step(states, to_release@, k),
        decreases to_release@.len() - i,
    {
        let ghost before = *integration;
        let ghost old_states = states;
        let res = integration.release_context(&to_release[i]);
        proof {
            states = states.push(*integration);
            assert(I::release_context_answered(states[i as int], states[i + 1], to_release@[i as int], res));
            assert(release_step(states, to_release@, i as int));
            assert forall|k: int| 0 <= k < i + 1 implies #[trigger] release_step(states, to_release@, k) by {
                if k < i {
                    assert(release_step(old_states, to_release@, k));
                    assert(states[k] == old_states[k] && states[k + 1] == old_states[k + 1]);
                }
            }
        }
        i = i + 1;
    }
    proof {
        assert(releases_answered(states, to_release@));
        assert(lists_registered(old(contexts)@, to_release@));
    }
    contexts.clear();
}

/// Tear the device down: raise the cancellation flag of every outstanding
/// IRP, then release every context.
pub fn teardown<I: SmartcardIntegration>(
    integration: &mut I,
    contexts: &mut ContextMap,
    tracker: &mut OutstandingIrpTracker,
)
    requires
        old(tracker).wf(),
    ensures
        cancel_all_post(*old(tracker), *final(tracker)),
        final(contexts)@ == Map::<u64, ContextEntry>::empty(),
        exists|list: Seq<ScardContext>, states: Seq<I>|
            lists_registered(old(contexts)@, list) && #[trigger] releases_answered(states, list) && states[0]
                == *old(integration) && states.last() == *final(integration),
{
    tracker.cancel_all();
    release_all_contexts(integration, contexts);
}

} // verus!
