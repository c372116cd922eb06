//! `DummySmartcardHandle`: an in-memory smartcard integration with predefined
//! cards, for testing and development.

use std::collections::HashMap;

use vstd::prelude::*;

use super::consts::{
    SCARD_E_INVALID_HANDLE, SCARD_E_UNKNOWN_READER, SCARD_PROTOCOL_T0, SCARD_STATE_CHANGED,
    SCARD_STATE_EMPTY, SCARD_STATE_PRESENT,
};
use super::types::{
    ConnectResult, IdCounter, ReaderStateIn, ReaderStateOut, ScardContext, ScardHandle,
    ScardIORequest, ScardStatus, TransmitResult, spec_counter_after, spec_next_id,
};
use super::SmartcardIntegration;

verus! {

broadcast use vstd::std_specs::hash::group_hash_axioms;

/// What a dummy card is, abstractly: its reader's name, its ATR, and the
/// handle (raw id, protocol) of the connection to it, if any.
pub type CardView = (Seq<char>, Seq<u8>, Option<(u64, u32)>);

#[derive(Debug)]
struct DummyCard {
    reader: String,
    atr: Vec<u8>,
    handle: Option<ScardHandle>,
}

impl DummyCard {
    spec fn view(&self) -> CardView {
        (
            self.reader@,
            self.atr@,
            match self.handle {
                Some(h) => Some(h@),
                None => None,
            },
        )
    }
}

/// `i` is the first card whose reader is named `name`.
pub open spec fn is_first_reader(cards: Seq<CardView>, name: Seq<char>, i: int) -> bool {
    &&& 0 <= i < cards.len()
    &&& cards[i].0 == name
    &&& forall|j: int| 0 <= j < i ==> #[trigger] cards[j].0 != name
}

/// Some card's reader is named `name`.
pub open spec fn has_reader(cards: Seq<CardView>, name: Seq<char>) -> bool {
    exists|i: int| 0 <= i < cards.len() && #[trigger] cards[i].0 == name
}

/// The card's connection has raw handle id `raw`.
pub open spec fn card_has_handle(card: CardView, raw: u64) -> bool {
    card.2 matches Some(h) && h.0 == raw
}

/// `i` is the first card connected through the raw handle id `raw`.
pub open spec fn is_first_handle(cards: Seq<CardView>, raw: u64, i: int) -> bool {
    &&& 0 <= i < cards.len()
    &&& card_has_handle(cards[i], raw)
    &&& forall|j: int| 0 <= j < i ==> !card_has_handle(#[trigger] cards[j], raw)
}

/// Some card is connected through the raw handle id `raw`.
pub open spec fn has_handle(cards: Seq<CardView>, raw: u64) -> bool {
    exists|i: int| 0 <= i < cards.len() && card_has_handle(#[trigger] cards[i], raw)
}

/// The state a dummy reports for a watched reader: present (and changed)
/// when a card sits in that reader, empty (and changed) otherwise.
pub open spec fn spec_event_state(cards: Seq<CardView>, name: Seq<char>) -> u32 {
    if has_reader(cards, name) {
        SCARD_STATE_PRESENT | SCARD_STATE_CHANGED
    } else {
        SCARD_STATE_EMPTY | SCARD_STATE_CHANGED
    }
}

/// The ATR a dummy reports for a watched reader: that of the first card in
/// that reader, or nothing.
pub open spec fn spec_reader_atr(cards: Seq<CardView>, name: Seq<char>) -> Seq<u8> {
    if has_reader(cards, name) {
        cards[choose|i: int| is_first_reader(cards, name, i)].1
    } else {
        Seq::empty()
    }
}

/// After `connect` gives the first card in a reader the handle id `id`,
/// that handle is live: TRANSMIT, STATUS and RECONNECT on it succeed.
pub proof fn lemma_dummy_connected_handle_live(cards: Seq<CardView>, name: Seq<char>, i: int, id: u64, protocol: u32)
    requires
        is_first_reader(cards, name, i),
    ensures
        has_handle(cards.update(i, (cards[i].0, cards[i].1, Some((id, protocol)))), id),
{
    let c2 = cards.update(i, (cards[i].0, cards[i].1, Some((id, protocol))));
    assert(card_has_handle(c2[i], id));
}

/// After `disconnect` drops the only connection through handle id `id`, that
/// handle is dead: TRANSMIT on it answers SCARD_E_INVALID_HANDLE.
pub proof fn lemma_dummy_disconnected_handle_dead(cards: Seq<CardView>, id: u64, i: int)
    requires
        is_first_handle(cards, id, i),
        forall|j: int| 0 <= j < cards.len() && j != i ==> !card_has_handle(#[trigger] cards[j], id),
    ensures
        !has_handle(cards.update(i, (cards[i].0, cards[i].1, None)), id),
{
    let c2 = cards.update(i, (cards[i].0, cards[i].1, None));
    assert forall|j: int| 0 <= j < c2.len() implies !card_has_handle(#[trigger] c2[j], id) by {
        if j != i {
            assert(c2[j] == cards[j]);
        }
    }
}

/// Releasing the context that `establish_context` just added gives back the
/// contexts there were before, when that id was not among them.
pub proof fn lemma_dummy_establish_release_restores(contexts: Set<u64>, id: u64)
    requires
        !contexts.contains(id),
    ensures
        contexts.insert(id).contains(id),
        contexts.insert(id).remove(id) == contexts,
{
    assert(contexts.insert(id).remove(id) =~= contexts);
}

/// In-memory smartcard integration with predefined cards.
#[derive(Debug)]
pub struct DummySmartcardHandle {
    cards: Vec<DummyCard>,
    contexts: HashMap<u64, ScardContext>,
    context_ids: IdCounter,
    handle_ids: IdCounter,
}

impl DummySmartcardHandle {
    /// The cards, in the order they were added.
    pub closed spec fn cards(&self) -> Seq<CardView> {
        self.cards@.map_values(|c: DummyCard| c.view())
    }

    /// The raw ids of the established, not yet released contexts.
    pub closed spec fn contexts(&self) -> Set<u64> {
        self.contexts@.dom()
    }

    /// Where the context id counter stands.
    pub closed spec fn context_counter(&self) -> u64 {
        self.context_ids.position()
    }

    /// Where the card handle id counter stands.
    pub closed spec fn handle_counter(&self) -> u64 {
        self.handle_ids.position()
    }

    /// A dummy with no cards and no contexts.
    pub fn new() -> (d: Self)
        ensures
            d.cards() == Seq::<CardView>::empty(),
            d.contexts() == Set::<u64>::empty(),
            d.context_counter() == 1,
            d.handle_counter() == 1,
    {
        let d = DummySmartcardHandle {
            cards: Vec::new(),
            contexts: HashMap::new(),
            context_ids: IdCounter::new(),
            handle_ids: IdCounter::new(),
        };
        assert(d.cards() =~= Seq::<CardView>::empty());
        d
    }

    /// Put a card with the given ATR into a reader named `reader`.
    pub fn add_card(&mut self, reader: &str, atr: Vec<u8>)
        ensures
            final(self).cards() == old(self).cards().push((reader@, atr@, None)),
            final(self).contexts() == old(self).contexts(),
            final(self).context_counter() == old(self).context_counter(),
            final(self).handle_counter() == old(self).handle_counter(),
    {
        self.cards.push(DummyCard { reader: reader.to_owned(), atr, handle: None });
        assert(self.cards() =~= old(self).cards().push((reader@, atr@, None)));
    }

    /// Index of the first card in the reader named `name`.
    fn find_reader(&self, name: &String) -> (r: Option<usize>)
        ensures
            match r {
                Some(i) => is_first_reader(self.cards(), name@, i as int),
                None => !has_reader(self.cards(), name@),
            },
    {
        let mut i: usize = 0;
        while i < self.cards.len()
            invariant
                i <= self.cards@.len(),
                forall|j: int| 0 <= j < i ==> #[trigger] self.cards()[j].0 != name@,
            decreases self.cards@.len() - i,
        {
            if self.cards[i].reader == *name {
                return Some(i);
            }
            i = i + 1;
        }
        None
    }

    /// Index of the first card connected through the raw handle id `raw`.
    fn find_handle(&self, raw: u64) -> (r: Option<usize>)
        ensures
            match r {
                Some(i) => is_first_handle(self.cards(), raw, i as int),
                None => !has_handle(self.cards(), raw),
            },
    {
        let mut i: usize = 0;
        while i < self.cards.len()
            invariant
                i <= self.cards@.len(),
                forall|j: int| 0 <= j < i ==> !card_has_handle(#[trigger] self.cards()[j], raw),
            decreases self.cards@.len() - i,
        {
            match self.cards[i].handle {
                Some(h) => {
                    if h.raw() == raw {
                        return Some(i);
                    }
                },
                None => {},
            }
            i = i + 1;
        }
        None
    }
}

impl Default for DummySmartcardHandle {
    /// A dummy with no cards and no contexts.
    fn default() -> (d: Self)
        ensures
            d.cards() == Seq::<CardView>::empty(),
            d.contexts() == Set::<u64>::empty(),
            d.context_counter() == 1,
            d.handle_counter() == 1,
    {
        Self::new()
    }
}

impl SmartcardIntegration for DummySmartcardHandle {
    /// Always succeeds with a fresh context, which becomes valid.
    fn establish_context(&mut self, _scope: u32) -> (r: Result<ScardContext, u32>)
        ensures
            r matches Ok(ctx) && ctx@ == spec_next_id(old(self).context_counter()),
            final(self).contexts() == old(self).contexts().insert(spec_next_id(old(self).context_counter())),
            final(self).context_counter() == spec_counter_after(old(self).context_counter()),
            final(self).cards() == old(self).cards(),
            final(self).handle_counter() == old(self).handle_counter(),
    {
        let ctx = ScardContext::new(&mut self.context_ids);
        self.contexts.insert(ctx.raw(), ctx);
        Ok(ctx)
    }

    /// Invalidates a valid context; an unknown one is `SCARD_E_INVALID_HANDLE`.
    fn release_context(&mut self, ctx: &ScardContext) -> (r: Result<(), u32>)
        ensures
            old(self).contexts().contains(ctx@) ==> r == Ok::<(), u32>(()),
            !old(self).contexts().contains(ctx@) ==> r == Err::<(), u32>(SCARD_E_INVALID_HANDLE),
            final(self).contexts() == old(self).contexts().remove(ctx@),
            final(self).cards() == old(self).cards(),
            final(self).context_counter() == old(self).context_counter(),
            final(self).handle_counter() == old(self).handle_counter(),
    {
        let raw = ctx.raw();
        match self.contexts.remove(&raw) {
            Some(_) => Ok(()),
            None => Err(SCARD_E_INVALID_HANDLE),
        }
    }

    fn is_valid_context(&self, ctx: &ScardContext) -> (r: bool)
        ensures
            r == self.contexts().contains(ctx@),
    {
        let raw = ctx.raw();
        self.contexts.contains_key(&raw)
    }

    /// The reader names of all cards, whatever the context or groups.
    fn list_readers(&self, _ctx: &ScardContext, _groups: Option<&[String]>) -> (r: Result<Vec<String>, u32>)
        ensures
            r matches Ok(v) && v@.len() == self.cards().len() && forall|i: int|
                0 <= i < v@.len() ==> #[trigger] v@[i]@ == self.cards()[i].0,
    {
        let mut out: Vec<String> = Vec::new();
        let mut i: usize = 0;
        while i < self.cards.len()
            invariant
                i <= self.cards@.len(),
                out@.len() == i,
                forall|j: int| 0 <= j < i ==> #[trigger] out@[j]@ == self.cards()[j].0,
            decreases self.cards@.len() - i,
        {
            out.push(self.cards[i].reader.clone());
            i = i + 1;
        }
        Ok(out)
    }

    /// Connects to the first card in the named reader with a fresh T=0
    /// handle; an unknown reader is `SCARD_E_UNKNOWN_READER`.
    fn connect(&mut self, _ctx: &ScardContext, reader: &str, _share_mode: u32, _preferred_protocols: u32) -> (r:
        Result<ConnectResult, u32>)
        ensures
            has_reader(old(self).cards(), reader@) ==> (r matches Ok(cr) && {
                let id = spec_next_id(old(self).handle_counter());
                &&& cr.handle@ == (id, SCARD_PROTOCOL_T0)
                &&& cr.active_protocol == SCARD_PROTOCOL_T0
                &&& final(self).handle_counter() == spec_counter_after(old(self).handle_counter())
                &&& exists|i: int|
                    is_first_reader(old(self).cards(), reader@, i) && final(self).cards() == old(self).cards().update(
                        i,
                        (old(self).cards()[i].0, old(self).cards()[i].1, Some((id, SCARD_PROTOCOL_T0))),
                    )
            }),
            !has_reader(old(self).cards(), reader@) ==> {
                &&& r == Err::<ConnectResult, u32>(SCARD_E_UNKNOWN_READER)
                &&& final(self).cards() == old(self).cards()
                &&& final(self).handle_counter() == old(self).handle_counter()
            },
            final(self).contexts() == old(self).contexts(),
            final(self).context_counter() == old(self).context_counter(),
    {
        let name = reader.to_owned();
        match self.find_reader(&name) {
            Some(i) => {
                let handle = ScardHandle::new(&mut self.handle_ids, SCARD_PROTOCOL_T0);
                self.cards[i].handle = Some(handle);
                proof {
                    assert(self.cards() =~= old(self).cards().update(
                        i as int,
                        (old(self).cards()[i as int].0, old(self).cards()[i as int].1, Some(handle@)),
                    ));
                }
                Ok(ConnectResult { handle, active_protocol: SCARD_PROTOCOL_T0 })
            },
            None => Err(SCARD_E_UNKNOWN_READER),
        }
    }

    /// Drops the connection of the first card connected through `handle`;
    /// an unknown handle is `SCARD_E_INVALID_HANDLE`.
    fn disconnect(&mut self, handle: &ScardHandle, _disposition: u32) -> (r: Result<(), u32>)
        ensures
            has_handle(old(self).cards(), handle@.0) ==> {
                &&& r == Ok::<(), u32>(())
                &&& exists|i: int|
                    is_first_handle(old(self).cards(), handle@.0, i) && final(self).cards() == old(self).cards().update(
                        i,
                        (old(self).cards()[i].0, old(self).cards()[i].1, None),
                    )
            },
            !has_handle(old(self).cards(), handle@.0) ==> {
                &&& r == Err::<(), u32>(SCARD_E_INVALID_HANDLE)
                &&& final(self).cards() == old(self).cards()
            },
            final(self).contexts() == old(self).contexts(),
            final(self).context_counter() == old(self).context_counter(),
            final(self).handle_counter() == old(self).handle_counter(),
    {
        match self.find_handle(handle.raw()) {
            Some(i) => {
                self.cards[i].handle = None;
                proof {
                    assert(self.cards() =~= old(self).cards().update(
                        i as int,
                        (old(self).cards()[i as int].0, old(self).cards()[i as int].1, None),
                    ));
                }
                Ok(())
            },
            None => Err(SCARD_E_INVALID_HANDLE),
        }
    }

    /// T=0 for a connected handle, `SCARD_E_INVALID_HANDLE` otherwise.
    fn reconnect(&mut self, handle: &ScardHandle, _share_mode: u32, _preferred_protocols: u32, _initialization: u32) -> (r:
        Result<u32, u32>)
        ensures
            r == (if has_handle(old(self).cards(), handle@.0) {
                Ok::<u32, u32>(SCARD_PROTOCOL_T0)
            } else {
                Err::<u32, u32>(SCARD_E_INVALID_HANDLE)
            }),
            final(self).cards() == old(self).cards(),
            final(self).contexts() == old(self).contexts(),
            final(self).context_counter() == old(self).context_counter(),
            final(self).handle_counter() == old(self).handle_counter(),
    {
        match self.find_handle(handle.raw()) {
            Some(_) => Ok(SCARD_PROTOCOL_T0),
            None => Err(SCARD_E_INVALID_HANDLE),
        }
    }

    /// Answers `90 00` (success) to any APDU on a connected handle.
    fn transmit(&mut self, handle: &ScardHandle, _send_pci: &ScardIORequest, _data: &[u8]) -> (r: Result<
        TransmitResult,
        u32,
    >)
        ensures
            has_handle(old(self).cards(), handle@.0) ==> (r matches Ok(t) && t.recv_pci is None
                && t.recv_buffer@ == seq![0x90u8, 0x00u8]),
            !has_handle(old(self).cards(), handle@.0) ==> (r matches Err(e) && e == SCARD_E_INVALID_HANDLE),
            final(self).cards() == old(self).cards(),
            final(self).contexts() == old(self).contexts(),
            final(self).context_counter() == old(self).context_counter(),
            final(self).handle_counter() == old(self).handle_counter(),
    {
        match self.find_handle(handle.raw()) {
            Some(_) => {
                let buf: Vec<u8> = vec![0x90, 0x00];
                assert(buf@ =~= seq![0x90u8, 0x00u8]);
                Ok(TransmitResult { recv_pci: None, recv_buffer: buf })
            },
            None => Err(SCARD_E_INVALID_HANDLE),
        }
    }

    /// Answers every control code with an empty response.
    fn control(&mut self, _handle: &ScardHandle, _control_code: u32, _in_data: &[u8]) -> (r: Result<Vec<u8>, u32>)
        ensures
            r matches Ok(v) && v@.len() == 0,
            final(self).cards() == old(self).cards(),
            final(self).contexts() == old(self).contexts(),
            final(self).context_counter() == old(self).context_counter(),
            final(self).handle_counter() == old(self).handle_counter(),
    {
        Ok(Vec::new())
    }

    /// The reader, a present-card state, T=0 and the ATR of the first card
    /// connected through `handle`.
    fn status(&self, handle: &ScardHandle) -> (r: Result<ScardStatus, u32>)
        ensures
            has_handle(self.cards(), handle@.0) ==> (r matches Ok(s) && exists|i: int|
                is_first_handle(self.cards(), handle@.0, i) && {
                    &&& s.reader_names@.len() == 1
                    &&& s.reader_names@[0]@ == self.cards()[i].0
                    &&& s.state == SCARD_STATE_PRESENT
                    &&& s.protocol == SCARD_PROTOCOL_T0
                    &&& s.atr@ == self.cards()[i].1
                }),
            !has_handle(self.cards(), handle@.0) ==> (r matches Err(e) && e == SCARD_E_INVALID_HANDLE),
    {
        match self.find_handle(handle.raw()) {
            Some(i) => {
                let card = &self.cards[i];
                let mut names: Vec<String> = Vec::new();
                names.push(card.reader.clone());
                Ok(ScardStatus {
                    reader_names: names,
                    state: SCARD_STATE_PRESENT,
                    protocol: SCARD_PROTOCOL_T0,
                    atr: card.atr.clone(),
                })
            },
            None => Err(SCARD_E_INVALID_HANDLE),
        }
    }

    /// Answers at once, for each watched reader in order: present or empty,
    /// always changed, with the ATR of the card in it.
    #[verifier::spinoff_prover]
    fn get_status_change(&mut self, _ctx: &ScardContext, _timeout_ms: u64, reader_states: &[ReaderStateIn]) -> (r:
        Result<Vec<ReaderStateOut>, u32>)
        ensures
            r matches Ok(v) && v@.len() == reader_states@.len() && forall|i: int|
                0 <= i < v@.len() ==> {
                    &&& #[trigger] v@[i].reader_name@ == reader_states@[i].reader_name@
                    &&& v@[i].event_state == spec_event_state(old(self).cards(), reader_states@[i].reader_name@)
                    &&& v@[i].atr@ == spec_reader_atr(old(self).cards(), reader_states@[i].reader_name@)
                },
            final(self).cards() == old(self).cards(),
            final(self).contexts() == old(self).contexts(),
            final(self).context_counter() == old(self).context_counter(),
            final(self).handle_counter() == old(self).handle_counter(),
    {
        let mut out: Vec<ReaderStateOut> = Vec::new();
        let mut k: usize = 0;
        while k < reader_states.len()
            invariant
                k <= reader_states@.len(),
                out@.len() == k,
                self.cards() == old(self).cards(),
                self.contexts() == old(self).contexts(),
                self.context_counter() == old(self).context_counter(),
                self.handle_counter() == old(self).handle_counter(),
                forall|i: int|
                    0 <= i < k ==> {
                        &&& #[trigger] out@[i].reader_name@ == reader_states@[i].reader_name@
                        &&& out@[i].event_state == spec_event_state(self.cards(), reader_states@[i].reader_name@)
                        &&& out@[i].atr@ == spec_reader_atr(self.cards(), reader_states@[i].reader_name@)
                    },
            decreases reader_states@.len() - k,
        {
            let rs = &reader_states[k];
            let (event_state, atr) = match self.find_reader(&rs.reader_name) {
                Some(i) => {
                    proof {
                        let c = choose|c: int| is_first_reader(self.cards(), rs.reader_name@, c);
                        assert(c == i as int) by {
                            if c < i as int {
                                assert(self.cards()[c].0 != rs.reader_name@);
                            } else if c > i as int {
                                assert(self.cards()[i as int].0 != rs.reader_name@);
                            }
                        }
                    }
                    (SCARD_STATE_PRESENT | SCARD_STATE_CHANGED, self.cards[i].atr.clone())
                },
                None => (SCARD_STATE_EMPTY | SCARD_STATE_CHANGED, Vec::new()),
            };
            let ghost prev = out@;
            let entry = ReaderStateOut { reader_name: rs.reader_name.clone(), event_state, atr };
            assert(event_state == spec_event_state(self.cards(), reader_states@[k as int].reader_name@));
            assert(entry.atr@ == spec_reader_atr(self.cards(), reader_states@[k as int].reader_name@));
            out.push(entry);
            assert forall|i: int| 0 <= i < k implies #[trigger] out@[i] == prev[i] by {}
            k = k + 1;
        }
        Ok(out)
    }

    fn begin_transaction(&mut self, _handle: &ScardHandle) -> (r: Result<(), u32>)
        ensures
            r == Ok::<(), u32>(()),
            final(self).cards() == old(self).cards(),
            final(self).contexts() == old(self).contexts(),
            final(self).context_counter() == old(self).context_counter(),
            final(self).handle_counter() == old(self).handle_counter(),
    {
        Ok(())
    }

    fn end_transaction(&mut self, _handle: &ScardHandle, _disposition: u32) -> (r: Result<(), u32>)
        ensures
            r == Ok::<(), u32>(()),
            final(self).cards() == old(self).cards(),
            final(self).contexts() == old(self).contexts(),
            final(self).context_counter() == old(self).context_counter(),
            final(self).handle_counter() == old(self).handle_counter(),
    {
        Ok(())
    }

    /// Every attribute reads as the single byte 0.
    fn get_attrib(&self, _handle: &ScardHandle, _attr_id: u32) -> (r: Result<Vec<u8>, u32>)
        ensures
            r matches Ok(v) && v@ == seq![0u8],
    {
        let v: Vec<u8> = vec![0x00];
        assert(v@ =~= seq![0u8]);
        Ok(v)
    }

    fn set_attrib(&mut self, _handle: &ScardHandle, _attr_id: u32, _data: &[u8]) -> (r: Result<(), u32>)
        ensures
            r == Ok::<(), u32>(()),
            final(self).cards() == old(self).cards(),
            final(self).contexts() == old(self).contexts(),
            final(self).context_counter() == old(self).context_counter(),
            final(self).handle_counter() == old(self).handle_counter(),
    {
        Ok(())
    }

    fn is_available(&self) -> (r: bool)
        ensures
            r,
    {
        true
    }
}

} // verus!
