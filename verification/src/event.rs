//! The event bus: a registry mapping an event-type tag to an ordered list
//! of listeners.
//!
//! The bus itself is pure bookkeeping and is fully specified: registration
//! preserves order, a dispatch plan lists the fire-and-forget and the
//! awaited listeners of a tag in registration order, and the aggregation of
//! awaited results is last-write-wins. Invoking the handlers — asynchronous
//! work — is the caller's: it holds the handler closures under the `usize`
//! handles registered here and runs the plan.

use vstd::prelude::*;

use crate::player::{state_id, State};

verus! {

/// Marks a type as an event payload; the bus itself tracks events by their
/// numeric tag.
pub trait Event {

}

/// One registered listener: its mode — `lazy` listeners are spawned and
/// forgotten, the rest are awaited in order — and the caller's handle for
/// the handler to invoke.
#[derive(Clone, Copy, PartialEq, Eq, Structural, Debug)]
pub struct ListenerEntry {
    pub lazy: bool,
    pub handler: usize,
}

/// The listeners registered for one event-type tag, in registration order.
pub struct EventListeners {
    pub tag: u64,
    pub entries: Vec<ListenerEntry>,
}

/// Looks a tag up in a row list: the first row with the tag, or no
/// listeners at all.
pub open spec fn lookup_listeners(rows: Seq<EventListeners>, tag: u64) -> Seq<ListenerEntry>
    decreases rows.len(),
{
    if rows.len() == 0 {
        Seq::<ListenerEntry>::empty()
    } else if rows[0].tag == tag {
        rows[0].entries@
    } else {
        lookup_listeners(rows.drop_first(), tag)
    }
}

proof fn lemma_lookup_found(rows: Seq<EventListeners>, i: int, tag: u64)
    requires
        0 <= i < rows.len(),
        rows[i].tag == tag,
        forall|k: int| 0 <= k < i ==> rows[k].tag != tag,
    ensures
        lookup_listeners(rows, tag) == rows[i].entries@,
    decreases i,
{
    if i > 0 {
        lemma_lookup_found(rows.drop_first(), i - 1, tag);
    }
}

proof fn lemma_lookup_update(rows: Seq<EventListeners>, i: int, row: EventListeners, tag: u64)
    requires
        0 <= i < rows.len(),
        rows[i].tag == tag,
        row.tag == tag,
        forall|k: int| 0 <= k < i ==> rows[k].tag != tag,
    ensures
        lookup_listeners(rows.update(i, row), tag) == row.entries@,
        forall|t2: u64|
            t2 != tag ==> lookup_listeners(rows.update(i, row), t2) == lookup_listeners(rows, t2),
    decreases i,
{
    let updated = rows.update(i, row);
    if i == 0 {
        assert(updated.drop_first() =~= rows.drop_first());
        assert forall|t2: u64| t2 != tag implies lookup_listeners(updated, t2)
            == lookup_listeners(rows, t2) by {
            assert(lookup_listeners(updated, t2) == lookup_listeners(updated.drop_first(), t2));
            assert(lookup_listeners(rows, t2) == lookup_listeners(rows.drop_first(), t2));
        }
    } else {
        lemma_lookup_update(rows.drop_first(), i - 1, row, tag);
        assert(updated.drop_first() =~= rows.drop_first().update(i - 1, row));
        assert(updated[0] == rows[0]);
        assert forall|t2: u64| t2 != tag implies lookup_listeners(updated, t2)
            == lookup_listeners(rows, t2) by {
            if rows[0].tag != t2 {
                assert(lookup_listeners(updated, t2) == lookup_listeners(
                    updated.drop_first(),
                    t2,
                ));
                assert(lookup_listeners(rows, t2) == lookup_listeners(rows.drop_first(), t2));
            }
        }
    }
}

proof fn lemma_lookup_push(rows: Seq<EventListeners>, row: EventListeners)
    ensures
        forall|t2: u64|
            t2 != row.tag ==> lookup_listeners(rows.push(row), t2) == lookup_listeners(rows, t2),
        (forall|k: int| 0 <= k < rows.len() ==> (#[trigger] rows[k]).tag != row.tag)
            ==> lookup_listeners(rows.push(row), row.tag) == row.entries@,
    decreases rows.len(),
{
    let pushed = rows.push(row);
    if rows.len() == 0 {
        assert(pushed[0] == row);
        assert(pushed.drop_first() =~= Seq::<EventListeners>::empty());
        assert forall|t2: u64| t2 != row.tag implies lookup_listeners(pushed, t2)
            == lookup_listeners(rows, t2) by {
            assert(lookup_listeners(pushed, t2) == lookup_listeners(pushed.drop_first(), t2));
        }
    } else {
        lemma_lookup_push(rows.drop_first(), row);
        assert(pushed[0] == rows[0]);
        assert(pushed.drop_first() =~= rows.drop_first().push(row));
        assert forall|t2: u64| t2 != row.tag implies lookup_listeners(pushed, t2)
            == lookup_listeners(rows, t2) by {
            if rows[0].tag != t2 {
                assert(lookup_listeners(pushed, t2) == lookup_listeners(pushed.drop_first(), t2));
                assert(lookup_listeners(rows, t2) == lookup_listeners(rows.drop_first(), t2));
            }
        }
        if forall|k: int| 0 <= k < rows.len() ==> (#[trigger] rows[k]).tag != row.tag {
            assert(forall|k2: int|
                0 <= k2 < rows.drop_first().len() ==> (#[trigger] rows.drop_first()[k2]).tag
                    != row.tag);
            assert(rows[0].tag != row.tag);
            assert(lookup_listeners(pushed, row.tag) == lookup_listeners(
                pushed.drop_first(),
                row.tag,
            ));
        }
    }
}

/// The handler plan of a listener list for one mode: the handlers of every
/// entry whose `lazy` flag equals `lazy`, in registration order.
pub open spec fn plan_of(entries: Seq<ListenerEntry>, lazy: bool) -> Seq<usize>
    decreases entries.len(),
{
    if entries.len() == 0 {
        Seq::<usize>::empty()
    } else {
        let rest = plan_of(entries.drop_first(), lazy);
        if entries[0].lazy == lazy {
            seq![entries[0].handler] + rest
        } else {
            rest
        }
    }
}

proof fn lemma_plan_of_snoc(entries: Seq<ListenerEntry>, i: int, lazy: bool)
    requires
        0 <= i < entries.len(),
    ensures
        plan_of(entries.take(i + 1), lazy) == if entries[i].lazy == lazy {
            plan_of(entries.take(i), lazy).push(entries[i].handler)
        } else {
            plan_of(entries.take(i), lazy)
        },
    decreases i,
{
    assert(plan_of(Seq::<ListenerEntry>::empty(), lazy) == Seq::<usize>::empty());
    if i == 0 {
        let single = entries.take(1);
        assert(single.drop_first() =~= Seq::<ListenerEntry>::empty());
        assert(single[0] == entries[0]);
        assert(plan_of(single, lazy) == if entries[0].lazy == lazy {
            seq![entries[0].handler] + Seq::<usize>::empty()
        } else {
            Seq::<usize>::empty()
        });
        assert(entries.take(0) =~= Seq::<ListenerEntry>::empty());
        assert(seq![entries[0].handler] + Seq::<usize>::empty() =~= Seq::<
            usize,
        >::empty().push(entries[0].handler));
    } else {
        lemma_plan_of_snoc(entries.drop_first(), i - 1, lazy);
        assert(entries.take(i + 1).drop_first() =~= entries.drop_first().take(i));
        assert(entries.take(i).drop_first() =~= entries.drop_first().take(i - 1));
        assert(entries.take(i + 1)[0] == entries[0] && entries.take(i)[0] == entries[0]);
        assert(entries.drop_first()[i - 1] == entries[i]);
        if entries[i].lazy == lazy {
            assert(seq![entries[0].handler] + plan_of(entries.drop_first().take(i - 1), lazy).push(
                entries[i].handler,
            ) =~= (seq![entries[0].handler] + plan_of(entries.drop_first().take(i - 1), lazy)).push(
                entries[i].handler,
            ));
        }
    }
}

/// The process-wide registry mapping each event-type tag to its ordered
/// listener list.
pub struct EventBus {
    listeners: Vec<EventListeners>,
}

impl Default for EventBus {
    /// A bus with no listeners registered for any tag.
    fn default() -> (r: Self)
        ensures
            forall|tag: u64| #[trigger] r.spec_listeners(tag) == Seq::<ListenerEntry>::empty(),
    {
        EventBus { listeners: Vec::new() }
    }
}

impl EventBus {
    /// The listeners registered for `tag`, in registration order.
    pub closed spec fn spec_listeners(self, tag: u64) -> Seq<ListenerEntry> {
        lookup_listeners(self.listeners@, tag)
    }

    /// The first row that holds `tag`, if one exists.
    fn find_row(&self, tag: u64) -> (r: Option<usize>)
        ensures
            match r {
                Some(i) => (i < self.listeners@.len() && self.listeners@[i as int].tag == tag
                    && forall|k: int| 0 <= k < i ==> self.listeners@[k].tag != tag),
                None => forall|k: int|
                    0 <= k < self.listeners@.len() ==> (#[trigger] self.listeners@[k]).tag != tag,
            },
    {
        let mut i: usize = 0;
        loop
            invariant
                i <= self.listeners@.len(),
                forall|k: int| 0 <= k < i ==> (#[trigger] self.listeners@[k]).tag != tag,
            decreases self.listeners@.len() - i,
        {
            if i >= self.listeners.len() {
                return None;
            }
            if self.listeners[i].tag == tag {
                return Some(i);
            }
            i = i + 1;
        }
    }

    /// Registers a handler for `tag`: appended to that tag's list — order of
    /// registration is preserved and defines dispatch order for awaited
    /// listeners — leaving every other tag's list untouched. `lazy`
    /// listeners will be spawned and forgotten; the rest are awaited.
    pub fn listen(&mut self, tag: u64, lazy: bool, handler: usize)
        ensures
            final(self).spec_listeners(tag) == old(self).spec_listeners(tag).push(
                ListenerEntry { lazy, handler },
            ),
            forall|t2: u64|
                t2 != tag ==> #[trigger] final(self).spec_listeners(t2) == old(
                    self,
                ).spec_listeners(t2),
    {
        let entry = ListenerEntry { lazy, handler };
        match self.find_row(tag) {
            Some(i) => {
                let ghost rows = self.listeners@;
                proof {
                    lemma_lookup_found(rows, i as int, tag);
                }
                let row = vstd::std_specs::vec::vec_index_mut(&mut self.listeners, i);
                row.entries.push(entry);
                proof {
                    let new_rows = self.listeners@;
                    assert(new_rows[i as int].tag == tag);
                    assert(new_rows[i as int].entries@ == rows[i as int].entries@.push(entry));
                    lemma_lookup_update(rows, i as int, new_rows[i as int], tag);
                }
            },
            None => {
                let ghost rows = self.listeners@;
                let mut entries: Vec<ListenerEntry> = Vec::new();
                entries.push(entry);
                let row = EventListeners { tag, entries };
                self.listeners.push(row);
                proof {
                    lemma_lookup_push(rows, row);
                    assert(lookup_listeners(rows, tag) == Seq::<ListenerEntry>::empty()) by {
                        lemma_lookup_none(rows, tag);
                    }
                    assert(row.entries@ =~= Seq::<ListenerEntry>::empty().push(entry));
                }
            },
        }
    }

    /// The listeners a dispatch of `tag` must consider, in registration
    /// order.
    pub fn listeners_for(&self, tag: u64) -> (r: Vec<ListenerEntry>)
        ensures
            r@ == self.spec_listeners(tag),
    {
        let mut result: Vec<ListenerEntry> = Vec::new();
        match self.find_row(tag) {
            None => {
                proof {
                    lemma_lookup_none(self.listeners@, tag);
                }
            },
            Some(i) => {
                proof {
                    lemma_lookup_found(self.listeners@, i as int, tag);
                }
                let mut j: usize = 0;
                loop
                    invariant
                        i < self.listeners@.len(),
                        self.listeners@[i as int].entries@ == self.spec_listeners(tag),
                        j <= self.spec_listeners(tag).len(),
                        result@ == self.spec_listeners(tag).take(j as int),
                    ensures
                        result@ == self.spec_listeners(tag),
                    decreases self.spec_listeners(tag).len() - j,
                {
                    let entries = &self.listeners[i].entries;
                    if j >= entries.len() {
                        proof {
                            assert(self.spec_listeners(tag).take(j as int) =~= self.spec_listeners(
                                tag,
                            ));
                        }
                        break ;
                    }
                    result.push(entries[j]);
                    proof {
                        assert(result@ =~= self.spec_listeners(tag).take(j + 1));
                    }
                    j = j + 1;
                }
            },
        }
        result
    }

    /// The dispatch plan of `tag`: the handlers to spawn and forget, and the
    /// handlers to await strictly in registration order. The caller runs the
    /// plan; awaiting in the returned order is what makes one listener's
    /// effects complete before the next awaited one begins.
    pub fn dispatch_plan(&self, tag: u64) -> (r: (Vec<usize>, Vec<usize>))
        ensures
            r.0@ == plan_of(self.spec_listeners(tag), true),
            r.1@ == plan_of(self.spec_listeners(tag), false),
    {
        let entries = self.listeners_for(tag);
        let mut spawned: Vec<usize> = Vec::new();
        let mut awaited: Vec<usize> = Vec::new();
        let mut j: usize = 0;
        proof {
            assert(entries@.take(0) =~= Seq::<ListenerEntry>::empty());
            assert(plan_of(Seq::<ListenerEntry>::empty(), true) == Seq::<usize>::empty());
            assert(plan_of(Seq::<ListenerEntry>::empty(), false) == Seq::<usize>::empty());
        }
        loop
            invariant
                j <= entries@.len(),
                spawned@ == plan_of(entries@.take(j as int), true),
                awaited@ == plan_of(entries@.take(j as int), false),
            ensures
                spawned@ == plan_of(entries@, true),
                awaited@ == plan_of(entries@, false),
            decreases entries@.len() - j,
        {
            if j >= entries.len() {
                proof {
                    assert(entries@.take(j as int) =~= entries@);
                }
                break ;
            }
            let entry = entries[j];
            if entry.lazy {
                spawned.push(entry.handler);
            } else {
                awaited.push(entry.handler);
            }
            proof {
                lemma_plan_of_snoc(entries@, j as int, true);
                lemma_plan_of_snoc(entries@, j as int, false);
            }
            j = j + 1;
        }
        (spawned, awaited)
    }
}

proof fn lemma_lookup_none(rows: Seq<EventListeners>, tag: u64)
    requires
        forall|k: int| 0 <= k < rows.len() ==> (#[trigger] rows[k]).tag != tag,
    ensures
        lookup_listeners(rows, tag) == Seq::<ListenerEntry>::empty(),
    decreases rows.len(),
{
    if rows.len() > 0 {
        lemma_lookup_none(rows.drop_first(), tag);
    }
}

// ---------------------------------------------------------------------------
// Result aggregation
// ---------------------------------------------------------------------------

/// Last-write-wins over a run of awaited results: the value of the last
/// listener that yielded one, or nothing if none did.
pub open spec fn spec_last_some<R>(results: Seq<Option<R>>) -> Option<R>
    decreases results.len(),
{
    if results.len() == 0 {
        None
    } else if results.last() is Some {
        results.last()
    } else {
        spec_last_some(results.drop_last())
    }
}

/// Aggregates awaited listeners' results, given in registration order:
/// each value yielded overwrites the one before it, so the last listener to
/// yield a value wins.
pub fn last_some<R>(results: Vec<Option<R>>) -> (r: Option<R>)
    ensures
        r == spec_last_some(results@),
{
    let mut rest = results;
    loop
        invariant
            spec_last_some(results@) == spec_last_some(rest@),
        decreases rest@.len(),
    {
        match rest.pop() {
            None => {
                return None;
            },
            Some(opt) => match opt {
                Some(v) => {
                    return Some(v);
                },
                None => {},
            },
        }
    }
}

/// Later awaited listeners win: when listener `i` yields a value and every
/// listener after it yields none, the aggregate is listener `i`'s value —
/// so with listeners registered in order, the final result is the last
/// yielded value.
pub proof fn lemma_last_some_overrides<R>(results: Seq<Option<R>>, i: int)
    requires
        0 <= i < results.len(),
        results[i] is Some,
        forall|j: int| i < j < results.len() ==> results[j] is None,
    ensures
        spec_last_some(results) == results[i],
    decreases results.len(),
{
    if i == results.len() - 1 {
    } else {
        lemma_last_some_overrides(results.drop_last(), i);
    }
}

// ---------------------------------------------------------------------------
// Packet events
// ---------------------------------------------------------------------------

/// The event-type tag published when the packet with `packet_id` arrives in
/// `state`: the packet-arrival events are scoped by state and packet type,
/// exactly as the read loop's table — the Handshake packet, the status
/// request, the login start and the login acknowledgement each have one;
/// other packets publish no event.
pub open spec fn spec_packet_event_tag(state: State, packet_id: u32) -> Option<u64> {
    match state {
        State::Handshake => if packet_id == 0 {
            Some((state_id(state) * 0x100 + packet_id) as u64)
        } else {
            None
        },
        State::Status => if packet_id == 0 {
            Some((state_id(state) * 0x100 + packet_id) as u64)
        } else {
            None
        },
        State::Login => if packet_id == 0 || packet_id == 3 {
            Some((state_id(state) * 0x100 + packet_id) as u64)
        } else {
            None
        },
        _ => None,
    }
}

/// Computes the event-type tag for a packet arrival, as the table above.
pub fn packet_event_tag(state: &State, packet_id: u32) -> (r: Option<u64>)
    ensures
        r == spec_packet_event_tag(*state, packet_id),
{
    match state {
        State::Handshake => {
            if packet_id == 0 {
                Some((state.id() * 0x100 + packet_id) as u64)
            } else {
                None
            }
        },
        State::Status => {
            if packet_id == 0 {
                Some((state.id() * 0x100 + packet_id) as u64)
            } else {
                None
            }
        },
        State::Login => {
            if packet_id == 0 || packet_id == 3 {
                Some((state.id() * 0x100 + packet_id) as u64)
            } else {
                None
            }
        },
        State::Configuration => None,
        State::Play => None,
        State::Transfer => None,
    }
}

} // verus!
