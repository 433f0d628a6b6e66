//! Live subscribers of each submission. Every subscription owns a slot
//! whose index never changes; a subscriber that goes away leaves a
//! tombstone (`None`) behind, so that indices handed out stay valid.
use std::collections::HashMap;
use vstd::prelude::*;

verus! {

broadcast use vstd::std_specs::hash::group_hash_axioms;

/// The slots of submission `id`; an id nobody subscribed to has none.
pub open spec fn slots_of<S>(m: Map<u128, Seq<Option<S>>>, id: u128) -> Seq<Option<S>> {
    if m.contains_key(id) {
        m[id]
    } else {
        Seq::empty()
    }
}

/// The registry after a new subscription of `sink` to `id`.
pub open spec fn subscribed<S>(m: Map<u128, Seq<Option<S>>>, id: u128, sink: S) -> Map<
    u128,
    Seq<Option<S>>,
> {
    m.insert(id, slots_of(m, id).push(Some(sink)))
}

/// The registry after slot `k` of `id` became a tombstone; unchanged when
/// there is no such slot.
pub open spec fn unsubscribed<S>(m: Map<u128, Seq<Option<S>>>, id: u128, k: int) -> Map<
    u128,
    Seq<Option<S>>,
> {
    if 0 <= k < slots_of(m, id).len() {
        m.insert(id, m[id].update(k, None))
    } else {
        m
    }
}

/// The registry after every slot of `id` became a tombstone.
pub open spec fn closed<S>(m: Map<u128, Seq<Option<S>>>, id: u128) -> Map<u128, Seq<Option<S>>> {
    if m.contains_key(id) {
        m.insert(id, Seq::new(m[id].len(), |i: int| None::<S>))
    } else {
        m
    }
}

/// Indices of the active slots, in increasing order.
pub open spec fn active_indices<S>(slots: Seq<Option<S>>) -> Seq<usize>
    decreases slots.len(),
{
    if slots.len() == 0 {
        Seq::empty()
    } else {
        let rest = active_indices(slots.drop_last());
        if slots.last() is Some {
            rest.push((slots.len() - 1) as usize)
        } else {
            rest
        }
    }
}

/// The sinks of the active slots, in slot order.
pub open spec fn active_sinks<S>(slots: Seq<Option<S>>) -> Seq<S>
    decreases slots.len(),
{
    if slots.len() == 0 {
        Seq::empty()
    } else {
        let rest = active_sinks(slots.drop_last());
        match slots.last() {
            Some(x) => rest.push(x),
            None => rest,
        }
    }
}

proof fn lemma_active_indices_bounded<S>(slots: Seq<Option<S>>)
    requires
        slots.len() <= usize::MAX,
    ensures
        forall|j: int|
            0 <= j < active_indices(slots).len() ==> #[trigger] active_indices(slots)[j]
                < slots.len(),
    decreases slots.len(),
{
    if slots.len() > 0 {
        let pre = slots.drop_last();
        lemma_active_indices_bounded(pre);
        let ri = active_indices(pre);
        if slots.last() is Some {
            assert(active_indices(slots) == ri.push((slots.len() - 1) as usize));
            assert forall|j: int| 0 <= j < active_indices(slots).len() implies #[trigger] active_indices(slots)[j]
                < slots.len() by {
                if j < ri.len() {
                    assert(active_indices(slots)[j] == ri[j]);
                }
            }
        }
    }
}

/// Delivery of a final snapshot reaches every live subscriber: an index is
/// listed as active exactly when its slot holds a sink, and closing the
/// entry hands out the sink of each listed slot, in slot order, leaving only
/// tombstones behind.
pub proof fn law_close_reaches_every_active<S>(m: Map<u128, Seq<Option<S>>>, id: u128)
    requires
        slots_of(m, id).len() <= usize::MAX,
    ensures
        forall|k: usize|
            (k < slots_of(m, id).len() && slots_of(m, id)[k as int] is Some)
                <==> #[trigger] active_indices(slots_of(m, id)).contains(k),
        active_sinks(slots_of(m, id)) == active_indices(slots_of(m, id)).map_values(
            |k: usize| slots_of(m, id)[k as int]->Some_0,
        ),
        slots_of(closed(m, id), id).len() == slots_of(m, id).len(),
        forall|k: int|
            0 <= k < slots_of(m, id).len() ==> #[trigger] slots_of(closed(m, id), id)[k] is None,
        forall|other: u128| other != id ==> #[trigger] slots_of(closed(m, id), other) == slots_of(m, other),
{
    lemma_active_slots_exact(slots_of(m, id));
}

proof fn lemma_active_slots_exact<S>(slots: Seq<Option<S>>)
    requires
        slots.len() <= usize::MAX,
    ensures
        forall|k: usize|
            (k < slots.len() && slots[k as int] is Some) <==> #[trigger] active_indices(
                slots,
            ).contains(k),
        active_sinks(slots) == active_indices(slots).map_values(|k: usize| slots[k as int]->Some_0),
    decreases slots.len(),
{
    if slots.len() > 0 {
        let pre = slots.drop_last();
        let last = (slots.len() - 1) as usize;
        lemma_active_slots_exact(pre);
        lemma_active_indices_bounded(pre);
        let ri = active_indices(pre);
        let ai = active_indices(slots);
        assert forall|k: usize|
            (k < slots.len() && slots[k as int] is Some) <==> #[trigger] ai.contains(k) by {
            if k < pre.len() {
                assert(pre[k as int] == slots[k as int]);
            }
            if ai.contains(k) {
                let j = choose|j: int| 0 <= j < ai.len() && ai[j] == k;
                if j < ri.len() {
                    assert(ri[j] == k);
                    assert(ri.contains(k));
                } else {
                    assert(slots.last() is Some && k == last);
                }
            }
            if k < slots.len() && slots[k as int] is Some {
                if k == last {
                    assert(ai[ri.len() as int] == k);
                } else {
                    assert(ri.contains(k));
                    let j = choose|j: int| 0 <= j < ri.len() && ri[j] == k;
                    assert(ai[j] == k);
                }
            }
        }
        let f = |k: usize| slots[k as int]->Some_0;
        let g = |k: usize| pre[k as int]->Some_0;
        assert forall|j: int| 0 <= j < ri.len() implies #[trigger] ri.map_values(f)[j]
            == ri.map_values(g)[j] by {
            assert(ri[j] < pre.len());
        }
        assert(ri.map_values(f) =~= ri.map_values(g));
        if slots.last() is Some {
            assert(ai.map_values(f) =~= ri.map_values(f).push(slots.last()->Some_0));
        } else {
            assert(ai.map_values(f) =~= ri.map_values(f));
        }
    } else {
        assert(active_indices(slots).map_values(|k: usize| slots[k as int]->Some_0) =~= Seq::empty());
    }
}

/// A slot keeps its index and its content for as long as the subscription
/// lives: new subscriptions, to any id, and tombstones of other slots leave
/// it untouched, and tombstoning it always takes effect.
pub proof fn law_slot_stable<S>(
    m: Map<u128, Seq<Option<S>>>,
    id: u128,
    k: int,
    other: u128,
    sink: S,
    j: int,
)
    requires
        0 <= k < slots_of(m, id).len(),
    ensures
        k < slots_of(subscribed(m, other, sink), id).len(),
        slots_of(subscribed(m, other, sink), id)[k] == slots_of(m, id)[k],
        (other != id || j != k) ==> k < slots_of(unsubscribed(m, other, j), id).len()
            && slots_of(unsubscribed(m, other, j), id)[k] == slots_of(m, id)[k],
        slots_of(unsubscribed(m, id, k), id)[k] is None,
{
}

/// For each submission id, the ordered slots of its subscribers.
pub struct Registry<S> {
    slots: HashMap<u128, Vec<Option<S>>>,
}

impl<S> View for Registry<S> {
    type V = Map<u128, Seq<Option<S>>>;

    closed spec fn view(&self) -> Map<u128, Seq<Option<S>>> {
        self.slots@.map_values(|v: Vec<Option<S>>| v@)
    }
}

impl<S> Registry<S> {
    pub fn new() -> (r: Registry<S>)
        ensures
            r@ == Map::<u128, Seq<Option<S>>>::empty(),
    {
        let r = Registry { slots: HashMap::new() };
        assert(r@ =~= Map::<u128, Seq<Option<S>>>::empty());
        r
    }

    /// Adds an active slot holding `sink` at the end of the slots of `id`,
    /// creating the entry if needed, and returns its index.
    pub fn subscribe(&mut self, id: u128, sink: S) -> (k: usize)
        ensures
            k == slots_of(old(self)@, id).len(),
            final(self)@ == subscribed(old(self)@, id, sink),
    {
        let mut v = match self.slots.remove(&id) {
            Some(v) => v,
            None => Vec::new(),
        };
        let k = v.len();
        v.push(Some(sink));
        self.slots.insert(id, v);
        assert(self@ =~= old(self)@.insert(id, slots_of(old(self)@, id).push(Some(sink))));
        k
    }

    /// Turns slot `k` of `id` into a tombstone. An unknown id or index
    /// leaves the registry unchanged.
    pub fn unsubscribe(&mut self, id: u128, k: usize)
        ensures
            final(self)@ == unsubscribed(old(self)@, id, k as int),
    {
        match self.slots.remove(&id) {
            Some(mut v) => {
                if k < v.len() {
                    v.set(k, None);
                }
                self.slots.insert(id, v);
                proof {
                    if k < slots_of(old(self)@, id).len() {
                        assert(self@ =~= old(self)@.insert(
                            id,
                            old(self)@[id].update(k as int, None),
                        ));
                    } else {
                        assert(self@ =~= old(self)@);
                    }
                }
            },
            None => {},
        }
    }

    /// The indices of the active slots of `id`, in increasing order.
    pub fn active_slots(&self, id: u128) -> (r: Vec<usize>)
        ensures
            r@ == active_indices(slots_of(self@, id)),
    {
        let mut r: Vec<usize> = Vec::new();
        match self.slots.get(&id) {
            Some(v) => {
                let mut i: usize = 0;
                while i < v.len()
                    invariant
                        i <= v@.len(),
                        v@ == slots_of(self@, id),
                        r@ == active_indices(v@.take(i as int)),
                    decreases v.len() - i,
                {
                    assert(v@.take(i + 1).drop_last() =~= v@.take(i as int));
                    if v[i].is_some() {
                        r.push(i);
                    }
                    i = i + 1;
                }
                assert(v@.take(i as int) =~= v@);
            },
            None => {},
        }
        r
    }

    /// The sink of slot `k` of `id`, if that slot is active.
    pub fn sink(&self, id: u128, k: usize) -> (r: Option<&S>)
        ensures
            match r {
                Some(x) => k < slots_of(self@, id).len() && slots_of(self@, id)[k as int] == Some(
                    *x,
                ),
                None => !(k < slots_of(self@, id).len() && slots_of(self@, id)[k as int] is Some),
            },
    {
        match self.slots.get(&id) {
            Some(v) => {
                if k < v.len() {
                    match &v[k] {
                        Some(x) => Some(x),
                        None => None,
                    }
                } else {
                    None
                }
            },
            None => None,
        }
    }

    /// Hands out the sinks of all active slots of `id`, in slot order, and
    /// leaves every slot of `id` a tombstone. Used once the snapshot of `id`
    /// is final: each sink gets that snapshot and is then dropped.
    pub fn close(&mut self, id: u128) -> (r: Vec<S>)
        ensures
            r@ == active_sinks(slots_of(old(self)@, id)),
            final(self)@ == closed(old(self)@, id),
    {
        let mut r: Vec<S> = Vec::new();
        match self.slots.remove(&id) {
            Some(mut v) => {
                let ghost orig = v@;
                let mut i: usize = 0;
                while i < v.len()
                    invariant
                        i <= v@.len(),
                        v@.len() == orig.len(),
                        orig == slots_of(old(self)@, id),
                        forall|j: int| 0 <= j < i ==> v@[j] is None,
                        forall|j: int| i <= j < v@.len() ==> v@[j] == orig[j],
                        r@ == active_sinks(orig.take(i as int)),
                    decreases v.len() - i,
                {
                    assert(orig.take(i + 1).drop_last() =~= orig.take(i as int));
                    let mut taken: Option<S> = None;
                    v.set_and_swap(i, &mut taken);
                    match taken {
                        Some(x) => {
                            r.push(x);
                        },
                        None => {},
                    }
                    i = i + 1;
                }
                assert(orig.take(i as int) =~= orig);
                self.slots.insert(id, v);
                assert(v@ =~= Seq::new(orig.len(), |i: int| None::<S>));
                assert(self@ =~= old(self)@.insert(
                    id,
                    Seq::new(old(self)@[id].len(), |i: int| None::<S>),
                ));
            },
            None => {},
        }
        r
    }
}

} // verus!
