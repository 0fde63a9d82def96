//! The event bus: registered hats, their pending-event queues, and routing.

use crate::event::{event_views, Event, EventView};
use crate::hat::{subscribed, Hat, HatId, HatView};
use vstd::prelude::*;

verus! {

/// The id of the coordinator hat, which is always registered.
pub open spec fn coordinator_id() -> Seq<char> {
    "ralph"@
}

/// Whether `id` names the coordinator hat.
pub fn is_coordinator(id: &HatId) -> (r: bool)
    ensures
        r == (id@ == coordinator_id()),
{
    HatId::new("ralph").same(id)
}

/// Whether publishing `e` puts it in the queue of `h`: a directed event goes to its
/// target only; any other goes to every hat that subscribes to its topic, except the
/// hat that sent it.
pub open spec fn delivers(h: HatView, e: EventView) -> bool {
    match e.target {
        Some(t) => h.id == t,
        None => e.source != Some(h.id) && subscribed(h.subscriptions, e.topic),
    }
}

/// The ids of the hats that receive `e`, in registration order.
pub open spec fn recipients(hats: Seq<HatView>, e: EventView) -> Seq<Seq<char>>
    decreases hats.len(),
{
    if hats.len() == 0 {
        Seq::empty()
    } else {
        let init = recipients(hats.drop_last(), e);
        if delivers(hats.last(), e) {
            init.push(hats.last().id)
        } else {
            init
        }
    }
}

/// The queues after `e` is published.
pub open spec fn published(
    hats: Seq<HatView>,
    queues: Seq<Seq<EventView>>,
    e: EventView,
) -> Seq<Seq<EventView>> {
    Seq::new(
        queues.len(),
        |i: int|
            if delivers(hats[i], e) {
                queues[i].push(e)
            } else {
                queues[i]
            },
    )
}

/// No two hats share an id.
pub open spec fn unique_ids(hats: Seq<HatView>) -> bool {
    forall|i: int, j: int| 0 <= i < hats.len() && 0 <= j < hats.len() && i != j ==> hats[i].id != hats[j].id
}

/// Some hat with the coordinator's id has a pending event.
pub open spec fn coordinator_ready(hats: Seq<HatView>, queues: Seq<Seq<EventView>>) -> bool {
    exists|i: int|
        0 <= i < hats.len() && hats[i].id == coordinator_id() && (#[trigger] queues[i]).len() > 0
}

/// The first hat at or after `from`, other than the coordinator, with a pending event.
pub open spec fn first_ready_worker(
    hats: Seq<HatView>,
    queues: Seq<Seq<EventView>>,
    from: int,
) -> Option<int>
    decreases hats.len() - from,
{
    if from < 0 || from >= hats.len() {
        None
    } else if queues[from].len() > 0 && hats[from].id != coordinator_id() {
        Some(from)
    } else {
        first_ready_worker(hats, queues, from + 1)
    }
}

/// The hat that runs next: the coordinator when it has pending events and has priority;
/// else the first other hat, in registration order, with pending events; else the
/// coordinator if it has pending events.
pub open spec fn next_ready(
    hats: Seq<HatView>,
    queues: Seq<Seq<EventView>>,
    priority: bool,
) -> Option<Seq<char>> {
    if priority && coordinator_ready(hats, queues) {
        Some(coordinator_id())
    } else {
        match first_ready_worker(hats, queues, 0) {
            Some(k) => Some(hats[k].id),
            None => if coordinator_ready(hats, queues) {
                Some(coordinator_id())
            } else {
                None
            },
        }
    }
}

/// Why a hat could not be registered.
#[derive(Debug, Clone, Copy, PartialEq, Eq, Structural)]
pub enum BusError {
    /// A hat with the same id is already registered.
    DuplicateHat,
}

/// Central pub/sub hub for routing events between hats.
#[derive(Debug)]
pub struct EventBus {
    hats: Vec<Hat>,
    pending: Vec<Vec<Event>>,
    coordinator_priority: bool,
}

impl EventBus {
    /// The registered hats, in registration order.
    pub closed spec fn hats(&self) -> Seq<HatView> {
        self.hats@.map_values(|h: Hat| h@)
    }

    /// The pending queue of each hat, index for index with `hats`.
    pub closed spec fn queues(&self) -> Seq<Seq<EventView>> {
        self.pending@.map_values(|q: Vec<Event>| event_views(q@))
    }

    /// Whether the coordinator is chosen first whenever it has pending events.
    pub closed spec fn priority(&self) -> bool {
        self.coordinator_priority
    }

    /// One queue per hat, and hat ids unique.
    pub open spec fn wf(&self) -> bool {
        &&& self.hats().len() == self.queues().len()
        &&& unique_ids(self.hats())
    }

    /// An empty bus.
    pub fn new() -> (b: EventBus)
        ensures
            b.wf(),
            b.hats().len() == 0,
            !b.priority(),
    {
        let b = EventBus { hats: Vec::new(), pending: Vec::new(), coordinator_priority: false };
        assert(b.hats() =~= Seq::empty());
        assert(b.queues() =~= Seq::empty());
        b
    }

    /// Sets whether the coordinator is chosen first whenever it has pending events.
    pub fn set_coordinator_priority(&mut self, on: bool)
        requires
            old(self).wf(),
        ensures
            final(self).wf(),
            final(self).priority() == on,
            final(self).hats() == old(self).hats(),
            final(self).queues() == old(self).queues(),
    {
        self.coordinator_priority = on;
    }

    /// The registration index of the hat with id `id`.
    pub fn index_of(&self, id: &HatId) -> (r: Option<usize>)
        requires
            self.wf(),
        ensures
            r matches Some(i) ==> i < self.hats().len() && self.hats()[i as int].id == id@,
            r is None ==> forall|i: int| 0 <= i < self.hats().len() ==> self.hats()[i].id != id@,
    {
        let mut i: usize = 0;
        while i < self.hats.len()
            invariant
                i <= self.hats.len(),
                self.hats() == self.hats@.map_values(|h: Hat| h@),
                forall|k: int| 0 <= k < i ==> self.hats()[k].id != id@,
            decreases self.hats.len() - i,
        {
            if self.hats[i].id.same(id) {
                return Some(i);
            }
            i = i + 1;
        }
        None
    }

    /// Registers `hat` with an empty queue, after the hats already registered.
    pub fn register(&mut self, hat: Hat) -> (r: Result<(), BusError>)
        requires
            old(self).wf(),
        ensures
            final(self).wf(),
            final(self).priority() == old(self).priority(),
            r is Err <==> exists|i: int|
                0 <= i < old(self).hats().len() && old(self).hats()[i].id == hat@.id,
            r is Ok ==> final(self).hats() == old(self).hats().push(hat@),
            r is Ok ==> final(self).queues() == old(self).queues().push(Seq::empty()),
            r is Err ==> final(self).hats() == old(self).hats(),
            r is Err ==> final(self).queues() == old(self).queues(),
    {
        match self.index_of(&hat.id) {
            Some(_) => Err(BusError::DuplicateHat),
            None => {
                let ghost hv = hat@;
                self.hats.push(hat);
                self.pending.push(Vec::new());
                assert(self.hats() =~= old(self).hats().push(hv));
                assert(event_views(self.pending@[self.pending@.len() - 1]@) =~= Seq::empty());
                assert(self.queues() =~= old(self).queues().push(Seq::empty()));
                Ok(())
            },
        }
    }

    fn deliver_at(&mut self, i: usize, event: &Event)
        requires
            old(self).wf(),
            i < old(self).hats().len(),
        ensures
            final(self).wf(),
            final(self).priority() == old(self).priority(),
            final(self).hats() == old(self).hats(),
            final(self).queues() == old(self).queues().update(
                i as int,
                old(self).queues()[i as int].push(event@),
            ),
    {
        let mut q = self.pending.remove(i);
        q.push(event.clone());
        self.pending.insert(i, q);
        assert(event_views(q@) == old(self).queues()[i as int].push(event@));
        assert(self.queues() =~= old(self).queues().update(
            i as int,
            old(self).queues()[i as int].push(event@),
        ));
    }

    /// Publishes `event`: appends it to the queue of every hat that `delivers` names,
    /// and returns their ids in registration order.
    pub fn publish(&mut self, event: Event) -> (r: Vec<HatId>)
        requires
            old(self).wf(),
        ensures
            final(self).wf(),
            final(self).priority() == old(self).priority(),
            final(self).hats() == old(self).hats(),
            final(self).queues() == published(old(self).hats(), old(self).queues(), event@),
            r@.map_values(|h: HatId| h@) == recipients(old(self).hats(), event@),
    {
        let mut ids: Vec<HatId> = Vec::new();
        let ghost hats = self.hats();
        let ghost q0 = self.queues();
        let mut i: usize = 0;
        while i < self.hats.len()
            invariant
                self.wf(),
                self.priority() == old(self).priority(),
                self.hats() == hats,
                hats == old(self).hats(),
                q0 == old(self).queues(),
                i <= hats.len(),
                self.hats.len() == hats.len(),
                forall|k: int|
                    0 <= k < hats.len() ==> (#[trigger] self.queues()[k]) == if k < i && delivers(
                        hats[k],
                        event@,
                    ) {
                        q0[k].push(event@)
                    } else {
                        q0[k]
                    },
                ids@.map_values(|h: HatId| h@) == recipients(hats.take(i as int), event@),
            decreases hats.len() - i,
        {
            let ghost before = self.queues();
            assert(hats.take(i + 1).drop_last() == hats.take(i as int));
            assert(hats.take(i + 1).last() == hats[i as int]);
            assert(self.hats@[i as int]@ == hats[i as int]);
            let hit = self.delivers_to(i, &event);
            if hit {
                ids.push(self.hats[i].id.clone());
                self.deliver_at(i, &event);
                assert forall|k: int| 0 <= k < hats.len() implies (#[trigger] self.queues()[k]) == if k
                    < i + 1 && delivers(hats[k], event@) {
                    q0[k].push(event@)
                } else {
                    q0[k]
                } by {
                    if k == i {
                        assert(before[k] == q0[k]);
                    }
                }
            }
            i = i + 1;
        }
        assert(hats.take(hats.len() as int) == hats);
        assert(self.queues() =~= published(hats, q0, event@));
        ids
    }

    fn delivers_to(&self, i: usize, event: &Event) -> (r: bool)
        requires
            self.wf(),
            i < self.hats().len(),
        ensures
            r == delivers(self.hats()[i as int], event@),
    {
        let hat = &self.hats[i];
        assert(hat@ == self.hats()[i as int]);
        match &event.target {
            Some(t) => hat.id.same(t),
            None => {
                let from_self = match &event.source {
                    Some(s) => hat.id.same(s),
                    None => false,
                };
                !from_self && hat.is_subscribed(&event.topic)
            },
        }
    }

    /// Removes and returns the whole queue of the hat `hat_id`, in publish order.
    pub fn take_pending(&mut self, hat_id: &HatId) -> (r: Vec<Event>)
        requires
            old(self).wf(),
        ensures
            final(self).wf(),
            final(self).priority() == old(self).priority(),
            final(self).hats() == old(self).hats(),
            forall|i: int|
                0 <= i < old(self).hats().len() && old(self).hats()[i].id == hat_id@ ==> {
                    &&& event_views(r@) == old(self).queues()[i]
                    &&& final(self).queues() == old(self).queues().update(i, Seq::empty())
                },
            (forall|i: int| 0 <= i < old(self).hats().len() ==> old(self).hats()[i].id != hat_id@)
                ==> {
                &&& r@.len() == 0
                &&& final(self).queues() == old(self).queues()
            },
    {
        match self.index_of(hat_id) {
            Some(i) => {
                let q = self.pending.remove(i);
                self.pending.insert(i, Vec::new());
                assert(event_views(self.pending@[i as int]@) =~= Seq::empty());
                assert(self.queues() =~= old(self).queues().update(i as int, Seq::empty()));
                q
            },
            None => Vec::new(),
        }
    }

    /// Whether some hat has a pending event.
    pub fn has_pending(&self) -> (r: bool)
        requires
            self.wf(),
        ensures
            r == exists|i: int| 0 <= i < self.queues().len() && (#[trigger] self.queues()[i]).len() > 0,
    {
        let mut i: usize = 0;
        while i < self.pending.len()
            invariant
                i <= self.pending.len(),
                self.queues().len() == self.pending.len(),
                forall|k: int| 0 <= k < i ==> (#[trigger] self.queues()[k]).len() == 0,
            decreases self.pending.len() - i,
        {
            assert(self.queues()[i as int] == event_views(self.pending@[i as int]@));
            if self.pending[i].len() > 0 {
                return true;
            }
            i = i + 1;
        }
        false
    }

    /// The hat that should run next, as `next_ready` says; `None` when no queue holds an event.
    pub fn next_hat_with_pending(&self) -> (r: Option<HatId>)
        requires
            self.wf(),
        ensures
            r matches Some(id) ==> next_ready(self.hats(), self.queues(), self.priority()) == Some(
                id@,
            ),
            r is None ==> next_ready(self.hats(), self.queues(), self.priority()) is None,
    {
        let ghost hats = self.hats();
        let ghost queues = self.queues();
        let mut coordinator: Option<usize> = None;
        let mut worker: Option<usize> = None;
        let mut i: usize = 0;
        while i < self.hats.len()
            invariant
                self.wf(),
                hats == self.hats(),
                queues == self.queues(),
                i <= hats.len(),
                self.hats.len() == hats.len(),
                coordinator matches Some(c) ==> c < hats.len() && hats[c as int].id
                    == coordinator_id() && queues[c as int].len() > 0,
                coordinator is None ==> forall|k: int|
                    0 <= k < i && hats[k].id == coordinator_id() ==> (#[trigger] queues[k]).len()
                        == 0,
                worker matches Some(w) ==> first_ready_worker(hats, queues, 0) == Some(w as int) && w
                    < hats.len(),
                worker is None ==> first_ready_worker(hats, queues, 0) == first_ready_worker(
                    hats,
                    queues,
                    i as int,
                ),
            decreases hats.len() - i,
        {
            assert(self.hats@[i as int]@ == hats[i as int]);
            assert(queues[i as int] == event_views(self.pending@[i as int]@));
            let ready = self.pending[i].len() > 0;
            let coord = is_coordinator(&self.hats[i].id);
            if ready && coord && coordinator.is_none() {
                coordinator = Some(i);
            }
            if ready && !coord && worker.is_none() {
                worker = Some(i);
            }
            i = i + 1;
        }
        assert(coordinator is Some <==> coordinator_ready(hats, queues));
        if self.coordinator_priority && coordinator.is_some() {
            return Some(HatId::new("ralph"));
        }
        match worker {
            Some(w) => {
                assert(self.hats@[w as int]@ == hats[w as int]);
                Some(self.hats[w].id.clone())
            },
            None => if coordinator.is_some() {
                Some(HatId::new("ralph"))
            } else {
                None
            },
        }
    }

    /// The number of pending events of the hat `hat_id`; zero for an unknown hat.
    pub fn pending_len(&self, hat_id: &HatId) -> (r: usize)
        requires
            self.wf(),
        ensures
            forall|i: int|
                0 <= i < self.hats().len() && self.hats()[i].id == hat_id@ ==> r
                    == self.queues()[i].len(),
            (forall|i: int| 0 <= i < self.hats().len() ==> self.hats()[i].id != hat_id@) ==> r
                == 0,
    {
        match self.index_of(hat_id) {
            Some(i) => {
                assert(self.queues()[i as int] == event_views(self.pending@[i as int]@));
                proof {
                    assert forall|j: int|
                        0 <= j < self.hats().len() && self.hats()[j].id == hat_id@ implies j
                        == i as int by {
                        if j != i as int {
                            assert(self.hats()[j].id != self.hats()[i as int].id);
                        }
                    }
                }
                self.pending[i].len()
            },
            None => 0,
        }
    }

    /// The hat registered at index `i`.
    pub fn hat_at(&self, i: usize) -> (r: &Hat)
        requires
            self.wf(),
            i < self.hats().len(),
        ensures
            r@ == self.hats()[i as int],
    {
        assert(self.hats@[i as int]@ == self.hats()[i as int]);
        &self.hats[i]
    }

    /// The registered hat with id `id`.
    pub fn get_hat(&self, id: &HatId) -> (r: Option<&Hat>)
        requires
            self.wf(),
        ensures
            r matches Some(h) ==> exists|i: int|
                0 <= i < self.hats().len() && self.hats()[i] == h@ && h@.id == id@,
            r is None ==> forall|i: int| 0 <= i < self.hats().len() ==> self.hats()[i].id != id@,
    {
        match self.index_of(id) {
            Some(i) => {
                assert(self.hats@[i as int]@ == self.hats()[i as int]);
                Some(&self.hats[i])
            },
            None => None,
        }
    }

    /// The ids of all registered hats, in registration order.
    pub fn hat_ids(&self) -> (r: Vec<HatId>)
        requires
            self.wf(),
        ensures
            r@.len() == self.hats().len(),
            forall|k: int| 0 <= k < r@.len() ==> (#[trigger] r@[k])@ == self.hats()[k].id,
    {
        let mut r: Vec<HatId> = Vec::new();
        let mut i: usize = 0;
        while i < self.hats.len()
            invariant
                i <= self.hats.len(),
                self.hats().len() == self.hats.len(),
                r@.len() == i,
                forall|k: int| 0 <= k < i ==> (#[trigger] r@[k])@ == self.hats()[k].id,
            decreases self.hats.len() - i,
        {
            assert(self.hats@[i as int]@ == self.hats()[i as int]);
            r.push(self.hats[i].id.clone());
            i = i + 1;
        }
        r
    }
}

/// A directed event whose target names no registered hat reaches nobody and leaves every
/// queue as it was.
pub proof fn lemma_directed_to_unknown(
    hats: Seq<HatView>,
    queues: Seq<Seq<EventView>>,
    e: EventView,
)
    requires
        hats.len() == queues.len(),
        e.target is Some,
        forall|i: int| 0 <= i < hats.len() ==> hats[i].id != e.target->0,
    ensures
        recipients(hats, e) == Seq::<Seq<char>>::empty(),
        published(hats, queues, e) == queues,
    decreases hats.len(),
{
    if hats.len() > 0 {
        let init = hats.drop_last();
        assert forall|i: int| 0 <= i < init.len() implies init[i].id != e.target->0 by {
            assert(init[i] == hats[i]);
        }
        lemma_directed_to_unknown(init, queues.drop_last(), e);
        assert(!delivers(hats.last(), e));
    }
    assert forall|i: int| 0 <= i < queues.len() implies #[trigger] published(hats, queues, e)[i]
        == queues[i] by {
        assert(!delivers(hats[i], e));
    }
    assert(published(hats, queues, e) =~= queues);
}

/// Queues keep publish order: an event published after another lands behind it in every
/// queue that receives both.
pub proof fn lemma_publish_order(
    hats: Seq<HatView>,
    queues: Seq<Seq<EventView>>,
    first: EventView,
    second: EventView,
    i: int,
)
    requires
        hats.len() == queues.len(),
        0 <= i < queues.len(),
        delivers(hats[i], first),
        delivers(hats[i], second),
    ensures
        published(hats, published(hats, queues, first), second)[i] == queues[i].push(first).push(
            second,
        ),
{
}

/// Publishing never removes or reorders what a queue already holds.
pub proof fn lemma_publish_keeps_queue(
    hats: Seq<HatView>,
    queues: Seq<Seq<EventView>>,
    e: EventView,
    i: int,
)
    requires
        hats.len() == queues.len(),
        0 <= i < queues.len(),
    ensures
        published(hats, queues, e)[i].subrange(0, queues[i].len() as int) == queues[i],
{
    assert(queues[i].push(e).subrange(0, queues[i].len() as int) =~= queues[i]);
    assert(queues[i].subrange(0, queues[i].len() as int) =~= queues[i]);
}

} // verus!
