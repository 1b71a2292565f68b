use vstd::prelude::*;
use crate::passing::{MessageView, WsMessage};

verus! {

/// How many unread messages each subscriber may hold before the oldest go.
pub const DEFAULT_CAPACITY: usize = 100;

/// A subscriber's queue after one publish: the message joins at the back,
/// and the oldest leaves when the queue would exceed its bound.
pub open spec fn enqueue(q: Seq<MessageView>, m: MessageView, cap: nat) -> Seq<MessageView> {
    if q.len() + 1 > cap {
        q.push(m).drop_first()
    } else {
        q.push(m)
    }
}

/// A subscriber's queue after a run of publishes, in order.
pub open spec fn enqueue_all(q: Seq<MessageView>, ms: Seq<MessageView>, cap: nat) -> Seq<MessageView>
    decreases ms.len(),
{
    if ms.len() == 0 {
        q
    } else {
        enqueue(enqueue_all(q, ms.drop_last(), cap), ms.last(), cap)
    }
}

/// The last `n` items of `s` (all of them when it is shorter).
pub open spec fn last_n(s: Seq<MessageView>, n: nat) -> Seq<MessageView> {
    if s.len() <= n {
        s
    } else {
        s.subrange(s.len() - n, s.len() as int)
    }
}

/// After any run of publishes, a subscriber's queue holds the most recent
/// messages, up to the bound, in publish order: what it had unread, then what
/// was published, with only the oldest of these discarded.
pub proof fn lemma_publishes_keep_newest(q: Seq<MessageView>, ms: Seq<MessageView>, cap: nat)
    requires
        cap > 0,
        q.len() <= cap,
    ensures
        enqueue_all(q, ms, cap) == last_n(q + ms, cap),
    decreases ms.len(),
{
    if ms.len() == 0 {
        assert(q + ms =~= q);
    } else {
        let prev = ms.drop_last();
        lemma_publishes_keep_newest(q, prev, cap);
        let s = q + prev;
        assert(q + ms =~= s.push(ms.last()));
        let l = last_n(s, cap);
        if s.len() < cap {
            assert(enqueue(l, ms.last(), cap) =~= last_n(s.push(ms.last()), cap));
        } else {
            assert(enqueue(l, ms.last(), cap) =~= last_n(s.push(ms.last()), cap));
        }
    }
}

/// One more publish extends a run of publishes: a queue that stood at
/// `enqueue_all(q, ms, cap)` and then gets `m` stands at
/// `enqueue_all(q, ms.push(m), cap)`. This is the step by which a caller's
/// loop of `publish` calls is tied to the laws over whole runs.
pub proof fn lemma_publish_extends_run(q: Seq<MessageView>, ms: Seq<MessageView>, m: MessageView, cap: nat)
    ensures
        enqueue(enqueue_all(q, ms, cap), m, cap) == enqueue_all(q, ms.push(m), cap),
{
    assert(ms.push(m).drop_last() =~= ms);
}

/// One publish into a queue within its bound leaves the message last, keeps
/// the bound, and keeps the newest of what was unread ahead of it in order.
pub proof fn lemma_publish_delivers(q: Seq<MessageView>, m: MessageView, cap: nat)
    requires
        cap > 0,
        q.len() <= cap,
    ensures
        enqueue(q, m, cap).len() <= cap,
        enqueue(q, m, cap).last() == m,
        enqueue(q, m, cap).drop_last() == last_n(q, (cap - 1) as nat),
{
    if q.len() + 1 > cap {
        assert(enqueue(q, m, cap).drop_last() =~= last_n(q, (cap - 1) as nat));
    } else {
        assert(enqueue(q, m, cap).drop_last() =~= q);
    }
}

/// While a subscriber's queue has room, it receives every published message
/// exactly once, in publish order, behind what it had unread.
pub proof fn lemma_publishes_delivered_in_order(q: Seq<MessageView>, ms: Seq<MessageView>, cap: nat)
    requires
        q.len() + ms.len() <= cap,
    ensures
        enqueue_all(q, ms, cap) == q + ms,
{
    if cap > 0 {
        lemma_publishes_keep_newest(q, ms, cap);
    } else {
        assert(q + ms =~= q);
    }
}

/// A subscriber that never reads holds exactly the last `cap` messages once
/// more than `cap` have been published: the oldest are the ones dropped.
pub proof fn lemma_overflow_drops_oldest(ms: Seq<MessageView>, cap: nat)
    requires
        cap > 0,
        ms.len() > cap,
    ensures
        enqueue_all(Seq::<MessageView>::empty(), ms, cap) == ms.subrange(ms.len() - cap, ms.len() as int),
        enqueue_all(Seq::<MessageView>::empty(), ms, cap).len() == cap,
{
    lemma_publishes_keep_newest(Seq::<MessageView>::empty(), ms, cap);
    assert(Seq::<MessageView>::empty() + ms =~= ms);
}

pub open spec fn message_views(v: Seq<WsMessage>) -> Seq<MessageView> {
    v.map_values(|m: WsMessage| m@)
}

/// What a hub holds: its bound, and each subscriber's id and unread messages,
/// oldest first, in the order the subscribers joined.
pub ghost struct HubView {
    pub capacity: nat,
    /// The id the next subscriber will get.
    pub next_id: u64,
    pub ids: Seq<u64>,
    pub queues: Seq<Seq<MessageView>>,
}

/// `b` is hub `a` after publishing `m`: same bound and subscribers, and each
/// queue took the message by `enqueue`.
pub open spec fn publish_step(a: HubView, b: HubView, m: MessageView) -> bool {
    &&& b.capacity == a.capacity
    &&& b.next_id == a.next_id
    &&& b.ids == a.ids
    &&& b.queues.len() == a.queues.len()
    &&& forall|i: int| 0 <= i < a.queues.len() ==> #[trigger] b.queues[i] == enqueue(a.queues[i], m, a.capacity)
}

/// Over any run of publishes with no reads in between, every subscriber
/// present at the start ends up holding, in publish order, the newest
/// messages of what it had unread followed by everything published, up to
/// the bound: each message reaches each subscriber once, whatever the others
/// hold, and only the oldest are dropped when a subscriber lags.
pub proof fn lemma_publish_run(states: Seq<HubView>, ms: Seq<MessageView>)
    requires
        states.len() == ms.len() + 1,
        states[0].capacity > 0,
        forall|i: int| 0 <= i < states[0].queues.len() ==> #[trigger] states[0].queues[i].len() <= states[0].capacity,
        forall|k: int| 0 <= k < ms.len() ==> publish_step(#[trigger] states[k], states[k + 1], ms[k]),
    ensures
        states.last().ids == states[0].ids,
        states.last().capacity == states[0].capacity,
        states.last().queues.len() == states[0].queues.len(),
        forall|i: int| 0 <= i < states[0].queues.len() ==> #[trigger] states.last().queues[i]
            == last_n(states[0].queues[i] + ms, states[0].capacity),
    decreases ms.len(),
{
    let cap = states[0].capacity;
    if ms.len() == 0 {
        assert forall|i: int| 0 <= i < states[0].queues.len() implies #[trigger] states.last().queues[i]
            == last_n(states[0].queues[i] + ms, cap) by {
            assert(states[0].queues[i] + ms =~= states[0].queues[i]);
        };
    } else {
        let n = ms.len() - 1;
        let prev = states.drop_last();
        assert forall|k: int| 0 <= k < ms.drop_last().len() implies publish_step(#[trigger] prev[k], prev[k + 1], ms.drop_last()[k]) by {
            assert(publish_step(states[k], states[k + 1], ms[k]));
        };
        lemma_publish_run(prev, ms.drop_last());
        assert(publish_step(states[n], states[n + 1], ms[n]));
        assert forall|i: int| 0 <= i < states[0].queues.len() implies #[trigger] states.last().queues[i]
            == last_n(states[0].queues[i] + ms, cap) by {
            let q = states[0].queues[i];
            lemma_publishes_keep_newest(q, ms.drop_last(), cap);
            lemma_publishes_keep_newest(q, ms, cap);
            assert(prev.last() == states[n]);
            assert(states[n].queues[i] == enqueue_all(q, ms.drop_last(), cap));
            assert(ms.drop_last().push(ms[n]) =~= ms);
            lemma_publish_extends_run(q, ms.drop_last(), ms[n], cap);
        };
    }
}

/// A broadcast point: every publish is copied into the bounded queue of each
/// current subscriber.
pub struct Hub {
    capacity: usize,
    next_id: u64,
    ids: Vec<u64>,
    queues: Vec<Vec<WsMessage>>,
}

impl View for Hub {
    type V = HubView;

    closed spec fn view(&self) -> HubView {
        HubView {
            capacity: self.capacity as nat,
            next_id: self.next_id,
            ids: self.ids@,
            queues: self.queues@.map_values(|q: Vec<WsMessage>| message_views(q@)),
        }
    }
}

impl Hub {
    /// The hub's invariant: a positive bound, one queue per subscriber, no
    /// queue above the bound, and distinct ids below the next one handed out.
    pub closed spec fn wf(&self) -> bool {
        &&& self.capacity > 0
        &&& self.ids@.len() == self.queues@.len()
        &&& forall|i: int| 0 <= i < self.queues@.len() ==> #[trigger] self.queues@[i]@.len() <= self.capacity
        &&& forall|i: int| 0 <= i < self.ids@.len() ==> #[trigger] self.ids@[i] < self.next_id
        &&& forall|i: int, j: int|
            0 <= i < self.ids@.len() && 0 <= j < self.ids@.len() && i != j ==> self.ids@[i] != self.ids@[j]
    }

    /// What the invariant gives callers: a positive bound, one queue per
    /// subscriber, no queue above the bound, and distinct ids that are all
    /// below the next one handed out.
    pub proof fn lemma_wf_shape(&self)
        requires
            self.wf(),
        ensures
            self@.capacity > 0,
            self@.queues.len() == self@.ids.len(),
            forall|i: int| 0 <= i < self@.queues.len() ==> #[trigger] self@.queues[i].len() <= self@.capacity,
            forall|i: int| 0 <= i < self@.ids.len() ==> #[trigger] self@.ids[i] < self@.next_id,
            forall|i: int, j: int|
                0 <= i < self@.ids.len() && 0 <= j < self@.ids.len() && i != j ==> self@.ids[i] != self@.ids[j],
    {
        assert forall|i: int| 0 <= i < self@.queues.len() implies #[trigger] self@.queues[i].len() <= self@.capacity by {
            assert(self@.queues[i] == message_views(self.queues@[i]@));
        };
    }

    /// A hub with no subscribers whose queues hold at most `capacity` messages.
    pub fn new(capacity: usize) -> (r: Hub)
        requires
            capacity > 0,
        ensures
            r.wf(),
            r@.capacity == capacity,
            r@.capacity > 0,
            r@.next_id == 0,
            r@.ids.len() == 0,
            r@.queues.len() == 0,
    {
        let r = Hub { capacity, next_id: 0, ids: Vec::new(), queues: Vec::new() };
        assert(r@.queues =~= Seq::<Seq<MessageView>>::empty());
        r
    }

    /// The number of current subscribers.
    pub fn subscriber_count(&self) -> (r: usize)
        requires
            self.wf(),
        ensures
            r == self@.ids.len(),
    {
        self.ids.len()
    }

    /// Adds a subscriber that sees only what is published from now on, and
    /// returns its id; `None` once every id has been handed out.
    pub fn subscribe(&mut self) -> (r: Option<u64>)
        requires
            old(self).wf(),
        ensures
            final(self).wf(),
            final(self)@.capacity == old(self)@.capacity,
            r is None <==> old(self)@.next_id == u64::MAX,
            match r {
                Some(id) => {
                    &&& id == old(self)@.next_id
                    &&& final(self)@.next_id == id + 1
                    &&& !old(self)@.ids.contains(id)
                    &&& final(self)@.ids == old(self)@.ids.push(id)
                    &&& final(self)@.queues == old(self)@.queues.push(Seq::<MessageView>::empty())
                },
                None => final(self)@ == old(self)@,
            },
    {
        if self.next_id == u64::MAX {
            return None;
        }
        let id = self.next_id;
        let ghost old_queues = self@.queues;
        self.next_id = self.next_id + 1;
        self.ids.push(id);
        self.queues.push(Vec::new());
        assert(message_views(self.queues@.last()@) =~= Seq::<MessageView>::empty());
        assert(self@.queues =~= old_queues.push(Seq::<MessageView>::empty()));
        assert(!old(self)@.ids.contains(id)) by {
            if old(self)@.ids.contains(id) {
                let k = choose|k: int| 0 <= k < old(self).ids@.len() && old(self).ids@[k] == id;
                assert(old(self).ids@[k] < old(self).next_id);
            }
        };
        Some(id)
    }

    /// Removes a subscriber and its unread messages; `false` if the id is unknown.
    pub fn unsubscribe(&mut self, id: u64) -> (r: bool)
        requires
            old(self).wf(),
        ensures
            final(self).wf(),
            final(self)@.capacity == old(self)@.capacity,
            final(self)@.next_id == old(self)@.next_id,
            r == old(self)@.ids.contains(id),
            r ==> exists|k: int|
                0 <= k < old(self)@.ids.len() && old(self)@.ids[k] == id
                && final(self)@.ids == old(self)@.ids.remove(k)
                && final(self)@.queues == old(self)@.queues.remove(k),
            !r ==> final(self)@ == old(self)@,
    {
        let mut k: usize = 0;
        while k < self.ids.len()
            invariant
                self.wf(),
                *self == *old(self),
                k <= self.ids@.len(),
                forall|j: int| 0 <= j < k ==> self.ids@[j] != id,
            decreases self.ids@.len() - k,
        {
            if self.ids[k] == id {
                let ghost old_queues = self@.queues;
                self.ids.remove(k);
                self.queues.remove(k);
                assert(self@.queues =~= old_queues.remove(k as int));
                assert(self.wf()) by {
                    assert forall|i: int| 0 <= i < self.queues@.len() implies #[trigger] self.queues@[i]@.len() <= self.capacity by {
                        if i < k { assert(self.queues@[i] == old(self).queues@[i]); }
                        else { assert(self.queues@[i] == old(self).queues@[i + 1]); }
                    };
                    assert forall|i: int| 0 <= i < self.ids@.len() implies #[trigger] self.ids@[i] < self.next_id by {
                        if i < k { assert(self.ids@[i] == old(self).ids@[i]); }
                        else { assert(self.ids@[i] == old(self).ids@[i + 1]); }
                    };
                };
                return true;
            }
            k = k + 1;
        }
        false
    }

    /// Hands a copy of `msg` to every current subscriber and returns how many
    /// there were; with none it changes nothing. A queue at its bound loses
    /// its oldest message; no other subscriber is affected by that.
    pub fn publish(&mut self, msg: WsMessage) -> (r: usize)
        requires
            old(self).wf(),
        ensures
            final(self).wf(),
            r == old(self)@.ids.len(),
            final(self)@.capacity == old(self)@.capacity,
            final(self)@.next_id == old(self)@.next_id,
            publish_step(old(self)@, final(self)@, msg@),
            final(self)@.ids == old(self)@.ids,
            final(self)@.queues.len() == old(self)@.queues.len(),
            forall|i: int| 0 <= i < old(self)@.queues.len() ==>
                #[trigger] final(self)@.queues[i] == enqueue(old(self)@.queues[i], msg@, old(self)@.capacity),
    {
        let n = self.queues.len();
        let mut i: usize = 0;
        while i < n
            invariant
                n == self.queues@.len(),
                i <= n,
                self.capacity == old(self).capacity,
                self.next_id == old(self).next_id,
                self.ids == old(self).ids,
                self.queues@.len() == old(self).queues@.len(),
                old(self).wf(),
                forall|j: int| 0 <= j < i ==> message_views(#[trigger] self.queues@[j]@)
                    == enqueue(message_views(old(self).queues@[j]@), msg@, self.capacity as nat),
                forall|j: int| i <= j < n ==> #[trigger] self.queues@[j] == old(self).queues@[j],
                forall|j: int| 0 <= j < n ==> #[trigger] self.queues@[j]@.len() <= self.capacity,
            decreases n - i,
        {
            let ghost before = message_views(self.queues@[i as int]@);
            let copy = msg.duplicate();
            self.queues[i].push(copy);
            if self.queues[i].len() > self.capacity {
                self.queues[i].remove(0);
            }
            assert(message_views(self.queues@[i as int]@) =~= enqueue(before, msg@, self.capacity as nat));
            i = i + 1;
        }
        assert(self@.queues.len() == old(self)@.queues.len());
        n
    }

    /// Takes the oldest unread message of subscriber `id`; `None` when it has
    /// none or the id is unknown.
    pub fn recv(&mut self, id: u64) -> (r: Option<WsMessage>)
        requires
            old(self).wf(),
        ensures
            final(self).wf(),
            final(self)@.capacity == old(self)@.capacity,
            final(self)@.next_id == old(self)@.next_id,
            final(self)@.ids == old(self)@.ids,
            final(self)@.queues.len() == old(self)@.queues.len(),
            forall|k: int| 0 <= k < old(self)@.ids.len() && old(self)@.ids[k] != id
                ==> #[trigger] final(self)@.queues[k] == old(self)@.queues[k],
            forall|k: int| 0 <= k < old(self)@.ids.len() && old(self)@.ids[k] == id ==> {
                let q = #[trigger] old(self)@.queues[k];
                if q.len() == 0 {
                    r is None && final(self)@.queues[k] == q
                } else {
                    r is Some && r->Some_0@ == q[0] && final(self)@.queues[k] == q.drop_first()
                }
            },
            !old(self)@.ids.contains(id) ==> r is None && final(self)@ == old(self)@,
    {
        let mut k: usize = 0;
        while k < self.ids.len()
            invariant
                self.wf(),
                *self == *old(self),
                k <= self.ids@.len(),
                forall|j: int| 0 <= j < k ==> self.ids@[j] != id,
            decreases self.ids@.len() - k,
        {
            if self.ids[k] == id {
                if self.queues[k].len() == 0 {
                    return None;
                }
                let ghost before = self@.queues;
                let ghost old_q = self.queues@[k as int]@;
                let m = self.queues[k].remove(0);
                assert(message_views(self.queues@[k as int]@) =~= message_views(old_q).drop_first());
                assert(self@.queues =~= before.update(k as int, before[k as int].drop_first()));
                return Some(m);
            }
            k = k + 1;
        }
        None
    }
}

} // verus!
