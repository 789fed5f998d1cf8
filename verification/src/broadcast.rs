//! Single-producer, multi-consumer fan-out with per-subscriber bounded
//! queues.
//!
//! Each subscriber holds an independent cursor and sees only what is
//! published from the moment it subscribed, in publish order.  A
//! subscriber that cannot keep up loses the oldest items still queued
//! for it — it lags — rather than stalling the publisher or anyone
//! else.

use vstd::prelude::*;

use crate::tag::raw_outputs;

verus! {

/// One subscriber's cursor: its pending queue and its history.
pub struct Cursor {
    queue: Vec<Vec<u8>>,
    active: bool,
    start: Ghost<int>,
    taken: Ghost<int>,
    lag: Ghost<int>,
    delivered: Ghost<Seq<Seq<u8>>>,
}

/// The fan-out: everything published, and one cursor per subscriber.
pub struct Broadcaster {
    capacity: usize,
    subs: Vec<Cursor>,
    published: Ghost<Seq<Seq<u8>>>,
}

/// A cursor's invariant against the published history: its queue is a
/// contiguous tail of what was published since it subscribed, its
/// delivery history precedes that tail, and — when it never lagged —
/// its history is exactly everything since it subscribed.
pub open spec fn cursor_ok(c: Cursor, published: Seq<Seq<u8>>, capacity: int) -> bool {
    c.active() ==> {
        &&& 0 <= c.start_spec() <= published.len()
        &&& 0 <= c.taken_spec()
        &&& 0 <= c.lag_spec()
        &&& c.start_spec() + c.taken_spec() + c.queue_raws().len() == published.len()
        &&& c.queue_raws() == published.skip(c.start_spec() + c.taken_spec())
        &&& c.queue_raws().len() <= capacity
        &&& c.delivered_spec().len() + c.lag_spec() == c.taken_spec()
        &&& (c.lag_spec() == 0 ==> c.delivered_spec() == published.subrange(
            c.start_spec(),
            c.start_spec() + c.taken_spec(),
        ))
        &&& forall|j: int|
            #![trigger c.delivered_spec()[j]]
            0 <= j < c.delivered_spec().len() ==> published.contains(c.delivered_spec()[j])
    }
}

impl Cursor {
    /// Whether the subscriber is still attached.
    pub closed spec fn active(&self) -> bool {
        self.active
    }

    /// The byte buffers queued for the subscriber, oldest first.
    pub closed spec fn queue_raws(&self) -> Seq<Seq<u8>> {
        raw_outputs(self.queue@)
    }

    /// How many items had been published when the subscriber joined.
    pub closed spec fn start_spec(&self) -> int {
        self.start@
    }

    /// How many items since then have left the queue, delivered or
    /// dropped.
    pub closed spec fn taken_spec(&self) -> int {
        self.taken@
    }

    /// How many items were dropped because the subscriber lagged.
    pub closed spec fn lag_spec(&self) -> int {
        self.lag@
    }

    /// Every item handed to the subscriber, in order.
    pub closed spec fn delivered_spec(&self) -> Seq<Seq<u8>> {
        self.delivered@
    }
}

impl Broadcaster {
    /// Everything ever published, in order.
    pub closed spec fn published(&self) -> Seq<Seq<u8>> {
        self.published@
    }

    /// The queue-depth policy: how much a subscriber may fall behind
    /// before it lags.
    pub closed spec fn capacity_spec(&self) -> int {
        self.capacity as int
    }

    /// How many cursors exist, detached ones included.
    pub closed spec fn num_cursors(&self) -> int {
        self.subs@.len() as int
    }

    /// The cursor at `i`.
    pub closed spec fn cursor(&self, i: int) -> Cursor {
        self.subs@[i]
    }

    /// Whether the subscriber at `i` is still attached.
    pub open spec fn is_active(&self, i: int) -> bool {
        self.cursor(i).active()
    }

    /// The items queued for subscriber `i`, oldest first.
    pub open spec fn queue_raws(&self, i: int) -> Seq<Seq<u8>> {
        self.cursor(i).queue_raws()
    }

    /// How many items had been published when subscriber `i` joined.
    pub open spec fn start(&self, i: int) -> int {
        self.cursor(i).start_spec()
    }

    /// How many items have left subscriber `i`'s queue.
    pub open spec fn taken(&self, i: int) -> int {
        self.cursor(i).taken_spec()
    }

    /// How many items subscriber `i` lost to lag.
    pub open spec fn lag(&self, i: int) -> int {
        self.cursor(i).lag_spec()
    }

    /// Every item delivered to subscriber `i`, in order.
    pub open spec fn delivered(&self, i: int) -> Seq<Seq<u8>> {
        self.cursor(i).delivered_spec()
    }

    /// Every cursor satisfies its invariant, and the queue depth is at
    /// least one.
    pub open spec fn wf(&self) -> bool {
        &&& self.capacity_spec() >= 1
        &&& forall|i: int|
            0 <= i < self.num_cursors() ==> cursor_ok(
                #[trigger] self.cursor(i),
                self.published(),
                self.capacity_spec(),
            )
    }

    /// A fresh fan-out with the given queue-depth policy and no
    /// subscribers.
    pub fn new(capacity: usize) -> (r: Broadcaster)
        requires
            capacity >= 1,
        ensures
            r.wf(),
            r.published() == Seq::<Seq<u8>>::empty(),
            r.num_cursors() == 0,
            r.capacity_spec() == capacity,
    {
        Broadcaster { capacity, subs: Vec::new(), published: Ghost(Seq::empty()) }
    }

    /// Attaches a new subscriber.  Its cursor starts empty: it will see
    /// only what is published from this moment on.
    pub fn subscribe(&mut self) -> (id: usize)
        requires
            old(self).wf(),
        ensures
            final(self).wf(),
            id == old(self).num_cursors(),
            final(self).num_cursors() == old(self).num_cursors() + 1,
            final(self).published() == old(self).published(),
            final(self).capacity_spec() == old(self).capacity_spec(),
            forall|i: int|
                0 <= i < old(self).num_cursors() ==> final(self).cursor(i) == old(self).cursor(i),
            final(self).is_active(id as int),
            final(self).queue_raws(id as int) == Seq::<Seq<u8>>::empty(),
            final(self).delivered(id as int) == Seq::<Seq<u8>>::empty(),
            final(self).start(id as int) == old(self).published().len(),
            final(self).taken(id as int) == 0,
            final(self).lag(id as int) == 0,
    {
        let id = self.subs.len();
        let cursor = Cursor {
            queue: Vec::new(),
            active: true,
            start: Ghost(self.published@.len() as int),
            taken: Ghost(0int),
            lag: Ghost(0int),
            delivered: Ghost(Seq::empty()),
        };
        self.subs.push(cursor);
        proof {
            assert(raw_outputs(Seq::<Vec<u8>>::empty()) =~= Seq::<Seq<u8>>::empty());
            assert(self.published@.skip(self.published@.len() as int) =~= Seq::<Seq<u8>>::empty());
            assert(self.published@.subrange(
                self.published@.len() as int,
                self.published@.len() as int,
            ) =~= Seq::<Seq<u8>>::empty());
            assert forall|i: int| 0 <= i < self.num_cursors() implies cursor_ok(
                #[trigger] self.cursor(i),
                self.published(),
                self.capacity_spec(),
            ) by {
                if i < id {
                    assert(self.cursor(i) == old(self).cursor(i));
                    assert(cursor_ok(
                        old(self).cursor(i),
                        old(self).published(),
                        old(self).capacity_spec(),
                    ));
                }
            }
        }
        id
    }

    /// Detaches subscriber `i` and reclaims its queue.
    pub fn unsubscribe(&mut self, i: usize)
        requires
            old(self).wf(),
            i < old(self).num_cursors(),
        ensures
            final(self).wf(),
            final(self).published() == old(self).published(),
            final(self).capacity_spec() == old(self).capacity_spec(),
            final(self).num_cursors() == old(self).num_cursors(),
            !final(self).is_active(i as int),
            forall|j: int|
                0 <= j < old(self).num_cursors() && j != i ==> final(self).cursor(j) == old(
                    self,
                ).cursor(j),
    {
        let c = &mut self.subs[i];
        c.active = false;
        c.queue = Vec::new();
        proof {
            assert forall|j: int| 0 <= j < self.num_cursors() implies cursor_ok(
                #[trigger] self.cursor(j),
                self.published(),
                self.capacity_spec(),
            ) by {
                if j != i {
                    assert(self.cursor(j) == old(self).cursor(j));
                    assert(cursor_ok(
                        old(self).cursor(j),
                        old(self).published(),
                        old(self).capacity_spec(),
                    ));
                } else {
                    assert(!self.cursor(j).active());
                }
            }
        }
    }

    /// Publishes one item to every attached subscriber, in arrival
    /// order.  A full queue loses its oldest pending item instead of
    /// blocking anyone: that subscriber lags.
    pub fn publish(&mut self, item: &Vec<u8>)
        requires
            old(self).wf(),
        ensures
            final(self).wf(),
            final(self).published() == old(self).published().push(item@),
            final(self).capacity_spec() == old(self).capacity_spec(),
            final(self).num_cursors() == old(self).num_cursors(),
            forall|i: int|
                0 <= i < old(self).num_cursors() ==> {
                    &&& final(self).is_active(i) == old(self).is_active(i)
                    &&& final(self).start(i) == old(self).start(i)
                    &&& final(self).delivered(i) == old(self).delivered(i)
                    &&& (!old(self).is_active(i) ==> final(self).cursor(i) == old(self).cursor(i))
                    &&& (old(self).is_active(i) ==> if old(self).queue_raws(i).len() < old(
                        self,
                    ).capacity_spec() {
                        &&& final(self).queue_raws(i) == old(self).queue_raws(i).push(item@)
                        &&& final(self).taken(i) == old(self).taken(i)
                        &&& final(self).lag(i) == old(self).lag(i)
                    } else {
                        &&& final(self).queue_raws(i) == old(self).queue_raws(i).drop_first().push(
                            item@,
                        )
                        &&& final(self).taken(i) == old(self).taken(i) + 1
                        &&& final(self).lag(i) == old(self).lag(i) + 1
                    })
                },
    {
        proof {
            self.published@ = self.published@.push(item@);
        }
        let ghost pub_new = self.published@;
        let ghost pub_old = old(self).published();
        let mut i: usize = 0;
        let n = self.subs.len();
        while i < n
            invariant
                old(self).wf(),
                n == old(self).num_cursors(),
                i <= n,
                self.capacity == old(self).capacity_spec(),
                self.subs@.len() == n,
                self.published@ == pub_new,
                pub_old == old(self).published(),
                pub_new == pub_old.push(item@),
                forall|j: int| i <= j < n ==> self.subs@[j] == old(self).cursor(j),
                forall|j: int|
                    0 <= j < i ==> {
                        &&& cursor_ok(#[trigger] self.subs@[j], pub_new, old(self).capacity_spec())
                        &&& self.subs@[j].active() == old(self).cursor(j).active()
                        &&& self.subs@[j].start_spec() == old(self).cursor(j).start_spec()
                        &&& self.subs@[j].delivered_spec() == old(self).cursor(j).delivered_spec()
                        &&& (!old(self).cursor(j).active() ==> self.subs@[j] == old(self).cursor(
                            j,
                        ))
                        &&& (old(self).cursor(j).active() ==> if old(self).cursor(
                            j,
                        ).queue_raws().len() < old(self).capacity_spec() {
                            &&& self.subs@[j].queue_raws() == old(self).cursor(
                                j,
                            ).queue_raws().push(item@)
                            &&& self.subs@[j].taken_spec() == old(self).cursor(j).taken_spec()
                            &&& self.subs@[j].lag_spec() == old(self).cursor(j).lag_spec()
                        } else {
                            &&& self.subs@[j].queue_raws() == old(self).cursor(
                                j,
                            ).queue_raws().drop_first().push(item@)
                            &&& self.subs@[j].taken_spec() == old(self).cursor(j).taken_spec() + 1
                            &&& self.subs@[j].lag_spec() == old(self).cursor(j).lag_spec() + 1
                        })
                    },
            decreases n - i,
        {
            let ghost c_old = self.subs@[i as int];
            proof {
                assert(c_old == old(self).cursor(i as int));
                assert(cursor_ok(
                    old(self).cursor(i as int),
                    old(self).published(),
                    old(self).capacity_spec(),
                ));
            }
            let cap = self.capacity;
            let c = &mut self.subs[i];
            if c.active {
                proof {
                    assert(cursor_ok(c_old, pub_old, cap as int));
                    assert(raw_outputs(c_old.queue@) == pub_old.skip(
                        c_old.start_spec() + c_old.taken_spec(),
                    ));
                }
                if c.queue.len() >= cap {
                    let ghost q_old = c.queue@;
                    c.queue.remove(0);
                    c.taken = Ghost(c.taken@ + 1);
                    c.lag = Ghost(c.lag@ + 1);
                    proof {
                        assert(q_old.len() >= 1);
                        assert(pub_old.skip(c_old.start_spec() + c_old.taken_spec()).len() >= 1);
                        assert(raw_outputs(c.queue@) =~= raw_outputs(q_old).drop_first());
                        assert(pub_old.skip(c_old.start_spec() + c_old.taken_spec()).drop_first()
                            =~= pub_old.skip(c_old.start_spec() + c_old.taken_spec() + 1));
                    }
                }
                let ghost q_mid = c.queue@;
                let copy = clone_bytes(item);
                c.queue.push(copy);
                proof {
                    assert(raw_outputs(c.queue@) =~= raw_outputs(q_mid).push(item@));
                    assert(pub_new.skip(c.start@ + c.taken@) =~= pub_old.skip(c.start@ + c.taken@)
                        .push(item@));
                    if c.lag@ == 0 {
                        assert(pub_new.subrange(c.start@, c.start@ + c.taken@) =~= pub_old.subrange(
                            c.start@,
                            c.start@ + c.taken@,
                        ));
                    }
                }
            } else {
                proof {
                    assert(*c == c_old);
                }
            }
            proof {
                let cf = self.subs@[i as int];
                if c_old.active() {
                    assert forall|j: int| #![trigger cf.delivered_spec()[j]]
                        0 <= j < cf.delivered_spec().len() implies pub_new.contains(
                        cf.delivered_spec()[j],
                    ) by {
                        assert(cf.delivered_spec() == c_old.delivered_spec());
                        assert(0 <= j < c_old.delivered_spec().len());
                        let dj = c_old.delivered_spec()[j];
                        assert(pub_old.contains(dj));
                        let k = choose|k: int| 0 <= k < pub_old.len() && pub_old[k] == dj;
                        assert(pub_new[k] == dj);
                    }
                    assert(cursor_ok(cf, pub_new, old(self).capacity_spec()));
                } else {
                    assert(cf == c_old);
                    assert(cursor_ok(cf, pub_new, old(self).capacity_spec()));
                }
            }
            i = i + 1;
        }
    }

    /// Hands subscriber `i` the oldest item queued for it, if any.
    pub fn pop(&mut self, i: usize) -> (r: Option<Vec<u8>>)
        requires
            old(self).wf(),
            i < old(self).num_cursors(),
            old(self).is_active(i as int),
        ensures
            final(self).wf(),
            final(self).published() == old(self).published(),
            final(self).capacity_spec() == old(self).capacity_spec(),
            final(self).num_cursors() == old(self).num_cursors(),
            forall|j: int|
                0 <= j < old(self).num_cursors() && j != i ==> final(self).cursor(j) == old(
                    self,
                ).cursor(j),
            final(self).is_active(i as int),
            final(self).start(i as int) == old(self).start(i as int),
            final(self).lag(i as int) == old(self).lag(i as int),
            match r {
                Some(x) => {
                    &&& old(self).queue_raws(i as int).len() > 0
                    &&& x@ == old(self).queue_raws(i as int)[0]
                    &&& final(self).queue_raws(i as int) == old(self).queue_raws(
                        i as int,
                    ).drop_first()
                    &&& final(self).delivered(i as int) == old(self).delivered(i as int).push(x@)
                    &&& final(self).taken(i as int) == old(self).taken(i as int) + 1
                },
                None => {
                    &&& old(self).queue_raws(i as int).len() == 0
                    &&& final(self).cursor(i as int) == old(self).cursor(i as int)
                },
            },
    {
        let ghost pub_now = self.published@;
        let ghost c_old = self.subs@[i as int];
        proof {
            assert(c_old == old(self).cursor(i as int));
            assert(cursor_ok(
                old(self).cursor(i as int),
                old(self).published(),
                old(self).capacity_spec(),
            ));
        }
        let c = &mut self.subs[i];
        if c.queue.len() == 0 {
            let r: Option<Vec<u8>> = None;
            proof {
                assert(*c == c_old);
            }
            proof {
                assert(self.subs@ =~= old(self).subs@);
                assert forall|j: int| 0 <= j < self.num_cursors() implies cursor_ok(
                    #[trigger] self.cursor(j),
                    self.published(),
                    self.capacity_spec(),
                ) by {
                    assert(self.cursor(j) == old(self).cursor(j));
                    assert(cursor_ok(
                        old(self).cursor(j),
                        old(self).published(),
                        old(self).capacity_spec(),
                    ));
                }
            }
            return r;
        }
        let ghost q_old = c.queue@;
        let x = c.queue.remove(0);
        c.taken = Ghost(c.taken@ + 1);
        c.delivered = Ghost(c.delivered@.push(x@));
        proof {
            let s = c_old.start_spec();
            let t = c_old.taken_spec();
            assert(raw_outputs(q_old)[0] == q_old[0]@);
            assert(pub_now.skip(s + t)[0] == pub_now[s + t]);
            assert(x@ == pub_now[s + t]);
            assert(raw_outputs(c.queue@) =~= raw_outputs(q_old).drop_first());
            assert(pub_now.skip(s + t + 1) =~= pub_now.skip(s + t).drop_first());
            if c_old.lag_spec() == 0 {
                assert(pub_now.subrange(s, s + t + 1) =~= pub_now.subrange(s, s + t).push(x@));
            }
        }
        proof {
            let cf = self.subs@[i as int];
            assert forall|j: int| #![trigger cf.delivered_spec()[j]]
                0 <= j < cf.delivered_spec().len() implies pub_now.contains(
                cf.delivered_spec()[j],
            ) by {
                if j < c_old.delivered_spec().len() {
                    assert(cf.delivered_spec()[j] == c_old.delivered_spec()[j]);
                    assert(pub_now.contains(c_old.delivered_spec()[j]));
                } else {
                    assert(cf.delivered_spec()[j] == x@);
                    assert(pub_now[c_old.start_spec() + c_old.taken_spec()] == x@);
                }
            }
            assert(cursor_ok(cf, pub_now, old(self).capacity_spec()));
            assert forall|j: int| 0 <= j < self.num_cursors() implies cursor_ok(
                #[trigger] self.cursor(j),
                self.published(),
                self.capacity_spec(),
            ) by {
                if j != i {
                    assert(self.cursor(j) == old(self).cursor(j));
                    assert(cursor_ok(
                        old(self).cursor(j),
                        old(self).published(),
                        old(self).capacity_spec(),
                    ));
                }
            }
        }
        Some(x)
    }

    /// How many cursors exist, detached ones included.
    pub fn cursor_count(&self) -> (n: usize)
        ensures
            n == self.num_cursors(),
    {
        self.subs.len()
    }

    /// Whether the subscriber at `i` is still attached.
    pub fn cursor_active(&self, i: usize) -> (r: bool)
        requires
            i < self.num_cursors(),
        ensures
            r == self.is_active(i as int),
    {
        self.subs[i].active
    }

    /// How deep each subscriber's queue may grow.
    pub fn capacity(&self) -> (c: usize)
        ensures
            c == self.capacity_spec(),
    {
        self.capacity
    }
}

/// A byte-for-byte copy of a buffer.
pub fn clone_bytes(v: &Vec<u8>) -> (r: Vec<u8>)
    ensures
        r@ == v@,
{
    let r = v.clone();
    proof {
        assert(r@ =~= v@);
    }
    r
}

/// Order preservation: a subscriber that never lagged has been handed,
/// followed by what still waits in its queue, exactly the items
/// published since it subscribed — same items, same order, nothing
/// reordered and nothing missing.
pub proof fn lemma_order_preserved(b: &Broadcaster, i: int)
    requires
        b.wf(),
        0 <= i < b.num_cursors(),
        b.is_active(i),
        b.lag(i) == 0,
    ensures
        b.delivered(i) + b.queue_raws(i) == b.published().skip(b.start(i)),
{
    assert(cursor_ok(b.cursor(i), b.published(), b.capacity_spec()));
    assert(b.delivered(i) + b.queue_raws(i) =~= b.published().skip(b.start(i)));
}

/// Everything a subscriber was ever handed was published: delivery
/// invents nothing.
pub proof fn lemma_delivered_were_published(b: &Broadcaster, i: int, j: int)
    requires
        b.wf(),
        0 <= i < b.num_cursors(),
        b.is_active(i),
        0 <= j < b.delivered(i).len(),
    ensures
        b.published().contains(b.delivered(i)[j]),
{
    assert(cursor_ok(b.cursor(i), b.published(), b.capacity_spec()));
    assert(b.cursor(i).delivered_spec()[j] == b.delivered(i)[j]);
}

} // verus!
