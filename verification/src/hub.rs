//! The process-wide stream registry and the relay around it.
//!
//! A `StreamHub` maps each stream name to one per-stream state: the
//! relay cache (adjusted header, most recent configuration record) and
//! the fan-out.  State is created lazily on the first reference to a
//! name — by a publisher or by a subscriber — and removed when the
//! publisher's ingest ends.  At most one state exists per name.
//!
//! Subscribing reads the cached header and configuration record and
//! attaches a cursor in one step, against one state: nothing published
//! after the snapshot can be missed, nothing is duplicated.

use vstd::prelude::*;

use crate::broadcast::Broadcaster;
use crate::reader::spec_magic_ok;
use crate::relay::{relay_config, spec_adjust_header, RelayState, TagAction};
use crate::tag::{kind_of_tag, spec_is_config, Tag, TagKind, CONTAINER_HEADER_LEN};

verus! {

/// One stream's relay state: its name, its caches, its fan-out.
pub struct StreamEntry {
    /// The stream's name.
    pub name: String,
    /// A handle that survives name reuse: a later stream under the
    /// same name gets a fresh id, so stale cursors find nothing.
    pub id: u64,
    /// The cached header and configuration record.
    pub relay: RelayState,
    /// The fan-out to this stream's subscribers.
    pub fan: Broadcaster,
    /// Whether a publisher currently feeds this stream.
    pub publishing: bool,
}

/// The registry: every active stream, each under its name once.
pub struct StreamHub {
    entries: Vec<StreamEntry>,
    depth: usize,
    next_id: u64,
}

/// What a subscriber gets the moment it joins: the cached snapshot and
/// its live cursor.
pub struct SubscribeTicket {
    /// The stream's adjusted container header, if one was cached.
    pub header: Option<Vec<u8>>,
    /// The stream's most recent configuration record, if one was
    /// cached.
    pub config: Option<Tag>,
    /// The stream state the cursor belongs to.
    pub stream_id: u64,
    /// The cursor index within that stream's fan-out.
    pub cursor: usize,
}

/// What a subscriber's wait for the next item ends with.
pub enum RecvOutcome {
    /// The next forwarded byte buffer, in publish order.
    Item(Vec<u8>),
    /// Nothing queued right now; the stream is still open.
    Empty,
    /// The stream state is gone or the cursor is detached: the
    /// subscription is over.
    Closed,
}

impl StreamHub {
    /// The streams, in creation order.
    pub closed spec fn streams(&self) -> Seq<StreamEntry> {
        self.entries@
    }

    /// How many streams are active.
    pub open spec fn num_streams(&self) -> int {
        self.streams().len() as int
    }

    /// The queue-depth policy handed to every stream's fan-out.
    pub closed spec fn depth_spec(&self) -> int {
        self.depth as int
    }

    /// The id bound: every stream's id is below it.
    pub closed spec fn next_id_spec(&self) -> int {
        self.next_id as int
    }

    /// The index of the stream named `name`, if one exists.
    pub open spec fn find_name(&self, name: Seq<char>) -> Option<int> {
        if exists|i: int| 0 <= i < self.num_streams() && (#[trigger] self.streams()[i]).name@
            == name {
            Some(
                choose|i: int|
                    0 <= i < self.num_streams() && (#[trigger] self.streams()[i]).name@ == name,
            )
        } else {
            None
        }
    }

    /// The index of the stream with id `id`, if one exists.
    pub open spec fn find_id(&self, id: u64) -> Option<int> {
        if exists|i: int| 0 <= i < self.num_streams() && (#[trigger] self.streams()[i]).id == id {
            Some(
                choose|i: int|
                    0 <= i < self.num_streams() && (#[trigger] self.streams()[i]).id == id,
            )
        } else {
            None
        }
    }

    /// The registry invariant: at most one stream per name, one per
    /// id, every cache and fan-out well formed, and nothing published
    /// that an audio tag could hide in.
    pub open spec fn wf(&self) -> bool {
        &&& self.depth_spec() >= 1
        &&& forall|i: int, j: int|
            0 <= i < j < self.num_streams() ==> (#[trigger] self.streams()[i]).name@ != (
            #[trigger] self.streams()[j]).name@
        &&& forall|i: int, j: int|
            0 <= i < j < self.num_streams() ==> (#[trigger] self.streams()[i]).id != (
            #[trigger] self.streams()[j]).id
        &&& forall|i: int|
            0 <= i < self.num_streams() ==> (#[trigger] self.streams()[i]).id
                < self.next_id_spec()
        &&& forall|i: int| 0 <= i < self.num_streams() ==> (#[trigger] self.streams()[i]).relay.wf()
        &&& forall|i: int| 0 <= i < self.num_streams() ==> (#[trigger] self.streams()[i]).fan.wf()
        &&& forall|i: int|
            0 <= i < self.num_streams() ==> entry_outputs_ok(#[trigger] self.streams()[i])
    }

    /// Whether the registry has run out of stream ids: the machine
    /// limit a caller tests before creating another stream.
    pub fn at_id_limit(&self) -> (r: bool)
        ensures
            r == (self.next_id_spec() == 0xffff_ffff_ffff_ffff),
    {
        self.next_id == 0xffff_ffff_ffff_ffff
    }

    /// A fresh registry with the given per-subscriber queue depth.
    pub fn new(depth: usize) -> (r: StreamHub)
        requires
            depth >= 1,
        ensures
            r.wf(),
            r.num_streams() == 0,
            r.depth_spec() == depth,
    {
        StreamHub { entries: Vec::new(), depth, next_id: 0 }
    }

    /// Finds the stream named `name`, walking the registry once.
    fn position_of_name(&self, name: &String) -> (r: Option<usize>)
        requires
            self.wf(),
        ensures
            match r {
                Some(i) => {
                    &&& self.find_name(name@) == Some(i as int)
                    &&& i < self.num_streams()
                    &&& self.streams()[i as int].name@ == name@
                },
                None => self.find_name(name@) == Option::<int>::None,
            },
    {
        let n = self.entries.len();
        let mut i: usize = 0;
        while i < n
            invariant
                self.wf(),
                n == self.num_streams(),
                i <= n,
                forall|j: int| 0 <= j < i ==> (#[trigger] self.streams()[j]).name@ != name@,
            decreases n - i,
        {
            if self.entries[i].name == *name {
                proof {
                    assert(self.streams()[i as int].name@ == name@);
                    let j = choose|j: int|
                        0 <= j < self.num_streams() && (#[trigger] self.streams()[j]).name@
                            == name@;
                    if j < i as int {
                        assert(self.streams()[j].name@ != self.streams()[i as int].name@);
                    } else if j > i as int {
                        assert(self.streams()[i as int].name@ != self.streams()[j].name@);
                    }
                    assert(j == i as int);
                }
                return Some(i);
            }
            i = i + 1;
        }
        None
    }

    /// Finds the stream with id `id`, walking the registry once.
    fn position_of_id(&self, id: u64) -> (r: Option<usize>)
        requires
            self.wf(),
        ensures
            match r {
                Some(i) => {
                    &&& self.find_id(id) == Some(i as int)
                    &&& i < self.num_streams()
                    &&& self.streams()[i as int].id == id
                },
                None => self.find_id(id) == Option::<int>::None,
            },
    {
        let n = self.entries.len();
        let mut i: usize = 0;
        while i < n
            invariant
                self.wf(),
                n == self.num_streams(),
                i <= n,
                forall|j: int| 0 <= j < i ==> (#[trigger] self.streams()[j]).id != id,
            decreases n - i,
        {
            if self.entries[i].id == id {
                proof {
                    assert(self.streams()[i as int].id == id);
                    let j = choose|j: int|
                        0 <= j < self.num_streams() && (#[trigger] self.streams()[j]).id == id;
                    if j < i as int {
                        assert(self.streams()[j].id != self.streams()[i as int].id);
                    } else if j > i as int {
                        assert(self.streams()[i as int].id != self.streams()[j].id);
                    }
                    assert(j == i as int);
                }
                return Some(i);
            }
            i = i + 1;
        }
        None
    }
    /// Finds the stream named `name`, or creates it with empty caches,
    /// no publisher and no subscribers: the lazy lookup-or-create the
    /// registry performs as one atomic step.
    fn lookup_or_create(&mut self, name: &String) -> (idx: usize)
        requires
            old(self).wf(),
            old(self).next_id_spec() < 0xffff_ffff_ffff_ffff,
        ensures
            final(self).wf(),
            final(self).depth_spec() == old(self).depth_spec(),
            idx < final(self).num_streams(),
            final(self).streams()[idx as int].name@ == name@,
            final(self).find_name(name@) == Some(idx as int),
            match old(self).find_name(name@) {
                Some(i) => {
                    &&& idx as int == i
                    &&& *final(self) == *old(self)
                },
                None => {
                    &&& idx as int == old(self).num_streams()
                    &&& final(self).num_streams() == old(self).num_streams() + 1
                    &&& forall|j: int|
                        0 <= j < old(self).num_streams() ==> final(self).streams()[j] == old(
                            self,
                        ).streams()[j]
                    &&& final(self).streams()[idx as int].relay.header_raw()
                        == Option::<Seq<u8>>::None
                    &&& final(self).streams()[idx as int].relay.config_raw()
                        == Option::<Seq<u8>>::None
                    &&& final(self).streams()[idx as int].fan.published() == Seq::<Seq<u8>>::empty()
                    &&& final(self).streams()[idx as int].fan.num_cursors() == 0
                    &&& !final(self).streams()[idx as int].publishing
                },
            },
    {
        let found = self.position_of_name(name);
        match found {
            Some(i) => i,
            None => {
                let idx = self.entries.len();
                let entry = StreamEntry {
                    name: clone_string(name),
                    id: self.next_id,
                    relay: RelayState::new(),
                    fan: Broadcaster::new(self.depth),
                    publishing: false,
                };
                self.next_id = self.next_id + 1;
                self.entries.push(entry);
                proof {
                    assert(self.streams()[idx as int].name@ == name@);
                    lemma_find_name_witness(self, name@, idx as int);
                }
                idx
            },
        }
    }

    /// Subscribes to the named stream, creating its state if none
    /// exists yet.  In one atomic step the subscriber gets the cached
    /// header and configuration record — exactly what the stream has
    /// cached at this moment — and a live cursor that will see every
    /// buffer published from this moment on: no gap, no duplicate.
    pub fn subscribe(&mut self, name: &String) -> (t: SubscribeTicket)
        requires
            old(self).wf(),
            old(self).next_id_spec() < 0xffff_ffff_ffff_ffff,
        ensures
            final(self).wf(),
            final(self).depth_spec() == old(self).depth_spec(),
            final(self).find_name(name@).is_some(),
            ({
                let idx = final(self).find_name(name@).unwrap();
                let e = final(self).streams()[idx];
                &&& t.stream_id == e.id
                &&& opt_bytes_raw(t.header) == e.relay.header_raw()
                &&& opt_tag_raw(t.config) == e.relay.config_raw()
                &&& (t.config matches Some(c) ==> c.wf() && spec_is_config(c.bytes@))
                &&& t.cursor < e.fan.num_cursors()
                &&& e.fan.is_active(t.cursor as int)
                &&& e.fan.queue_raws(t.cursor as int) == Seq::<Seq<u8>>::empty()
                &&& e.fan.delivered(t.cursor as int) == Seq::<Seq<u8>>::empty()
                &&& e.fan.start(t.cursor as int) == e.fan.published().len()
                &&& e.fan.lag(t.cursor as int) == 0
                &&& match old(self).find_name(name@) {
                    Some(i) => {
                        &&& idx == i
                        &&& e.relay == old(self).streams()[i].relay
                        &&& e.fan.published() == old(self).streams()[i].fan.published()
                        &&& e.id == old(self).streams()[i].id
                        &&& e.publishing == old(self).streams()[i].publishing
                        &&& final(self).num_streams() == old(self).num_streams()
                        &&& forall|j: int|
                            0 <= j < old(self).num_streams() && j != i ==> final(self).streams()[j]
                                == old(self).streams()[j]
                    },
                    None => {
                        &&& idx == old(self).num_streams()
                        &&& e.relay.header_raw() == Option::<Seq<u8>>::None
                        &&& e.relay.config_raw() == Option::<Seq<u8>>::None
                        &&& e.fan.published() == Seq::<Seq<u8>>::empty()
                        &&& !e.publishing
                        &&& final(self).num_streams() == old(self).num_streams() + 1
                        &&& forall|j: int|
                            0 <= j < old(self).num_streams() ==> final(self).streams()[j] == old(
                                self,
                            ).streams()[j]
                    },
                }
            }),
    {
        let idx = self.lookup_or_create(name);
        let ghost mid = *self;
        let e = &mut self.entries[idx];
        let header = match &e.relay.header {
            Some(h) => Some(crate::broadcast::clone_bytes(h)),
            None => None,
        };
        let config = match &e.relay.config {
            Some(c) => Some(c.clone_tag()),
            None => None,
        };
        let stream_id = e.id;
        let cursor = e.fan.subscribe();
        proof {
            assert(self.streams()[idx as int].name@ == name@);
            lemma_find_name_witness(self, name@, idx as int);
            assert forall|j: int| 0 <= j < self.num_streams() implies {
                &&& (#[trigger] self.streams()[j]).relay.wf()
                &&& self.streams()[j].fan.wf()
                &&& entry_outputs_ok(self.streams()[j])
            } by {
                if j != idx as int {
                    assert(self.streams()[j] == mid.streams()[j]);
                }
                assert(mid.streams()[j].relay.wf());
                assert(mid.streams()[j].fan.wf());
                assert(entry_outputs_ok(mid.streams()[j]));
            }
        }
        SubscribeTicket { header, config, stream_id, cursor }
    }

    /// Marks the named stream as fed by a publisher, creating its
    /// state if none exists yet, and hands back the stream id the
    /// publisher will publish under.
    pub fn start_publish(&mut self, name: &String) -> (id: u64)
        requires
            old(self).wf(),
            old(self).next_id_spec() < 0xffff_ffff_ffff_ffff,
        ensures
            final(self).wf(),
            final(self).depth_spec() == old(self).depth_spec(),
            final(self).find_name(name@).is_some(),
            ({
                let idx = final(self).find_name(name@).unwrap();
                let e = final(self).streams()[idx];
                &&& e.id == id
                &&& e.publishing
                &&& match old(self).find_name(name@) {
                    Some(i) => {
                        &&& idx == i
                        &&& e.relay == old(self).streams()[i].relay
                        &&& e.fan == old(self).streams()[i].fan
                        &&& final(self).num_streams() == old(self).num_streams()
                        &&& forall|j: int|
                            0 <= j < old(self).num_streams() && j != i ==> final(self).streams()[j]
                                == old(self).streams()[j]
                    },
                    None => {
                        &&& idx == old(self).num_streams()
                        &&& e.relay.header_raw() == Option::<Seq<u8>>::None
                        &&& e.relay.config_raw() == Option::<Seq<u8>>::None
                        &&& e.fan.published() == Seq::<Seq<u8>>::empty()
                        &&& e.fan.num_cursors() == 0
                        &&& final(self).num_streams() == old(self).num_streams() + 1
                        &&& forall|j: int|
                            0 <= j < old(self).num_streams() ==> final(self).streams()[j] == old(
                                self,
                            ).streams()[j]
                    },
                }
            }),
    {
        let idx = self.lookup_or_create(name);
        let ghost mid = *self;
        let e = &mut self.entries[idx];
        e.publishing = true;
        let id = e.id;
        proof {
            assert(self.streams()[idx as int].name@ == name@);
            lemma_find_name_witness(self, name@, idx as int);
            assert forall|j: int| 0 <= j < self.num_streams() implies {
                &&& (#[trigger] self.streams()[j]).relay.wf()
                &&& self.streams()[j].fan.wf()
                &&& entry_outputs_ok(self.streams()[j])
            } by {
                if j != idx as int {
                    assert(self.streams()[j] == mid.streams()[j]);
                }
                assert(mid.streams()[j].relay.wf());
                assert(mid.streams()[j].fan.wf());
                assert(entry_outputs_ok(mid.streams()[j]));
            }
        }
        id
    }
}

impl StreamHub {
    /// Takes the publisher's container header for stream `id`: caches
    /// the adjusted bytes and forwards them to every current
    /// subscriber.  Returns false when no such stream exists any more.
    pub fn publish_header(&mut self, id: u64, raw: &Vec<u8>, has_video: bool) -> (ok: bool)
        requires
            old(self).wf(),
            raw@.len() == CONTAINER_HEADER_LEN,
            spec_magic_ok(raw@),
        ensures
            final(self).wf(),
            final(self).depth_spec() == old(self).depth_spec(),
            match old(self).find_id(id) {
                Some(i) => {
                    &&& ok
                    &&& final(self).num_streams() == old(self).num_streams()
                    &&& forall|j: int|
                        0 <= j < old(self).num_streams() && j != i ==> final(self).streams()[j]
                            == old(self).streams()[j]
                    &&& ({
                        let e = final(self).streams()[i];
                        let eo = old(self).streams()[i];
                        &&& e.name@ == eo.name@
                        &&& e.id == eo.id
                        &&& e.publishing == eo.publishing
                        &&& e.relay.header_raw() == Some(spec_adjust_header(raw@, has_video))
                        &&& e.relay.config_raw() == eo.relay.config_raw()
                        &&& e.fan.published() == eo.fan.published().push(
                            spec_adjust_header(raw@, has_video),
                        )
                    })
                },
                None => {
                    &&& !ok
                    &&& *final(self) == *old(self)
                },
            },
    {
        let found = self.position_of_id(id);
        let idx = match found {
            Some(i) => i,
            None => {
                return false;
            },
        };
        let ghost mid = *self;
        let e = &mut self.entries[idx];
        let adjusted = e.relay.on_header(raw, has_video);
        e.fan.publish(&adjusted);
        proof {
            assert(adjusted@[0] == raw@[0]);
            assert(kind_of_tag(adjusted@) != TagKind::Audio);
            assert forall|j: int| 0 <= j < self.num_streams() implies {
                &&& (#[trigger] self.streams()[j]).relay.wf()
                &&& self.streams()[j].fan.wf()
                &&& entry_outputs_ok(self.streams()[j])
            } by {
                if j != idx as int {
                    assert(self.streams()[j] == mid.streams()[j]);
                    assert(entry_outputs_ok(mid.streams()[j]));
                } else {
                    let pubs = self.streams()[j].fan.published();
                    let pubs_old = mid.streams()[j].fan.published();
                    assert(entry_outputs_ok(mid.streams()[j]));
                    assert forall|k: int| 0 <= k < pubs.len() implies {
                        let q = #[trigger] pubs[k];
                        q.len() >= 1 && kind_of_tag(q) != TagKind::Audio
                    } by {
                        if k < pubs_old.len() {
                            assert(pubs[k] == pubs_old[k]);
                        } else {
                            assert(pubs[k] == adjusted@);
                        }
                    }
                }
            }
        }
        true
    }

    /// Applies the relay policy to one complete tag of stream `id`:
    /// audio is dropped, a configuration record is cached and
    /// forwarded, everything else is forwarded unchanged.  Returns
    /// whether the tag was forwarded.
    pub fn publish_tag(&mut self, id: u64, t: Tag) -> (forwarded: bool)
        requires
            old(self).wf(),
            t.wf(),
        ensures
            final(self).wf(),
            final(self).depth_spec() == old(self).depth_spec(),
            match old(self).find_id(id) {
                Some(i) => {
                    &&& final(self).num_streams() == old(self).num_streams()
                    &&& forall|j: int|
                        0 <= j < old(self).num_streams() && j != i ==> final(self).streams()[j]
                            == old(self).streams()[j]
                    &&& ({
                        let e = final(self).streams()[i];
                        let eo = old(self).streams()[i];
                        &&& e.name@ == eo.name@
                        &&& e.id == eo.id
                        &&& e.publishing == eo.publishing
                        &&& e.relay.header_raw() == eo.relay.header_raw()
                        &&& forwarded == (t.kind != TagKind::Audio)
                        &&& e.relay.config_raw() == relay_config(
                            seq![t.bytes@],
                            eo.relay.config_raw(),
                        )
                        &&& (forwarded ==> e.fan.published() == eo.fan.published().push(t.bytes@))
                        &&& (!forwarded ==> e == eo)
                    })
                },
                None => {
                    &&& !forwarded
                    &&& *final(self) == *old(self)
                },
            },
    {
        let found = self.position_of_id(id);
        let idx = match found {
            Some(i) => i,
            None => {
                return false;
            },
        };
        let ghost mid = *self;
        let ghost t_raw = t.bytes@;
        let ghost t_kind = t.kind;
        let e = &mut self.entries[idx];
        let act = e.relay.on_tag(t);
        let forwarded: bool;
        match act {
            TagAction::Discard => {
                forwarded = false;
            },
            TagAction::CacheAndForward(f) => {
                e.fan.publish(&f.bytes);
                forwarded = true;
            },
            TagAction::Forward(f) => {
                e.fan.publish(&f.bytes);
                forwarded = true;
            },
        }
        proof {
            assert forall|j: int| 0 <= j < self.num_streams() implies {
                &&& (#[trigger] self.streams()[j]).relay.wf()
                &&& self.streams()[j].fan.wf()
                &&& entry_outputs_ok(self.streams()[j])
            } by {
                if j != idx as int {
                    assert(self.streams()[j] == mid.streams()[j]);
                    assert(entry_outputs_ok(mid.streams()[j]));
                } else {
                    let pubs = self.streams()[j].fan.published();
                    let pubs_old = mid.streams()[j].fan.published();
                    assert(entry_outputs_ok(mid.streams()[j]));
                    assert forall|k: int| 0 <= k < pubs.len() implies {
                        let q = #[trigger] pubs[k];
                        q.len() >= 1 && kind_of_tag(q) != TagKind::Audio
                    } by {
                        if k < pubs_old.len() {
                            assert(pubs[k] == pubs_old[k]);
                        } else {
                            assert(pubs[k] == t_raw);
                            assert(t_kind != TagKind::Audio);
                        }
                    }
                }
            }
        }
        forwarded
    }

    /// Hands subscriber `cursor` of stream `id` the next forwarded
    /// buffer, `Empty` when nothing is queued yet, and `Closed` once
    /// the stream state is gone or the cursor is detached.
    pub fn recv(&mut self, id: u64, cursor: usize) -> (r: RecvOutcome)
        requires
            old(self).wf(),
        ensures
            final(self).wf(),
            final(self).depth_spec() == old(self).depth_spec(),
            match old(self).find_id(id) {
                None => *final(self) == *old(self) && (r matches RecvOutcome::Closed),
                Some(i) => {
                    &&& final(self).num_streams() == old(self).num_streams()
                    &&& forall|j: int|
                        0 <= j < old(self).num_streams() && j != i ==> final(self).streams()[j]
                            == old(self).streams()[j]
                    &&& ({
                        let e = final(self).streams()[i];
                        let eo = old(self).streams()[i];
                        &&& e.name@ == eo.name@
                        &&& e.id == eo.id
                        &&& e.relay == eo.relay
                        &&& e.fan.published() == eo.fan.published()
                        &&& if cursor as int >= eo.fan.num_cursors() || !eo.fan.is_active(
                            cursor as int,
                        ) {
                            &&& (r matches RecvOutcome::Closed)
                            &&& e == eo
                        } else {
                            match r {
                                RecvOutcome::Item(x) => {
                                    &&& eo.fan.queue_raws(cursor as int).len() > 0
                                    &&& x@ == eo.fan.queue_raws(cursor as int)[0]
                                    &&& e.fan.queue_raws(cursor as int) == eo.fan.queue_raws(
                                        cursor as int,
                                    ).drop_first()
                                    &&& e.fan.delivered(cursor as int) == eo.fan.delivered(
                                        cursor as int,
                                    ).push(x@)
                                },
                                RecvOutcome::Empty => {
                                    &&& eo.fan.queue_raws(cursor as int).len() == 0
                                    &&& e.fan.queue_raws(cursor as int) == eo.fan.queue_raws(
                                        cursor as int,
                                    )
                                    &&& e.fan.delivered(cursor as int) == eo.fan.delivered(
                                        cursor as int,
                                    )
                                    &&& e.publishing == eo.publishing
                                },
                                RecvOutcome::Closed => false,
                            }
                        }
                    })
                },
            },
    {
        let found = self.position_of_id(id);
        let idx = match found {
            Some(i) => i,
            None => {
                return RecvOutcome::Closed;
            },
        };
        let ghost mid = *self;
        let e = &mut self.entries[idx];
        if cursor >= e.fan.cursor_count() || !e.fan.cursor_active(cursor) {
            let r = RecvOutcome::Closed;
            proof {
                assert(self.streams() =~= mid.streams());
            }
            return r;
        }
        let popped = e.fan.pop(cursor);
        proof {
            assert forall|j: int| 0 <= j < self.num_streams() implies {
                &&& (#[trigger] self.streams()[j]).relay.wf()
                &&& self.streams()[j].fan.wf()
                &&& entry_outputs_ok(self.streams()[j])
            } by {
                if j != idx as int {
                    assert(self.streams()[j] == mid.streams()[j]);
                }
                assert(mid.streams()[j].relay.wf());
                assert(mid.streams()[j].fan.wf());
                assert(entry_outputs_ok(mid.streams()[j]));
                if j == idx as int {
                    assert(self.streams()[j].fan.published() == mid.streams()[j].fan.published());
                }
            }
        }
        match popped {
            Some(x) => RecvOutcome::Item(x),
            None => RecvOutcome::Empty,
        }
    }

    /// Detaches subscriber `cursor` of stream `id`, reclaiming its
    /// queue.  Nothing happens when the stream is already gone.
    pub fn unsubscribe(&mut self, id: u64, cursor: usize)
        requires
            old(self).wf(),
        ensures
            final(self).wf(),
            final(self).depth_spec() == old(self).depth_spec(),
            final(self).num_streams() == old(self).num_streams(),
            match old(self).find_id(id) {
                Some(i) => {
                    &&& forall|j: int|
                        0 <= j < old(self).num_streams() && j != i ==> final(self).streams()[j]
                            == old(self).streams()[j]
                    &&& ({
                        let e = final(self).streams()[i];
                        let eo = old(self).streams()[i];
                        &&& e.name@ == eo.name@
                        &&& e.id == eo.id
                        &&& e.relay == eo.relay
                        &&& e.publishing == eo.publishing
                        &&& e.fan.published() == eo.fan.published()
                        &&& e.fan.num_cursors() == eo.fan.num_cursors()
                        &&& ((cursor as int) < eo.fan.num_cursors() ==> !e.fan.is_active(
                            cursor as int,
                        ))
                        &&& forall|c: int|
                            0 <= c < eo.fan.num_cursors() && c != cursor ==> e.fan.cursor(c)
                                == eo.fan.cursor(c)
                    })
                },
                None => *final(self) == *old(self),
            },
    {
        let found = self.position_of_id(id);
        let idx = match found {
            Some(i) => i,
            None => {
                return ;
            },
        };
        let ghost mid = *self;
        let e = &mut self.entries[idx];
        if cursor < e.fan.cursor_count() {
            e.fan.unsubscribe(cursor);
        }
        proof {
            assert forall|j: int| 0 <= j < self.num_streams() implies {
                &&& (#[trigger] self.streams()[j]).relay.wf()
                &&& self.streams()[j].fan.wf()
                &&& entry_outputs_ok(self.streams()[j])
            } by {
                if j != idx as int {
                    assert(self.streams()[j] == mid.streams()[j]);
                }
                assert(mid.streams()[j].relay.wf());
                assert(mid.streams()[j].fan.wf());
                assert(entry_outputs_ok(mid.streams()[j]));
                if j == idx as int {
                    assert(self.streams()[j].fan.published() == mid.streams()[j].fan.published());
                }
            }
        }
    }

    /// Tears the stream down when its publisher's ingest ends: the
    /// state leaves the registry, so a later publish starts clean and
    /// every subscriber's next wait observes closure.
    pub fn end_publish(&mut self, id: u64)
        requires
            old(self).wf(),
        ensures
            final(self).wf(),
            final(self).depth_spec() == old(self).depth_spec(),
            final(self).find_id(id) == Option::<int>::None,
            match old(self).find_id(id) {
                Some(i) => final(self).streams() == old(self).streams().remove(i),
                None => *final(self) == *old(self),
            },
    {
        let found = self.position_of_id(id);
        let idx = match found {
            Some(i) => i,
            None => {
                return ;
            },
        };
        let ghost mid = *self;
        self.entries.remove(idx);
        proof {
            assert forall|j: int| 0 <= j < self.num_streams() implies {
                &&& (#[trigger] self.streams()[j]).relay.wf()
                &&& self.streams()[j].fan.wf()
                &&& entry_outputs_ok(self.streams()[j])
                &&& self.streams()[j].id != id
            } by {
                if j < idx as int {
                    assert(self.streams()[j] == mid.streams()[j]);
                } else {
                    assert(self.streams()[j] == mid.streams()[j + 1]);
                }
            }
            assert forall|a: int, b: int| 0 <= a < b < self.num_streams() implies {
                &&& (#[trigger] self.streams()[a]).name@ != (#[trigger] self.streams()[b]).name@
                &&& self.streams()[a].id != self.streams()[b].id
            } by {
                let a0 = if a < idx as int {
                    a
                } else {
                    a + 1
                };
                let b0 = if b < idx as int {
                    b
                } else {
                    b + 1
                };
                assert(self.streams()[a] == mid.streams()[a0]);
                assert(self.streams()[b] == mid.streams()[b0]);
                assert(mid.streams()[a0].name@ != mid.streams()[b0].name@);
                assert(mid.streams()[a0].id != mid.streams()[b0].id);
            }
            if exists|i: int|
                0 <= i < self.num_streams() && (#[trigger] self.streams()[i]).id == id {
                let i = choose|i: int|
                    0 <= i < self.num_streams() && (#[trigger] self.streams()[i]).id == id;
                assert(self.streams()[i].id != id);
            }
        }
    }
}

/// The raw bytes inside an optional byte buffer.
pub open spec fn opt_bytes_raw(o: Option<Vec<u8>>) -> Option<Seq<u8>> {
    match o {
        Some(v) => Some(v@),
        None => None,
    }
}

/// The raw bytes inside an optional tag.
pub open spec fn opt_tag_raw(o: Option<Tag>) -> Option<Seq<u8>> {
    match o {
        Some(t) => Some(t.bytes@),
        None => None,
    }
}

/// A character-for-character copy of a string.
fn clone_string(s: &String) -> (r: String)
    ensures
        r@ == s@,
{
    s.clone()
}

/// If some stream at `idx` bears `name`, the registry's lookup finds
/// exactly that index — names are unique.
proof fn lemma_find_name_witness(h: &StreamHub, name: Seq<char>, idx: int)
    requires
        0 <= idx < h.num_streams(),
        h.streams()[idx].name@ == name,
        forall|i: int, j: int|
            0 <= i < j < h.num_streams() ==> (#[trigger] h.streams()[i]).name@ != (
            #[trigger] h.streams()[j]).name@,
    ensures
        h.find_name(name) == Some(idx),
{
    let j = choose|j: int|
        0 <= j < h.num_streams() && (#[trigger] h.streams()[j]).name@ == name;
    if j < idx {
        assert(h.streams()[j].name@ != h.streams()[idx].name@);
    } else if j > idx {
        assert(h.streams()[idx].name@ != h.streams()[j].name@);
    }
}

/// Nothing an audio tag could be is ever in a stream's fan-out: every
/// published buffer is the container header or a non-audio tag.
pub open spec fn entry_outputs_ok(e: StreamEntry) -> bool {
    forall|k: int|
        0 <= k < e.fan.published().len() ==> {
            let q = #[trigger] e.fan.published()[k];
            q.len() >= 1 && kind_of_tag(q) != TagKind::Audio
        }
}

/// No subscriber of any stream is ever handed an audio tag: whatever a
/// cursor delivered, at any time, is not of the audio kind.
pub proof fn lemma_subscriber_never_sees_audio(h: &StreamHub, e: int, c: int, j: int)
    requires
        h.wf(),
        0 <= e < h.num_streams(),
        0 <= c < h.streams()[e].fan.num_cursors(),
        h.streams()[e].fan.is_active(c),
        0 <= j < h.streams()[e].fan.delivered(c).len(),
    ensures
        kind_of_tag(h.streams()[e].fan.delivered(c)[j]) != TagKind::Audio,
{
    let fan = h.streams()[e].fan;
    crate::broadcast::lemma_delivered_were_published(&fan, c, j);
    let d = fan.delivered(c)[j];
    assert(fan.published().contains(d));
    let k = choose|k: int| 0 <= k < fan.published().len() && fan.published()[k] == d;
    assert(entry_outputs_ok(h.streams()[e]));
    assert(kind_of_tag(fan.published()[k]) != TagKind::Audio);
}

} // verus!
