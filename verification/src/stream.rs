//! Stream bookkeeping: per-stream data, subscriber lists, and the
//! manager that holds one stream per name.
//!
//! Activity timestamps are plain millisecond counts handed in by the
//! caller, so every rule about them is stated and checked here.

use vstd::prelude::*;

use crate::error::Error;

verus! {

/// Data of one stream: its name, key, metadata and activity times, in
/// milliseconds of the caller's clock.
#[derive(Debug)]
pub struct StreamData {
    /// Stream name.
    pub name: String,
    /// Stream key, for publishing.
    pub key: Option<String>,
    /// Stream metadata, as key-value pairs.
    pub metadata: Vec<(String, String)>,
    /// Creation time.
    pub created_at: u64,
    /// Last activity time.
    pub last_activity: u64,
}

impl StreamData {
    /// A new stream, created and last active now.
    pub fn new(name: String, now: u64) -> (r: StreamData)
        ensures
            r.name@ == name@,
            r.key == Option::<String>::None,
            r.metadata@.len() == 0,
            r.created_at == now,
            r.last_activity == now,
    {
        StreamData { name, key: None, metadata: Vec::new(), created_at: now, last_activity: now }
    }

    /// Marks the stream active now.
    pub fn update_activity(&mut self, now: u64)
        ensures
            final(self).name == old(self).name,
            final(self).key == old(self).key,
            final(self).metadata == old(self).metadata,
            final(self).created_at == old(self).created_at,
            final(self).last_activity == now,
    {
        self.last_activity = now;
    }

    /// Whether the stream was active within `timeout` before `now`.  A
    /// last-activity time in the future counts as inactive, as a clock
    /// that went backwards does.
    pub fn is_active(&self, now: u64, timeout: u64) -> (r: bool)
        ensures
            r == (self.last_activity <= now && now - self.last_activity < timeout),
    {
        self.last_activity <= now && now - self.last_activity < timeout
    }

    /// A field-for-field duplicate.
    pub fn clone_data(&self) -> (r: StreamData)
        ensures
            r.name@ == self.name@,
            r.key == self.key,
            r.metadata@ == self.metadata@,
            r.created_at == self.created_at,
            r.last_activity == self.last_activity,
    {
        let key = match &self.key {
            Some(k) => Some(k.clone()),
            None => None,
        };
        let mut metadata: Vec<(String, String)> = Vec::new();
        let n = self.metadata.len();
        let mut i: usize = 0;
        while i < n
            invariant
                n == self.metadata@.len(),
                i <= n,
                metadata@ == self.metadata@.take(i as int),
            decreases n - i,
        {
            let pair = (self.metadata[i].0.clone(), self.metadata[i].1.clone());
            metadata.push(pair);
            proof {
                assert(metadata@ =~= self.metadata@.take(i as int + 1));
            }
            i = i + 1;
        }
        proof {
            assert(self.metadata@.take(n as int) =~= self.metadata@);
        }
        StreamData {
            name: self.name.clone(),
            key,
            metadata,
            created_at: self.created_at,
            last_activity: self.last_activity,
        }
    }
}

/// The subscriber ids that survive removing `gone`.
pub open spec fn kept_subscribers(ids: Seq<String>, gone: Seq<char>) -> Seq<String>
    decreases ids.len(),
{
    if ids.len() == 0 {
        Seq::empty()
    } else if ids[0]@ == gone {
        kept_subscribers(ids.drop_first(), gone)
    } else {
        seq![ids[0]] + kept_subscribers(ids.drop_first(), gone)
    }
}

/// One stream and its subscribers.
#[derive(Debug)]
pub struct Stream {
    data: StreamData,
    subscribers: Vec<String>,
}

impl Stream {
    /// The stream's data.
    pub closed spec fn data_spec(&self) -> StreamData {
        self.data
    }

    /// The subscriber ids, in subscription order.
    pub closed spec fn subscribers_spec(&self) -> Seq<String> {
        self.subscribers@
    }

    /// A new stream with no subscribers.
    pub fn new(name: String, now: u64) -> (r: Stream)
        ensures
            r.data_spec().name@ == name@,
            r.data_spec().last_activity == now,
            r.data_spec().created_at == now,
            r.subscribers_spec().len() == 0,
    {
        Stream { data: StreamData::new(name, now), subscribers: Vec::new() }
    }

    /// The stream's name.
    pub fn name(&self) -> (r: String)
        ensures
            r@ == self.data_spec().name@,
    {
        self.data.name.clone()
    }

    /// Adds a subscriber and marks the stream active.
    pub fn add_subscriber(&mut self, subscriber_id: String, now: u64)
        ensures
            final(self).subscribers_spec() == old(self).subscribers_spec().push(subscriber_id),
            final(self).data_spec().name == old(self).data_spec().name,
            final(self).data_spec().last_activity == now,
    {
        self.subscribers.push(subscriber_id);
        self.data.update_activity(now);
    }

    /// Removes every subscriber under that id and marks the stream
    /// active.
    pub fn remove_subscriber(&mut self, subscriber_id: &String, now: u64)
        ensures
            final(self).subscribers_spec() == kept_subscribers(
                old(self).subscribers_spec(),
                subscriber_id@,
            ),
            final(self).data_spec().name == old(self).data_spec().name,
            final(self).data_spec().last_activity == now,
    {
        let n = self.subscribers.len();
        let mut keep: Vec<String> = Vec::new();
        let mut i: usize = 0;
        proof {
            assert(old(self).subscribers_spec().skip(0) =~= old(self).subscribers_spec());
            assert(keep@ + kept_subscribers(old(self).subscribers_spec(), subscriber_id@)
                =~= kept_subscribers(old(self).subscribers_spec(), subscriber_id@));
        }
        while i < n
            invariant
                n == old(self).subscribers_spec().len(),
                self.subscribers@ == old(self).subscribers_spec(),
                self.data == old(self).data_spec(),
                i <= n,
                keep@ + kept_subscribers(
                    old(self).subscribers_spec().skip(i as int),
                    subscriber_id@,
                ) == kept_subscribers(old(self).subscribers_spec(), subscriber_id@),
            decreases n - i,
        {
            proof {
                let rest = old(self).subscribers_spec().skip(i as int);
                assert(rest[0] == old(self).subscribers_spec()[i as int]);
                assert(rest.drop_first() =~= old(self).subscribers_spec().skip(i as int + 1));
            }
            if !(self.subscribers[i] == *subscriber_id) {
                let ghost keep_old = keep@;
                keep.push(self.subscribers[i].clone());
                proof {
                    let rest = old(self).subscribers_spec().skip(i as int);
                    assert(keep@ =~= keep_old.push(old(self).subscribers_spec()[i as int]));
                    assert(keep_old.push(old(self).subscribers_spec()[i as int])
                        + kept_subscribers(rest.drop_first(), subscriber_id@) =~= keep_old + (
                    seq![rest[0]] + kept_subscribers(rest.drop_first(), subscriber_id@)));
                }
            }
            i = i + 1;
        }
        proof {
            assert(old(self).subscribers_spec().skip(n as int) =~= Seq::<String>::empty());
            assert(kept_subscribers(Seq::empty(), subscriber_id@) == Seq::<String>::empty());
            assert(keep@ + Seq::<String>::empty() =~= keep@);
        }
        self.subscribers = keep;
        self.data.update_activity(now);
    }

    /// How many subscribers the stream has.
    pub fn subscriber_count(&self) -> (n: usize)
        ensures
            n == self.subscribers_spec().len(),
    {
        self.subscribers.len()
    }

    /// Accepts published data for the stream and marks it active.
    pub fn publish(&mut self, data: &Vec<u8>, now: u64) -> (r: Result<(), Error>)
        ensures
            r matches Ok(_),
            final(self).subscribers_spec() == old(self).subscribers_spec(),
            final(self).data_spec().name == old(self).data_spec().name,
            final(self).data_spec().last_activity == now,
    {
        let _ = data.len();
        self.data.update_activity(now);
        Ok(())
    }

    /// Whether the stream was active within `timeout` before `now`.
    pub fn is_active(&self, now: u64, timeout: u64) -> (r: bool)
        ensures
            r == (self.data_spec().last_activity <= now && now - self.data_spec().last_activity
                < timeout),
    {
        self.data.is_active(now, timeout)
    }

    /// A duplicate of the stream: same data, same subscribers.
    pub fn clone_stream(&self) -> (r: Stream)
        ensures
            r.data_spec().name@ == self.data_spec().name@,
            r.data_spec().key == self.data_spec().key,
            r.data_spec().metadata@ == self.data_spec().metadata@,
            r.data_spec().last_activity == self.data_spec().last_activity,
            r.data_spec().created_at == self.data_spec().created_at,
            r.subscribers_spec() == self.subscribers_spec(),
    {
        let n = self.subscribers.len();
        let mut subs: Vec<String> = Vec::new();
        let mut i: usize = 0;
        while i < n
            invariant
                n == self.subscribers@.len(),
                i <= n,
                subs@ == self.subscribers@.take(i as int),
            decreases n - i,
        {
            subs.push(self.subscribers[i].clone());
            proof {
                assert(subs@ =~= self.subscribers@.take(i as int + 1));
            }
            i = i + 1;
        }
        proof {
            assert(self.subscribers@.take(n as int) =~= self.subscribers@);
        }
        Stream { data: self.data.clone_data(), subscribers: subs }
    }
}

/// The manager: at most one stream per name, and the inactivity
/// timeout applied when cleaning up, in milliseconds.
pub struct StreamManager {
    streams: Vec<Stream>,
    stream_timeout: u64,
}

impl StreamManager {
    /// The streams, in creation order.
    pub closed spec fn streams_spec(&self) -> Seq<Stream> {
        self.streams@
    }

    /// The inactivity timeout, in milliseconds.
    pub closed spec fn timeout_spec(&self) -> u64 {
        self.stream_timeout
    }

    /// At most one stream per name.
    pub open spec fn wf(&self) -> bool {
        forall|i: int, j: int|
            0 <= i < j < self.streams_spec().len() ==> (
            #[trigger] self.streams_spec()[i]).data_spec().name@ != (
            #[trigger] self.streams_spec()[j]).data_spec().name@
    }

    /// The index of the stream named `name`, if one exists.
    pub open spec fn find_name(&self, name: Seq<char>) -> Option<int> {
        if exists|i: int|
            0 <= i < self.streams_spec().len() && (
            #[trigger] self.streams_spec()[i]).data_spec().name@ == name {
            Some(
                choose|i: int|
                    0 <= i < self.streams_spec().len() && (
                    #[trigger] self.streams_spec()[i]).data_spec().name@ == name,
            )
        } else {
            None
        }
    }

    /// A new manager with no streams and a five-minute timeout.
    pub fn new() -> (r: StreamManager)
        ensures
            r.wf(),
            r.streams_spec().len() == 0,
            r.timeout_spec() == 300000u64,
    {
        StreamManager { streams: Vec::new(), stream_timeout: 300000 }
    }

    /// Finds the stream named `name`, walking the registry once.
    fn position_of(&self, name: &String) -> (r: Option<usize>)
        requires
            self.wf(),
        ensures
            match r {
                Some(i) => {
                    &&& self.find_name(name@) == Some(i as int)
                    &&& i < self.streams_spec().len()
                    &&& self.streams_spec()[i as int].data_spec().name@ == name@
                },
                None => self.find_name(name@) == Option::<int>::None,
            },
    {
        let n = self.streams.len();
        let mut i: usize = 0;
        while i < n
            invariant
                self.wf(),
                n == self.streams_spec().len(),
                i <= n,
                forall|j: int|
                    0 <= j < i ==> (#[trigger] self.streams_spec()[j]).data_spec().name@ != name@,
            decreases n - i,
    {
            if self.streams[i].name() == *name {
                proof {
                    assert(self.streams_spec()[i as int].data_spec().name@ == name@);
                    let j = choose|j: int|
                        0 <= j < self.streams_spec().len() && (
                        #[trigger] self.streams_spec()[j]).data_spec().name@ == name@;
                    if j < i as int {
                        assert(self.streams_spec()[j].data_spec().name@ != self.streams_spec()[
                            i as int].data_spec().name@);
                    } else if j > i as int {
                        assert(self.streams_spec()[i as int].data_spec().name@
                            != self.streams_spec()[j].data_spec().name@);
                    }
                }
                return Some(i);
            }
            i = i + 1;
        }
        None
    }

    /// Creates a stream under `name`; a name already taken is an
    /// error, exactly then.
    pub fn create_stream(&mut self, name: String, now: u64) -> (r: Result<(), Error>)
        requires
            old(self).wf(),
        ensures
            final(self).wf(),
            final(self).timeout_spec() == old(self).timeout_spec(),
            match old(self).find_name(name@) {
                Some(_) => {
                    &&& (r matches Err(e) && e matches Error::Stream(_))
                    &&& *final(self) == *old(self)
                },
                None => {
                    &&& r matches Ok(_)
                    &&& final(self).streams_spec().len() == old(self).streams_spec().len() + 1
                    &&& forall|j: int|
                        0 <= j < old(self).streams_spec().len() ==> final(self).streams_spec()[j]
                            == old(self).streams_spec()[j]
                    &&& final(self).streams_spec().last().data_spec().name@ == name@
                    &&& final(self).streams_spec().last().subscribers_spec().len() == 0
                },
            },
    {
        let found = self.position_of(&name);
        if found.is_some() {
            return Err(Error::Stream(String::from_str("stream already exists")));
        }
        let ghost name_view = name@;
        let stream = Stream::new(name, now);
        self.streams.push(stream);
        proof {
            assert forall|i: int, j: int| 0 <= i < j < self.streams_spec().len() implies (
            #[trigger] self.streams_spec()[i]).data_spec().name@ != (
            #[trigger] self.streams_spec()[j]).data_spec().name@ by {
                if j == self.streams_spec().len() - 1 {
                    assert(self.streams_spec()[i] == old(self).streams_spec()[i]);
                    assert(self.streams_spec()[j].data_spec().name@ == name_view);
                }
            }
        }
        Ok(())
    }

    /// Hands out a duplicate of the stream named `name`, if one
    /// exists.
    pub fn get_stream(&self, name: &String) -> (r: Option<Stream>)
        requires
            self.wf(),
        ensures
            match self.find_name(name@) {
                Some(i) => {
                    &&& r matches Some(s)
                    &&& s.data_spec().name@ == name@
                    &&& s.subscribers_spec() == self.streams_spec()[i].subscribers_spec()
                    &&& s.data_spec().key == self.streams_spec()[i].data_spec().key
                    &&& s.data_spec().metadata@ == self.streams_spec()[i].data_spec().metadata@
                    &&& s.data_spec().created_at == self.streams_spec()[i].data_spec().created_at
                    &&& s.data_spec().last_activity == self.streams_spec()[
                        i].data_spec().last_activity
                },
                None => r matches None,
            },
    {
        let found = self.position_of(name);
        match found {
            Some(i) => Some(self.streams[i].clone_stream()),
            None => None,
        }
    }

    /// Removes the stream named `name`; an unknown name is an error,
    /// exactly then.
    pub fn remove_stream(&mut self, name: &String) -> (r: Result<(), Error>)
        requires
            old(self).wf(),
        ensures
            final(self).wf(),
            final(self).timeout_spec() == old(self).timeout_spec(),
            final(self).find_name(name@) == Option::<int>::None,
            match old(self).find_name(name@) {
                Some(i) => {
                    &&& r matches Ok(_)
                    &&& final(self).streams_spec() == old(self).streams_spec().remove(i)
                },
                None => {
                    &&& (r matches Err(e) && e matches Error::Stream(_))
                    &&& *final(self) == *old(self)
                },
            },
    {
        let found = self.position_of(name);
        let idx = match found {
            Some(i) => i,
            None => {
                return Err(Error::Stream(String::from_str("stream not found")));
            },
        };
        let ghost mid = *self;
        self.streams.remove(idx);
        proof {
            assert forall|j: int| 0 <= j < self.streams_spec().len() implies (
            #[trigger] self.streams_spec()[j]).data_spec().name@ != name@ by {
                if j < idx as int {
                    assert(self.streams_spec()[j] == mid.streams_spec()[j]);
                    if j < idx as int {
                        assert(mid.streams_spec()[j].data_spec().name@ != mid.streams_spec()[
                            idx as int].data_spec().name@);
                    }
                } else {
                    assert(self.streams_spec()[j] == mid.streams_spec()[j + 1]);
                    assert(mid.streams_spec()[idx as int].data_spec().name@ != mid.streams_spec()[
                        j + 1].data_spec().name@);
                }
            }
            assert forall|a: int, b: int| 0 <= a < b < self.streams_spec().len() implies (
            #[trigger] self.streams_spec()[a]).data_spec().name@ != (
            #[trigger] self.streams_spec()[b]).data_spec().name@ by {
                let a0 = if a < idx as int {
                    a
                } else {
                    a + 1
                };
                let b0 = if b < idx as int {
                    b
                } else {
                    b + 1
                };
                assert(self.streams_spec()[a] == mid.streams_spec()[a0]);
                assert(self.streams_spec()[b] == mid.streams_spec()[b0]);
                assert(mid.streams_spec()[a0].data_spec().name@ != mid.streams_spec()[
                    b0].data_spec().name@);
            }
            if exists|i: int|
                0 <= i < self.streams_spec().len() && (
                #[trigger] self.streams_spec()[i]).data_spec().name@ == name@ {
                let i = choose|i: int|
                    0 <= i < self.streams_spec().len() && (
                    #[trigger] self.streams_spec()[i]).data_spec().name@ == name@;
                assert(self.streams_spec()[i].data_spec().name@ != name@);
            }
        }
        Ok(())
    }

    /// Lists every stream's name, in creation order.
    pub fn list_streams(&self) -> (r: Vec<String>)
        ensures
            r@.len() == self.streams_spec().len(),
            forall|i: int|
                0 <= i < r@.len() ==> (#[trigger] r@[i])@ == self.streams_spec()[
                    i].data_spec().name@,
    {
        let n = self.streams.len();
        let mut names: Vec<String> = Vec::new();
        let mut i: usize = 0;
        while i < n
            invariant
                n == self.streams_spec().len(),
                i <= n,
                names@.len() == i,
                forall|j: int|
                    0 <= j < i ==> (#[trigger] names@[j])@ == self.streams_spec()[
                        j].data_spec().name@,
            decreases n - i,
        {
            names.push(self.streams[i].name());
            i = i + 1;
        }
        names
    }

    /// Subscribes `subscriber_id` to the named stream; an unknown name
    /// is an error, exactly then.
    pub fn subscribe(&mut self, stream_name: &String, subscriber_id: String, now: u64) -> (r:
        Result<(), Error>)
        requires
            old(self).wf(),
        ensures
            final(self).wf(),
            final(self).timeout_spec() == old(self).timeout_spec(),
            match old(self).find_name(stream_name@) {
                Some(i) => {
                    &&& r matches Ok(_)
                    &&& final(self).streams_spec()[i].subscribers_spec() == old(
                        self,
                    ).streams_spec()[i].subscribers_spec().push(subscriber_id)
                    &&& final(self).streams_spec()[i].data_spec().last_activity == now
                    &&& forall|j: int|
                        0 <= j < old(self).streams_spec().len() && j != i ==> final(self).streams_spec()[j] == old(self).streams_spec()[j]
                },
                None => {
                    &&& (r matches Err(e) && e matches Error::Stream(_))
                    &&& *final(self) == *old(self)
                },
            },
    {
        let found = self.position_of(stream_name);
        let idx = match found {
            Some(i) => i,
            None => {
                return Err(Error::Stream(String::from_str("stream not found")));
            },
        };
        let ghost mid = *self;
        let s = &mut self.streams[idx];
        s.add_subscriber(subscriber_id, now);
        proof {
            lemma_names_stable(mid, *self, idx as int);
        }
        Ok(())
    }

    /// Unsubscribes `subscriber_id` from the named stream; an unknown
    /// name is an error, exactly then.
    pub fn unsubscribe(&mut self, stream_name: &String, subscriber_id: &String, now: u64) -> (r:
        Result<(), Error>)
        requires
            old(self).wf(),
        ensures
            final(self).wf(),
            final(self).timeout_spec() == old(self).timeout_spec(),
            match old(self).find_name(stream_name@) {
                Some(i) => {
                    &&& r matches Ok(_)
                    &&& final(self).streams_spec()[i].subscribers_spec() == kept_subscribers(
                        old(self).streams_spec()[i].subscribers_spec(),
                        subscriber_id@,
                    )
                    &&& final(self).streams_spec()[i].data_spec().last_activity == now
                    &&& forall|j: int|
                        0 <= j < old(self).streams_spec().len() && j != i ==> final(self).streams_spec()[j] == old(self).streams_spec()[j]
                },
                None => {
                    &&& (r matches Err(e) && e matches Error::Stream(_))
                    &&& *final(self) == *old(self)
                },
            },
    {
        let found = self.position_of(stream_name);
        let idx = match found {
            Some(i) => i,
            None => {
                return Err(Error::Stream(String::from_str("stream not found")));
            },
        };
        let ghost mid = *self;
        let s = &mut self.streams[idx];
        s.remove_subscriber(subscriber_id, now);
        proof {
            lemma_names_stable(mid, *self, idx as int);
        }
        Ok(())
    }

    /// Publishes data to the named stream; an unknown name is an
    /// error, exactly then.
    pub fn publish(&mut self, stream_name: &String, data: &Vec<u8>, now: u64) -> (r: Result<
        (),
        Error,
    >)
        requires
            old(self).wf(),
        ensures
            final(self).wf(),
            final(self).timeout_spec() == old(self).timeout_spec(),
            match old(self).find_name(stream_name@) {
                Some(i) => {
                    &&& r matches Ok(_)
                    &&& final(self).streams_spec()[i].data_spec().last_activity == now
                    &&& final(self).streams_spec()[i].subscribers_spec() == old(
                        self,
                    ).streams_spec()[i].subscribers_spec()
                    &&& forall|j: int|
                        0 <= j < old(self).streams_spec().len() && j != i ==> final(self).streams_spec()[j] == old(self).streams_spec()[j]
                },
                None => {
                    &&& (r matches Err(e) && e matches Error::Stream(_))
                    &&& *final(self) == *old(self)
                },
            },
    {
        let found = self.position_of(stream_name);
        let idx = match found {
            Some(i) => i,
            None => {
                return Err(Error::Stream(String::from_str("stream not found")));
            },
        };
        let ghost mid = *self;
        let s = &mut self.streams[idx];
        let r = s.publish(data, now);
        proof {
            lemma_names_stable(mid, *self, idx as int);
        }
        match r {
            Ok(()) => Ok(()),
            Err(e) => Err(e),
        }
    }

    /// Removes every stream that was not active within the timeout
    /// before `now`, and says how many were removed.
    pub fn cleanup_inactive(&mut self, now: u64) -> (removed: usize)
        requires
            old(self).wf(),
        ensures
            final(self).wf(),
            final(self).timeout_spec() == old(self).timeout_spec(),
            final(self).streams_spec().len() + removed == old(self).streams_spec().len(),
            forall|i: int|
                0 <= i < final(self).streams_spec().len() ==> {
                    let s = #[trigger] final(self).streams_spec()[i];
                    s.data_spec().last_activity <= now && now - s.data_spec().last_activity < old(
                        self,
                    ).timeout_spec()
                },
    {
        let n = self.streams.len();
        let timeout = self.stream_timeout;
        let mut keep: Vec<Stream> = Vec::new();
        let ghost mut src: Seq<int> = Seq::empty();
        let mut i: usize = 0;
        while i < n
            invariant
                old(self).wf(),
                self.streams@ == old(self).streams_spec(),
                self.stream_timeout == old(self).timeout_spec(),
                n == old(self).streams_spec().len(),
                timeout == old(self).timeout_spec(),
                i <= n,
                keep@.len() <= i,
                src.len() == keep@.len(),
                forall|a: int| 0 <= a < src.len() ==> 0 <= #[trigger] src[a] < i,
                forall|a: int, b: int| 0 <= a < b < src.len() ==> src[a] < src[b],
                forall|a: int|
                    0 <= a < keep@.len() ==> (#[trigger] keep@[a]).data_spec().name@ == old(
                        self,
                    ).streams_spec()[src[a]].data_spec().name@,
                forall|a: int|
                    0 <= a < keep@.len() ==> {
                        let s = #[trigger] keep@[a];
                        s.data_spec().last_activity <= now && now - s.data_spec().last_activity
                            < timeout
                    },
            decreases n - i,
        {
            if self.streams[i].is_active(now, timeout) {
                let copied = self.streams[i].clone_stream();
                keep.push(copied);
                proof {
                    src = src.push(i as int);
                }
            }
            i = i + 1;
        }
        let removed = n - keep.len();
        self.streams = keep;
        proof {
            assert forall|a: int, b: int| 0 <= a < b < self.streams_spec().len() implies (
            #[trigger] self.streams_spec()[a]).data_spec().name@ != (
            #[trigger] self.streams_spec()[b]).data_spec().name@ by {
                assert(src[a] < src[b]);
                assert(old(self).streams_spec()[src[a]].data_spec().name@ != old(
                    self,
                ).streams_spec()[src[b]].data_spec().name@);
            }
        }
        removed
    }
}

impl Default for StreamManager {
    /// The manager a fresh server starts with: empty, five-minute
    /// timeout.
    fn default() -> (r: StreamManager)
        ensures
            r.wf(),
            r.streams_spec().len() == 0,
            r.timeout_spec() == 300000u64,
    {
        StreamManager::new()
    }
}

/// A one-entry change keeps names unique when only that entry's
/// non-name state changed.
proof fn lemma_names_stable(before: StreamManager, after: StreamManager, idx: int)
    requires
        before.wf(),
        0 <= idx < before.streams_spec().len(),
        after.streams_spec().len() == before.streams_spec().len(),
        forall|j: int|
            0 <= j < before.streams_spec().len() && j != idx ==> after.streams_spec()[j]
                == before.streams_spec()[j],
        after.streams_spec()[idx].data_spec().name == before.streams_spec()[idx].data_spec().name,
    ensures
        after.wf(),
{
    assert forall|i: int, j: int| 0 <= i < j < after.streams_spec().len() implies (
    #[trigger] after.streams_spec()[i]).data_spec().name@ != (
    #[trigger] after.streams_spec()[j]).data_spec().name@ by {
        assert(after.streams_spec()[i].data_spec().name == before.streams_spec()[
            i].data_spec().name);
        assert(after.streams_spec()[j].data_spec().name == before.streams_spec()[
            j].data_spec().name);
        assert(before.streams_spec()[i].data_spec().name@ != before.streams_spec()[
            j].data_spec().name@);
    }
}

} // verus!
