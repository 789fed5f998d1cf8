//! Incremental extraction of complete tags from a chunked byte stream.
//!
//! A `TagReader` is fed the publisher's bytes in chunks of any size and
//! hands back, one `poll` at a time, first the 13-byte container header
//! and then every complete tag, at the exact boundaries the headers
//! declare.  Partial data stays buffered; nothing is lost and nothing is
//! reparsed.  What comes out depends only on the concatenation of the
//! chunks, never on where they were split.

use vstd::prelude::*;

use crate::tag::{
    complete_tags, has_complete_tag, spec_tag_total_len, tags_rest, take_tag, Tag,
    CONTAINER_HEADER_LEN, TAG_HEADER_LEN,
};

verus! {

/// Whether `s` opens with the container magic marker `F`, `L`, `V`.
pub open spec fn spec_magic_ok(s: Seq<u8>) -> bool {
    s.len() >= 3 && s[0] == 0x46 && s[1] == 0x4c && s[2] == 0x56
}

/// One step of reading: the container header, a tag, a wait for more
/// input, or a protocol error.
pub enum ReadEvent {
    /// The 13-byte container header, exactly as received.
    Header(Vec<u8>),
    /// The next complete tag.
    TagReady(Tag),
    /// Nothing complete is buffered; feed more bytes.
    NeedData,
    /// The stream does not open with the magic marker.  No tags are
    /// ever produced for this stream.
    Corrupt,
}

/// Incremental tag extractor: a state machine over a growing buffer.
pub struct TagReader {
    buf: Vec<u8>,
    started: bool,
    failed: bool,
    fed: Ghost<Seq<u8>>,
    emitted: Ghost<Seq<Seq<u8>>>,
}

impl TagReader {
    /// Every byte ever fed, in order.
    pub closed spec fn fed(&self) -> Seq<u8> {
        self.fed@
    }

    /// The raw bytes of every tag handed out so far, in order.
    pub closed spec fn emitted(&self) -> Seq<Seq<u8>> {
        self.emitted@
    }

    /// Whether the container header has been consumed.
    pub closed spec fn started(&self) -> bool {
        self.started
    }

    /// Whether the stream was rejected for a bad magic marker.
    pub closed spec fn failed(&self) -> bool {
        self.failed
    }

    /// The bytes fed but not yet consumed.
    pub closed spec fn buffered(&self) -> Seq<u8> {
        self.buf@
    }

    /// The reader's invariant: its buffer and its outputs are exactly
    /// determined by the bytes fed so far.
    pub closed spec fn wf(&self) -> bool {
        &&& !self.started && !self.failed ==> {
            &&& self.buf@ == self.fed@
            &&& self.emitted@ == Seq::<Seq<u8>>::empty()
        }
        &&& self.failed ==> {
            &&& !self.started
            &&& self.fed@.len() >= CONTAINER_HEADER_LEN
            &&& !spec_magic_ok(self.fed@)
            &&& self.emitted@ == Seq::<Seq<u8>>::empty()
        }
        &&& self.started ==> {
            &&& !self.failed
            &&& self.fed@.len() >= CONTAINER_HEADER_LEN
            &&& spec_magic_ok(self.fed@)
            &&& complete_tags(self.fed@.skip(CONTAINER_HEADER_LEN as int)) == self.emitted@
                + complete_tags(self.buf@)
            &&& tags_rest(self.fed@.skip(CONTAINER_HEADER_LEN as int)) == tags_rest(self.buf@)
        }
    }

    /// Whether every output derivable from the bytes fed so far has
    /// been handed out.
    pub open spec fn drained(&self) -> bool {
        if self.failed() {
            true
        } else if !self.started() {
            self.fed().len() < CONTAINER_HEADER_LEN
        } else {
            !has_complete_tag(self.buffered())
        }
    }

    /// How many bytes are buffered but not yet consumed.
    pub fn buffered_len(&self) -> (n: usize)
        ensures
            n == self.buffered().len(),
    {
        self.buf.len()
    }

    /// Scans the buffered bytes for an upcoming video tag, as the
    /// relay's header adjustment asks.
    pub fn scan_buffered_for_video(&self) -> (r: bool)
        ensures
            r == crate::relay::spec_scan_has_video(self.buffered()),
    {
        crate::relay::scan_has_video(&self.buf)
    }

    /// A fresh reader that has seen nothing.
    pub fn new() -> (r: TagReader)
        ensures
            r.wf(),
            r.fed() == Seq::<u8>::empty(),
            r.emitted() == Seq::<Seq<u8>>::empty(),
            !r.started(),
            !r.failed(),
    {
        TagReader {
            buf: Vec::new(),
            started: false,
            failed: false,
            fed: Ghost(Seq::empty()),
            emitted: Ghost(Seq::empty()),
        }
    }

    /// Appends one chunk of the publisher's bytes.  Only the
    /// concatenation of the fed bytes matters: the chunk boundary
    /// leaves no other trace in the reader.
    pub fn feed(&mut self, chunk: &[u8])
        requires
            old(self).wf(),
        ensures
            final(self).wf(),
            final(self).fed() == old(self).fed() + chunk@,
            final(self).emitted() == old(self).emitted(),
            final(self).started() == old(self).started(),
            final(self).failed() == old(self).failed(),
            !final(self).failed() ==> final(self).buffered() == old(self).buffered() + chunk@,
    {
        if !self.failed {
            let mut incoming = vstd::slice::slice_to_vec(chunk);
            self.buf.append(&mut incoming);
        }
        proof {
            self.fed@ = self.fed@ + chunk@;
            if self.started {
                assert(self.fed@.len() >= CONTAINER_HEADER_LEN);
                assert(self.fed@[0] == old(self).fed()[0]);
                assert(self.fed@[1] == old(self).fed()[1]);
                assert(self.fed@[2] == old(self).fed()[2]);
                let base = old(self).fed().skip(CONTAINER_HEADER_LEN as int);
                let obuf = old(self).buffered();
                lemma_parse_append(base, chunk@);
                lemma_parse_append(obuf, chunk@);
                assert(self.fed@.skip(CONTAINER_HEADER_LEN as int) =~= base + chunk@);
                assert(complete_tags(self.buf@) == complete_tags(obuf) + complete_tags(
                    tags_rest(obuf) + chunk@,
                ));
                assert(complete_tags(base + chunk@) == (self.emitted@ + complete_tags(obuf))
                    + complete_tags(tags_rest(obuf) + chunk@));
                assert((self.emitted@ + complete_tags(obuf)) + complete_tags(
                    tags_rest(obuf) + chunk@,
                ) =~= self.emitted@ + (complete_tags(obuf) + complete_tags(
                    tags_rest(obuf) + chunk@,
                )));
                assert(complete_tags(self.fed@.skip(CONTAINER_HEADER_LEN as int)) == self.emitted@
                    + complete_tags(self.buf@));
                assert(tags_rest(self.fed@.skip(CONTAINER_HEADER_LEN as int)) == tags_rest(
                    self.buf@,
                ));
            }
            if !self.started && !self.failed {
                assert(self.buf@ == self.fed@);
            }
            if self.failed {
                assert(!spec_magic_ok(old(self).fed()));
                assert(self.fed@.len() >= CONTAINER_HEADER_LEN);
                assert(self.fed@[0] == old(self).fed()[0]);
                assert(self.fed@[1] == old(self).fed()[1]);
                assert(self.fed@[2] == old(self).fed()[2]);
            }
        }
    }

    /// Tries to produce the next output: the container header first,
    /// then one complete tag per call, `NeedData` when nothing whole is
    /// buffered, `Corrupt` (now and forever) when the stream does not
    /// open with the magic marker.
    pub fn poll(&mut self) -> (r: ReadEvent)
        requires
            old(self).wf(),
        ensures
            final(self).wf(),
            final(self).fed() == old(self).fed(),
            match r {
                ReadEvent::Header(h) => {
                    &&& !old(self).started() && !old(self).failed()
                    &&& old(self).fed().len() >= CONTAINER_HEADER_LEN
                    &&& spec_magic_ok(old(self).fed())
                    &&& h@ == old(self).fed().take(CONTAINER_HEADER_LEN as int)
                    &&& final(self).started() && !final(self).failed()
                    &&& final(self).emitted() == old(self).emitted()
                    &&& final(self).buffered() == old(self).fed().skip(
                        CONTAINER_HEADER_LEN as int,
                    )
                },
                ReadEvent::TagReady(t) => {
                    &&& old(self).started()
                    &&& final(self).started()
                    &&& !final(self).failed()
                    &&& has_complete_tag(old(self).buffered())
                    &&& t.wf()
                    &&& t.bytes@ == old(self).buffered().take(spec_tag_total_len(
                        old(self).buffered(),
                    ))
                    &&& final(self).emitted() == old(self).emitted().push(t.bytes@)
                    &&& final(self).buffered() == old(self).buffered().skip(spec_tag_total_len(
                        old(self).buffered(),
                    ))
                },
                ReadEvent::NeedData => {
                    &&& *final(self) == *old(self)
                    &&& old(self).drained()
                    &&& !old(self).failed()
                },
                ReadEvent::Corrupt => {
                    &&& final(self).failed()
                    &&& final(self).emitted() == old(self).emitted()
                    &&& old(self).failed() || (old(self).fed().len() >= CONTAINER_HEADER_LEN
                        && !spec_magic_ok(old(self).fed()))
                },
            },
    {
        if self.failed {
            return ReadEvent::Corrupt;
        }
        if !self.started {
            if self.buf.len() < CONTAINER_HEADER_LEN {
                return ReadEvent::NeedData;
            }
            if !(self.buf[0] == 0x46 && self.buf[1] == 0x4c && self.buf[2] == 0x56) {
                self.failed = true;
                self.buf.clear();
                return ReadEvent::Corrupt;
            }
            let mut rest = self.buf.split_off(CONTAINER_HEADER_LEN);
            core::mem::swap(&mut self.buf, &mut rest);
            self.started = true;
            proof {
                assert(self.buf@ == self.fed@.skip(CONTAINER_HEADER_LEN as int));
                assert(complete_tags(self.fed@.skip(CONTAINER_HEADER_LEN as int)) == self.emitted@
                    + complete_tags(self.buf@));
            }
            return ReadEvent::Header(rest);
        }
        let taken = take_tag(&mut self.buf);
        match taken {

            Some(t) => {
                proof {
                    self.emitted@ = self.emitted@.push(t.bytes@);
                    assert(complete_tags(old(self).buffered()) == seq![t.bytes@] + complete_tags(
                        self.buf@,
                    ));
                    assert(old(self).emitted() + complete_tags(old(self).buffered())
                        == self.emitted@ + complete_tags(self.buf@));
                    assert(tags_rest(old(self).buffered()) == tags_rest(self.buf@));
                }
                ReadEvent::TagReady(t)
            },
            None => ReadEvent::NeedData,
        }
    }
}

/// Incremental parsing agrees with whole-buffer parsing: parsing `s`,
/// keeping the remainder, and appending `t` yields, altogether, the same
/// complete tags and the same remainder as parsing `s + t` at once.
pub proof fn lemma_parse_append(s: Seq<u8>, t: Seq<u8>)
    ensures
        complete_tags(s + t) == complete_tags(s) + complete_tags(tags_rest(s) + t),
        tags_rest(s + t) == tags_rest(tags_rest(s) + t),
    decreases s.len(),
{
    if has_complete_tag(s) {
        let total = spec_tag_total_len(s);
        assert((s + t).len() >= TAG_HEADER_LEN);
        assert((s + t)[1] == s[1] && (s + t)[2] == s[2] && (s + t)[3] == s[3]);
        assert(spec_tag_total_len(s + t) == total);
        assert(has_complete_tag(s + t));
        assert((s + t).take(total) == s.take(total));
        assert((s + t).skip(total) == s.skip(total) + t);
        lemma_parse_append(s.skip(total), t);
        assert(complete_tags(s + t) == seq![s.take(total)] + complete_tags(s.skip(total) + t));
        assert(complete_tags(s) + complete_tags(tags_rest(s) + t) == seq![s.take(total)] + (
        complete_tags(s.skip(total)) + complete_tags(tags_rest(s.skip(total)) + t)));
    } else {
        assert(tags_rest(s) == s);
        assert(complete_tags(s) + complete_tags(s + t) == complete_tags(s + t));
    }
}

/// Fragmentation independence: however the same byte stream was split
/// into chunks, two drained readers that were fed it agree on every
/// output — the same verdict on the stream, the same tags in the same
/// order, and the same partial remainder.
pub proof fn lemma_fragmentation_independent(r1: &TagReader, r2: &TagReader)
    requires
        r1.wf(),
        r2.wf(),
        r1.fed() == r2.fed(),
        r1.drained(),
        r2.drained(),
    ensures
        r1.started() == r2.started(),
        r1.failed() == r2.failed(),
        r1.emitted() == r2.emitted(),
        r1.started() ==> r1.buffered() == r2.buffered(),
{
    let fed = r1.fed();
    if fed.len() < CONTAINER_HEADER_LEN {
        assert(!r1.started() && !r1.failed());
        assert(!r2.started() && !r2.failed());
    } else if !spec_magic_ok(fed) {
        assert(!r1.started());
        assert(!r2.started());
        assert(r1.failed() == r2.failed());
        assert(r1.emitted() == r2.emitted());
    } else {
        assert(!r1.failed() && !r2.failed());
        assert(r1.started()) by {
            if !r1.started() {
                assert(r1.drained() ==> fed.len() < CONTAINER_HEADER_LEN);
            }
        }
        assert(r2.started());
        let body = fed.skip(CONTAINER_HEADER_LEN as int);
        lemma_drained_outputs(r1, body);
        lemma_drained_outputs(r2, body);
    }
}

/// A drained, started reader has emitted exactly the complete tags of
/// the stream body, and buffers exactly the remainder.
pub proof fn lemma_drained_outputs(r: &TagReader, body: Seq<u8>)
    requires
        r.wf(),
        r.started(),
        r.drained(),
        body == r.fed().skip(CONTAINER_HEADER_LEN as int),
    ensures
        r.emitted() == complete_tags(body),
        r.buffered() == tags_rest(body),
{
    assert(!has_complete_tag(r.buffered()));
    assert(complete_tags(r.buffered()) == Seq::<Seq<u8>>::empty());
    assert(tags_rest(r.buffered()) == r.buffered());
    assert(complete_tags(body) == r.emitted() + complete_tags(r.buffered()));
    assert(r.emitted() + Seq::<Seq<u8>>::empty() == r.emitted());
}

} // verus!
