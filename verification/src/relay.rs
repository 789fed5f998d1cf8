//! The per-stream filtering and caching policy.
//!
//! Audio tags are dropped; video configuration records are cached (the
//! most recent one wins) and forwarded; everything else is forwarded
//! unchanged.  The container header is adjusted before it is cached and
//! forwarded: the audio-present flag is cleared, and the video-present
//! flag is set exactly when a video tag is coming.

use vstd::prelude::*;

use crate::tag::{
    complete_tags, kind_of_byte, kind_of_tag, spec_is_config, spec_tag_total_len, tags_rest, Tag,
    TagKind, CONTAINER_HEADER_LEN, TAG_HEADER_LEN, TAG_TRAILER_LEN, VIDEO_TAG_BYTE,
};

verus! {

/// The flags byte after filtering: the audio bit is cleared, and the
/// video bit says whether a video tag is actually coming.
pub open spec fn spec_adjust_flags(f: u8, has_video: bool) -> u8 {
    if has_video {
        (f & 0xfa) | 0x04
    } else {
        f & 0xfa
    }
}

/// The container header after filtering: its flags byte (offset 4)
/// adjusted, everything else as received.
pub open spec fn spec_adjust_header(h: Seq<u8>, has_video: bool) -> Seq<u8>
    recommends
        h.len() >= 5,
{
    h.update(4, spec_adjust_flags(h[4], has_video))
}

/// Whether a video tag header stands at one of the tag boundaries of
/// `s`: the forward scan a publisher's buffered bytes get when the
/// container header arrives.
pub open spec fn spec_scan_has_video(s: Seq<u8>) -> bool
    decreases s.len(),
{
    if s.len() < TAG_HEADER_LEN {
        false
    } else if kind_of_byte(s[0]) == TagKind::Video {
        true
    } else if s.len() < spec_tag_total_len(s) {
        false
    } else {
        spec_scan_has_video(s.skip(spec_tag_total_len(s)))
    }
}

/// The tags the relay forwards, of the tags it was given: all but the
/// audio ones, in order.
pub open spec fn forwarded_of(tags: Seq<Seq<u8>>) -> Seq<Seq<u8>>
    decreases tags.len(),
{
    if tags.len() == 0 {
        Seq::empty()
    } else if kind_of_tag(tags[0]) == TagKind::Audio {
        forwarded_of(tags.drop_first())
    } else {
        seq![tags[0]] + forwarded_of(tags.drop_first())
    }
}

/// The cached configuration record after the relay has seen `tags`,
/// starting from `init`: every configuration record replaces the one
/// before it.
pub open spec fn relay_config(tags: Seq<Seq<u8>>, init: Option<Seq<u8>>) -> Option<Seq<u8>>
    decreases tags.len(),
{
    if tags.len() == 0 {
        init
    } else {
        relay_config(
            tags.drop_first(),
            if spec_is_config(tags[0]) {
                Some(tags[0])
            } else {
                init
            },
        )
    }
}

/// The most recent configuration record among `tags`, if any.
pub open spec fn last_config_of(tags: Seq<Seq<u8>>) -> Option<Seq<u8>>
    decreases tags.len(),
{
    if tags.len() == 0 {
        None
    } else if spec_is_config(tags.last()) {
        Some(tags.last())
    } else {
        last_config_of(tags.drop_last())
    }
}

/// Scans `buf` from its start for a video tag header at a tag boundary,
/// exactly as `spec_scan_has_video` describes.
pub fn scan_has_video(buf: &Vec<u8>) -> (r: bool)
    ensures
        r == spec_scan_has_video(buf@),
{
    let mut idx: usize = 0;
    proof {
        assert(buf@.skip(0) =~= buf@);
    }
    loop
        invariant
            idx <= buf@.len(),
            spec_scan_has_video(buf@) == spec_scan_has_video(buf@.skip(idx as int)),
        decreases buf@.len() - idx,
    {
        if buf.len() - idx < TAG_HEADER_LEN {
            return false;
        }
        if buf[idx] == VIDEO_TAG_BYTE {
            return true;
        }
        let b1 = buf[idx + 1] as usize;
        let b2 = buf[idx + 2] as usize;
        let b3 = buf[idx + 3] as usize;
        let payload = b1 * 0x10000 + b2 * 0x100 + b3;
        let adv = TAG_HEADER_LEN + payload + TAG_TRAILER_LEN;
        proof {
            assert(buf@.skip(idx as int)[0] == buf@[idx as int]);
            assert(buf@.skip(idx as int)[1] == buf@[idx as int + 1]);
            assert(buf@.skip(idx as int)[2] == buf@[idx as int + 2]);
            assert(buf@.skip(idx as int)[3] == buf@[idx as int + 3]);
            assert(spec_tag_total_len(buf@.skip(idx as int)) == adv);
        }
        if buf.len() - idx < adv {
            return false;
        }
        proof {
            assert(buf@.skip(idx as int).skip(adv as int) =~= buf@.skip(idx as int + adv as int));
        }
        idx = idx + adv;
    }
}

/// Adjusts a 13-byte container header for the filtering policy.
pub fn adjust_header(raw: &Vec<u8>, has_video: bool) -> (out: Vec<u8>)
    requires
        raw@.len() == CONTAINER_HEADER_LEN,
    ensures
        out@ == spec_adjust_header(raw@, has_video),
{
    let mut out = raw.clone();
    let f = out[4];
    let nf = if has_video {
        (f & 0xfa) | 0x04
    } else {
        f & 0xfa
    };
    out.set(4, nf);
    proof {
        assert(out@ =~= spec_adjust_header(raw@, has_video));
    }
    out
}

/// What the relay decides to do with one tag.
pub enum TagAction {
    /// An audio tag: dropped, never cached, never forwarded.
    Discard,
    /// A video configuration record: cached as the stream's current
    /// configuration, and forwarded.
    CacheAndForward(Tag),
    /// Any other tag: forwarded unchanged.
    Forward(Tag),
}

/// The per-stream cache: the adjusted container header and the most
/// recent video configuration record.
pub struct RelayState {
    /// The adjusted container header, once one arrived.
    pub header: Option<Vec<u8>>,
    /// The most recent video configuration record, once one arrived.
    pub config: Option<Tag>,
}

impl RelayState {
    /// The cached header is 13 bytes; the cached configuration record
    /// is a whole configuration tag.
    pub open spec fn wf(&self) -> bool {
        &&& match self.header {
            Some(h) => h@.len() == CONTAINER_HEADER_LEN,
            None => true,
        }
        &&& match self.config {
            Some(t) => t.wf() && spec_is_config(t.bytes@),
            None => true,
        }
    }

    /// The raw bytes of the cached configuration record, if any.
    pub open spec fn config_raw(&self) -> Option<Seq<u8>> {
        match self.config {
            Some(t) => Some(t.bytes@),
            None => None,
        }
    }

    /// The raw bytes of the cached header, if any.
    pub open spec fn header_raw(&self) -> Option<Seq<u8>> {
        match self.header {
            Some(h) => Some(h@),
            None => None,
        }
    }

    /// A fresh stream: nothing cached yet.
    pub fn new() -> (r: RelayState)
        ensures
            r.wf(),
            r.header_raw() == Option::<Seq<u8>>::None,
            r.config_raw() == Option::<Seq<u8>>::None,
    {
        RelayState { header: None, config: None }
    }

    /// Takes the stream's container header: adjusts its flags, caches
    /// the adjusted bytes, and returns them for forwarding.
    pub fn on_header(&mut self, raw: &Vec<u8>, has_video: bool) -> (out: Vec<u8>)
        requires
            old(self).wf(),
            raw@.len() == CONTAINER_HEADER_LEN,
        ensures
            final(self).wf(),
            out@ == spec_adjust_header(raw@, has_video),
            final(self).header_raw() == Some(spec_adjust_header(raw@, has_video)),
            final(self).config == old(self).config,
    {
        let out = adjust_header(raw, has_video);
        self.header = Some(out.clone());
        out
    }

    /// Applies the filtering policy to one tag: audio is discarded, a
    /// video configuration record replaces the cached one and is
    /// forwarded, everything else is forwarded unchanged.
    pub fn on_tag(&mut self, t: Tag) -> (act: TagAction)
        requires
            old(self).wf(),
            t.wf(),
        ensures
            final(self).wf(),
            final(self).header == old(self).header,
            final(self).config_raw() == relay_config(seq![t.bytes@], old(self).config_raw()),
            match act {
                TagAction::Discard => {
                    &&& t.kind == TagKind::Audio
                    &&& final(self).config == old(self).config
                },
                TagAction::CacheAndForward(f) => {
                    &&& f.wf()
                    &&& f.bytes@ == t.bytes@
                    &&& spec_is_config(t.bytes@)
                    &&& final(self).config_raw() == Some(t.bytes@)
                },
                TagAction::Forward(f) => {
                    &&& f.wf()
                    &&& f.bytes@ == t.bytes@
                    &&& t.kind != TagKind::Audio
                    &&& !spec_is_config(t.bytes@)
                    &&& final(self).config == old(self).config
                },
            },
    {
        proof {
            let s0 = seq![t.bytes@];
            assert(s0.drop_first() =~= Seq::<Seq<u8>>::empty());
            assert(relay_config(Seq::<Seq<u8>>::empty(), Some(t.bytes@)) == Some(t.bytes@));
            assert(relay_config(Seq::<Seq<u8>>::empty(), old(self).config_raw())
                == old(self).config_raw());
            assert(s0[0] == t.bytes@);
        }
        match t.kind {
            TagKind::Audio => TagAction::Discard,
            _ => {
                if t.is_config() {
                    self.config = Some(t.clone_tag());
                    TagAction::CacheAndForward(t)
                } else {
                    TagAction::Forward(t)
                }
            },
        }
    }
}

impl Tag {
    /// A duplicate of this tag, byte for byte.
    pub fn clone_tag(&self) -> (r: Tag)
        ensures
            r.kind == self.kind,
            r.payload_size == self.payload_size,
            r.bytes@ == self.bytes@,
    {
        let bytes = self.bytes.clone();
        proof {
            assert(bytes@ =~= self.bytes@);
        }
        Tag { kind: self.kind, payload_size: self.payload_size, bytes }
    }
}

/// No audio tag is ever forwarded: the relay's output of any tag
/// sequence holds none.
pub proof fn lemma_no_audio_forwarded(tags: Seq<Seq<u8>>)
    ensures
        forall|i: int|
            0 <= i < forwarded_of(tags).len() ==> kind_of_tag(#[trigger] forwarded_of(tags)[i])
                != TagKind::Audio,
    decreases tags.len(),
{
    if tags.len() > 0 {
        lemma_no_audio_forwarded(tags.drop_first());
    }
}

/// Filtering drops only audio: a video tag is among the forwarded tags
/// exactly when one was among the inputs.
pub proof fn lemma_video_survives_filter(tags: Seq<Seq<u8>>)
    ensures
        (exists|i: int|
            0 <= i < forwarded_of(tags).len() && kind_of_tag(#[trigger] forwarded_of(tags)[i])
                == TagKind::Video) <==> (exists|i: int|
            0 <= i < tags.len() && kind_of_tag(#[trigger] tags[i]) == TagKind::Video),
    decreases tags.len(),
{
    if tags.len() > 0 {
        lemma_video_survives_filter(tags.drop_first());
        let rest = tags.drop_first();
        if kind_of_tag(tags[0]) == TagKind::Video {
            let fwd = forwarded_of(tags);
            assert(fwd[0] == tags[0]);
        } else {
            if exists|i: int|
                0 <= i < tags.len() && kind_of_tag(#[trigger] tags[i]) == TagKind::Video {
                let i = choose|i: int|
                    0 <= i < tags.len() && kind_of_tag(#[trigger] tags[i]) == TagKind::Video;
                assert(rest[i - 1] == tags[i]);
            }
            if exists|i: int|
                0 <= i < rest.len() && kind_of_tag(#[trigger] rest[i]) == TagKind::Video {
                let i = choose|i: int|
                    0 <= i < rest.len() && kind_of_tag(#[trigger] rest[i]) == TagKind::Video;
                assert(tags[i + 1] == rest[i]);
            }
            if kind_of_tag(tags[0]) == TagKind::Audio {
                assert(forwarded_of(tags) == forwarded_of(rest));
            } else {
                let fwd = forwarded_of(tags);
                let frest = forwarded_of(rest);
                assert(fwd == seq![tags[0]] + frest);
                if exists|i: int|
                    0 <= i < frest.len() && kind_of_tag(#[trigger] frest[i]) == TagKind::Video {
                    let i = choose|i: int|
                        0 <= i < frest.len() && kind_of_tag(#[trigger] frest[i]) == TagKind::Video;
                    assert(fwd[i + 1] == frest[i]);
                }
                if exists|i: int|
                    0 <= i < fwd.len() && kind_of_tag(#[trigger] fwd[i]) == TagKind::Video {
                    let i = choose|i: int|
                        0 <= i < fwd.len() && kind_of_tag(#[trigger] fwd[i]) == TagKind::Video;
                    if i > 0 {
                        assert(frest[i - 1] == fwd[i]);
                    }
                }
            }
        }
    }
}

/// The scan that sets the video flag agrees with the parse: when the
/// stream body ends at a tag boundary (no partial tag header is left),
/// the scan finds a video tag exactly when the complete tags hold one.
pub proof fn lemma_scan_matches_tags(s: Seq<u8>)
    requires
        tags_rest(s).len() < TAG_HEADER_LEN,
    ensures
        spec_scan_has_video(s) <==> (exists|i: int|
            0 <= i < complete_tags(s).len() && kind_of_tag(#[trigger] complete_tags(s)[i])
                == TagKind::Video),
    decreases s.len(),
{
    let tags = complete_tags(s);
    if s.len() < TAG_HEADER_LEN {
        assert(!spec_scan_has_video(s));
        assert(tags == Seq::<Seq<u8>>::empty());
    } else if s.len() < spec_tag_total_len(s) {
        assert(tags_rest(s) == s);
        assert(false);
    } else {
        let total = spec_tag_total_len(s);
        let head = s.take(total);
        let rest = s.skip(total);
        assert(tags == seq![head] + complete_tags(rest));
        lemma_scan_matches_tags(rest);
        assert(head[0] == s[0]);
        if kind_of_byte(s[0]) == TagKind::Video {
            assert(kind_of_tag(tags[0]) == TagKind::Video);
        } else {
            assert(spec_scan_has_video(s) == spec_scan_has_video(rest));
            let rtags = complete_tags(rest);
            if exists|i: int|
                0 <= i < rtags.len() && kind_of_tag(#[trigger] rtags[i]) == TagKind::Video {
                let i = choose|i: int|
                    0 <= i < rtags.len() && kind_of_tag(#[trigger] rtags[i]) == TagKind::Video;
                assert(tags[i + 1] == rtags[i]);
            }
            if exists|i: int|
                0 <= i < tags.len() && kind_of_tag(#[trigger] tags[i]) == TagKind::Video {
                let i = choose|i: int|
                    0 <= i < tags.len() && kind_of_tag(#[trigger] tags[i]) == TagKind::Video;
                assert(i != 0);
                assert(rtags[i - 1] == tags[i]);
            }
        }
    }
}

/// The forwarded header's flags are honest: the audio flag is never
/// set, and — when the stream body ends at a tag boundary — the video
/// flag is set exactly when a video tag is forwarded.
pub proof fn lemma_header_flags_honest(s: Seq<u8>)
    requires
        s.len() >= CONTAINER_HEADER_LEN,
        tags_rest(s.skip(CONTAINER_HEADER_LEN as int)).len() < TAG_HEADER_LEN,
    ensures
        ({
            let body = s.skip(CONTAINER_HEADER_LEN as int);
            let h = spec_adjust_header(s.take(CONTAINER_HEADER_LEN as int), spec_scan_has_video(body));
            let fwd = forwarded_of(complete_tags(body));
            &&& h[4] & 0x01 == 0
            &&& ((h[4] & 0x04 != 0) <==> (exists|i: int|
                0 <= i < fwd.len() && kind_of_tag(#[trigger] fwd[i]) == TagKind::Video))
        }),
{
    let body = s.skip(CONTAINER_HEADER_LEN as int);
    let has_video = spec_scan_has_video(body);
    let f = s.take(CONTAINER_HEADER_LEN as int)[4];
    let nf = spec_adjust_flags(f, has_video);
    assert((f & 0xfa) & 0x01 == 0 && (f & 0xfa) & 0x04 == 0 && ((f & 0xfa) | 0x04) & 0x01 == 0
        && ((f & 0xfa) | 0x04) & 0x04 != 0) by (bit_vector);
    lemma_scan_matches_tags(body);
    lemma_video_survives_filter(complete_tags(body));
}

/// The most recent configuration record wins: folding the cache over a
/// tag sequence leaves exactly the last configuration record, or the
/// initial cache when the sequence has none.
pub proof fn lemma_latest_config_wins(tags: Seq<Seq<u8>>, init: Option<Seq<u8>>)
    ensures
        relay_config(tags, init) == match last_config_of(tags) {
            Some(c) => Some(c),
            None => init,
        },
    decreases tags.len(),
{
    if tags.len() > 0 {
        let butlast = tags.drop_last();
        lemma_relay_config_push(butlast, tags.last(), init);
        assert(butlast.push(tags.last()) =~= tags);
        lemma_latest_config_wins(butlast, init);
    }
}

/// Catch-up is idempotent: whatever a stream published, the cache a
/// late joiner is handed holds exactly the most recent configuration
/// record of the whole body — one record, however many were sent.
pub proof fn lemma_catchup_is_latest_config(body: Seq<u8>)
    ensures
        relay_config(complete_tags(body), Option::<Seq<u8>>::None) == last_config_of(
            complete_tags(body),
        ),
{
    lemma_latest_config_wins(complete_tags(body), Option::<Seq<u8>>::None);
}

/// Folding one more tag onto the cache.
pub proof fn lemma_relay_config_push(tags: Seq<Seq<u8>>, t: Seq<u8>, init: Option<Seq<u8>>)
    ensures
        relay_config(tags.push(t), init) == if spec_is_config(t) {
            Some(t)
        } else {
            relay_config(tags, init)
        },
    decreases tags.len(),
{
    let step = if spec_is_config(tags.push(t)[0]) {
        Some(tags.push(t)[0])
    } else {
        init
    };
    if tags.len() == 0 {
        assert(tags.push(t)[0] == t);
        assert(tags.push(t).drop_first() =~= Seq::<Seq<u8>>::empty());
        assert(relay_config(Seq::<Seq<u8>>::empty(), step) == step);
    } else {
        assert(tags.push(t).drop_first() =~= tags.drop_first().push(t));
        assert(tags.push(t)[0] == tags[0]);
        lemma_relay_config_push(
            tags.drop_first(),
            t,
            if spec_is_config(tags[0]) {
                Some(tags[0])
            } else {
                init
            },
        );
        assert(relay_config(tags, init) == relay_config(
            tags.drop_first(),
            if spec_is_config(tags[0]) {
                Some(tags[0])
            } else {
                init
            },
        ));
    }
}

/// Filtering one more tag.
pub proof fn lemma_forwarded_push(tags: Seq<Seq<u8>>, t: Seq<u8>)
    ensures
        forwarded_of(tags.push(t)) == if kind_of_tag(t) == TagKind::Audio {
            forwarded_of(tags)
        } else {
            forwarded_of(tags).push(t)
        },
    decreases tags.len(),
{
    if tags.len() == 0 {
        assert(tags.push(t)[0] == t);
        assert(tags.push(t).drop_first() =~= Seq::<Seq<u8>>::empty());
        assert(forwarded_of(Seq::<Seq<u8>>::empty()) == Seq::<Seq<u8>>::empty());
        if kind_of_tag(t) != TagKind::Audio {
            assert(forwarded_of(tags.push(t)) == seq![t] + Seq::<Seq<u8>>::empty());
            assert(seq![t] + Seq::<Seq<u8>>::empty() =~= forwarded_of(tags).push(t));
        }
    } else {
        assert(tags.push(t).drop_first() =~= tags.drop_first().push(t));
        assert(tags.push(t)[0] == tags[0]);
        lemma_forwarded_push(tags.drop_first(), t);
        if kind_of_tag(tags[0]) != TagKind::Audio {
            if kind_of_tag(t) != TagKind::Audio {
                assert(seq![tags[0]] + forwarded_of(tags.drop_first()).push(t) =~= (seq![tags[0]]
                    + forwarded_of(tags.drop_first())).push(t));
            }
        }
    }
}

/// A configuration record never carries the audio kind, so the cache
/// fold sees the same records before and after filtering.
pub proof fn lemma_config_unaffected_by_filter(tags: Seq<Seq<u8>>, init: Option<Seq<u8>>)
    ensures
        relay_config(forwarded_of(tags), init) == relay_config(tags, init),
    decreases tags.len(),
{
    if tags.len() > 0 {
        let step = if spec_is_config(tags[0]) {
            Some(tags[0])
        } else {
            init
        };
        if kind_of_tag(tags[0]) == TagKind::Audio {
            assert(!spec_is_config(tags[0]));
            lemma_config_unaffected_by_filter(tags.drop_first(), init);
        } else {
            lemma_config_unaffected_by_filter(tags.drop_first(), step);
            let fwd = forwarded_of(tags);
            assert(fwd == seq![tags[0]] + forwarded_of(tags.drop_first()));
            assert(fwd[0] == tags[0]);
            assert(fwd.drop_first() =~= forwarded_of(tags.drop_first()));
        }
    }
}

} // verus!
