//! The publish path as a pure function: from a publisher's whole byte
//! stream to the bytes forwarded to subscribers and the cached state.
//!
//! This is the relay core with every I/O concern removed: chunked
//! delivery drives the same `TagReader` and `RelayState` incrementally
//! and — by fragmentation independence — produces the same outputs.

use vstd::prelude::*;
use vstd::string::StringExecFns;

use crate::error::Error;
use crate::reader::{
    lemma_drained_outputs, spec_magic_ok, ReadEvent, TagReader,
};
use crate::relay::{
    forwarded_of, lemma_forwarded_push, lemma_relay_config_push, relay_config, spec_adjust_header,
    spec_scan_has_video, RelayState, TagAction,
};
use crate::tag::{complete_tags, raw_outputs, tags_rest, CONTAINER_HEADER_LEN};

verus! {

/// The header a session forwards and caches: the received one with its
/// flags adjusted for what the stream body actually carries.
pub open spec fn session_header(s: Seq<u8>) -> Seq<u8>
    recommends
        s.len() >= CONTAINER_HEADER_LEN,
{
    spec_adjust_header(
        s.take(CONTAINER_HEADER_LEN as int),
        spec_scan_has_video(s.skip(CONTAINER_HEADER_LEN as int)),
    )
}

/// The tag bytes a session forwards, in order: the complete tags of the
/// stream body, the audio ones dropped.
pub open spec fn session_forwards(s: Seq<u8>) -> Seq<Seq<u8>>
    recommends
        s.len() >= CONTAINER_HEADER_LEN,
{
    forwarded_of(complete_tags(s.skip(CONTAINER_HEADER_LEN as int)))
}

/// What one publish session produced.
pub struct SessionOutput {
    /// Every byte buffer forwarded to subscribers, in order: the
    /// adjusted header first, then the forwarded tags.
    pub outputs: Vec<Vec<u8>>,
    /// The cached state the session left behind.
    pub state: RelayState,
    /// How many bytes of a partial tag were left buffered at the end;
    /// they are never forwarded.
    pub leftover: usize,
}

/// Runs one whole publish session over `input`: consumes the container
/// header, filters and forwards the complete tags, caches the adjusted
/// header and the most recent configuration record, and discards any
/// trailing partial tag.  Less than a whole container header is not an
/// error — nothing is forwarded; a bad magic marker is a protocol
/// error.
pub fn run_publish_session(input: &Vec<u8>) -> (r: Result<SessionOutput, Error>)
    ensures
        match r {
            Ok(out) => {
                &&& out.state.wf()
                &&& if input@.len() < CONTAINER_HEADER_LEN {
                    &&& out.outputs@.len() == 0
                    &&& out.state.header_raw() == Option::<Seq<u8>>::None
                    &&& out.state.config_raw() == Option::<Seq<u8>>::None
                    &&& out.leftover == input@.len()
                } else {
                    &&& spec_magic_ok(input@)
                    &&& raw_outputs(out.outputs@) == seq![session_header(input@)]
                        + session_forwards(input@)
                    &&& out.state.header_raw() == Some(session_header(input@))
                    &&& out.state.config_raw() == relay_config(
                        complete_tags(input@.skip(CONTAINER_HEADER_LEN as int)),
                        Option::<Seq<u8>>::None,
                    )
                    &&& out.leftover == tags_rest(input@.skip(CONTAINER_HEADER_LEN as int)).len()
                }
            },
            Err(e) => {
                &&& e.is_protocol()
                &&& input@.len() >= CONTAINER_HEADER_LEN
                &&& !spec_magic_ok(input@)
            },
        },
{
    let mut rd = TagReader::new();
    rd.feed(input.as_slice());
    proof {
        assert(rd.fed() =~= input@);
    }
    let first = rd.poll();
    let header_bytes: Vec<u8>;
    match first {
        ReadEvent::NeedData => {
            return Ok(
                SessionOutput { outputs: Vec::new(), state: RelayState::new(), leftover: input.len() },
            );
        },
        ReadEvent::Corrupt => {
            return Err(Error::Protocol(String::from_str("bad container magic")));
        },
        ReadEvent::TagReady(_) => {
            proof {
                assert(false);
            }
            return Err(Error::Protocol(String::from_str("bad container magic")));
        },
        ReadEvent::Header(h) => {
            header_bytes = h;
        },
    }
    let has_video = rd.scan_buffered_for_video();
    let mut state = RelayState::new();
    let adjusted = state.on_header(&header_bytes, has_video);
    let mut outputs: Vec<Vec<u8>> = Vec::new();
    outputs.push(adjusted);
    proof {
        assert(input@.take(CONTAINER_HEADER_LEN as int) == header_bytes@);
        assert(rd.buffered() == input@.skip(CONTAINER_HEADER_LEN as int));
        assert(forwarded_of(Seq::<Seq<u8>>::empty()) == Seq::<Seq<u8>>::empty());
        assert(raw_outputs(outputs@) =~= seq![session_header(input@)] + forwarded_of(
            rd.emitted(),
        ));
        assert(relay_config(rd.emitted(), Option::<Seq<u8>>::None) == Option::<Seq<u8>>::None);
    }
    loop
        invariant
            rd.wf(),
            rd.started(),
            !rd.failed(),
            rd.fed() == input@,
            input@.len() >= CONTAINER_HEADER_LEN,
            spec_magic_ok(input@),
            state.wf(),
            state.header_raw() == Some(session_header(input@)),
            raw_outputs(outputs@) == seq![session_header(input@)] + forwarded_of(rd.emitted()),
            state.config_raw() == relay_config(rd.emitted(), Option::<Seq<u8>>::None),
        ensures
            rd.wf(),
            rd.started(),
            !rd.failed(),
            rd.fed() == input@,
            rd.drained(),
            state.wf(),
            state.header_raw() == Some(session_header(input@)),
            raw_outputs(outputs@) == seq![session_header(input@)] + forwarded_of(rd.emitted()),
            state.config_raw() == relay_config(rd.emitted(), Option::<Seq<u8>>::None),
        decreases rd.buffered().len(),
    {
        let ghost emitted_before = rd.emitted();
        let ev = rd.poll();
        match ev {
            ReadEvent::TagReady(t) => {
                proof {
                    assert(rd.emitted() == emitted_before.push(t.bytes@));
                    lemma_forwarded_push(emitted_before, t.bytes@);
                    lemma_relay_config_push(emitted_before, t.bytes@, Option::<Seq<u8>>::None);
                }
                let ghost dv_before = raw_outputs(outputs@);
                let ghost t_raw = t.bytes@;
                let act = state.on_tag(t);
                match act {
                    TagAction::Discard => {
                        proof {
                            assert(forwarded_of(rd.emitted()) == forwarded_of(emitted_before));
                        }
                    },
                    TagAction::CacheAndForward(f) => {
                        let ghost f_raw = f.bytes@;
                        outputs.push(f.bytes);
                        proof {
                            assert(raw_outputs(outputs@) =~= dv_before.push(f_raw));
                            assert(dv_before.push(t_raw) =~= seq![session_header(input@)]
                                + forwarded_of(rd.emitted()));
                        }
                    },
                    TagAction::Forward(f) => {
                        let ghost f_raw = f.bytes@;
                        outputs.push(f.bytes);
                        proof {
                            assert(raw_outputs(outputs@) =~= dv_before.push(f_raw));
                            assert(dv_before.push(t_raw) =~= seq![session_header(input@)]
                                + forwarded_of(rd.emitted()));
                        }
                    },
                }
            },
            ReadEvent::NeedData => {
                break;
            },
            ReadEvent::Header(_) => {
                proof {
                    assert(false);
                }
            },
            ReadEvent::Corrupt => {
                proof {
                    assert(false);
                }
            },
        }
    }
    proof {
        lemma_drained_outputs(&rd, input@.skip(CONTAINER_HEADER_LEN as int));
    }
    let leftover = rd.buffered_len();
    Ok(SessionOutput { outputs, state, leftover })
}

} // verus!
