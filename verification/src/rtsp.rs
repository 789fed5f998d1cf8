//! Reading camera-feed address lists: one feed address per line,
//! either bare or prefixed by a camera id and a comma.  Addresses are
//! collected once each, first appearance first.

use vstd::prelude::*;

use crate::tag::raw_outputs;

verus! {

/// ASCII whitespace, as trimming understands it.
pub open spec fn is_space(b: u8) -> bool {
    b == 0x20 || b == 0x09 || b == 0x0d || b == 0x0a
}

/// The bytes with leading whitespace removed.
pub open spec fn trim_front(s: Seq<u8>) -> Seq<u8>
    decreases s.len(),
{
    if s.len() > 0 && is_space(s[0]) {
        trim_front(s.drop_first())
    } else {
        s
    }
}

/// The bytes with trailing whitespace removed.
pub open spec fn trim_back(s: Seq<u8>) -> Seq<u8>
    decreases s.len(),
{
    if s.len() > 0 && is_space(s.last()) {
        trim_back(s.drop_last())
    } else {
        s
    }
}

/// The bytes with whitespace removed at both ends.
pub open spec fn trimmed(s: Seq<u8>) -> Seq<u8> {
    trim_back(trim_front(s))
}

/// Where the first comma of `s` stands, if one does.
pub open spec fn first_comma(s: Seq<u8>) -> Option<int>
    decreases s.len(),
{
    if s.len() == 0 {
        None
    } else if s[0] == 0x2c {
        Some(0)
    } else {
        match first_comma(s.drop_first()) {
            Some(i) => Some(i + 1),
            None => None,
        }
    }
}

/// What one `camera_id,feed_address` line yields: the part after the
/// first comma, trimmed, if the line has a comma and that part is not
/// empty.
pub open spec fn spec_camera_line_url(line: Seq<u8>) -> Option<Seq<u8>> {
    match first_comma(line) {
        Some(i) => {
            let tail = trimmed(line.skip(i + 1));
            if tail.len() > 0 {
                Some(tail)
            } else {
                None
            }
        },
        None => None,
    }
}

/// What one bare line yields: its trimmed bytes, if any are left.
pub open spec fn spec_plain_line_url(line: Seq<u8>) -> Option<Seq<u8>> {
    let tail = trimmed(line);
    if tail.len() > 0 {
        Some(tail)
    } else {
        None
    }
}

/// Copies `s[from..to]` out of a buffer.
fn copy_range(s: &Vec<u8>, from: usize, to: usize) -> (r: Vec<u8>)
    requires
        from <= to <= s@.len(),
    ensures
        r@ == s@.subrange(from as int, to as int),
{
    let mut out: Vec<u8> = Vec::new();
    let mut i: usize = from;
    while i < to
        invariant
            from <= i <= to <= s@.len(),
            out@ == s@.subrange(from as int, i as int),
        decreases to - i,
    {
        out.push(s[i]);
        proof {
            assert(out@ =~= s@.subrange(from as int, i as int + 1));
        }
        i = i + 1;
    }
    out
}

/// Trims a buffer at both ends, exactly as `trimmed` describes.
pub fn trim_bytes(s: &Vec<u8>) -> (r: Vec<u8>)
    ensures
        r@ == trimmed(s@),
{
    let n = s.len();
    let mut from: usize = 0;
    proof {
        assert(s@.skip(0) =~= s@);
    }
    while from < n && (s[from] == 0x20 || s[from] == 0x09 || s[from] == 0x0d || s[from] == 0x0a)
        invariant
            from <= n,
            n == s@.len(),
            trim_front(s@) == trim_front(s@.skip(from as int)),
        decreases n - from,
    {
        proof {
            assert(s@.skip(from as int)[0] == s@[from as int]);
            assert(s@.skip(from as int).drop_first() =~= s@.skip(from as int + 1));
        }
        from = from + 1;
    }
    proof {
        if from < n {
            assert(s@.skip(from as int)[0] == s@[from as int]);
        }
        assert(trim_front(s@) == s@.skip(from as int));
    }
    let mut to: usize = n;
    while to > from && (s[to - 1] == 0x20 || s[to - 1] == 0x09 || s[to - 1] == 0x0d || s[to - 1]
        == 0x0a)
        invariant
            from <= to <= n,
            n == s@.len(),
            trim_front(s@) == s@.skip(from as int),
            trim_back(s@.subrange(from as int, n as int)) == trim_back(
                s@.subrange(from as int, to as int),
            ),
        decreases to,
    {
        proof {
            let cur = s@.subrange(from as int, to as int);
            assert(cur.last() == s@[to as int - 1]);
            assert(cur.drop_last() =~= s@.subrange(from as int, to as int - 1));
        }
        to = to - 1;
    }
    proof {
        let cur = s@.subrange(from as int, to as int);
        if to > from {
            assert(cur.last() == s@[to as int - 1]);
        }
        assert(trim_back(cur) == cur);
        assert(s@.subrange(from as int, n as int) =~= s@.skip(from as int));
    }
    copy_range(s, from, to)
}

/// Reads the feed address out of one `camera_id,feed_address` line,
/// exactly as `spec_camera_line_url` describes.
pub fn camera_line_url(line: &Vec<u8>) -> (r: Option<Vec<u8>>)
    ensures
        match r {
            Some(u) => spec_camera_line_url(line@) == Some(u@),
            None => spec_camera_line_url(line@) == Option::<Seq<u8>>::None,
        },
{
    let n = line.len();
    let mut i: usize = 0;
    proof {
        assert(line@.skip(0) =~= line@);
    }
    while i < n && line[i] != 0x2c
        invariant
            i <= n,
            n == line@.len(),
            first_comma(line@) == match first_comma(line@.skip(i as int)) {
                Some(k) => Some(k + i),
                None => None,
            },
        decreases n - i,
    {
        proof {
            assert(line@.skip(i as int)[0] == line@[i as int]);
            assert(line@.skip(i as int).drop_first() =~= line@.skip(i as int + 1));
        }
        i = i + 1;
    }
    if i == n {
        proof {
            assert(line@.skip(n as int).len() == 0);
        }
        return None;
    }
    proof {
        assert(line@.skip(i as int)[0] == line@[i as int]);
        assert(first_comma(line@) == Some(i as int));
    }
    let tail = copy_range(line, i + 1, n);
    proof {
        assert(tail@ =~= line@.skip(i as int + 1));
    }
    let cleaned = trim_bytes(&tail);
    if cleaned.len() == 0 {
        None
    } else {
        Some(cleaned)
    }
}

/// Reads the feed address out of one bare line, exactly as
/// `spec_plain_line_url` describes.
pub fn plain_line_url(line: &Vec<u8>) -> (r: Option<Vec<u8>>)
    ensures
        match r {
            Some(u) => spec_plain_line_url(line@) == Some(u@),
            None => spec_plain_line_url(line@) == Option::<Seq<u8>>::None,
        },
{
    let cleaned = trim_bytes(line);
    if cleaned.len() == 0 {
        None
    } else {
        Some(cleaned)
    }
}

/// An element stays present when another is pushed behind it.
proof fn lemma_contains_push(s: Seq<Seq<u8>>, x: Seq<u8>, y: Seq<u8>)
    requires
        s.contains(x),
    ensures
        s.push(y).contains(x),
{
    let j = choose|j: int| 0 <= j < s.len() && s[j] == x;
    assert(s.push(y)[j] == x);
}

/// Whether `urls` already holds `url`.
fn contains_bytes(urls: &Vec<Vec<u8>>, url: &Vec<u8>) -> (r: bool)
    ensures
        r == raw_outputs(urls@).contains(url@),
{
    let n = urls.len();
    let mut i: usize = 0;
    while i < n
        invariant
            i <= n,
            n == urls@.len(),
            forall|j: int| 0 <= j < i ==> raw_outputs(urls@)[j] != url@,
        decreases n - i,
    {
        if eq_bytes(&urls[i], url) {
            proof {
                assert(raw_outputs(urls@)[i as int] == url@);
            }
            return true;
        }
        i = i + 1;
    }
    proof {
        if raw_outputs(urls@).contains(url@) {
            let j = choose|j: int|
                0 <= j < raw_outputs(urls@).len() && raw_outputs(urls@)[j] == url@;
            assert(raw_outputs(urls@)[j] != url@);
        }
    }
    false
}

/// Compares two byte buffers.
fn eq_bytes(a: &Vec<u8>, b: &Vec<u8>) -> (r: bool)
    ensures
        r == (a@ == b@),
{
    if a.len() != b.len() {
        proof {
            assert(a@.len() != b@.len());
        }
        return false;
    }
    let n = a.len();
    let mut i: usize = 0;
    while i < n
        invariant
            n == a@.len() == b@.len(),
            i <= n,
            forall|j: int| 0 <= j < i ==> a@[j] == b@[j],
        decreases n - i,
    {
        if a[i] != b[i] {
            return false;
        }
        i = i + 1;
    }
    proof {
        assert(a@ =~= b@);
    }
    true
}

/// Whether some camera line of `lines` yields the address `u`.
pub open spec fn url_from_camera_lines(lines: Seq<Seq<u8>>, u: Seq<u8>) -> bool {
    exists|i: int| 0 <= i < lines.len() && spec_camera_line_url(#[trigger] lines[i]) == Some(u)
}

/// Whether some bare line of `lines` yields the address `u`.
pub open spec fn url_from_plain_lines(lines: Seq<Seq<u8>>, u: Seq<u8>) -> bool {
    exists|i: int| 0 <= i < lines.len() && spec_plain_line_url(#[trigger] lines[i]) == Some(u)
}

/// What collecting camera lines yields: no address twice, every
/// line's address present, nothing from elsewhere.
pub open spec fn collected_camera_urls_ok(lines: Seq<Seq<u8>>, urls: Seq<Seq<u8>>) -> bool {
    &&& urls.no_duplicates()
    &&& forall|i: int|
        0 <= i < lines.len() ==> match spec_camera_line_url(#[trigger] lines[i]) {
            Some(u) => urls.contains(u),
            None => true,
        }
    &&& forall|k: int|
        #![trigger urls[k]]
        0 <= k < urls.len() ==> url_from_camera_lines(lines, urls[k])
}

/// What collecting bare lines yields: no address twice, every line's
/// address present, nothing from elsewhere.
pub open spec fn collected_plain_urls_ok(lines: Seq<Seq<u8>>, urls: Seq<Seq<u8>>) -> bool {
    &&& urls.no_duplicates()
    &&& forall|i: int|
        0 <= i < lines.len() ==> match spec_plain_line_url(#[trigger] lines[i]) {
            Some(u) => urls.contains(u),
            None => true,
        }
    &&& forall|k: int|
        #![trigger urls[k]]
        0 <= k < urls.len() ==> url_from_plain_lines(lines, urls[k])
}

/// Collects the feed addresses of `camera_id,feed_address` lines,
/// once each: every line's address is in the result, the result holds
/// nothing else, and nothing twice.
pub fn collect_camera_urls(lines: &Vec<Vec<u8>>) -> (r: Vec<Vec<u8>>)
    ensures
        collected_camera_urls_ok(raw_outputs(lines@), raw_outputs(r@)),
{
    let n = lines.len();
    let mut urls: Vec<Vec<u8>> = Vec::new();
    let mut i: usize = 0;
    while i < n
        invariant
            i <= n,
            n == lines@.len(),
            raw_outputs(urls@).no_duplicates(),
            forall|j: int|
                0 <= j < i ==> match spec_camera_line_url(#[trigger] raw_outputs(lines@)[j]) {
                    Some(u) => raw_outputs(urls@).contains(u),
                    None => true,
                },
            forall|k: int|
                #![trigger raw_outputs(urls@)[k]]
                0 <= k < urls@.len() ==> exists|j: int|
                    0 <= j < i && spec_camera_line_url(#[trigger] raw_outputs(lines@)[j]) == Some(
                        raw_outputs(urls@)[k],
                    ),
        decreases n - i,
    {
        let parsed = camera_line_url(&lines[i]);
        proof {
            assert(raw_outputs(lines@)[i as int] == lines@[i as int]@);
        }
        if let Some(u) = parsed {
            if !contains_bytes(&urls, &u) {
                let ghost u_view = u@;
                let ghost urls_old = raw_outputs(urls@);
                urls.push(u);
                proof {
                    assert(raw_outputs(urls@) =~= urls_old.push(u_view));
                    assert forall|j0: int|
                        0 <= j0 < i ==> match spec_camera_line_url(
                            #[trigger] raw_outputs(lines@)[j0],
                        ) {
                            Some(u2) => raw_outputs(urls@).contains(u2),
                            None => true,
                        } by {
                        assert forall|j0: int|
                            0 <= j0 < i implies match spec_camera_line_url(
                            #[trigger] raw_outputs(lines@)[j0],
                        ) {
                            Some(u2) => raw_outputs(urls@).contains(u2),
                            None => true,
                        } by {
                            match spec_camera_line_url(raw_outputs(lines@)[j0]) {
                                Some(u2) => {
                                    assert(urls_old.contains(u2));
                                    lemma_contains_push(urls_old, u2, u_view);
                                },
                                None => {},
                            }
                        }
                    }
                    assert(raw_outputs(urls@)[urls_old.len() as int] == u_view);
                    assert(raw_outputs(urls@).contains(u_view));
                    assert forall|k: int| #![trigger raw_outputs(urls@)[k]] 0 <= k < raw_outputs(urls@).len() implies exists|j: int|
                        0 <= j < i + 1 && spec_camera_line_url(#[trigger] raw_outputs(lines@)[j])
                            == Some(raw_outputs(urls@)[k]) by {
                        if k < urls_old.len() {
                            assert(raw_outputs(urls@)[k] == urls_old[k]);
                        } else {
                            assert(raw_outputs(urls@)[k] == u_view);
                            assert(spec_camera_line_url(raw_outputs(lines@)[i as int]) == Some(
                                u_view,
                            ));
                        }
                    }
                    assert forall|a: int, b: int|
                        0 <= a < b < raw_outputs(urls@).len() implies raw_outputs(urls@)[a]
                        != raw_outputs(urls@)[b] by {
                        if b < urls_old.len() {
                            assert(urls_old[a] != urls_old[b]);
                        } else {
                            assert(raw_outputs(urls@)[b] == u_view);
                            if urls_old[a] == u_view {
                                assert(urls_old.contains(u_view));
                            }
                        }
                    }
                }
            } else {
                proof {
                    assert(raw_outputs(urls@).contains(u@));
                }
            }
        }
        i = i + 1;
    }
    proof {
        assert forall|k: int| #![trigger raw_outputs(urls@)[k]]
            0 <= k < raw_outputs(urls@).len() implies url_from_camera_lines(
            raw_outputs(lines@),
            raw_outputs(urls@)[k],
        ) by {
            let tk = raw_outputs(urls@)[k];
            assert(0 <= k < urls@.len() && raw_outputs(urls@)[k] == tk);
            let w = choose|j: int|
                0 <= j < i && spec_camera_line_url(#[trigger] raw_outputs(lines@)[j]) == Some(tk);
            assert(0 <= w < raw_outputs(lines@).len() && spec_camera_line_url(
                raw_outputs(lines@)[w],
            ) == Some(tk));
        }
        assert(collected_camera_urls_ok(raw_outputs(lines@), raw_outputs(urls@)));
    }
    urls
}

/// Collects the feed addresses of bare lines, once each: every line's
/// address is in the result, the result holds nothing else, and
/// nothing twice.
pub fn collect_plain_urls(lines: &Vec<Vec<u8>>) -> (r: Vec<Vec<u8>>)
    ensures
        collected_plain_urls_ok(raw_outputs(lines@), raw_outputs(r@)),
{
    let n = lines.len();
    let mut urls: Vec<Vec<u8>> = Vec::new();
    let mut i: usize = 0;
    while i < n
        invariant
            i <= n,
            n == lines@.len(),
            raw_outputs(urls@).no_duplicates(),
            forall|j: int|
                0 <= j < i ==> match spec_plain_line_url(#[trigger] raw_outputs(lines@)[j]) {
                    Some(u) => raw_outputs(urls@).contains(u),
                    None => true,
                },
            forall|k: int|
                #![trigger raw_outputs(urls@)[k]]
                0 <= k < urls@.len() ==> exists|j: int|
                    0 <= j < i && spec_plain_line_url(#[trigger] raw_outputs(lines@)[j]) == Some(
                        raw_outputs(urls@)[k],
                    ),
        decreases n - i,
    {
        let parsed = plain_line_url(&lines[i]);
        proof {
            assert(raw_outputs(lines@)[i as int] == lines@[i as int]@);
        }
        if let Some(u) = parsed {
            if !contains_bytes(&urls, &u) {
                let ghost u_view = u@;
                let ghost urls_old = raw_outputs(urls@);
                urls.push(u);
                proof {
                    assert(raw_outputs(urls@) =~= urls_old.push(u_view));
                    assert forall|j0: int|
                        0 <= j0 < i ==> match spec_plain_line_url(
                            #[trigger] raw_outputs(lines@)[j0],
                        ) {
                            Some(u2) => raw_outputs(urls@).contains(u2),
                            None => true,
                        } by {
                        assert forall|j0: int|
                            0 <= j0 < i implies match spec_plain_line_url(
                            #[trigger] raw_outputs(lines@)[j0],
                        ) {
                            Some(u2) => raw_outputs(urls@).contains(u2),
                            None => true,
                        } by {
                            match spec_plain_line_url(raw_outputs(lines@)[j0]) {
                                Some(u2) => {
                                    assert(urls_old.contains(u2));
                                    lemma_contains_push(urls_old, u2, u_view);
                                },
                                None => {},
                            }
                        }
                    }
                    assert(raw_outputs(urls@)[urls_old.len() as int] == u_view);
                    assert(raw_outputs(urls@).contains(u_view));
                    assert forall|k: int| #![trigger raw_outputs(urls@)[k]] 0 <= k < raw_outputs(urls@).len() implies exists|j: int|
                        0 <= j < i + 1 && spec_plain_line_url(#[trigger] raw_outputs(lines@)[j])
                            == Some(raw_outputs(urls@)[k]) by {
                        if k < urls_old.len() {
                            assert(raw_outputs(urls@)[k] == urls_old[k]);
                        } else {
                            assert(raw_outputs(urls@)[k] == u_view);
                            assert(spec_plain_line_url(raw_outputs(lines@)[i as int]) == Some(
                                u_view,
                            ));
                        }
                    }
                    assert forall|a: int, b: int|
                        0 <= a < b < raw_outputs(urls@).len() implies raw_outputs(urls@)[a]
                        != raw_outputs(urls@)[b] by {
                        if b < urls_old.len() {
                            assert(urls_old[a] != urls_old[b]);
                        } else {
                            assert(raw_outputs(urls@)[b] == u_view);
                            if urls_old[a] == u_view {
                                assert(urls_old.contains(u_view));
                            }
                        }
                    }
                }
            } else {
                proof {
                    assert(raw_outputs(urls@).contains(u@));
                }
            }
        }
        i = i + 1;
    }
    proof {
        assert forall|k: int| #![trigger raw_outputs(urls@)[k]]
            0 <= k < raw_outputs(urls@).len() implies url_from_plain_lines(
            raw_outputs(lines@),
            raw_outputs(urls@)[k],
        ) by {
            let tk = raw_outputs(urls@)[k];
            assert(0 <= k < urls@.len() && raw_outputs(urls@)[k] == tk);
            let w = choose|j: int|
                0 <= j < i && spec_plain_line_url(#[trigger] raw_outputs(lines@)[j]) == Some(tk);
            assert(0 <= w < raw_outputs(lines@).len() && spec_plain_line_url(
                raw_outputs(lines@)[w],
            ) == Some(tk));
        }
        assert(collected_plain_urls_ok(raw_outputs(lines@), raw_outputs(urls@)));
    }
    urls
}

} // verus!
