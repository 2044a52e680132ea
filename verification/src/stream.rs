//! Streaming a band in bounded memory windows that overlap.
use crate::band::OVERLAP;
use vstd::prelude::*;

verus! {

/// How much of a band is held in memory at once during streaming.
pub const CHUNK: usize = 8388608;

/// A stretch of a band and its byte offset within the band.
#[derive(Debug, Clone)]
pub struct Window {
    pub at: u64,
    pub bytes: Vec<u8>,
}

/// A window as mathematical values.
pub struct WindowModel {
    pub at: nat,
    pub bytes: Seq<u8>,
}

impl View for Window {
    type V = WindowModel;

    open spec fn view(&self) -> WindowModel {
        WindowModel { at: self.at as nat, bytes: self.bytes@ }
    }
}

impl WindowModel {
    /// Where the window ends within the band.
    pub open spec fn end(self) -> nat {
        self.at + self.bytes.len()
    }

    /// The window holds the bytes `from..to` of the band, and they are those of `content`.
    pub open spec fn shows(self, content: Seq<u8>, from: int, to: int) -> bool {
        &&& self.at <= from <= to <= self.end()
        &&& self.bytes.subrange(from - self.at, to - self.at) == content.subrange(from, to)
    }
}

/// The windows of a vector as mathematical values.
pub open spec fn window_models(v: Seq<Window>) -> Seq<WindowModel> {
    v.map_values(|w: Window| w@)
}

/// Where a window begins whose new bytes begin at `n`: `OVERLAP` bytes earlier, or with the band.
pub open spec fn overlap_start(n: nat) -> nat {
    if n > OVERLAP {
        (n - OVERLAP) as nat
    } else {
        0
    }
}

/// The window whose new bytes are `from..to` of the band.
pub open spec fn window(content: Seq<u8>, from: nat, to: nat) -> WindowModel {
    WindowModel {
        at: overlap_start(from),
        bytes: content.subrange(overlap_start(from) as int, to as int),
    }
}

/// How many chunks a band of `n` bytes takes.
pub open spec fn chunk_count(n: nat) -> nat {
    (n + CHUNK - 1) as nat / CHUNK as nat
}

/// Where chunk `k` of a band of `n` bytes ends.
pub open spec fn chunk_end(n: nat, k: int) -> nat {
    if (k + 1) * CHUNK <= n {
        ((k + 1) * CHUNK) as nat
    } else {
        n
    }
}

/// The windows of a band: one for each chunk.
pub open spec fn windows(content: Seq<u8>) -> Seq<WindowModel> {
    Seq::new(
        chunk_count(content.len()),
        |k: int| window(content, (k * CHUNK) as nat, chunk_end(content.len(), k)),
    )
}

/// The window over the end of a band and the head `tail` of the next one.
pub open spec fn tail_window(content: Seq<u8>, tail: Seq<u8>) -> WindowModel {
    window(content + tail, content.len(), content.len() + tail.len())
}

/// The windows of a band, with one over its end where the head of an adjacent band is given.
pub open spec fn band_windows(content: Seq<u8>, tail: Option<Seq<u8>>) -> Seq<WindowModel> {
    match tail {
        Some(t) => windows(content).push(tail_window(content, t)),
        None => windows(content),
    }
}

/// A band being streamed. It is fed chunk by chunk, and makes a window of each.
pub struct BandStream {
    carry: Vec<u8>,
    carry_at: u64,
    read_total: u64,
    ended: bool,
    seen: Ghost<Seq<u8>>,
}

impl BandStream {
    /// What is carried over is the end of what was seen.
    pub closed spec fn wf(self) -> bool {
        &&& self.read_total == self.seen@.len()
        &&& self.carry_at == overlap_start(self.seen@.len())
        &&& self.carry@ == self.seen@.skip(self.carry_at as int)
    }

    /// The bytes fed so far.
    pub closed spec fn seen(self) -> Seq<u8> {
        self.seen@
    }

    /// The end of the band was seen.
    pub closed spec fn is_ended(self) -> bool {
        self.ended
    }

    /// A stream that was fed nothing yet.
    pub fn new() -> (r: BandStream)
        ensures
            r.wf(),
            r.seen() == Seq::<u8>::empty(),
            !r.is_ended(),
    {
        let r: BandStream = BandStream {
            carry: Vec::new(),
            carry_at: 0,
            read_total: 0,
            ended: false,
            seen: Ghost(Seq::empty()),
        };
        assert(r.carry@ == r.seen@.skip(0));
        r
    }

    /// Whether the end of the band was seen: a chunk came that was not full.
    pub fn ended(&self) -> (r: bool)
        ensures
            r == self.is_ended(),
    {
        self.ended
    }

    /// How many bytes were fed.
    pub fn read_total(&self) -> (r: u64)
        requires
            self.wf(),
        ensures
            r == self.seen().len(),
    {
        self.read_total
    }

    /// Takes the next chunk of the band, and gives the window over it: the chunk, and before it
    /// the last [`OVERLAP`] bytes that came earlier. A chunk that is not full is the last one; an
    /// empty one makes no window.
    pub fn feed(&mut self, chunk: &[u8]) -> (r: Option<Window>)
        requires
            old(self).wf(),
            chunk@.len() <= CHUNK,
            old(self).seen().len() + chunk@.len() <= u64::MAX,
        ensures
            final(self).wf(),
            final(self).seen() == old(self).seen() + chunk@,
            final(self).is_ended() == (chunk@.len() < CHUNK),
            match r {
                Some(w) => chunk@.len() > 0 && w@ == window(
                    final(self).seen(),
                    old(self).seen().len(),
                    final(self).seen().len(),
                ),
                None => chunk@.len() == 0,
            },
    {
        let filled: usize = chunk.len();
        self.ended = filled < CHUNK;
        if filled == 0 {
            assert(self.seen@ + chunk@ == self.seen@);
            return None;
        }
        let ghost before = self.seen@;
        let ghost now = before + chunk@;
        let at: u64 = self.carry_at;
        let mut bytes: Vec<u8> = Vec::new();
        bytes.append(&mut self.carry);
        let ghost kept = bytes@;
        bytes.extend_from_slice(chunk);
        assert(bytes@ == kept + chunk@);
        assert(bytes@ == now.subrange(at as int, now.len() as int));
        self.read_total = self.read_total + filled as u64;
        let keep: usize = if OVERLAP < bytes.len() {
            OVERLAP
        } else {
            bytes.len()
        };
        let from: usize = bytes.len() - keep;
        self.carry_at = at + from as u64;
        self.carry = vstd::slice::slice_to_vec(
            vstd::slice::slice_subrange(bytes.as_slice(), from, bytes.len()),
        );
        self.seen = Ghost(now);
        assert(self.carry_at == overlap_start(now.len()));
        assert(self.carry@ == now.skip(self.carry_at as int));
        Some(Window { at, bytes })
    }

    /// Ends the stream. The head of an adjacent band is spliced onto what was carried over, so
    /// content spanning the band boundary is seen.
    pub fn finish(self, tail: Option<Vec<u8>>) -> (r: Option<Window>)
        requires
            self.wf(),
        ensures
            match tail {
                Some(t) => r matches Some(w) && w@ == tail_window(self.seen(), t@),
                None => r is None,
            },
    {
        match tail {
            None => None,
            Some(t) => {
                let ghost n = self.seen@.len();
                let mut bytes: Vec<u8> = self.carry;
                let ghost kept = bytes@;
                bytes.extend_from_slice(t.as_slice());
                assert(bytes@ == kept + t@);
                let w: Window = Window { at: self.carry_at, bytes };
                assert(w@.bytes == tail_window(self.seen@, t@).bytes);
                Some(w)
            },
        }
    }
}

/// Stream a band that is held in memory: every window with its byte offset within the band, and
/// how many bytes the band has.
///
/// Consecutive windows overlap by [`OVERLAP`] bytes, so content lying across
/// a window boundary is still seen whole. The caller deduplicates by logical
/// offset if needed.
pub fn stream_band(content: &[u8], tail: Option<Vec<u8>>) -> (r: (Vec<Window>, u64))
    ensures
        window_models(r.0@) == band_windows(
            content@,
            match tail {
                Some(t) => Some(t@),
                None => None,
            },
        ),
        r.1 == content@.len(),
{
    let n: usize = content.len();
    assert(content@.len() == n);
    let mut out: Vec<Window> = Vec::new();
    let mut stream: BandStream = BandStream::new();
    let mut pos: usize = 0;
    let ghost mut k: int = 0;
    assert(content@.take(0) == Seq::<u8>::empty());
    assert(window_models(out@) == windows(content@).take(0));
    while pos < n
        invariant
            pos <= n,
            content@.len() == n,
            stream.wf(),
            stream.seen() == content@.take(pos as int),
            0 <= k,
            pos < n ==> pos == k * CHUNK,
            pos == n ==> k == chunk_count(n as nat),
            k <= chunk_count(n as nat),
            window_models(out@) == windows(content@).take(k),
        decreases n - pos,
    {
        let len: usize = if n - pos < CHUNK {
            n - pos
        } else {
            CHUNK
        };
        let chunk: &[u8] = vstd::slice::slice_subrange(content, pos, pos + len);
        assert(content@.take(pos as int) + chunk@ == content@.take(pos + len));
        let made: Option<Window> = stream.feed(chunk);
        if let Some(w) = made {
            let ghost before = window_models(out@);
            proof {
                let end = chunk_end(n as nat, k);
                assert(pos + len == end);
                assert(w@.bytes == content@.subrange(
                    overlap_start(pos as nat) as int,
                    end as int,
                ));
                assert(w@ == windows(content@)[k]);
            }
            out.push(w);
            proof {
                assert(window_models(out@) == before.push(w@));
                assert(windows(content@).take(k + 1) == windows(content@).take(k).push(w@));
            }
        }
        pos = pos + len;
        proof {
            k = k + 1;
        }
    }
    proof {
        assert(content@.take(n as int) == content@);
        assert(windows(content@).take(k) == windows(content@));
    }
    let total: u64 = stream.read_total();
    let last: Option<Window> = stream.finish(tail);
    if let Some(w) = last {
        let ghost before = window_models(out@);
        out.push(w);
        assert(window_models(out@) == before.push(w@));
    }
    (out, total)
}

// ---------------------------------------------------------------------------
// What the windows show
// ---------------------------------------------------------------------------

/// Every window holds bytes of the band, and of the head of the adjacent band where that is
/// given, at its own offset. Without such a head nothing from beyond the band is in any window.
pub proof fn windows_are_stretches(content: Seq<u8>, tail: Option<Seq<u8>>, k: int)
    requires
        0 <= k < band_windows(content, tail).len(),
    ensures
        ({
            let w = band_windows(content, tail)[k];
            let whole = match tail {
                Some(t) => content + t,
                None => content,
            };
            &&& w.end() <= whole.len()
            &&& w.bytes == whole.subrange(w.at as int, w.end() as int)
        }),
{
    if k < chunk_count(content.len()) {
        let w = windows(content)[k];
        match tail {
            Some(t) => {
                assert(w.bytes == (content + t).subrange(w.at as int, w.end() as int));
            },
            None => {},
        }
    }
}

/// A window takes no more memory than a chunk and the overlap, the one over the end of the band
/// too; and none of a chunk is empty.
pub proof fn windows_are_bounded(content: Seq<u8>, tail: Option<Seq<u8>>, k: int)
    requires
        0 <= k < band_windows(content, tail).len(),
        tail matches Some(t) ==> t.len() <= OVERLAP,
    ensures
        band_windows(content, tail)[k].bytes.len() <= CHUNK + OVERLAP,
        k < windows(content).len() ==> band_windows(content, tail)[k].bytes.len() > 0,
{
    if k < windows(content).len() {
        assert(band_windows(content, tail)[k] == windows(content)[k]);
    }
}

/// The first window starts with the band, each later one starts after the one before it and
/// overlaps it by exactly [`OVERLAP`] bytes.
pub proof fn windows_overlap(content: Seq<u8>, k: int)
    requires
        0 <= k < windows(content).len(),
    ensures
        windows(content)[0].at == 0,
        k + 1 < windows(content).len() ==> {
            let w = windows(content)[k];
            let next = windows(content)[k + 1];
            &&& w.at < next.at
            &&& next.at < w.end()
            &&& w.end() - next.at == OVERLAP
        },
{
}

/// The window over the end of a band overlaps the last one before it by [`OVERLAP`] bytes, or by
/// the whole band where that is shorter.
pub proof fn tail_window_overlaps(content: Seq<u8>, tail: Seq<u8>)
    requires
        content.len() > 0,
    ensures
        windows(content).len() > 0,
        windows(content).last().end() == content.len(),
        content.len() - tail_window(content, tail).at == (if content.len() < OVERLAP {
            content.len() as int
        } else {
            OVERLAP as int
        }),
        tail_window(content, tail).at >= windows(content).last().at,
{
}

/// Content lying across a window boundary is still seen whole: any stretch of the band of up to
/// one byte more than the overlap lies in one window.
pub proof fn short_content_is_seen_whole(content: Seq<u8>, from: int, to: int)
    requires
        0 <= from < to <= content.len(),
        to - from <= OVERLAP + 1,
    ensures
        exists|k: int|
            0 <= k < windows(content).len() && (#[trigger] windows(content)[k]).shows(
                content,
                from,
                to,
            ),
{
    let k = if from + OVERLAP < CHUNK {
        0
    } else {
        (from + OVERLAP) / CHUNK as int
    };
    let n = content.len();
    let count = chunk_count(n) as int;
    if k >= count {
        let last = count - 1;
        let w = windows(content)[last];
        assert(w.end() == n);
        assert(w.bytes.subrange(from - w.at, to - w.at) == content.subrange(from, to));
        assert(windows(content)[last].shows(content, from, to));
    } else {
        let w = windows(content)[k];
        assert(w.bytes.subrange(from - w.at, to - w.at) == content.subrange(from, to));
        assert(windows(content)[k].shows(content, from, to));
    }
}

/// Content spanning the boundary to an adjacent band is seen whole: any stretch across it of up
/// to one byte more than the overlap lies in the last window.
pub proof fn spliced_content_is_seen_whole(
    content: Seq<u8>,
    tail: Seq<u8>,
    from: int,
    to: int,
)
    requires
        0 <= from <= content.len() < to <= content.len() + tail.len(),
        to - from <= OVERLAP + 1,
    ensures
        band_windows(content, Some(tail)).last().shows(content + tail, from, to),
{
    let w = tail_window(content, tail);
    assert(w.bytes.subrange(from - w.at, to - w.at) == (content + tail).subrange(from, to));
}

} // verus!
