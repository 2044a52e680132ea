//! Which windows a band is streamed in.
use crate::band::OVERLAP;
use crate::stream;
use crate::stream::{Window, CHUNK};
use vstd::prelude::*;

verus! {

/// A chunk has eight mebibytes, an overlap 64 kibibytes.
pub proof fn chunk_and_overlap()
    ensures
        CHUNK == 8 * 1024 * 1024,
        OVERLAP == 64 * 1024,
{
}

/// Window `k` takes in chunk `k`, to its end or to the band's, and begins 64 kibibytes before
/// the chunk, the first one with the band. There are as many windows as it takes to come to the
/// end of the band.
pub proof fn window_takes_in_its_chunk(content: Seq<u8>, k: int)
    requires
        0 <= k < stream::windows(content).len(),
    ensures
        ({
            let w = stream::windows(content)[k];
            let n = content.len();
            let end = if (k + 1) * 0x80_0000 <= n {
                (k + 1) * 0x80_0000
            } else {
                n as int
            };
            &&& k * 0x80_0000 < n
            &&& w.at == (if k == 0 {
                0
            } else {
                k * 0x80_0000 - 0x1_0000
            })
            &&& w.bytes == content.subrange(w.at as int, end)
        }),
        stream::windows(content).len() * 0x80_0000 >= content.len(),
        (stream::windows(content).len() - 1) * 0x80_0000 < content.len(),
{
}

/// A band without contents has no window of its own.
pub proof fn empty_band_has_no_window(content: Seq<u8>)
    ensures
        stream::windows(content).len() == 0 <==> content.len() == 0,
{
}

/// The window over the end of a band is the end of the band, 64 kibibytes of it at most, and the
/// head of the next one behind that. It comes last, and only where there is such a head.
pub proof fn last_window_joins_the_bands(content: Seq<u8>, tail: Seq<u8>)
    ensures
        stream::band_windows(content, None) == stream::windows(content),
        ({
            let all = stream::band_windows(content, Some(tail));
            let w = all.last();
            let kept = if content.len() < 0x1_0000 {
                content.len() as int
            } else {
                0x1_0000
            };
            &&& all.len() == stream::windows(content).len() + 1
            &&& all.drop_last() == stream::windows(content)
            &&& w.at == content.len() - kept
            &&& w.bytes == content.skip(content.len() - kept) + tail
        }),
{
    let all = stream::band_windows(content, Some(tail));
    assert(all.drop_last() == stream::windows(content));
    let at = all.last().at as int;
    assert(all.last().bytes == content.skip(at) + tail);
}

/// The window over the bytes `from..to` of what was fed, given when they are fed, begins 64
/// kibibytes before them, or with the band, and ends with them.
pub proof fn window_reaches_back(content: Seq<u8>, from: nat, to: nat)
    requires
        from <= to <= content.len(),
    ensures
        ({
            let w = stream::window(content, from, to);
            &&& w.at + w.bytes.len() == to
            &&& from < 0x1_0000 ==> w.at == 0
            &&& from >= 0x1_0000 ==> w.at + 0x1_0000 == from
            &&& forall|i: int| 0 <= i < w.bytes.len() ==> #[trigger] w.bytes[i] == content[w.at + i]
        }),
{
}

/// A window's model has its offset and its bytes.
pub proof fn window_is_shown_as_it_is(w: Window, v: Seq<Window>, i: int)
    ensures
        w@.at == w.at,
        w@.bytes == w.bytes@,
        w@.end() == w.at + w.bytes@.len(),
        stream::window_models(v).len() == v.len(),
        0 <= i < v.len() ==> stream::window_models(v)[i] == v[i]@,
{
}

/// A window shows a stretch where each byte of it stands at its place in the window.
pub proof fn shown_stretch_is_byte_by_byte(
    w: stream::WindowModel,
    content: Seq<u8>,
    from: int,
    to: int,
)
    requires
        0 <= from <= to <= content.len(),
    ensures
        w.shows(content, from, to) <==> w.at <= from && to <= w.at + w.bytes.len() && forall|i: int|
            from <= i < to ==> w.bytes[i - w.at] == #[trigger] content[i],
{
    if w.at <= from && to <= w.at + w.bytes.len() {
        let part = w.bytes.subrange(from - w.at, to - w.at);
        if forall|i: int| from <= i < to ==> w.bytes[i - w.at] == #[trigger] content[i] {
            assert forall|i: int| 0 <= i < to - from implies part[i] == content.subrange(
                from,
                to,
            )[i] by {
                assert(content[from + i] == w.bytes[from + i - w.at]);
            }
            assert(part == content.subrange(from, to));
        }
        if w.shows(content, from, to) {
            assert forall|i: int| from <= i < to implies w.bytes[i - w.at]
                == #[trigger] content[i] by {
                assert(part[i - from] == content.subrange(from, to)[i - from]);
            }
        }
    }
}

} // verus!
