//! Where the bytes of an image are, and which bands there are.
use crate::band;
use crate::band::{Band, BandModel, Image, Piece};
use crate::text;
use vstd::prelude::*;

verus! {

/// A band file is named with its index in hexadecimal, and a name is read in hexadecimal.
pub proof fn names_are_hexadecimal(index: u64, name: Seq<char>)
    ensures
        band::name_of(index) == text::digits(index as nat, 16),
        band::index_of(name) == text::parse_u64(name, 16),
{
}

/// Byte `j` of band `k` is the byte of the image that lies `j` behind `k` whole bands.
pub proof fn byte_of_a_band_is_in_the_image(image: Image, k: nat, j: nat)
    requires
        j < image.band_size,
    ensures
        image.bands.dom().contains(k) && j < image.bands[k].len() ==> image.byte(
            k * image.band_size + j,
        ) == image.bands[k][j as int],
        !image.bands.dom().contains(k) || j >= image.bands[k].len() ==> image.byte(
            k * image.band_size + j,
        ) == 0,
{
    vstd::arithmetic::div_mod::lemma_fundamental_div_mod_converse(
        (k * image.band_size + j) as int,
        image.band_size as int,
        k as int,
        j as int,
    );
}

/// A read gives as many bytes as were asked for, and each is the byte of the image at its place.
pub proof fn read_is_byte_by_byte(image: Image, offset: nat, len: nat, i: nat)
    requires
        i < len,
    ensures
        image.read(offset, len).len() == len,
        image.read(offset, len)[i as int] == image.byte(offset + i),
{
}

/// What is held of a piece are the bytes of the band file from its start on, as far as the piece
/// and the file go; nothing at all where there is no file.
pub proof fn held_bytes_are_the_files(image: Image, p: Piece)
    ensures
        image.held(p) is None <==> !image.bands.dom().contains(p.index as nat),
        image.held(p) matches Some(h) ==> {
            let file = image.bands[p.index as nat];
            &&& h.len() <= p.len
            &&& h.len() == p.len || p.within + h.len() >= file.len()
            &&& h.len() == 0 || p.within + h.len() <= file.len()
            &&& forall|i: int| 0 <= i < h.len() ==> #[trigger] h[i] == file[p.within + i]
        },
{
}

/// What is held of several pieces is what is held of each, in their order.
pub proof fn held_piece_by_piece(image: Image, ps: Seq<Piece>, held: Seq<Option<Vec<u8>>>, i: int)
    ensures
        image.held_of(ps).len() == ps.len(),
        0 <= i < ps.len() ==> image.held_of(ps)[i] == image.held(ps[i]),
        band::held_models(held).len() == held.len(),
        0 <= i < held.len() ==> (held[i] is None <==> band::held_models(held)[i] is None),
        0 <= i < held.len() && held[i] is Some ==> band::held_models(held)[i] == Some(held[i]->0@),
{
}

/// The pieces of a stretch follow each other: the first begins where the stretch begins, stays in
/// its band and has a byte at least; only a piece that goes to the end of its band has one behind
/// it, and that begins where the next band does.
pub proof fn pieces_follow_each_other(band_size: u64, offset: u64, len: usize)
    requires
        band_size > 0,
    ensures
        ({
            let ps = band::pieces(band_size as nat, offset as nat, len as nat);
            if len == 0 {
                ps == Seq::<Piece>::empty()
            } else {
                &&& ps.len() > 0
                &&& ps[0].index * band_size + ps[0].within == offset
                &&& 0 < ps[0].len <= len
                &&& ps[0].within + ps[0].len <= band_size
                &&& ps[0].len < len ==> ps[0].within + ps[0].len == band_size
                &&& ps.drop_first() == band::pieces(
                    band_size as nat,
                    (offset + ps[0].len) as nat,
                    (len - ps[0].len) as nat,
                )
            }
        }),
{
    let ps = band::pieces(band_size as nat, offset as nat, len as nat);
    band::position_is_offset(band_size as nat, offset as nat);
    if len > 0 {
        let p = band::first_piece(band_size as nat, offset as nat, len as nat);
        let q = (offset as nat) / (band_size as nat);
        assert(q <= offset) by (nonlinear_arith)
            requires
                q * band_size <= offset,
                band_size >= 1,
                q >= 0,
        ;
        assert(ps[0] == p);
        assert(p.index == q);
        assert(ps.drop_first() == band::pieces(
            band_size as nat,
            (offset + p.len) as nat,
            (len - p.len) as nat,
        ));
    }
}

/// Joining pieces puts what is held of the first, filled up with zeros to its length, before the
/// others joined.
pub proof fn joining_starts_with_the_first(
    p: Piece,
    h: Option<Seq<u8>>,
    ps: Seq<Piece>,
    hs: Seq<Option<Seq<u8>>>,
)
    ensures
        band::joined(Seq::empty(), hs) == Seq::<u8>::empty(),
        ({
            let all = band::joined(seq![p] + ps, seq![h] + hs);
            &&& all.len() == p.len + band::joined(ps, hs).len()
            &&& all.skip(p.len as int) == band::joined(ps, hs)
            &&& forall|i: int|
                0 <= i < p.len ==> #[trigger] all[i] == (match h {
                    Some(s) => if i < s.len() {
                        s[i]
                    } else {
                        0
                    },
                    None => 0,
                })
        }),
{
    assert((seq![p] + ps).drop_first() == ps);
    assert((seq![h] + hs).drop_first() == hs);
    let all = band::joined(seq![p] + ps, seq![h] + hs);
    assert(all.skip(p.len as int) == band::joined(ps, hs));
}

/// Reading goes on from band to band: the pieces of a stretch, each filled up with zeros from what
/// its band file holds, are the bytes of the image, one after the other. 64 bits have to reach to
/// the end of the stretch, or to the start of every band.
pub proof fn reading_goes_on_from_band_to_band(image: Image, offset: u64, len: usize, i: int)
    requires
        image.band_size > 0,
        offset + len <= 0x1_0000_0000_0000_0000 || forall|k: nat| #[trigger]
            image.bands.dom().contains(k) ==> k * image.band_size < 0x1_0000_0000_0000_0000,
        0 <= i < len,
    ensures
        ({
            let ps = band::pieces(image.band_size, offset as nat, len as nat);
            let got = band::zero_filled(band::joined(ps, image.held_of(ps)), len as nat);
            got.len() == len && got[i] == image.byte((offset + i) as nat)
        }),
{
    band::pieces_make_read(image, offset as nat, len as nat);
}

/// Filling up keeps what is there, adds zeros, and cuts to the length.
pub proof fn filling_up_adds_zeros(s: Seq<u8>, len: nat, i: int)
    requires
        0 <= i < len,
    ensures
        band::zero_filled(s, len).len() == len,
        band::zero_filled(s, len)[i] == (if i < s.len() {
            s[i]
        } else {
            0
        }),
{
}

/// The bands among names are those of one part and then those of the other.
pub proof fn bands_of_parts(names: Seq<Seq<char>>, more: Seq<Seq<char>>)
    ensures
        band::bands_named(names + more) == band::bands_named(names) + band::bands_named(more),
    decreases more.len(),
{
    if more.len() == 0 {
        assert(names + more == names);
        assert(band::bands_named(names) + band::bands_named(more) == band::bands_named(names));
    } else {
        let all = names + more;
        assert(all.drop_last() == names + more.drop_last());
        assert(all.last() == more.last());
        bands_of_parts(names, more.drop_last());
        assert(band::bands_named(all) == band::bands_named(names) + band::bands_named(more));
    }
}

/// A name alone is a band exactly where it is a hexadecimal number, and the band has that index
/// and that name.
pub proof fn band_of_one_name(name: Seq<char>)
    ensures
        text::parse_u64(name, 16) is None ==> band::bands_named(seq![name]) == Seq::<
            BandModel,
        >::empty(),
        text::parse_u64(name, 16) matches Some(index) ==> {
            &&& band::bands_named(seq![name]).len() == 1
            &&& band::bands_named(seq![name])[0].index == index
            &&& band::bands_named(seq![name])[0].name == name
        },
{
    assert(seq![name].drop_last() == Seq::<Seq<char>>::empty());
    assert(band::bands_named(Seq::empty()) == Seq::<BandModel>::empty());
}

/// Order means that no band has a larger index than one behind it.
pub proof fn order_is_by_index(s: Seq<BandModel>)
    ensures
        band::in_order(s) <==> forall|i: int, j: int|
            0 <= i < j < s.len() ==> (#[trigger] s[i]).index <= (#[trigger] s[j]).index,
{
}

/// Rearranged bands are the same ones, and those with the same index follow each other as before.
pub proof fn rearranging_keeps_every_band(s: Seq<BandModel>, t: Seq<BandModel>, b: BandModel)
    requires
        band::same_bands(s, t),
    ensures
        s.filter(|x: BandModel| x.index == b.index) == t.filter(
            |x: BandModel| x.index == b.index,
        ),
        s.contains(b) <==> t.contains(b),
{
    let same = |x: BandModel| x.index == b.index;
    assert(band::with_index(s, b.index) == band::with_index(t, b.index));
    assert(s.filter(same) == t.filter(same));
    filtered_is_contained(s, b);
    filtered_is_contained(t, b);
}

/// A band is among the bands where it is among those with its index.
proof fn filtered_is_contained(s: Seq<BandModel>, b: BandModel)
    ensures
        s.filter(|x: BandModel| x.index == b.index).contains(b) <==> s.contains(b),
    decreases s.len(),
{
    reveal(Seq::filter);
    let same = |x: BandModel| x.index == b.index;
    if s.len() > 0 {
        let before = s.drop_last();
        let x = s.last();
        filtered_is_contained(before, b);
        assert(s == before.push(x));
        assert(s.contains(b) <==> before.contains(b) || x == b) by {
            if before.contains(b) {
                assert(s[before.index_of(b)] == b);
            }
            if x == b {
                assert(s[s.len() - 1] == b);
            }
            if s.contains(b) && x != b {
                assert(before[s.index_of(b)] == b);
            }
        }
        let kept = before.filter(same);
        if same(x) {
            assert(s.filter(same) == kept.push(x));
            assert(kept.push(x).contains(b) <==> kept.contains(b) || x == b) by {
                if kept.contains(b) {
                    assert(kept.push(x)[kept.index_of(b)] == b);
                }
                if x == b {
                    assert(kept.push(x)[kept.len() as int] == b);
                }
                if kept.push(x).contains(b) && x != b {
                    assert(kept[kept.push(x).index_of(b)] == b);
                }
            }
        }
    }
}

/// A band that is spliced gives 65536 bytes of its head at most, and those it begins with.
pub proof fn head_is_the_first_bytes(content: Seq<u8>, i: int)
    ensures
        band::OVERLAP == 64 * 1024,
        content.len() <= 65536 ==> band::head(content) == content,
        content.len() > 65536 ==> band::head(content).len() == 65536,
        0 <= i < band::head(content).len() ==> band::head(content)[i] == content[i],
{
}

/// A band's model has its index and its name.
pub proof fn band_is_shown_as_it_is(b: Band, v: Seq<Band>, i: int)
    ensures
        b@.index == b.index,
        b@.name == b.name@,
        band::band_models(v).len() == v.len(),
        0 <= i < v.len() ==> band::band_models(v)[i] == v[i]@,
{
}

} // verus!
