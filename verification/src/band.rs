//! Bands: where an offset of the image lies, what a band file is called, and in which order the
//! bands of a bundle follow each other.
use crate::text;
use vstd::prelude::*;

verus! {

/// Bytes of the following band appended to each streaming read, so content
/// spanning a band boundary is still seen whole.
pub const OVERLAP: usize = 65536;

// ---------------------------------------------------------------------------
// Reading
// ---------------------------------------------------------------------------

/// The image that a bundle holds: band files by index, each with its contents.
pub struct Image {
    pub band_size: nat,
    pub bands: Map<nat, Seq<u8>>,
}

/// `held` as far as it goes, then zeros, `len` bytes in all.
pub open spec fn zero_filled(held: Seq<u8>, len: nat) -> Seq<u8> {
    Seq::new(
        len,
        |i: int|
            if i < held.len() {
                held[i]
            } else {
                0
            },
    )
}

impl Image {
    /// Each band begins where 64 bits can address it.
    pub open spec fn is_addressable(self) -> bool {
        forall|index: nat| #[trigger]
            self.bands.dom().contains(index) ==> index * self.band_size <= u64::MAX
    }

    /// Of the `len` bytes at `offset` 64 bits can address each one, or each that a band holds.
    pub open spec fn reaches(self, offset: nat, len: nat) -> bool {
        offset + len <= u64::MAX + 1 || self.is_addressable()
    }

    /// The byte at `offset`: band index = offset / band_size, offset within band = offset %
    /// band_size. It is zero where the file of that band is shorter, or where there is none.
    pub open spec fn byte(self, offset: nat) -> u8 {
        let index = offset / self.band_size;
        let within = offset % self.band_size;
        if self.bands.dom().contains(index) && within < self.bands[index].len() {
            self.bands[index][within as int]
        } else {
            0
        }
    }

    /// `len` bytes at `offset`, whichever bands hold them.
    pub open spec fn read(self, offset: nat, len: nat) -> Seq<u8> {
        Seq::new(len, |i: int| self.byte((offset + i) as nat))
    }

    /// What the file of the band of `p` holds of it; nothing if the band is absent.
    pub open spec fn held(self, p: Piece) -> Option<Seq<u8>> {
        if self.bands.dom().contains(p.index as nat) {
            let file = self.bands[p.index as nat];
            Some(
                if p.within >= file.len() {
                    Seq::empty()
                } else if p.within + p.len <= file.len() {
                    file.subrange(p.within as int, p.within + p.len)
                } else {
                    file.skip(p.within as int)
                },
            )
        } else {
            None
        }
    }

    /// What the band files hold of the pieces `ps`.
    pub open spec fn held_of(self, ps: Seq<Piece>) -> Seq<Option<Seq<u8>>> {
        ps.map_values(|p: Piece| self.held(p))
    }
}

/// A stretch of the image that lies in one band.
#[derive(Debug, Clone, Copy, PartialEq, Eq, Structural)]
pub struct Piece {
    /// Which band.
    pub index: u64,
    /// How far into it the piece begins.
    pub within: u64,
    /// How many bytes it has.
    pub len: usize,
}

/// How many of `len` bytes at `offset` lie in the band in which `offset` lies.
pub open spec fn piece_len(band_size: nat, offset: nat, len: nat) -> nat {
    let left = (band_size - offset % band_size) as nat;
    if len <= left {
        len
    } else {
        left
    }
}

/// The first piece of `len` bytes at `offset`.
pub open spec fn first_piece(band_size: nat, offset: nat, len: nat) -> Piece {
    Piece {
        index: (offset / band_size) as u64,
        within: (offset % band_size) as u64,
        len: piece_len(band_size, offset, len) as usize,
    }
}

/// The pieces that `len` bytes at `offset` are put together from, as far as 64 bits can address
/// them. Nothing lies beyond.
pub open spec fn pieces(band_size: nat, offset: nat, len: nat) -> Seq<Piece>
    decreases len,
{
    if len == 0 || band_size == 0 || offset > u64::MAX {
        Seq::empty()
    } else {
        let n = piece_len(band_size, offset, len);
        proof {
            vstd::arithmetic::div_mod::lemma_mod_bound(offset as int, band_size as int);
        }
        seq![first_piece(band_size, offset, len)] + pieces(
            band_size,
            offset + n,
            (len - n) as nat,
        )
    }
}

/// What is held of one piece; of an absent band nothing.
pub open spec fn bytes_held(held: Option<Seq<u8>>) -> Seq<u8> {
    match held {
        Some(h) => h,
        None => Seq::empty(),
    }
}

/// Pieces filled up with zeros and joined.
pub open spec fn joined(ps: Seq<Piece>, held: Seq<Option<Seq<u8>>>) -> Seq<u8>
    decreases ps.len(),
{
    if ps.len() == 0 {
        Seq::empty()
    } else {
        zero_filled(bytes_held(held[0]), ps[0].len as nat) + joined(
            ps.drop_first(),
            held.drop_first(),
        )
    }
}

/// What is held of pieces, as sequences.
pub open spec fn held_models(held: Seq<Option<Vec<u8>>>) -> Seq<Option<Seq<u8>>> {
    held.map_values(
        |h: Option<Vec<u8>>|
            match h {
                Some(v) => Some(v@),
                None => None,
            },
    )
}

/// The first piece of `len` bytes at `offset`: band index = offset / band_size, offset within
/// band = offset % band_size, and no more than that band holds.
pub fn next_piece(band_size: u64, offset: u64, len: usize) -> (r: Piece)
    requires
        band_size > 0,
        len > 0,
    ensures
        r == first_piece(band_size as nat, offset as nat, len as nat),
        r.index == offset / band_size,
        r.within == offset % band_size,
        r.len == (if len <= band_size - offset % band_size {
            len as int
        } else {
            band_size - offset % band_size
        }),
        0 < r.len <= len,
{
    let within: u64 = offset % band_size;
    let left: u64 = band_size - within;
    let n: usize = if len as u64 <= left {
        len
    } else {
        left as usize
    };
    Piece { index: offset / band_size, within, len: n }
}

/// The pieces that `len` bytes at `offset` are put together from.
pub fn plan(band_size: u64, offset: u64, len: usize) -> (r: Vec<Piece>)
    requires
        band_size > 0,
    ensures
        r@ == pieces(band_size as nat, offset as nat, len as nat),
{
    let mut out: Vec<Piece> = Vec::new();
    let mut at: u64 = offset;
    let mut left: usize = len;
    let ghost all = pieces(band_size as nat, offset as nat, len as nat);
    assert(out@ + pieces(band_size as nat, at as nat, left as nat) == all);
    while left > 0
        invariant
            band_size > 0,
            all == pieces(band_size as nat, offset as nat, len as nat),
            out@ + pieces(band_size as nat, at as nat, left as nat) == all,
        decreases left,
    {
        let p: Piece = next_piece(band_size, at, left);
        let ghost before = out@;
        out.push(p);
        let ghost rest = pieces(
            band_size as nat,
            (at + p.len) as nat,
            (left - p.len) as nat,
        );
        assert(before + (seq![p] + rest) == out@ + rest);
        match at.checked_add(p.len as u64) {
            None => {
                assert(rest == Seq::<Piece>::empty());
                assert(out@ + rest == out@);
                return out;
            },
            Some(next) => {
                at = next;
            },
        }
        left = left - p.len;
    }
    assert(out@ + Seq::<Piece>::empty() == out@);
    out
}

/// Read `len` bytes at absolute image `offset`: `held` are the bytes that the band files hold of
/// the pieces of [`plan`], one for one, and is missing where a band is absent.
///
/// Returns zeros for an absent band, matching sparse semantics, and for what lies beyond the
/// end of a band file.
pub fn read_at(band_size: u64, offset: u64, len: usize, held: &Vec<Option<Vec<u8>>>) -> (r: Vec<u8>)
    requires
        band_size > 0,
        held@.len() == pieces(band_size as nat, offset as nat, len as nat).len(),
    ensures
        r@ == zero_filled(
            joined(
                pieces(band_size as nat, offset as nat, len as nat),
                held_models(held@),
            ),
            len as nat,
        ),
        forall|image: Image|
            image.band_size == band_size && image.reaches(offset as nat, len as nat)
                && held_models(held@) == image.held_of(
                pieces(band_size as nat, offset as nat, len as nat),
            ) ==> r@ == #[trigger] image.read(offset as nat, len as nat),
{
    let ps: Vec<Piece> = plan(band_size, offset, len);
    let ghost hs = held_models(held@);
    let ghost whole = joined(ps@, hs);
    let mut buf: Vec<u8> = Vec::new();
    let mut k: usize = 0;
    assert(ps@.skip(0) == ps@ && hs.skip(0) == hs);
    assert(buf@ + joined(ps@.skip(0), hs.skip(0)) == whole);
    while k < ps.len()
        invariant
            k <= ps@.len(),
            ps@.len() == held@.len(),
            hs == held_models(held@),
            whole == joined(ps@, hs),
            buf@ + joined(ps@.skip(k as int), hs.skip(k as int)) == whole,
        decreases ps@.len() - k,
    {
        let n: usize = ps[k].len;
        let mut piece: Vec<u8> = Vec::new();
        if let Some(h) = &held[k] {
            piece.extend_from_slice(h.as_slice());
            assert(piece@ == h@);
        }
        piece.resize(n, 0);
        let ghost filled = zero_filled(bytes_held(hs[k as int]), n as nat);
        assert(piece@ == filled);
        let ghost before = buf@;
        buf.append(&mut piece);
        proof {
            assert(ps@.skip(k as int).drop_first() == ps@.skip(k + 1));
            assert(hs.skip(k as int).drop_first() == hs.skip(k + 1));
            let rest = joined(ps@.skip(k + 1), hs.skip(k + 1));
            assert(before + (filled + rest) == buf@ + rest);
        }
        k = k + 1;
    }
    assert(buf@ + Seq::<u8>::empty() == buf@);
    buf.resize(len, 0);
    proof {
        assert(buf@ == zero_filled(whole, len as nat));
        assert forall|image: Image|
            image.band_size == band_size && image.reaches(offset as nat, len as nat) && hs
                == image.held_of(ps@) implies buf@ == #[trigger] image.read(
            offset as nat,
            len as nat,
        ) by {
            pieces_make_read(image, offset as nat, len as nat);
        }
    }
    buf
}

/// An offset is put together again from its position, and the position lies inside the band.
pub proof fn position_is_offset(band_size: nat, offset: nat)
    requires
        band_size > 0,
    ensures
        (offset / band_size) * band_size + offset % band_size == offset,
        offset % band_size < band_size,
{
    vstd::arithmetic::div_mod::lemma_fundamental_div_mod(offset as int, band_size as int);
    vstd::arithmetic::mul::lemma_mul_is_commutative(
        band_size as int,
        (offset / band_size) as int,
    );
    vstd::arithmetic::div_mod::lemma_mod_bound(offset as int, band_size as int);
}

/// The start of the image, and with it the partition map, lies at the start of band 0.
pub proof fn image_starts_in_band_zero(band_size: nat)
    requires
        band_size > 0,
    ensures
        0nat / band_size == 0,
        0nat % band_size == 0,
{
    vstd::arithmetic::div_mod::lemma_basic_div(0, band_size as int);
    vstd::arithmetic::div_mod::lemma_small_mod(0, band_size);
}

/// Two offsets with the same position are the same offset: no byte of the image has two places.
pub proof fn positions_are_distinct(band_size: nat, a: nat, b: nat)
    requires
        band_size > 0,
        a / band_size == b / band_size,
        a % band_size == b % band_size,
    ensures
        a == b,
{
    position_is_offset(band_size, a);
    position_is_offset(band_size, b);
}

/// The byte that lies `i` after `offset` and in the same band.
proof fn byte_in_same_band(image: Image, offset: nat, i: nat)
    requires
        image.band_size > 0,
        offset % image.band_size + i < image.band_size,
    ensures
        (offset + i) / image.band_size == offset / image.band_size,
        (offset + i) % image.band_size == offset % image.band_size + i,
{
    position_is_offset(image.band_size, offset);
    vstd::arithmetic::div_mod::lemma_fundamental_div_mod_converse(
        (offset + i) as int,
        image.band_size as int,
        (offset / image.band_size) as int,
        (offset % image.band_size + i) as int,
    );
}

/// Filling up with zeros what the band file holds of the first piece gives the bytes of the image.
proof fn filled_piece_is_image(image: Image, offset: nat, len: nat)
    requires
        image.band_size > 0,
        offset <= u64::MAX,
        len <= usize::MAX,
    ensures
        ({
            let n = piece_len(image.band_size, offset, len);
            zero_filled(
                bytes_held(image.held(first_piece(image.band_size, offset, len))),
                n,
            ) == image.read(offset, n)
        }),
{
    let n = piece_len(image.band_size, offset, len);
    let p = first_piece(image.band_size, offset, len);
    position_is_offset(image.band_size, offset);
    assert(offset / image.band_size <= offset) by (nonlinear_arith)
        requires
            image.band_size > 0,
            offset == (offset / image.band_size) * image.band_size + offset % image.band_size,
            offset % image.band_size >= 0,
    ;
    let filled = zero_filled(bytes_held(image.held(p)), n);
    assert forall|i: int| 0 <= i < n implies filled[i] == #[trigger] image.read(offset, n)[i] by {
        byte_in_same_band(image, offset, i as nat);
    }
    assert(filled == image.read(offset, n));
}

/// Reading across bands: the pieces of a stretch of the image, each filled up with zeros from
/// what its band file holds, make up the bytes of the image when joined.
pub proof fn pieces_make_read(image: Image, offset: nat, len: nat)
    requires
        image.band_size > 0,
        offset <= u64::MAX,
        len <= usize::MAX,
        image.reaches(offset, len),
    ensures
        ({
            let ps = pieces(image.band_size, offset, len);
            zero_filled(joined(ps, image.held_of(ps)), len) == image.read(offset, len)
        }),
    decreases len,
{
    let ps = pieces(image.band_size, offset, len);
    if len == 0 {
        assert(image.read(offset, len) == Seq::<u8>::empty());
    } else {
        let n = piece_len(image.band_size, offset, len);
        let rest_len = (len - n) as nat;
        position_is_offset(image.band_size, offset);
        filled_piece_is_image(image, offset, len);
        let rest = pieces(image.band_size, offset + n, rest_len);
        assert(ps.drop_first() == rest);
        assert(image.held_of(ps).drop_first() == image.held_of(rest));
        assert(image.held_of(ps)[0] == image.held(ps[0]));
        let head = image.read(offset, n);
        let tail = joined(rest, image.held_of(rest));
        assert(joined(ps, image.held_of(ps)) == head + tail);
        assert(image.read(offset, len) == head + image.read(offset + n, rest_len));
        if offset + n <= u64::MAX {
            pieces_make_read(image, offset + n, rest_len);
        } else if rest_len > 0 {
            assert(tail == Seq::<u8>::empty());
            let index = offset / image.band_size;
            let size = image.band_size;
            let within = offset % size;
            assert(offset + n == (index + 1) * size) by (nonlinear_arith)
                requires
                    offset == index * size + within,
                    n == size - within,
            ;
            vstd::arithmetic::div_mod::lemma_mod_multiples_basic(
                (index + 1) as int,
                image.band_size as int,
            );
            beyond_reads_as_zeros(image, offset + n, rest_len);
        }
        assert(zero_filled(head + tail, len) == head + zero_filled(tail, rest_len));
    }
}

/// A stretch that begins with a band beyond 64 bits reads as zeros.
proof fn beyond_reads_as_zeros(image: Image, offset: nat, len: nat)
    requires
        image.band_size > 0,
        image.is_addressable(),
        offset > u64::MAX,
        offset % image.band_size == 0,
    ensures
        image.read(offset, len) == zero_filled(Seq::empty(), len),
{
    assert forall|i: int| 0 <= i < len implies #[trigger] image.read(offset, len)[i] == 0 by {
        let at = (offset + i) as nat;
        let index = at / image.band_size;
        position_is_offset(image.band_size, offset);
        vstd::arithmetic::div_mod::lemma_div_is_ordered(
            offset as int,
            at as int,
            image.band_size as int,
        );
        assert(index * image.band_size >= (offset / image.band_size) * image.band_size)
            by (nonlinear_arith)
            requires
                index >= offset / image.band_size,
                image.band_size > 0,
        ;
        assert(!image.bands.dom().contains(index));
    }
}

/// An absent band is not an error: a stretch of which every band is absent reads as zeros.
pub proof fn absent_band_is_zeros(image: Image, offset: nat, len: nat)
    requires
        image.band_size > 0,
        forall|index: nat|
            offset / image.band_size <= index && index * image.band_size < offset + len
                ==> !#[trigger] image.bands.dom().contains(index),
    ensures
        image.read(offset, len) == Seq::new(len, |i: int| 0u8),
{
    assert forall|i: int| 0 <= i < len implies #[trigger] image.read(offset, len)[i] == 0 by {
        let at = (offset + i) as nat;
        position_is_offset(image.band_size, at);
        vstd::arithmetic::div_mod::lemma_div_is_ordered(
            offset as int,
            at as int,
            image.band_size as int,
        );
        assert(!image.bands.dom().contains(at / image.band_size));
    }
}

/// A byte read alone is the byte that any longer read has in its place, whichever band holds it.
pub proof fn reads_agree(image: Image, offset: nat, len: nat, i: nat)
    requires
        i < len,
    ensures
        image.read(offset, len)[i as int] == image.read(offset + i, 1)[0],
{
}

/// A long read is two shorter ones, one after the other.
pub proof fn reads_join(image: Image, offset: nat, first: nat, second: nat)
    ensures
        image.read(offset, first + second) == image.read(offset, first) + image.read(
            offset + first,
            second,
        ),
{
}

// ---------------------------------------------------------------------------
// Names
// ---------------------------------------------------------------------------

/// The name of the file of band `index`: lowercase hex, no zero padding.
pub open spec fn name_of(index: u64) -> Seq<char> {
    text::digits(index as nat, 16)
}

/// The index of the band whose file has this name, if it is a band's.
pub open spec fn index_of(name: Seq<char>) -> Option<u64> {
    text::parse_u64(name, 16)
}

/// The name of the file of band `index`.
pub fn band_name(index: u64) -> (r: String)
    ensures
        r@ == name_of(index),
{
    let mut s: String = String::new();
    text::push_digits(&mut s, index, 16);
    assert(s@ == name_of(index));
    s
}

/// The index of the band whose file has this name, if it is a band's.
pub fn band_index(name: &str) -> (r: Option<u64>)
    ensures
        r == index_of(name@),
{
    let chars: Vec<char> = text::chars_of(name);
    assert(chars@.subrange(0, chars@.len() as int) == chars@);
    text::to_u64(&chars, 0, chars.len(), 16)
}

/// The index of a band is read back from the name of its file.
pub proof fn name_gives_index(index: u64)
    ensures
        index_of(name_of(index)) == Some(index),
{
    text::parse_reads_back_digits(index, 16);
}

/// Bands with different indices have files with different names.
pub proof fn names_are_distinct(a: u64, b: u64)
    requires
        name_of(a) == name_of(b),
    ensures
        a == b,
{
    name_gives_index(a);
    name_gives_index(b);
}

/// The name of a band file is lowercase hex without padding.
pub proof fn name_is_unpadded_lowercase_hex(index: u64)
    ensures
        name_of(index).len() > 0,
        index == 0 ==> name_of(index) == seq!['0'],
        index > 0 ==> name_of(index)[0] != '0',
        forall|i: int|
            0 <= i < name_of(index).len() ==> {
                let c = #[trigger] name_of(index)[i];
                '0' <= c <= '9' || 'a' <= c <= 'f'
            },
{
    text::digits_are_unpadded(index as nat, 16);
    text::digits_are_lowercase(index as nat, 16);
    text::digits_write_number(index as nat, 16);
    let s = name_of(index);
    assert forall|i: int| 0 <= i < s.len() implies {
        let c = #[trigger] s[i];
        '0' <= c <= '9' || 'a' <= c <= 'f'
    } by {
        assert(text::digit_value(s[i], 16) is Some);
    }
}

// ---------------------------------------------------------------------------
// Bands in order
// ---------------------------------------------------------------------------

/// One band file, with the index parsed from its hex filename.
#[derive(Debug)]
pub struct Band {
    pub index: u64,
    /// The name of its file in the bands directory.
    pub name: String,
}

/// A band as mathematical values.
pub struct BandModel {
    pub index: u64,
    pub name: Seq<char>,
}

impl View for Band {
    type V = BandModel;

    open spec fn view(&self) -> BandModel {
        BandModel { index: self.index, name: self.name@ }
    }
}

/// The bands of a vector as mathematical values.
pub open spec fn band_models(v: Seq<Band>) -> Seq<BandModel> {
    v.map_values(|b: Band| b@)
}

/// The bands among the file names `names`, in that order. A name that is no hex number is not a
/// band's.
pub open spec fn bands_named(names: Seq<Seq<char>>) -> Seq<BandModel>
    decreases names.len(),
{
    if names.len() == 0 {
        Seq::empty()
    } else {
        let before = bands_named(names.drop_last());
        match index_of(names.last()) {
            Some(index) => before.push(BandModel { index, name: names.last() }),
            None => before,
        }
    }
}

/// The indices do not decrease.
pub open spec fn in_order(s: Seq<BandModel>) -> bool {
    forall|i: int, j: int| 0 <= i <= j < s.len() ==> (#[trigger] s[i]).index <= (#[trigger] s[j]).index
}

/// Those of the bands that have this index, in their order.
pub open spec fn with_index(s: Seq<BandModel>, index: u64) -> Seq<BandModel> {
    s.filter(|b: BandModel| b.index == index)
}

/// `t` has the bands of `s`: for each index the same ones, in the same order.
pub open spec fn same_bands(s: Seq<BandModel>, t: Seq<BandModel>) -> bool {
    forall|index: u64| #[trigger] with_index(s, index) == with_index(t, index)
}

/// The bands of a concatenation with some index are those of its parts.
proof fn with_index_of_sum(s: Seq<BandModel>, t: Seq<BandModel>, index: u64)
    ensures
        with_index(s + t, index) == with_index(s, index) + with_index(t, index),
{
    Seq::filter_distributes_over_add(s, t, |b: BandModel| b.index == index);
}

/// A band alone.
proof fn with_index_of_one(b: BandModel, index: u64)
    ensures
        with_index(seq![b], index) == (if b.index == index {
            seq![b]
        } else {
            Seq::empty()
        }),
{
    reveal(Seq::filter);
    let one = seq![b];
    assert(one.drop_last() == Seq::<BandModel>::empty());
    assert(with_index(one.drop_last(), index) == Seq::<BandModel>::empty());
    assert(Seq::<BandModel>::empty().push(b) == one);
}

/// Where every index is lower there is no band with this index.
proof fn with_index_beyond(s: Seq<BandModel>, index: u64)
    requires
        forall|i: int| 0 <= i < s.len() ==> (#[trigger] s[i]).index < index,
    ensures
        with_index(s, index) == Seq::<BandModel>::empty(),
    decreases s.len(),
{
    reveal(Seq::filter);
    if s.len() > 0 {
        with_index_beyond(s.drop_last(), index);
    }
}

/// There is a band with the index of any band.
proof fn with_index_finds(s: Seq<BandModel>, i: int)
    requires
        0 <= i < s.len(),
    ensures
        with_index(s, s[i].index).len() > 0,
{
    let index = s[i].index;
    let rest = s.skip(i + 1);
    assert(s == s.take(i) + seq![s[i]] + rest);
    with_index_of_sum(s.take(i) + seq![s[i]], rest, index);
    with_index_of_sum(s.take(i), seq![s[i]], index);
    with_index_of_one(s[i], index);
}

/// An index for which there is a band is the index of some band.
proof fn with_index_is_found(s: Seq<BandModel>, index: u64) -> (i: int)
    requires
        with_index(s, index).len() > 0,
    ensures
        0 <= i < s.len(),
        s[i].index == index,
    decreases s.len(),
{
    reveal(Seq::filter);
    if s.last().index == index {
        s.len() - 1
    } else {
        with_index_is_found(s.drop_last(), index)
    }
}

/// Numerical order leaves no choice: the same bands in order are the same sequence.
pub proof fn order_is_determined(s: Seq<BandModel>, t: Seq<BandModel>)
    requires
        in_order(s),
        in_order(t),
        same_bands(s, t),
    ensures
        s == t,
    decreases s.len(),
{
    if s.len() == 0 {
        if t.len() > 0 {
            with_index_finds(t, 0);
            assert(with_index(s, t[0].index).len() > 0);
            let i = with_index_is_found(s, t[0].index);
        }
        assert(s == t);
    } else {
        let x = s.last();
        let k = x.index;
        with_index_finds(s, s.len() - 1);
        assert(with_index(s, k) == with_index(t, k));
        let j = with_index_is_found(t, k);
        let y = t.last();
        with_index_finds(t, t.len() - 1);
        assert(with_index(s, y.index) == with_index(t, y.index));
        let i = with_index_is_found(s, y.index);
        assert(s[i].index <= s[s.len() - 1].index);
        assert(t[j].index <= t[t.len() - 1].index);
        assert(y.index == k);
        reveal(Seq::filter);
        assert(with_index(s, k) == with_index(s.drop_last(), k).push(x));
        assert(with_index(t, k) == with_index(t.drop_last(), k).push(y));
        assert(with_index(s, k).last() == x);
        assert(with_index(t, k).last() == y);
        assert forall|index: u64| #[trigger]
            with_index(s.drop_last(), index) == with_index(t.drop_last(), index) by {
            assert(with_index(s, index) == with_index(t, index));
            if index == k {
                assert(with_index(s.drop_last(), k) == with_index(s, k).drop_last());
                assert(with_index(t.drop_last(), k) == with_index(t, k).drop_last());
            }
        }
        order_is_determined(s.drop_last(), t.drop_last());
        assert(s == s.drop_last().push(x));
        assert(t == t.drop_last().push(y));
    }
}

/// Every band among the names comes from one of them.
proof fn named_band_has_name(names: Seq<Seq<char>>, i: int) -> (j: int)
    requires
        0 <= i < bands_named(names).len(),
    ensures
        0 <= j < names.len(),
        bands_named(names)[i].name == names[j],
        index_of(names[j]) == Some(bands_named(names)[i].index),
    decreases names.len(),
{
    if index_of(names.last()) is Some && i == bands_named(names).len() - 1 {
        names.len() - 1
    } else {
        named_band_has_name(names.drop_last(), i)
    }
}

/// Each name is the one that a band's file is given, or no band's at all.
pub open spec fn canonical(names: Seq<Seq<char>>) -> bool {
    forall|i: int|
        0 <= i < names.len() ==> (index_of(#[trigger] names[i]) matches Some(index) ==> names[i]
            == name_of(index))
}

/// Of canonical names that are distinct at most one is that of the band `index`.
proof fn named_once(names: Seq<Seq<char>>, index: u64)
    requires
        canonical(names),
        names.no_duplicates(),
    ensures
        with_index(bands_named(names), index).len() <= 1,
    decreases names.len(),
{
    if names.len() == 0 {
        with_index_beyond(bands_named(names), index);
    } else {
        let earlier = names.drop_last();
        let before = bands_named(earlier);
        assert forall|i: int| 0 <= i < earlier.len() implies (index_of(#[trigger] earlier[i]) matches Some(
            k,
        ) ==> earlier[i] == name_of(k)) by {
            assert(earlier[i] == names[i]);
        }
        named_once(earlier, index);
        match index_of(names.last()) {
            Some(k) => {
                let b = BandModel { index: k, name: names.last() };
                assert(bands_named(names) == before + seq![b]);
                with_index_of_sum(before, seq![b], index);
                with_index_of_one(b, index);
                if k == index && with_index(before, index).len() > 0 {
                    let i = with_index_is_found(before, index);
                    let j = named_band_has_name(earlier, i);
                    assert(names[j] == name_of(index));
                    assert(names[names.len() - 1] == name_of(index));
                }
            },
            None => {},
        }
    }
}

/// Where the file names are distinct and each is the one that a band's file is given, no index
/// comes twice: the indices of the bands in order rise strictly.
pub proof fn indices_rise_strictly(names: Seq<Seq<char>>, r: Seq<BandModel>)
    requires
        canonical(names),
        names.no_duplicates(),
        in_order(r),
        same_bands(bands_named(names), r),
    ensures
        forall|i: int, j: int|
            0 <= i < j < r.len() ==> (#[trigger] r[i]).index < (#[trigger] r[j]).index,
{
    assert forall|i: int, j: int| 0 <= i < j < r.len() implies (#[trigger] r[i]).index < (
    #[trigger] r[j]).index by {
        let k = r[j].index;
        if r[i].index == k {
            let low = r.take(j);
            let high = r.skip(j);
            assert(r == low + high);
            with_index_of_sum(low, high, k);
            assert(low[i] == r[i] && high[0] == r[j]);
            with_index_finds(low, i);
            with_index_finds(high, 0);
            named_once(names, k);
            assert(with_index(bands_named(names), k) == with_index(r, k));
        }
    }
}

/// The bands of `low` and `high` together in order; of bands with the same index those of `low`
/// come first.
fn merge(low: Vec<Band>, high: Vec<Band>) -> (r: Vec<Band>)
    requires
        in_order(band_models(low@)),
        in_order(band_models(high@)),
    ensures
        in_order(band_models(r@)),
        same_bands(band_models(low@) + band_models(high@), band_models(r@)),
        r@.len() == low@.len() + high@.len(),
{
    let ghost whole = band_models(low@) + band_models(high@);
    let mut a: Vec<Band> = low;
    let mut b: Vec<Band> = high;
    let mut backwards: Vec<Band> = Vec::new();
    let ghost mut tail: Seq<BandModel> = Seq::empty();
    proof {
        assert(band_models(a@) + band_models(b@) + tail == whole);
    }
    while a.len() > 0 || b.len() > 0
        invariant
            in_order(band_models(a@)),
            in_order(band_models(b@)),
            in_order(tail),
            tail == band_models(backwards@).reverse(),
            forall|i: int, j: int|
                0 <= i < a@.len() && 0 <= j < tail.len() ==> (#[trigger] band_models(a@)[i]).index
                    <= (#[trigger] tail[j]).index,
            forall|i: int, j: int|
                0 <= i < b@.len() && 0 <= j < tail.len() ==> (#[trigger] band_models(b@)[i]).index
                    <= (#[trigger] tail[j]).index,
            same_bands(whole, band_models(a@) + band_models(b@) + tail),
            a@.len() + b@.len() + tail.len() == low@.len() + high@.len(),
        decreases a@.len() + b@.len(),
    {
        let ghost ma = band_models(a@);
        let ghost mb = band_models(b@);
        let ghost before = tail;
        let from_low: bool = if a.len() == 0 {
            false
        } else if b.len() == 0 {
            true
        } else {
            a[a.len() - 1].index > b[b.len() - 1].index
        };
        if from_low {
            let x: Option<Band> = a.pop();
            if let Some(band) = x {
                proof {
                    assert(band_models(a@) == ma.drop_last());
                    assert(band@ == ma.last());
                    tail = seq![band@] + before;
                    assert forall|index: u64| #[trigger]
                        with_index(whole, index) == with_index(
                            band_models(a@) + mb + tail,
                            index,
                        ) by {
                        let one = seq![band@];
                        assert(with_index(whole, index) == with_index(ma + mb + before, index));
                        with_index_of_sum(ma + mb, before, index);
                        with_index_of_sum(ma, mb, index);
                        assert(ma == ma.drop_last() + one);
                        with_index_of_sum(ma.drop_last(), one, index);
                        with_index_of_sum(ma.drop_last() + mb, tail, index);
                        with_index_of_sum(ma.drop_last(), mb, index);
                        with_index_of_sum(one, before, index);
                        with_index_of_one(band@, index);
                        if index == band@.index {
                            assert forall|i: int| 0 <= i < mb.len() implies (#[trigger] mb[i]).index
                                < index by {
                                assert(mb[i].index <= mb[mb.len() - 1].index);
                            }
                            with_index_beyond(mb, index);
                        }
                        let front = with_index(ma.drop_last(), index);
                        let mid = with_index(mb, index);
                        let own = with_index(one, index);
                        let rest = with_index(before, index);
                        assert(front + own + mid + rest == front + mid + (own + rest));
                    }
                }
                backwards.push(band);
            }
        } else {
            let x: Option<Band> = b.pop();
            if let Some(band) = x {
                proof {
                    assert(band_models(b@) == mb.drop_last());
                    assert(band@ == mb.last());
                    tail = seq![band@] + before;
                    assert forall|index: u64| #[trigger]
                        with_index(whole, index) == with_index(
                            ma + band_models(b@) + tail,
                            index,
                        ) by {
                        assert(with_index(whole, index) == with_index(ma + mb + before, index));
                        assert(ma + mb + before == ma + mb.drop_last() + tail);
                    }
                    assert forall|i: int| 0 <= i < ma.len() implies (#[trigger] ma[i]).index
                        <= band@.index by {
                        assert(ma[i].index <= ma[ma.len() - 1].index);
                    }
                }
                backwards.push(band);
            }
        }
        assert(tail == band_models(backwards@).reverse());
    }
    proof {
        assert(band_models(a@) + band_models(b@) + tail == tail);
    }
    let mut out: Vec<Band> = Vec::new();
    while backwards.len() > 0
        invariant
            band_models(out@) + band_models(backwards@).reverse() == tail,
        decreases backwards@.len(),
    {
        let ghost done = band_models(out@);
        let ghost left = band_models(backwards@);
        let x: Option<Band> = backwards.pop();
        if let Some(band) = x {
            out.push(band);
            assert(band_models(out@) == done.push(band@));
            assert(band_models(backwards@) == left.drop_last());
            assert(left.reverse() == seq![band@] + left.drop_last().reverse());
            assert(done.push(band@) + left.drop_last().reverse() == done + left.reverse());
        }
    }
    assert(band_models(out@) == tail);
    out
}

/// The bands in numerical order; bands with the same index keep their order.
fn sort(bands: Vec<Band>) -> (r: Vec<Band>)
    ensures
        in_order(band_models(r@)),
        same_bands(band_models(bands@), band_models(r@)),
        r@.len() == bands@.len(),
    decreases bands@.len(),
{
    if bands.len() <= 1 {
        return bands;
    }
    let ghost whole = band_models(bands@);
    let mid: usize = bands.len() / 2;
    let mut low: Vec<Band> = bands;
    let high: Vec<Band> = low.split_off(mid);
    let ghost ml = band_models(low@);
    let ghost mh = band_models(high@);
    assert(whole == ml + mh);
    let sorted_low: Vec<Band> = sort(low);
    let sorted_high: Vec<Band> = sort(high);
    let ghost sl = band_models(sorted_low@);
    let ghost sh = band_models(sorted_high@);
    let r: Vec<Band> = merge(sorted_low, sorted_high);
    proof {
        assert forall|index: u64| #[trigger]
            with_index(whole, index) == with_index(band_models(r@), index) by {
            with_index_of_sum(ml, mh, index);
            with_index_of_sum(sl, sh, index);
            assert(with_index(ml, index) == with_index(sl, index));
            assert(with_index(mh, index) == with_index(sh, index));
            assert(with_index(sl + sh, index) == with_index(band_models(r@), index));
        }
    }
    r
}

/// List all bands in a sparsebundle in logical (numerical) order, from the names of the files
/// in its bands directory.
///
/// Band files are named in unpadded lowercase hex. Sorting filenames as
/// strings would put `10` before `a`, scrambling the address space. This
/// function parses the hex index and sorts numerically.
pub fn bands(names: &Vec<String>) -> (r: Vec<Band>)
    ensures
        in_order(band_models(r@)),
        same_bands(bands_named(text::texts(names@)), band_models(r@)),
        r@.len() == bands_named(text::texts(names@)).len(),
        forall|i: int, j: int|
            0 <= i <= j < r@.len() ==> (#[trigger] r@[i]).index <= (#[trigger] r@[j]).index,
{
    let ghost all = text::texts(names@);
    let mut listed: Vec<Band> = Vec::new();
    let mut i: usize = 0;
    assert(band_models(listed@) == bands_named(all.take(0)));
    while i < names.len()
        invariant
            i <= names@.len(),
            all == text::texts(names@),
            band_models(listed@) == bands_named(all.take(i as int)),
        decreases names@.len() - i,
    {
        assert(all.take(i + 1).drop_last() == all.take(i as int));
        assert(all.take(i + 1).last() == names@[i as int]@);
        if let Some(index) = band_index(names[i].as_str()) {
            let ghost before = band_models(listed@);
            let band: Band = Band { index, name: names[i].clone() };
            listed.push(band);
            assert(band_models(listed@) == before.push(band@));
        }
        i = i + 1;
    }
    assert(all.take(i as int) == all);
    let r: Vec<Band> = sort(listed);
    assert forall|i: int, j: int| 0 <= i <= j < r@.len() implies (#[trigger] r@[i]).index <= (
    #[trigger] r@[j]).index by {
        assert(band_models(r@)[i].index <= band_models(r@)[j].index);
    }
    r
}

/// The band whose head continues band `b`: the next one, where it is adjacent.
///
/// Only when the next band's index is exactly one greater. A sparse
/// gap between bands means the intervening region is zeros -- splicing
/// non-adjacent bands would join data that is megabytes apart.
pub fn adjacent_head<'a>(b: &Band, next: Option<&'a Band>) -> (r: Option<&'a Band>)
    ensures
        r == (match next {
            Some(n) => if n.index == b.index + 1 {
                Some(n)
            } else {
                None
            },
            None => None,
        }),
{
    match next {
        None => None,
        Some(n) => if b.index < u64::MAX && n.index == b.index + 1 {
            Some(n)
        } else {
            None
        },
    }
}

/// The head of a band as far as it is spliced: its first [`OVERLAP`] bytes, or all of them.
pub open spec fn head(content: Seq<u8>) -> Seq<u8> {
    if content.len() <= OVERLAP {
        content
    } else {
        content.take(OVERLAP as int)
    }
}

/// Cuts what was read from the start of a band to the head that is spliced.
pub fn cut_head(content: Vec<u8>) -> (r: Vec<u8>)
    ensures
        r@ == head(content@),
        content@.len() <= OVERLAP ==> r@ == content@,
        content@.len() > OVERLAP ==> r@ == content@.take(OVERLAP as int),
{
    let mut r: Vec<u8> = content;
    r.truncate(OVERLAP);
    r
}

} // verus!
