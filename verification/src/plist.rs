//! The few values that are taken out of an XML property list.
use crate::text;
use vstd::prelude::*;

verus! {

/// The `key` element of a property list.
pub open spec fn key_tag(key: Seq<char>) -> Seq<char> {
    "<key>"@ + key + "</key>"@
}

/// The bounds of what stands between `open` and `close`, both taken at their first occurrence
/// after the first occurrence of the `key` element.
pub open spec fn value_bounds(
    xml: Seq<char>,
    key: Seq<char>,
    open: Seq<char>,
    close: Seq<char>,
) -> Option<(int, int)> {
    match text::find_from(xml, key_tag(key), 0) {
        None => None,
        Some(k) => match text::find_from(xml, open, k + key_tag(key).len()) {
            None => None,
            Some(o) => match text::find_from(xml, close, o + open.len()) {
                None => None,
                Some(c) => Some((o + open.len(), c)),
            },
        },
    }
}

/// What stands between `open` and `close` after the `key` element, without white space at
/// either end.
pub open spec fn value_text(
    xml: Seq<char>,
    key: Seq<char>,
    open: Seq<char>,
    close: Seq<char>,
) -> Option<Seq<char>> {
    match value_bounds(xml, key, open, close) {
        None => None,
        Some(b) => Some(text::trim(xml.subrange(b.0, b.1))),
    }
}

/// The integer value of `key`: decimal, and within 64 bits.
pub open spec fn integer_value(xml: Seq<char>, key: Seq<char>) -> Option<u64> {
    match value_text(xml, key, "<integer>"@, "</integer>"@) {
        None => None,
        Some(t) => text::parse_u64(t, 10),
    }
}

/// The string value of `key`.
pub open spec fn string_value(xml: Seq<char>, key: Seq<char>) -> Option<Seq<char>> {
    value_text(xml, key, "<string>"@, "</string>"@)
}

/// The bounds of the trimmed text between `open` and `close` after the `key` element.
fn find_value(xml: &Vec<char>, key: &str, open: &str, close: &str) -> (r: Option<(usize, usize)>)
    ensures
        match r {
            Some(b) => {
                &&& b.0 <= b.1 <= xml@.len()
                &&& value_text(xml@, key@, open@, close@) == Some(
                    xml@.subrange(b.0 as int, b.1 as int),
                )
            },
            None => value_text(xml@, key@, open@, close@) is None,
        },
{
    let mut tag: String = "<key>".to_string();
    tag.append(key);
    tag.append("</key>");
    let tag_chars: Vec<char> = text::chars_of(tag.as_str());
    let open_chars: Vec<char> = text::chars_of(open);
    let close_chars: Vec<char> = text::chars_of(close);
    assert(xml@.len() == xml.len());
    proof {
        text::find_from_is_leftmost(xml@, tag_chars@, 0);
    }
    match text::find(xml, &tag_chars, 0) {
        None => None,
        Some(k) => {
            let after_key: usize = k + tag_chars.len();
            proof {
                text::find_from_is_leftmost(xml@, open_chars@, after_key as int);
            }
            match text::find(xml, &open_chars, after_key) {
                None => None,
                Some(o) => {
                    let from: usize = o + open_chars.len();
                    proof {
                        text::find_from_is_leftmost(xml@, close_chars@, from as int);
                    }
                    match text::find(xml, &close_chars, from) {
                        None => None,
                        Some(c) => Some(text::trim_bounds(xml, from, c)),
                    }
                },
            }
        },
    }
}

/// Pull an integer value out of an XML plist by key.
pub fn plist_int(xml: &str, key: &str) -> (r: Option<u64>)
    ensures
        r == integer_value(xml@, key@),
{
    let chars: Vec<char> = text::chars_of(xml);
    match find_value(&chars, key, "<integer>", "</integer>") {
        None => None,
        Some(b) => text::to_u64(&chars, b.0, b.1, 10),
    }
}

/// Pull a string value out of an XML plist by key.
pub fn plist_str(xml: &str, key: &str) -> (r: Option<String>)
    ensures
        match r {
            Some(s) => string_value(xml@, key@) == Some(s@),
            None => string_value(xml@, key@) is None,
        },
{
    let chars: Vec<char> = text::chars_of(xml);
    match find_value(&chars, key, "<string>", "</string>") {
        None => None,
        Some(b) => Some(text::string_of(&chars, b.0, b.1)),
    }
}

// ---------------------------------------------------------------------------
// A value replaced
// ---------------------------------------------------------------------------

/// `xml` with `t` in place of what stands in `from..to`.
pub open spec fn replaced(xml: Seq<char>, from: int, to: int, t: Seq<char>) -> Seq<char> {
    xml.take(from) + t + xml.skip(to)
}

/// No tag begins or ends in `t`.
pub open spec fn is_plain(t: Seq<char>) -> bool {
    forall|i: int| 0 <= i < t.len() ==> #[trigger] t[i] != '<' && t[i] != '>'
}

/// `needle` begins like a tag, and where a tag ends inside it that is not the tag of an integer.
spec fn is_markup(needle: Seq<char>) -> bool {
    &&& needle.len() > 0
    &&& needle[0] == '<'
    &&& forall|p: int|
        0 <= p < needle.len() - 1 && #[trigger] needle[p] == '>' ==> p > 0 && needle[p - 1] != 'r'
}

/// Plain text stands in `from..to`, right behind the tag of an integer.
spec fn is_integer_text(xml: Seq<char>, from: int, to: int) -> bool {
    &&& 2 <= from <= to <= xml.len()
    &&& xml[from - 2] == 'r'
    &&& xml[from - 1] == '>'
    &&& is_plain(xml.subrange(from, to))
}

/// Markup does not reach into the text of an integer.
proof fn markup_stays_apart(xml: Seq<char>, from: int, to: int, needle: Seq<char>, i: int)
    requires
        is_integer_text(xml, from, to),
        is_markup(needle),
        text::occurs_at(xml, needle, i),
    ensures
        i + needle.len() <= from || to <= i,
{
    let here = xml.subrange(i, i + needle.len());
    assert(here[0] == xml[i]);
    if from <= i < to {
        assert(xml.subrange(from, to)[i - from] == xml[i]);
    } else if i < from < i + needle.len() {
        let p = from - 1 - i;
        assert(here[p] == xml[from - 1]);
        assert(needle[p] == '>');
        assert(here[p - 1] == xml[from - 2]);
    }
}

/// What stands before or behind the replaced text stands there still.
proof fn markup_stays(
    xml: Seq<char>,
    from: int,
    to: int,
    t: Seq<char>,
    needle: Seq<char>,
    i: int,
)
    requires
        0 <= from <= to <= xml.len(),
    ensures
        i + needle.len() <= from ==> text::occurs_at(xml, needle, i) == text::occurs_at(
            replaced(xml, from, to, t),
            needle,
            i,
        ),
        to <= i ==> text::occurs_at(xml, needle, i) == text::occurs_at(
            replaced(xml, from, to, t),
            needle,
            i + t.len() - (to - from),
        ),
{
    let other = replaced(xml, from, to, t);
    let shifted = i + t.len() - (to - from);
    if 0 <= i && i + needle.len() <= from {
        assert(xml.subrange(i, i + needle.len()) == other.subrange(i, i + needle.len()));
    }
    if to <= i && i + needle.len() <= xml.len() {
        assert(xml.subrange(i, i + needle.len()) == other.subrange(
            shifted,
            shifted + needle.len(),
        ));
    }
}

/// Positions that stand for each other: before the replaced text, or behind it.
spec fn matching(from: int, to: int, by: int, i: int, j: int) -> bool {
    (i == j && i <= from) || (to <= i && j == i + by)
}

/// Markup is found at positions that stand for each other, or in neither text.
proof fn finds_match(
    xml: Seq<char>,
    from: int,
    to: int,
    t: Seq<char>,
    needle: Seq<char>,
    i: int,
    j: int,
)
    requires
        is_integer_text(xml, from, to),
        is_plain(t),
        is_markup(needle),
        0 <= i,
        matching(from, to, t.len() - (to - from), i, j),
    ensures
        match (
            text::find_from(xml, needle, i),
            text::find_from(replaced(xml, from, to, t), needle, j),
        ) {
            (Some(a), Some(c)) => {
                ||| a == c && a + needle.len() <= from
                ||| to <= a && c == a + t.len() - (to - from)
            },
            (None, None) => true,
            _ => false,
        },
{
    let other = replaced(xml, from, to, t);
    let by = t.len() - (to - from);
    assert(other.subrange(from, to + by) == t);
    assert(is_integer_text(other, from, to + by));
    text::find_from_is_leftmost(xml, needle, i);
    text::find_from_is_leftmost(other, needle, j);
    match text::find_from(xml, needle, i) {
        Some(a) => {
            markup_stays_apart(xml, from, to, needle, a);
            markup_stays(xml, from, to, t, needle, a);
        },
        None => {},
    }
    match text::find_from(other, needle, j) {
        Some(c) => {
            markup_stays_apart(other, from, to + by, needle, c);
            markup_stays(xml, from, to, t, needle, c);
            markup_stays(xml, from, to, t, needle, c - by);
        },
        None => {},
    }
}

/// The bounds of a value before and after the replacement: both before it, both behind it, or
/// both around it.
proof fn bounds_match(
    xml: Seq<char>,
    from: int,
    to: int,
    t: Seq<char>,
    key: Seq<char>,
    open: Seq<char>,
    close: Seq<char>,
)
    requires
        is_integer_text(xml, from, to),
        is_plain(t),
        is_markup(key_tag(key)),
        is_markup(open),
        is_markup(close),
    ensures
        match (
            value_bounds(xml, key, open, close),
            value_bounds(replaced(xml, from, to, t), key, open, close),
        ) {
            (Some(x), Some(y)) => {
                ||| x == y && 0 <= x.0 <= x.1 < from
                ||| to < x.0 <= x.1 <= xml.len() && y.0 == x.0 + t.len() - (to - from) && y.1 == x.1
                    + t.len() - (to - from)
                ||| 0 <= x.0 == y.0 <= from && to <= x.1 <= xml.len() && y.1 == x.1 + t.len() - (to
                    - from)
            },
            (None, None) => true,
            _ => false,
        },
{
    let other = replaced(xml, from, to, t);
    let tag = key_tag(key);
    finds_match(xml, from, to, t, tag, 0, 0);
    text::find_from_is_leftmost(xml, tag, 0);
    match (text::find_from(xml, tag, 0), text::find_from(other, tag, 0)) {
        (Some(k), Some(l)) => {
            let i = k + tag.len();
            let j = l + tag.len();
            finds_match(xml, from, to, t, open, i, j);
            text::find_from_is_leftmost(xml, open, i);
            match (text::find_from(xml, open, i), text::find_from(other, open, j)) {
                (Some(o), Some(p)) => {
                    finds_match(xml, from, to, t, close, o + open.len(), p + open.len());
                    text::find_from_is_leftmost(xml, close, o + open.len());
                },
                _ => {},
            }
        },
        _ => {},
    }
}

/// A key without angle brackets makes a `key` element that is markup.
proof fn key_tag_is_markup(key: Seq<char>)
    requires
        forall|i: int| 0 <= i < key.len() ==> #[trigger] key[i] != '>',
    ensures
        is_markup(key_tag(key)),
{
    reveal_strlit("<key>");
    reveal_strlit("</key>");
    let tag = key_tag(key);
    assert forall|p: int| 0 <= p < tag.len() - 1 && #[trigger] tag[p] == '>' implies p > 0 && tag[p
        - 1] != 'r' by {
        if 5 <= p < 5 + key.len() {
            assert(tag[p] == key[p - 5]);
        }
    }
}

/// Every character of `s` is white space or is there after trimming.
proof fn trim_keeps(s: Seq<char>, c: char)
    requires
        s.contains(c),
        !text::white_space(c),
    ensures
        text::trim(s).contains(c),
{
    trim_start_keeps(s, c);
    trim_end_keeps(text::trim_start(s), c);
}

/// Trimming at the start takes white space alone.
proof fn trim_start_keeps(s: Seq<char>, c: char)
    requires
        s.contains(c),
        !text::white_space(c),
    ensures
        text::trim_start(s).contains(c),
    decreases s.len(),
{
    if text::white_space(s[0]) {
        let i = s.index_of(c);
        assert(s.drop_first()[i - 1] == c);
        trim_start_keeps(s.drop_first(), c);
    }
}

/// Trimming at the end takes white space alone.
proof fn trim_end_keeps(s: Seq<char>, c: char)
    requires
        s.contains(c),
        !text::white_space(c),
    ensures
        text::trim_end(s).contains(c),
    decreases s.len(),
{
    if text::white_space(s.last()) {
        let i = s.index_of(c);
        assert(s.drop_last()[i] == c);
        trim_end_keeps(s.drop_last(), c);
    }
}

/// A text that writes an integer, white space around it allowed, is plain.
pub proof fn integer_is_plain(t: Seq<char>)
    requires
        text::parse_u64(text::trim(t), 10) is Some,
    ensures
        is_plain(t),
{
    let s = text::trim(t);
    let d = text::unsigned_part(s);
    assert forall|i: int| 0 <= i < t.len() implies #[trigger] t[i] != '<' && t[i] != '>' by {
        if t[i] == '<' || t[i] == '>' {
            trim_keeps(t, t[i]);
            let j = s.index_of(t[i]);
            if d == s {
                assert(text::digit_value(d[j], 10) is Some);
            } else {
                assert(d[j - 1] == s[j]);
                assert(text::digit_value(d[j - 1], 10) is Some);
            }
        }
    }
}

/// The bounds of what stands as the integer under `size`.
pub open spec fn size_bounds(xml: Seq<char>) -> Option<(int, int)> {
    value_bounds(xml, "size"@, "<integer>"@, "</integer>"@)
}

/// There is an element for an integer under `size`, and plain text stands in it.
pub open spec fn has_plain_size(xml: Seq<char>) -> bool {
    size_bounds(xml) matches Some(s) && is_plain(xml.subrange(s.0, s.1))
}

/// `xml` with `t` as the integer under `size`.
pub open spec fn with_size(xml: Seq<char>, t: Seq<char>) -> Seq<char> {
    let s = size_bounds(xml)->0;
    replaced(xml, s.0, s.1, t)
}

/// The value of `key`, if there is one, does not take in the integer under `size`.
pub open spec fn apart_from_size(
    xml: Seq<char>,
    key: Seq<char>,
    open: Seq<char>,
    close: Seq<char>,
) -> bool {
    match (value_bounds(xml, key, open, close), size_bounds(xml)) {
        (Some(v), Some(s)) => v.1 < s.0 || s.1 < v.0,
        _ => true,
    }
}

/// What stands under `size` is the text of an integer element, some way into the list.
proof fn size_is_integer_text(xml: Seq<char>)
    requires
        has_plain_size(xml),
    ensures
        size_bounds(xml) matches Some(s) && is_integer_text(xml, s.0, s.1) && 8 <= s.0 <= s.1
            < xml.len() && xml[s.1] == '<',
{
    reveal_strlit("<integer>");
    reveal_strlit("<key>");
    reveal_strlit("</key>");
    let tag = key_tag("size"@);
    let open = "<integer>"@;
    let s = size_bounds(xml)->0;
    text::find_from_is_leftmost(xml, tag, 0);
    let k = text::find_from(xml, tag, 0)->0;
    text::find_from_is_leftmost(xml, open, k + tag.len());
    let o = text::find_from(xml, open, k + tag.len())->0;
    text::find_from_is_leftmost(xml, "</integer>"@, o + open.len());
    let here = xml.subrange(o, o + open.len());
    assert(here[7] == xml[s.0 - 2] && here[8] == xml[s.0 - 1]);
    reveal_strlit("</integer>");
    assert(xml.subrange(s.1, s.1 + "</integer>"@.len())[0] == xml[s.1]);
}

/// The integer of a key stays when other text stands under `size`, unless both are the same
/// element.
proof fn other_integer_stays(xml: Seq<char>, t: Seq<char>, key: Seq<char>)
    requires
        has_plain_size(xml),
        is_plain(t),
        is_markup(key_tag(key)),
        is_markup("<integer>"@),
        is_markup("</integer>"@),
        value_bounds(xml, key, "<integer>"@, "</integer>"@) != size_bounds(xml),
    ensures
        integer_value(with_size(xml, t), key) == integer_value(xml, key),
{
    size_is_integer_text(xml);
    let s = size_bounds(xml)->0;
    let other = with_size(xml, t);
    bounds_match(xml, s.0, s.1, t, key, "<integer>"@, "</integer>"@);
    match (
        value_bounds(xml, key, "<integer>"@, "</integer>"@),
        value_bounds(other, key, "<integer>"@, "</integer>"@),
    ) {
        (Some(x), Some(y)) => {
            let v = xml.subrange(x.0, x.1);
            let w = other.subrange(y.0, y.1);
            if x.1 < s.0 || s.1 < x.0 {
                assert(v == w);
            } else {
                if x.0 < s.0 {
                    assert(v[s.0 - 1 - x.0] == '>');
                    assert(w[s.0 - 1 - x.0] == '>');
                } else {
                    assert(v[s.1 - x.0] == '<');
                    assert(w[s.0 + t.len() - x.0] == '<');
                }
                if integer_value(xml, key) is Some {
                    integer_is_plain(v);
                }
                if integer_value(other, key) is Some {
                    integer_is_plain(w);
                }
            }
        },
        _ => {},
    }
}

/// The value of a key that does not take in what stands under `size` stays when other text stands
/// there.
proof fn other_value_stays(
    xml: Seq<char>,
    t: Seq<char>,
    key: Seq<char>,
    open: Seq<char>,
    close: Seq<char>,
)
    requires
        has_plain_size(xml),
        is_plain(t),
        is_markup(key_tag(key)),
        is_markup(open),
        is_markup(close),
        apart_from_size(xml, key, open, close),
    ensures
        value_text(with_size(xml, t), key, open, close) == value_text(xml, key, open, close),
{
    size_is_integer_text(xml);
    let s = size_bounds(xml)->0;
    bounds_match(xml, s.0, s.1, t, key, open, close);
    let other = with_size(xml, t);
    match (value_bounds(xml, key, open, close), value_bounds(other, key, open, close)) {
        (Some(x), Some(y)) => {
            assert(xml.subrange(x.0, x.1) == other.subrange(y.0, y.1));
        },
        _ => {},
    }
}

/// The integer under `size` is no other key's, and the bundle type does not take it in.
pub open spec fn size_stands_alone(xml: Seq<char>) -> bool {
    &&& value_bounds(xml, "band-size"@, "<integer>"@, "</integer>"@) != size_bounds(xml)
    &&& value_bounds(xml, "bundle-backingstore-version"@, "<integer>"@, "</integer>"@)
        != size_bounds(xml)
    &&& apart_from_size(xml, "diskimage-bundle-type"@, "<string>"@, "</string>"@)
}

/// Other text under `size` is read as the integer it writes, or as none, and no other value
/// changes with it.
pub proof fn size_is_read_alone(xml: Seq<char>, t: Seq<char>)
    requires
        has_plain_size(xml),
        is_plain(t),
        size_stands_alone(xml),
    ensures
        integer_value(with_size(xml, t), "size"@) == text::parse_u64(text::trim(t), 10),
        integer_value(with_size(xml, t), "band-size"@) == integer_value(xml, "band-size"@),
        integer_value(with_size(xml, t), "bundle-backingstore-version"@) == integer_value(
            xml,
            "bundle-backingstore-version"@,
        ),
        string_value(with_size(xml, t), "diskimage-bundle-type"@) == string_value(
            xml,
            "diskimage-bundle-type"@,
        ),
        forall|prefix: Seq<char>|
            prefix.len() <= 8 ==> #[trigger] text::occurs_at(with_size(xml, t), prefix, 0)
                == text::occurs_at(xml, prefix, 0),
{
    reveal_strlit("size");
    reveal_strlit("band-size");
    reveal_strlit("bundle-backingstore-version");
    reveal_strlit("diskimage-bundle-type");
    reveal_strlit("<integer>");
    reveal_strlit("</integer>");
    reveal_strlit("<string>");
    reveal_strlit("</string>");
    key_tag_is_markup("size"@);
    key_tag_is_markup("band-size"@);
    key_tag_is_markup("bundle-backingstore-version"@);
    key_tag_is_markup("diskimage-bundle-type"@);
    assert(is_markup("<integer>"@));
    assert(is_markup("</integer>"@));
    assert(is_markup("<string>"@));
    assert(is_markup("</string>"@));
    other_integer_stays(xml, t, "band-size"@);
    other_integer_stays(xml, t, "bundle-backingstore-version"@);
    other_value_stays(xml, t, "diskimage-bundle-type"@, "<string>"@, "</string>"@);
    size_is_integer_text(xml);
    let s = size_bounds(xml)->0;
    let other = with_size(xml, t);
    bounds_match(xml, s.0, s.1, t, "size"@, "<integer>"@, "</integer>"@);
    assert(other.subrange(s.0, s.0 + t.len()) == t);
    assert forall|prefix: Seq<char>| prefix.len() <= 8 implies #[trigger] text::occurs_at(
        other,
        prefix,
        0,
    ) == text::occurs_at(xml, prefix, 0) by {
        markup_stays(xml, s.0, s.1, t, prefix, 0);
    }
}

} // verus!
