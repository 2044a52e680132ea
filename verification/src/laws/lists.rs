//! What the values in a property list are, by where they stand.
use crate::laws::words;
use crate::plist;
use crate::text;
use vstd::prelude::*;

verus! {

/// `needle` stands in `hay` at `at`, and at no place from `from` on before that.
pub open spec fn first_at(hay: Seq<char>, needle: Seq<char>, from: int, at: int) -> bool {
    &&& 0 <= from <= at
    &&& at + needle.len() <= hay.len()
    &&& hay.subrange(at, at + needle.len()) == needle
    &&& forall|i: int| from <= i < at ==> #[trigger] hay.subrange(i, i + needle.len()) != needle
}

/// `needle` stands in `hay` nowhere from `from` on.
pub open spec fn nowhere(hay: Seq<char>, needle: Seq<char>, from: int) -> bool {
    forall|i: int|
        from <= i && i + needle.len() <= hay.len() ==> #[trigger] hay.subrange(
            i,
            i + needle.len(),
        ) != needle
}

/// The element `<key>`, the key and `</key>`.
pub open spec fn element(key: Seq<char>) -> Seq<char> {
    seq!['<', 'k', 'e', 'y', '>'] + key + seq!['<', '/', 'k', 'e', 'y', '>']
}

/// The `key` element is written out.
proof fn element_is_key_tag(key: Seq<char>)
    ensures
        element(key) == plist::key_tag(key),
        element(key).len() == key.len() + 11,
{
    reveal_strlit("<key>");
    reveal_strlit("</key>");
    assert(element(key) == plist::key_tag(key));
}

/// Where the first element of the key stands at `k`, the first opening tag behind it at `o` and
/// the first closing tag behind that at `c`, the value is what stands between the two tags.
proof fn value_stands_between(
    xml: Seq<char>,
    key: Seq<char>,
    open: Seq<char>,
    close: Seq<char>,
    k: int,
    o: int,
    c: int,
)
    requires
        first_at(xml, element(key), 0, k),
        first_at(xml, open, k + element(key).len(), o),
        first_at(xml, close, o + open.len(), c),
    ensures
        plist::value_text(xml, key, open, close) == Some(
            text::trim(xml.subrange(o + open.len(), c)),
        ),
{
    element_is_key_tag(key);
    words::first_occurrence_is_found(xml, element(key), 0, k);
    words::first_occurrence_is_found(xml, open, k + element(key).len(), o);
    words::first_occurrence_is_found(xml, close, o + open.len(), c);
}

/// The integer of a key is the number between the first `<integer>` behind the first element of
/// that key and the first `</integer>` behind that, white space around it left out.
pub proof fn integer_stands_behind_its_key(xml: Seq<char>, key: Seq<char>, k: int, o: int, c: int)
    requires
        first_at(xml, element(key), 0, k),
        first_at(xml, "<integer>"@, k + key.len() + 11, o),
        first_at(xml, "</integer>"@, o + 9, c),
    ensures
        plist::integer_value(xml, key) == text::parse_u64(
            text::trim(xml.subrange(o + 9, c)),
            10,
        ),
{
    reveal_strlit("<integer>");
    element_is_key_tag(key);
    value_stands_between(xml, key, "<integer>"@, "</integer>"@, k, o, c);
}

/// The string of a key is the text between the first `<string>` behind the first element of that
/// key and the first `</string>` behind that, white space around it left out.
pub proof fn string_stands_behind_its_key(xml: Seq<char>, key: Seq<char>, k: int, o: int, c: int)
    requires
        first_at(xml, element(key), 0, k),
        first_at(xml, "<string>"@, k + key.len() + 11, o),
        first_at(xml, "</string>"@, o + 8, c),
    ensures
        plist::string_value(xml, key) == Some(text::trim(xml.subrange(o + 8, c))),
{
    reveal_strlit("<string>");
    element_is_key_tag(key);
    value_stands_between(xml, key, "<string>"@, "</string>"@, k, o, c);
}

/// A key that the list does not hold has no value.
pub proof fn absent_key_has_no_value(xml: Seq<char>, key: Seq<char>)
    requires
        nowhere(xml, element(key), 0),
    ensures
        plist::integer_value(xml, key) is None,
        plist::string_value(xml, key) is None,
{
    element_is_key_tag(key);
    words::absent_needle_is_not_found(xml, element(key), 0);
}

/// A key has no value where no opening tag follows it, or no closing tag that.
pub proof fn unfinished_element_has_no_value(xml: Seq<char>, key: Seq<char>, k: int, o: int)
    requires
        first_at(xml, element(key), 0, k),
    ensures
        nowhere(xml, "<integer>"@, k + key.len() + 11) ==> plist::integer_value(xml, key) is None,
        nowhere(xml, "<string>"@, k + key.len() + 11) ==> plist::string_value(xml, key) is None,
        first_at(xml, "<integer>"@, k + key.len() + 11, o) && nowhere(xml, "</integer>"@, o + 9)
            ==> plist::integer_value(xml, key) is None,
        first_at(xml, "<string>"@, k + key.len() + 11, o) && nowhere(xml, "</string>"@, o + 8)
            ==> plist::string_value(xml, key) is None,
{
    reveal_strlit("<integer>");
    reveal_strlit("<string>");
    element_is_key_tag(key);
    words::first_occurrence_is_found(xml, element(key), 0, k);
    let from = k + key.len() + 11;
    if nowhere(xml, "<integer>"@, from) {
        words::absent_needle_is_not_found(xml, "<integer>"@, from);
    }
    if nowhere(xml, "<string>"@, from) {
        words::absent_needle_is_not_found(xml, "<string>"@, from);
    }
    if first_at(xml, "<integer>"@, from, o) && nowhere(xml, "</integer>"@, o + 9) {
        words::first_occurrence_is_found(xml, "<integer>"@, from, o);
        words::absent_needle_is_not_found(xml, "</integer>"@, o + 9);
    }
    if first_at(xml, "<string>"@, from, o) && nowhere(xml, "</string>"@, o + 8) {
        words::first_occurrence_is_found(xml, "<string>"@, from, o);
        words::absent_needle_is_not_found(xml, "</string>"@, o + 8);
    }
}

} // verus!
