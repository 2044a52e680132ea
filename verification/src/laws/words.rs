//! What searching, trimming and reading numbers mean, character by character.
use crate::text;
use vstd::prelude::*;

verus! {

/// A needle stands where each of its characters stands, and nowhere else.
pub proof fn occurrence_is_char_by_char(hay: Seq<char>, needle: Seq<char>, at: int)
    ensures
        text::occurs_at(hay, needle, at) <==> 0 <= at && at + needle.len() <= hay.len() && (forall|
            j: int,
        |
            0 <= j < needle.len() ==> hay[at + j] == #[trigger] needle[j]),
{
    let here = hay.subrange(at, at + needle.len());
    if text::occurs_at(hay, needle, at) {
        assert forall|j: int| 0 <= j < needle.len() implies hay[at + j] == #[trigger] needle[j] by {
            assert(here[j] == needle[j]);
        }
    } else if 0 <= at && at + needle.len() <= hay.len() && (forall|j: int|
        0 <= j < needle.len() ==> hay[at + j] == #[trigger] needle[j]) {
        assert(here == needle);
    }
}

/// A search from `from` gives `at` where the needle stands at `at` and at no place between.
pub proof fn first_occurrence_is_found(hay: Seq<char>, needle: Seq<char>, from: int, at: int)
    requires
        0 <= from <= at,
        at + needle.len() <= hay.len(),
        hay.subrange(at, at + needle.len()) == needle,
        forall|i: int|
            from <= i < at ==> #[trigger] hay.subrange(i, i + needle.len()) != needle,
    ensures
        text::find_from(hay, needle, from) == Some(at),
{
    text::find_from_is_leftmost(hay, needle, from);
    occurrence_is_char_by_char(hay, needle, at);
    assert(text::occurs_at(hay, needle, at)) by {
        let here = hay.subrange(at, at + needle.len());
        assert forall|j: int| 0 <= j < needle.len() implies hay[at + j] == #[trigger] needle[j] by {
            assert(here[j] == needle[j]);
        }
    }
    let found = text::find_from(hay, needle, from)->0;
    if found < at {
        occurrence_is_char_by_char(hay, needle, found);
        assert(hay.subrange(found, found + needle.len()) == needle);
    }
}

/// A search gives nothing where the needle stands nowhere from there on.
pub proof fn absent_needle_is_not_found(hay: Seq<char>, needle: Seq<char>, from: int)
    requires
        0 <= from,
        forall|i: int|
            from <= i && i + needle.len() <= hay.len() ==> #[trigger] hay.subrange(
                i,
                i + needle.len(),
            ) != needle,
    ensures
        text::find_from(hay, needle, from) is None,
{
    text::find_from_is_leftmost(hay, needle, from);
    if text::find_from(hay, needle, from) is Some {
        let found = text::find_from(hay, needle, from)->0;
        occurrence_is_char_by_char(hay, needle, found);
        assert(hay.subrange(found, found + needle.len()) == needle);
    }
}

/// A text contains whatever it can be cut around.
pub proof fn containing_is_being_cut_around(hay: Seq<char>, needle: Seq<char>)
    ensures
        text::contains(hay, needle) <==> exists|before: Seq<char>, after: Seq<char>|
            hay == #[trigger] (before + needle + after),
{
    text::find_from_is_leftmost(hay, needle, 0);
    if text::contains(hay, needle) {
        let at = text::find_from(hay, needle, 0)->0;
        occurrence_is_char_by_char(hay, needle, at);
        assert(hay == hay.take(at) + needle + hay.skip(at + needle.len()));
    }
    if exists|before: Seq<char>, after: Seq<char>| hay == #[trigger] (before + needle + after) {
        let (before, after) = choose|before: Seq<char>, after: Seq<char>|
            hay == #[trigger] (before + needle + after);
        occurrence_is_char_by_char(hay, needle, before.len() as int);
        assert(text::occurs_at(hay, needle, before.len() as int));
    }
}

/// White space are the characters with these code points.
pub proof fn white_space_by_code_point(c: char)
    ensures
        text::white_space(c) <==> ({
            let u = c as int;
            ||| 9 <= u <= 13
            ||| u == 32
            ||| u == 133
            ||| u == 160
            ||| u == 5760
            ||| 8192 <= u <= 8202
            ||| u == 8232
            ||| u == 8233
            ||| u == 8239
            ||| u == 8287
            ||| u == 12288
        }),
{
}

/// Trimming takes the white space around a text, all of it, and nothing else.
pub proof fn trimming_takes_what_surrounds(before: Seq<char>, s: Seq<char>, after: Seq<char>)
    requires
        forall|i: int| 0 <= i < before.len() ==> text::white_space(#[trigger] before[i]),
        forall|i: int| 0 <= i < after.len() ==> text::white_space(#[trigger] after[i]),
        s.len() > 0 ==> !text::white_space(s[0]) && !text::white_space(s.last()),
    ensures
        text::trim(before + s + after) == s,
    decreases before.len() + after.len(),
{
    let whole = before + s + after;
    if before.len() > 0 {
        assert(whole[0] == before[0]);
        assert(whole.drop_first() == before.drop_first() + s + after);
        assert forall|i: int| 0 <= i < before.drop_first().len() implies text::white_space(
            #[trigger] before.drop_first()[i],
        ) by {
            assert(before.drop_first()[i] == before[i + 1]);
        }
        trimming_takes_what_surrounds(before.drop_first(), s, after);
    } else if s.len() == 0 {
        assert(whole == after);
        if after.len() > 0 {
            assert(whole.drop_first() == before + s + after.drop_first());
            assert forall|i: int| 0 <= i < after.drop_first().len() implies text::white_space(
                #[trigger] after.drop_first()[i],
            ) by {
                assert(after.drop_first()[i] == after[i + 1]);
            }
            trimming_takes_what_surrounds(before, s, after.drop_first());
        } else {
            assert(whole == s);
        }
    } else {
        assert(whole[0] == s[0]);
        if after.len() > 0 {
            assert(whole.last() == after.last());
            assert(whole.drop_last() == before + s + after.drop_last());
            assert((before + s + after.drop_last())[0] == s[0]);
            trimming_takes_what_surrounds(before, s, after.drop_last());
        } else {
            assert(whole == s);
        }
    }
}

/// Trimming NUL padding takes all of it, and nothing else.
pub proof fn padding_is_taken_off(s: Seq<char>, n: nat)
    requires
        s.len() > 0 ==> s.last() != '\0',
    ensures
        text::trim_end_nul(s + Seq::new(n, |i: int| '\0')) == s,
    decreases n,
{
    let padded = s + Seq::new(n, |i: int| '\0');
    if n == 0 {
        assert(padded == s);
    } else {
        assert(padded.last() == '\0');
        assert(padded.drop_last() == s + Seq::new((n - 1) as nat, |i: int| '\0'));
        padding_is_taken_off(s, (n - 1) as nat);
    }
}

/// The value that a character has as a digit, in either case; none below 36 if it is no digit.
pub open spec fn place_value(c: char) -> int {
    if '0' <= c <= '9' {
        c as int - '0' as int
    } else if 'a' <= c <= 'z' {
        c as int - 'a' as int + 10
    } else if 'A' <= c <= 'Z' {
        c as int - 'A' as int + 10
    } else {
        36
    }
}

/// One character is a number where it is a digit.
pub proof fn number_of_one_digit(c: char, radix: nat)
    requires
        2 <= radix <= 36,
    ensures
        text::parse_u64(seq![c], radix) == (if place_value(c) < radix {
            Some(place_value(c) as u64)
        } else {
            None
        }),
        text::parse_u64(Seq::empty(), radix) is None,
{
    let s = seq![c];
    if c == '+' {
        assert(s.drop_first() == Seq::<char>::empty());
    } else {
        assert(text::unsigned_part(s) == s);
        assert(s.drop_last() == Seq::<char>::empty());
        assert(s.last() == c && s[0] == c);
        assert(text::number(s.drop_last(), radix) == 0);
        assert(0 * radix == 0) by (nonlinear_arith);
        if place_value(c) < radix {
            assert(text::all_digits(s, radix));
        } else {
            assert(text::digit_value(s[0], radix) is None);
        }
    }
}

/// One digit more makes a number `radix` times as large, and the digit is added. A number that
/// no longer fits, or a character that is no digit, makes it none.
pub proof fn number_with_one_digit_more(s: Seq<char>, c: char, radix: nat)
    requires
        2 <= radix <= 36,
        s.len() > 0,
        s != seq!['+'],
    ensures
        text::parse_u64(s.push(c), radix) == (match text::parse_u64(s, radix) {
            Some(n) => if place_value(c) < radix && n * radix + place_value(c) <= u64::MAX {
                Some((n * radix + place_value(c)) as u64)
            } else {
                None
            },
            None => None,
        }),
{
    let longer = s.push(c);
    let d = text::unsigned_part(s);
    let e = text::unsigned_part(longer);
    assert(longer[0] == s[0]);
    assert(e == d.push(c));
    if d.len() == 0 {
        assert(s == seq!['+']);
    }
    assert(e.drop_last() == d);
    assert(e.last() == c);
    if text::all_digits(e, radix) {
        assert forall|i: int| 0 <= i < d.len() implies text::digit_value(
            #[trigger] d[i],
            radix,
        ) is Some by {
            assert(e[i] == d[i]);
        }
        assert(text::digit_value(e[e.len() - 1], radix) is Some);
    }
    if text::all_digits(d, radix) && place_value(c) < radix {
        assert forall|i: int| 0 <= i < e.len() implies text::digit_value(
            #[trigger] e[i],
            radix,
        ) is Some by {
            if i < d.len() {
                assert(e[i] == d[i]);
            }
        }
        let n = text::number(d, radix);
        assert(text::number(e, radix) == n * radix + place_value(c));
        assert(n <= n * radix) by (nonlinear_arith)
            requires
                radix >= 2,
                n >= 0,
        ;
    }
}

/// One plus sign before a number changes nothing.
pub proof fn plus_sign_is_ignored(s: Seq<char>, radix: nat)
    requires
        s.len() > 0,
        s[0] != '+',
    ensures
        text::parse_u64(seq!['+'] + s, radix) == text::parse_u64(s, radix),
{
    assert((seq!['+'] + s).drop_first() == s);
}

/// A number below the radix is written with one character, the lowercase one of that value.
pub proof fn one_digit_is_written(d: nat, radix: nat)
    requires
        2 <= radix <= 36,
        d < radix,
    ensures
        text::digits(d, radix).len() == 1,
        place_value(text::digits(d, radix)[0]) == d,
        !('A' <= text::digits(d, radix)[0] <= 'Z'),
        text::decimal(d) == text::digits(d, 10),
{
}

/// A larger number is written as its leading part, and its last digit behind that.
pub proof fn more_digits_are_written(n: nat, d: nat, radix: nat)
    requires
        2 <= radix <= 36,
        0 < n,
        d < radix,
    ensures
        text::digits(n * radix + d, radix) == text::digits(n, radix) + text::digits(d, radix),
        text::decimal(n * radix + d) == text::digits(n * radix + d, 10),
{
    let m = n * radix + d;
    assert(m >= radix) by (nonlinear_arith)
        requires
            m == n * radix + d,
            n >= 1,
            d >= 0,
            radix >= 2,
    ;
    vstd::arithmetic::div_mod::lemma_fundamental_div_mod_converse(
        m as int,
        radix as int,
        n as int,
        d as int,
    );
    assert(text::digits(m, radix) == text::digits(n, radix) + text::digits(d, radix));
}

/// The texts of a vector are the texts of its strings, in their order.
pub proof fn texts_are_in_order(v: Seq<String>, i: int)
    requires
        0 <= i < v.len(),
    ensures
        text::texts(v).len() == v.len(),
        text::texts(v)[i] == v[i]@,
{
}

} // verus!
