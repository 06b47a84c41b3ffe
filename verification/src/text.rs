//! Texts: comparing, copying, trimming and taking apart.

use vstd::prelude::*;
use vstd::string::*;

verus! {

/// Equality of string slices, `str::eq`: two slices are equal when they hold
/// the same characters.
pub assume_specification[ <str as PartialEq>::eq ](a: &str, b: &str) -> (same: bool)
    ensures
        same == (a@ == b@),
;

/// `String::push`: appends one character.
pub assume_specification[ String::push ](text: &mut String, c: char)
    ensures
        final(text)@ == old(text)@.push(c),
;

/// Whether Unicode counts a character as white space (`White_Space`), as
/// `char::is_whitespace` reports it.
pub uninterp spec fn unicode_white_space(c: char) -> bool;

/// `char::is_whitespace`: whether Unicode counts the character as white
/// space. Of the first 128 characters these are the blank and the five from
/// the horizontal tab to the carriage return.
#[verifier::external_body]
fn char_is_whitespace(c: char) -> (white: bool)
    ensures
        white == unicode_white_space(c),
        c <= '\x7f' ==> (white <==> c == ' ' || ('\t' <= c && c <= '\r')),
{
    c.is_whitespace()
}

/// A white-space character: among the first 128 characters the blank and
/// the five from the horizontal tab to the carriage return, beyond them
/// what Unicode counts as white space.
pub open spec fn is_white_space(c: char) -> bool {
    if c <= '\x7f' {
        c == ' ' || ('\t' <= c && c <= '\r')
    } else {
        unicode_white_space(c)
    }
}

/// Whether `c` is a white-space character.
pub fn is_whitespace(c: char) -> (white: bool)
    ensures
        white == is_white_space(c),
{
    char_is_whitespace(c)
}

/// The views of a sequence of values.
pub open spec fn views<T: View>(items: Seq<T>) -> Seq<T::V> {
    Seq::new(items.len(), |i: int| items[i]@)
}

/// The view of a text that may be absent.
pub open spec fn optional_text(text: Option<String>) -> Option<Seq<char>> {
    match text {
        Some(t) => Some(t@),
        None => None,
    }
}

/// The number of white-space characters that `s` begins with.
pub open spec fn leading_white_space(s: Seq<char>) -> nat
    decreases s.len(),
{
    if s.len() > 0 && is_white_space(s[0]) {
        1 + leading_white_space(s.drop_first())
    } else {
        0
    }
}

/// The number of white-space characters that `s` ends with.
pub open spec fn trailing_white_space(s: Seq<char>) -> nat
    decreases s.len(),
{
    if s.len() > 0 && is_white_space(s.last()) {
        1 + trailing_white_space(s.drop_last())
    } else {
        0
    }
}

/// `s` without the white space at its start and at its end.
pub open spec fn trimmed(s: Seq<char>) -> Seq<char> {
    let start = leading_white_space(s) as int;
    if start == s.len() {
        Seq::empty()
    } else {
        s.subrange(start, s.len() - trailing_white_space(s))
    }
}

/// `s` begins with exactly `count` white-space characters when the first
/// `count` are white space and the next one, if any, is not.
pub proof fn leading_white_space_is(s: Seq<char>, count: int)
    requires
        0 <= count <= s.len(),
        forall|i: int| 0 <= i < count ==> is_white_space(#[trigger] s[i]),
        count < s.len() ==> !is_white_space(s[count]),
    ensures
        leading_white_space(s) == count,
    decreases count,
{
    if count > 0 {
        let rest = s.drop_first();
        assert forall|i: int| 0 <= i < count - 1 implies is_white_space(#[trigger] rest[i]) by {
            assert(rest[i] == s[i + 1]);
        }
        if count < s.len() {
            assert(rest[count - 1] == s[count]);
        }
        assert(is_white_space(s[0]));
        leading_white_space_is(rest, count - 1);
    }
}

/// `s` ends with exactly `count` white-space characters when the last `count`
/// are white space and the one before them, if any, is not.
pub proof fn trailing_white_space_is(s: Seq<char>, count: int)
    requires
        0 <= count <= s.len(),
        forall|i: int| s.len() - count <= i < s.len() ==> is_white_space(#[trigger] s[i]),
        count < s.len() ==> !is_white_space(s[s.len() - count - 1]),
    ensures
        trailing_white_space(s) == count,
    decreases count,
{
    if count > 0 {
        let rest = s.drop_last();
        assert forall|i: int| rest.len() - (count - 1) <= i < rest.len() implies is_white_space(
            #[trigger] rest[i],
        ) by {
            assert(rest[i] == s[i]);
        }
        if count < s.len() {
            assert(rest[rest.len() - (count - 1) - 1] == s[s.len() - count - 1]);
        }
        assert(is_white_space(s[s.len() - 1]));
        trailing_white_space_is(rest, count - 1);
    }
}

/// A trimmed text neither begins nor ends with white space, and trimming it
/// again changes nothing.
pub proof fn trimmed_is_trim(s: Seq<char>)
    ensures
        trimmed(s).len() > 0 ==> !is_white_space(trimmed(s)[0]) && !is_white_space(
            trimmed(s).last(),
        ),
        trimmed(trimmed(s)) == trimmed(s),
{
    let start = leading_white_space(s) as int;
    let tail = trailing_white_space(s) as int;
    white_space_bounds(s);
    if start < s.len() {
        let t = trimmed(s);
        assert(t.len() > 0);
        assert(t[0] == s[start]);
        assert(t.last() == s[s.len() - tail - 1]);
        leading_white_space_is(t, 0);
        trailing_white_space_is(t, 0);
        assert(t.subrange(0, t.len() as int) == t);
    }
}

/// What the two counts of white space say of the characters of `s`: the
/// leading ones are white space and the next is not, likewise at the end, and
/// the two runs do not meet unless `s` is all white space.
pub proof fn white_space_bounds(s: Seq<char>)
    ensures
        leading_white_space(s) <= s.len(),
        trailing_white_space(s) <= s.len(),
        forall|i: int| 0 <= i < leading_white_space(s) ==> is_white_space(#[trigger] s[i]),
        leading_white_space(s) < s.len() ==> !is_white_space(s[leading_white_space(s) as int]),
        forall|i: int|
            s.len() - trailing_white_space(s) <= i < s.len() ==> is_white_space(#[trigger] s[i]),
        trailing_white_space(s) < s.len() ==> !is_white_space(
            s[s.len() - trailing_white_space(s) - 1],
        ),
        leading_white_space(s) < s.len() ==> leading_white_space(s) + trailing_white_space(s)
            < s.len(),
    decreases s.len(),
{
    if s.len() > 0 {
        let front = s.drop_first();
        let back = s.drop_last();
        white_space_bounds(front);
        white_space_bounds(back);
        if is_white_space(s[0]) {
            assert forall|i: int| 0 <= i < leading_white_space(s) implies is_white_space(
                #[trigger] s[i],
            ) by {
                if i > 0 {
                    assert(front[i - 1] == s[i]);
                }
            }
            if leading_white_space(s) < s.len() {
                assert(front[leading_white_space(front) as int] == s[leading_white_space(s) as int]);
            }
        }
        if is_white_space(s.last()) {
            assert forall|i: int|
                s.len() - trailing_white_space(s) <= i < s.len() implies is_white_space(
                #[trigger] s[i],
            ) by {
                if i < s.len() - 1 {
                    assert(back[i] == s[i]);
                }
            }
            if trailing_white_space(s) < s.len() {
                assert(back[back.len() - trailing_white_space(back) - 1] == s[s.len()
                    - trailing_white_space(s) - 1]);
            }
        }
        if leading_white_space(s) < s.len() {
            let first = leading_white_space(s) as int;
            let tail = trailing_white_space(s) as int;
            if first + tail >= s.len() {
                assert(is_white_space(s[first]));
            }
        }
    }
}

/// `s` is white space up to `from` and from `to` on, and begins and ends
/// with other characters between the two.
pub open spec fn is_trimmed_at(s: Seq<char>, from: int, to: int) -> bool {
    &&& 0 <= from < to <= s.len()
    &&& forall|i: int| 0 <= i < from ==> is_white_space(#[trigger] s[i])
    &&& forall|i: int| to <= i < s.len() ==> is_white_space(#[trigger] s[i])
    &&& !is_white_space(s[from])
    &&& !is_white_space(s[to - 1])
}

/// Every character of `s` is white space.
pub open spec fn is_all_white_space(s: Seq<char>) -> bool {
    forall|i: int| 0 <= i < s.len() ==> is_white_space(#[trigger] s[i])
}

/// A text of white space trims to the empty text, and no other does.
pub proof fn trimmed_of_white_space(s: Seq<char>)
    ensures
        is_all_white_space(s) <==> trimmed(s).len() == 0,
{
    white_space_bounds(s);
    if is_all_white_space(s) {
        leading_white_space_is(s, s.len() as int);
    } else {
        let start = leading_white_space(s) as int;
        if start == s.len() {
            let i = choose|i: int| 0 <= i < s.len() && !is_white_space(s[i]);
            assert(is_white_space(s[i]));
        }
    }
}

/// A text that has other characters trims to what lies between the first
/// and the last of them.
pub proof fn trimmed_between(s: Seq<char>, from: int, to: int)
    requires
        is_trimmed_at(s, from, to),
    ensures
        trimmed(s) == s.subrange(from, to),
{
    leading_white_space_is(s, from);
    trailing_white_space_is(s, s.len() - to);
}

/// The characters of `text`, one by one.
pub fn characters(text: &str) -> (chars: Vec<char>)
    ensures
        chars@ == text@,
{
    let mut chars: Vec<char> = Vec::new();
    let it = text.chars();
    for c in iter: it
        invariant
            iter.seq() == text@,
            chars@ == iter.seq().take(iter.index() as int),
    {
        chars.push(c);
    }
    assert(chars@ == text@);
    chars
}

/// The text made of `chars[from..to]`.
pub fn text_of(chars: &Vec<char>, from: usize, to: usize) -> (text: String)
    requires
        from <= to <= chars.len(),
    ensures
        text@ == chars@.subrange(from as int, to as int),
{
    let mut text = String::new();
    let mut i: usize = from;
    while i < to
        invariant
            from <= i <= to <= chars.len(),
            text@ == chars@.subrange(from as int, i as int),
        decreases to - i,
    {
        text.push(chars[i]);
        assert(chars@.subrange(from as int, i as int).push(chars@[i as int]) == chars@.subrange(
            from as int,
            i + 1,
        ));
        i = i + 1;
    }
    text
}

/// `text` without the white space at its start and at its end.
pub fn trim(text: &str) -> (result: String)
    ensures
        result@ == trimmed(text@),
        is_all_white_space(text@) <==> result@.len() == 0,
        forall|from: int, to: int|
            #[trigger] is_trimmed_at(text@, from, to) ==> result@ == text@.subrange(from, to),
{
    proof {
        trimmed_of_white_space(text@);
        assert forall|from: int, to: int| #[trigger] is_trimmed_at(text@, from, to) implies trimmed(
            text@,
        ) == text@.subrange(from, to) by {
            trimmed_between(text@, from, to);
        }
    }
    let chars = characters(text);
    let len = chars.len();
    let mut start: usize = 0;
    while start < len && is_whitespace(chars[start])
        invariant
            start <= len == chars.len(),
            forall|i: int| 0 <= i < start ==> is_white_space(#[trigger] chars@[i]),
        decreases len - start,
    {
        start = start + 1;
    }
    proof {
        leading_white_space_is(chars@, start as int);
    }
    if start == len {
        return String::new();
    }
    let mut end: usize = len;
    while end > start && is_whitespace(chars[end - 1])
        invariant
            start <= end <= len == chars.len(),
            start < len,
            !is_white_space(chars@[start as int]),
            forall|i: int| end <= i < len ==> is_white_space(#[trigger] chars@[i]),
        decreases end,
    {
        end = end - 1;
    }
    proof {
        trailing_white_space_is(chars@, len - end);
    }
    text_of(&chars, start, end)
}

/// A copy of a text that may be absent.
pub fn copy_optional_text(text: &Option<String>) -> (copy: Option<String>)
    ensures
        copy == *text,
{
    match text {
        Some(t) => Some(t.clone()),
        None => None,
    }
}

/// A copy of a list of texts.
pub fn copy_texts(texts: &Vec<String>) -> (copy: Vec<String>)
    ensures
        copy@ == texts@,
{
    let mut copy: Vec<String> = Vec::new();
    let mut i: usize = 0;
    while i < texts.len()
        invariant
            i <= texts.len(),
            copy@ == texts@.take(i as int),
        decreases texts.len() - i,
    {
        copy.push(texts[i].clone());
        assert(texts@.take(i as int).push(texts@[i as int]) == texts@.take(i + 1));
        i = i + 1;
    }
    assert(texts@.take(texts.len() as int) == texts@);
    copy
}

/// What follows `prefix` in `s`, if `s` begins with it.
pub open spec fn without_prefix(s: Seq<char>, prefix: Seq<char>) -> Option<Seq<char>> {
    if prefix.len() <= s.len() && s.take(prefix.len() as int) == prefix {
        Some(s.skip(prefix.len() as int))
    } else {
        None
    }
}

/// `str::strip_prefix` with a string as the pattern: what follows `prefix` in
/// `text`, or nothing where `text` does not begin with `prefix`.
#[verifier::external_body]
pub(crate) fn strip_prefix<'a>(text: &'a str, prefix: &str) -> (rest: Option<&'a str>)
    ensures
        match rest {
            Some(r) => without_prefix(text@, prefix@) == Some(r@),
            None => without_prefix(text@, prefix@) is None,
        },
{
    text.strip_prefix(prefix)
}

} // verus!
