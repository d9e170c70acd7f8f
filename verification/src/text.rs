//! Facts about characters and text that the conditions rely on.

use crate::outside::texts;
use vstd::prelude::*;
use vstd::std_specs::iter::IteratorSpec;

verus! {

/// Whether `c` carries the Unicode property `White_Space`.
pub open spec fn is_white_space(c: char) -> bool {
    let n = c as u32;
    ||| 0x09 <= n <= 0x0D
    ||| n == 0x20
    ||| n == 0x85
    ||| n == 0xA0
    ||| n == 0x1680
    ||| 0x2000 <= n <= 0x200A
    ||| n == 0x2028
    ||| n == 0x2029
    ||| n == 0x202F
    ||| n == 0x205F
    ||| n == 0x3000
}

/// A text is blank when nothing would be left of it after trimming white
/// space from both ends, that is when every character of it is white space.
pub open spec fn is_blank(text: Seq<char>) -> bool {
    forall|i: int| 0 <= i < text.len() ==> is_white_space(#[trigger] text[i])
}

/// How many characters of white space stand at the beginning of a text.
pub open spec fn leading_white(text: Seq<char>) -> int
    decreases text.len(),
{
    if text.len() > 0 && is_white_space(text[0]) {
        1 + leading_white(text.drop_first())
    } else {
        0
    }
}

/// How many characters of white space stand at the end of a text.
pub open spec fn trailing_white(text: Seq<char>) -> int
    decreases text.len(),
{
    if text.len() > 0 && is_white_space(text.last()) {
        1 + trailing_white(text.drop_last())
    } else {
        0
    }
}

/// The text without the white space at its beginning and at its end.
pub open spec fn trimmed(text: Seq<char>) -> Seq<char> {
    if leading_white(text) >= text.len() {
        Seq::empty()
    } else {
        text.subrange(leading_white(text), text.len() - trailing_white(text))
    }
}

/// The white space at the beginning ends at the first character that is
/// none.
pub proof fn lemma_leading_white(text: Seq<char>, count: int)
    requires
        0 <= count <= text.len(),
        forall|i: int| 0 <= i < count ==> is_white_space(#[trigger] text[i]),
        count < text.len() ==> !is_white_space(text[count]),
    ensures
        leading_white(text) == count,
    decreases text.len(),
{
    if count > 0 {
        assert(is_white_space(text[0]));
        let rest = text.drop_first();
        assert forall|i: int| 0 <= i < count - 1 implies is_white_space(#[trigger] rest[i]) by {
            assert(rest[i] == text[i + 1]);
        }
        lemma_leading_white(rest, count - 1);
    }
}

/// The white space at the end begins behind the last character that is
/// none.
pub proof fn lemma_trailing_white(text: Seq<char>, end: int)
    requires
        0 <= end <= text.len(),
        forall|i: int| end <= i < text.len() ==> is_white_space(#[trigger] text[i]),
        end > 0 ==> !is_white_space(text[end - 1]),
    ensures
        trailing_white(text) == text.len() - end,
    decreases text.len(),
{
    if end < text.len() {
        assert(is_white_space(text[text.len() - 1]));
        let rest = text.drop_last();
        assert forall|i: int| end <= i < rest.len() implies is_white_space(#[trigger] rest[i]) by {
            assert(rest[i] == text[i]);
        }
        lemma_trailing_white(rest, end);
    }
}

/// The white space at the beginning of a text is white space, and what
/// follows it is none.
pub proof fn lemma_leading_white_ends(text: Seq<char>)
    ensures
        0 <= leading_white(text) <= text.len(),
        forall|i: int| 0 <= i < leading_white(text) ==> is_white_space(#[trigger] text[i]),
        leading_white(text) < text.len() ==> !is_white_space(text[leading_white(text)]),
    decreases text.len(),
{
    if text.len() > 0 && is_white_space(text[0]) {
        let rest = text.drop_first();
        lemma_leading_white_ends(rest);
        assert forall|i: int| 0 <= i < leading_white(text) implies is_white_space(
            #[trigger] text[i],
        ) by {
            if i > 0 {
                assert(text[i] == rest[i - 1]);
            }
        }
        if leading_white(text) < text.len() {
            assert(text[leading_white(text)] == rest[leading_white(rest)]);
        }
    }
}

/// The white space at the end of a text is white space, and what stands
/// before it is none.
pub proof fn lemma_trailing_white_ends(text: Seq<char>)
    ensures
        0 <= trailing_white(text) <= text.len(),
        forall|i: int|
            text.len() - trailing_white(text) <= i < text.len() ==> is_white_space(
                #[trigger] text[i],
            ),
        trailing_white(text) < text.len() ==> !is_white_space(
            text[text.len() - trailing_white(text) - 1],
        ),
    decreases text.len(),
{
    if text.len() > 0 && is_white_space(text.last()) {
        let rest = text.drop_last();
        lemma_trailing_white_ends(rest);
        assert forall|i: int|
            text.len() - trailing_white(text) <= i < text.len() implies is_white_space(
            #[trigger] text[i],
        ) by {
            if i < text.len() - 1 {
                assert(text[i] == rest[i]);
            }
        }
        if trailing_white(text) < text.len() {
            assert(text[text.len() - trailing_white(text) - 1] == rest[rest.len() - trailing_white(
                rest,
            ) - 1]);
        }
    }
}

/// A trimmed text neither begins nor ends with white space, and a text that
/// neither begins nor ends with white space is its own trimmed text. A text
/// is blank exactly when nothing is left of it after trimming.
pub proof fn lemma_trimmed_has_no_white_ends(text: Seq<char>)
    ensures
        trimmed(text).len() > 0 ==> !is_white_space(trimmed(text)[0]) && !is_white_space(
            trimmed(text).last(),
        ),
        trimmed(text).len() == 0 <==> (forall|i: int|
            0 <= i < text.len() ==> is_white_space(#[trigger] text[i])),
        text.len() > 0 && !is_white_space(text[0]) && !is_white_space(text.last()) ==> trimmed(text)
            == text,
        is_blank(text) <==> trimmed(text).len() == 0,
{
    lemma_leading_white_ends(text);
    lemma_trailing_white_ends(text);
    let lead = leading_white(text);
    let trail = trailing_white(text);
    if lead < text.len() {
        assert(!is_white_space(text[lead]));
        assert(lead < text.len() - trail) by {
            if lead >= text.len() - trail {
                assert(is_white_space(text[lead]));
            }
        }
        assert(trimmed(text)[0] == text[lead]);
        assert(trimmed(text).last() == text[text.len() - trail - 1]);
    }
    if text.len() > 0 && !is_white_space(text[0]) && !is_white_space(text.last()) {
        assert(lead == 0);
        assert(trail == 0);
        assert(trimmed(text) =~= text);
    }
}

/// Decides `is_white_space`.
pub fn white_space(c: char) -> (r: bool)
    ensures
        r == is_white_space(c),
{
    let n: u32 = c as u32;
    (0x09 <= n && n <= 0x0D) || n == 0x20 || n == 0x85 || n == 0xA0 || n == 0x1680 || (0x2000 <= n
        && n <= 0x200A) || n == 0x2028 || n == 0x2029 || n == 0x202F || n == 0x205F || n == 0x3000
}

/// Decides `is_blank`.
pub fn blank(text: &str) -> (r: bool)
    ensures
        r == is_blank(text@),
{
    let mut rest = text.chars();
    let ghost mut seen: int = 0;
    loop
        invariant
            0 <= seen <= text@.len(),
            rest.remaining() == text@.subrange(seen, text@.len() as int),
            rest.obeys_prophetic_iter_laws(),
            forall|i: int| 0 <= i < seen ==> is_white_space(#[trigger] text@[i]),
        decreases text@.len() - seen,
    {
        match rest.next() {
            None => {
                return true;
            },
            Some(c) => {
                if !white_space(c) {
                    return false;
                }
                proof {
                    seen = seen + 1;
                }
            },
        }
    }
}

/// The characters of a text.
pub fn chars_of(text: &str) -> (chars: Vec<char>)
    ensures
        chars@ == text@,
{
    let mut chars: Vec<char> = Vec::new();
    let mut rest = text.chars();
    loop
        invariant
            chars@.len() <= text@.len(),
            rest.remaining() == text@.subrange(chars@.len() as int, text@.len() as int),
            rest.obeys_prophetic_iter_laws(),
            chars@ == text@.subrange(0, chars@.len() as int),
        ensures
            chars@ == text@,
        decreases text@.len() - chars@.len(),
    {
        match rest.next() {
            None => {
                assert(chars@ =~= text@);
                break ;
            },
            Some(c) => {
                chars.push(c);
                assert(chars@ =~= text@.subrange(0, chars@.len() as int));
            },
        }
    }
    chars
}


/// Where `pattern` first occurs in `text` at or after `from`, if it does.
pub open spec fn first_match(text: Seq<char>, pattern: Seq<char>, from: int) -> Option<int>
    decreases text.len() - from,
{
    if from < 0 || from + pattern.len() > text.len() {
        None
    } else if text.subrange(from, from + pattern.len()) =~= pattern {
        Some(from)
    } else if from < text.len() {
        first_match(text, pattern, from + 1)
    } else {
        None
    }
}

/// The text in which every occurrence of `from` has given way to `to`. The
/// occurrences are taken from left to right, and none overlaps the one
/// before it. The empty text occurs before every character and at the end.
pub open spec fn replaced(text: Seq<char>, from: Seq<char>, to: Seq<char>) -> Seq<char>
    decreases text.len(),
{
    if from.len() == 0 {
        if text.len() == 0 {
            to
        } else {
            to + seq![text[0]] + replaced(text.drop_first(), from, to)
        }
    } else {
        match first_match(text, from, 0) {
            None => text,
            Some(at) => if 0 <= at && at + from.len() <= text.len() {
                text.subrange(0, at) + to + replaced(
                    text.subrange(at + from.len(), text.len() as int),
                    from,
                    to,
                )
            } else {
                text
            },
        }
    }
}

/// The pieces of the text between the occurrences of `separator`, taken
/// from left to right, none overlapping the one before it. A text without
/// occurrence is one piece. The empty separator occurs before every
/// character and at the end.
pub open spec fn pieces(text: Seq<char>, separator: Seq<char>) -> Seq<Seq<char>>
    decreases text.len(),
{
    if separator.len() == 0 {
        seq![Seq::<char>::empty()] + Seq::new(text.len(), |i: int| seq![text[i]]) + seq![
            Seq::<char>::empty(),
        ]
    } else {
        match first_match(text, separator, 0) {
            None => seq![text],
            Some(at) => if 0 <= at && at + separator.len() <= text.len() {
                seq![text.subrange(0, at)] + pieces(
                    text.subrange(at + separator.len(), text.len() as int),
                    separator,
                )
            } else {
                seq![text]
            },
        }
    }
}


/// Whether `pattern` stands in `text` at `at`.
fn matches_at(text: &Vec<char>, pattern: &Vec<char>, at: usize) -> (yes: bool)
    requires
        at + pattern@.len() <= text@.len(),
    ensures
        yes == (text@.subrange(at as int, at + pattern@.len()) =~= pattern@),
{
    let total = text.len();
    let mut k: usize = 0;
    while k < pattern.len()
        invariant
            k <= pattern@.len(),
            at + pattern@.len() <= text@.len() == total,
            forall|i: int| 0 <= i < k ==> text@[at + i] == #[trigger] pattern@[i],
        decreases pattern@.len() - k,
    {
        if text[at + k] != pattern[k] {
            assert(text@.subrange(at as int, at + pattern@.len())[k as int] != pattern@[k as int]);
            return false;
        }
        k = k + 1;
    }
    true
}

/// Puts the characters of `text` from `from` up to `upto` behind `out`.
fn push_chars(out: &mut String, text: &Vec<char>, from: usize, upto: usize)
    requires
        from <= upto <= text@.len(),
    ensures
        final(out)@ == old(out)@ + text@.subrange(from as int, upto as int),
{
    let mut i: usize = from;
    assert(out@ =~= old(out)@ + text@.subrange(from as int, from as int));
    while i < upto
        invariant
            from <= i <= upto <= text@.len(),
            out@ == old(out)@ + text@.subrange(from as int, i as int),
        decreases upto - i,
    {
        out.push(text[i]);
        i = i + 1;
        assert(out@ =~= old(out)@ + text@.subrange(from as int, i as int));
    }
}

/// Replaces every occurrence of `from` in `text` by `to`, as `replaced`
/// says.
pub fn replace_text(text: &str, from: &str, to: &str) -> (changed: String)
    ensures
        changed@ == replaced(text@, from@, to@),
{
    let chars = chars_of(text);
    let pattern = chars_of(from);
    let mut out = String::new();
    let count = chars.len();
    let width = pattern.len();
    if width == 0 {
        let mut i: usize = 0;
        assert(chars@.subrange(0, count as int) =~= chars@);
        assert(out@ + replaced(chars@, from@, to@) =~= replaced(text@, from@, to@));
        while i < count
            invariant
                i <= count == chars@.len(),
                chars@ == text@,
                from@.len() == 0,
                out@ + replaced(chars@.subrange(i as int, count as int), from@, to@) == replaced(
                    text@,
                    from@,
                    to@,
                ),
            decreases count - i,
        {
            let ghost rest = chars@.subrange(i as int, count as int);
            let ghost before = out@;
            out.append(to);
            out.push(chars[i]);
            i = i + 1;
            proof {
                assert(rest.drop_first() =~= chars@.subrange(i as int, count as int));
                assert(rest[0] == chars@[i - 1]);
                assert(out@ + replaced(chars@.subrange(i as int, count as int), from@, to@)
                    =~= before + (to@ + seq![rest[0]] + replaced(rest.drop_first(), from@, to@)));
            }
        }
        let ghost before = out@;
        out.append(to);
        assert(out@ =~= before + replaced(chars@.subrange(count as int, count as int), from@, to@));
        return out;
    }
    // The piece that is being read began at `start`; no match begins in it
    // before `at`.
    let mut start: usize = 0;
    let mut at: usize = 0;
    assert(chars@.subrange(0, count as int) =~= chars@);
    assert(out@ + replaced(chars@, from@, to@) =~= replaced(text@, from@, to@));
    while width <= count - at
        invariant
            start <= at <= count == chars@.len(),
            width == pattern@.len() == from@.len(),
            width > 0,
            pattern@ == from@,
            out@ + replaced(chars@.subrange(start as int, count as int), from@, to@) == replaced(
                text@,
                from@,
                to@,
            ),
            first_match(chars@.subrange(start as int, count as int), from@, 0) == first_match(
                chars@.subrange(start as int, count as int),
                from@,
                at - start,
            ),
        decreases count - at,
    {
        let ghost rest = chars@.subrange(start as int, count as int);
        let ghost before = out@;
        assert(rest.subrange(at - start, at - start + width) =~= chars@.subrange(
            at as int,
            at + width,
        ));
        if matches_at(&chars, &pattern, at) {
            push_chars(&mut out, &chars, start, at);
            out.append(to);
            proof {
                let later = chars@.subrange(at + width, count as int);
                assert(first_match(rest, from@, 0) == Some(at - start));
                assert(rest.subrange(0, at - start) =~= chars@.subrange(start as int, at as int));
                assert(rest.subrange(at - start + width, rest.len() as int) =~= later);
                assert(out@ + replaced(later, from@, to@) =~= before + (rest.subrange(0, at - start)
                    + to@ + replaced(later, from@, to@)));
            }
            at = at + width;
            start = at;
        } else {
            at = at + 1;
        }
    }
    proof {
        let rest = chars@.subrange(start as int, count as int);
        assert(first_match(rest, from@, at - start) is None);
    }
    push_chars(&mut out, &chars, start, count);
    out
}

/// Cuts `text` at every occurrence of `separator`, as `pieces` says.
pub fn split_text(text: &str, separator: &str) -> (parts: Vec<String>)
    ensures
        texts(parts@) == pieces(text@, separator@),
{
    let chars = chars_of(text);
    let pattern = chars_of(separator);
    let mut parts: Vec<String> = Vec::new();
    let count = chars.len();
    let width = pattern.len();
    if width == 0 {
        parts.push(String::new());
        let mut i: usize = 0;
        while i < count
            invariant
                i <= count == chars@.len(),
                parts@.len() == i + 1,
                parts@[0]@ == Seq::<char>::empty(),
                forall|k: int| 0 <= k < i ==> (#[trigger] parts@[k + 1])@ == seq![chars@[k]],
            decreases count - i,
        {
            let mut one = String::new();
            one.push(chars[i]);
            assert(one@ =~= seq![chars@[i as int]]);
            parts.push(one);
            i = i + 1;
        }
        parts.push(String::new());
        proof {
            let wanted = pieces(text@, separator@);
            assert(texts(parts@).len() == wanted.len());
            assert forall|k: int| 0 <= k < wanted.len() implies texts(parts@)[k] == wanted[k] by {
                if 0 < k <= count {
                    assert(parts@[k - 1 + 1]@ == seq![chars@[k - 1]]);
                }
            }
            assert(texts(parts@) =~= wanted);
        }
        return parts;
    }
    let mut start: usize = 0;
    let mut at: usize = 0;
    assert(chars@.subrange(0, count as int) =~= chars@);
    assert(texts(parts@) + pieces(chars@, separator@) =~= pieces(text@, separator@));
    while width <= count - at
        invariant
            start <= at <= count == chars@.len(),
            width == pattern@.len() == separator@.len(),
            width > 0,
            pattern@ == separator@,
            texts(parts@) + pieces(chars@.subrange(start as int, count as int), separator@)
                == pieces(text@, separator@),
            first_match(chars@.subrange(start as int, count as int), separator@, 0) == first_match(
                chars@.subrange(start as int, count as int),
                separator@,
                at - start,
            ),
        decreases count - at,
    {
        let ghost rest = chars@.subrange(start as int, count as int);
        let ghost before = texts(parts@);
        assert(rest.subrange(at - start, at - start + width) =~= chars@.subrange(
            at as int,
            at + width,
        ));
        if matches_at(&chars, &pattern, at) {
            let mut piece = String::new();
            push_chars(&mut piece, &chars, start, at);
            parts.push(piece);
            proof {
                let later = chars@.subrange(at + width, count as int);
                assert(first_match(rest, separator@, 0) == Some(at - start));
                assert(rest.subrange(0, at - start) =~= chars@.subrange(start as int, at as int));
                assert(rest.subrange(at - start + width, rest.len() as int) =~= later);
                assert(texts(parts@) =~= before + seq![rest.subrange(0, at - start)]);
                assert(texts(parts@) + pieces(later, separator@) =~= before + (seq![
                    rest.subrange(0, at - start),
                ] + pieces(later, separator@)));
            }
            at = at + width;
            start = at;
        } else {
            at = at + 1;
        }
    }
    let ghost before = texts(parts@);
    proof {
        let rest = chars@.subrange(start as int, count as int);
        assert(first_match(rest, separator@, at - start) is None);
    }
    let mut piece = String::new();
    push_chars(&mut piece, &chars, start, count);
    parts.push(piece);
    assert(texts(parts@) =~= before + seq![chars@.subrange(start as int, count as int)]);
    parts
}

} // verus!
