//! Conversions between the ways of writing a name that is made of several
//! words: `snake_case`, `PascalCase`, `Title Case` and others.
//!
//! A text is cut into words in two steps. First at the word boundaries of
//! Unicode, where only the pieces that hold a letter or a digit count. Then
//! inside each piece: at underscores and dots, which belong to no word;
//! where a lower-case letter is followed by an upper-case one; and, in a run
//! of upper-case letters that a lower-case letter follows, before the last
//! of the run. The words are then written in the wanted case and joined.

pub mod title;

use crate::outside::{
    is_alphanumeric_char, is_lowercase_char, is_uppercase_char, lowercase, lowercase_of, texts,
    uppercase, uppercase_of, word_bounds, word_bounds_of,
};
use crate::text::chars_of;
use vstd::prelude::*;

verus! {

/// The case of the last letter of the word that is being read, as far as
/// that letter has a case.
#[derive(Clone, Copy, Debug, PartialEq, Eq, Structural)]
pub enum WordMode {
    /// No letter with a case has been read since the word began.
    Boundary,
    /// The last letter with a case was a lower-case one.
    Lowercase,
    /// The last letter with a case was an upper-case one.
    Uppercase,
}

/// How a word is written.
#[derive(Clone, Copy, Debug, PartialEq, Eq, Structural)]
pub enum Casing {
    /// The first letter in upper case, the others in lower case.
    Capitalized,
    /// Every letter in lower case.
    Lower,
    /// Every letter in upper case.
    Upper,
}

/// A character that separates words and belongs to none.
pub open spec fn is_separator(c: char) -> bool {
    c == '_' || c == '.'
}

/// The mode after `c` was read in mode `mode`.
pub open spec fn mode_after(mode: WordMode, c: char) -> WordMode {
    if is_lowercase_char(c) {
        WordMode::Lowercase
    } else if is_uppercase_char(c) {
        WordMode::Uppercase
    } else {
        mode
    }
}

/// The words of a piece from the character at `at` on, when the word that
/// is being read began at `init` and was read in mode `mode` so far.
pub open spec fn word_parts(piece: Seq<char>, at: int, init: int, mode: WordMode) -> Seq<Seq<char>>
    decreases piece.len() - at,
{
    if at < 0 || at >= piece.len() {
        Seq::empty()
    } else if is_separator(piece[at]) {
        word_parts(
            piece,
            at + 1,
            if init == at {
                init + 1
            } else {
                init
            },
            mode,
        )
    } else if at + 1 < piece.len() {
        if is_separator(piece[at + 1]) || (mode_after(mode, piece[at]) == WordMode::Lowercase
            && is_uppercase_char(piece[at + 1])) {
            seq![piece.subrange(init, at + 1)] + word_parts(
                piece,
                at + 1,
                at + 1,
                WordMode::Boundary,
            )
        } else if mode == WordMode::Uppercase && is_uppercase_char(piece[at]) && is_lowercase_char(
            piece[at + 1],
        ) {
            seq![piece.subrange(init, at)] + word_parts(piece, at + 1, at, WordMode::Boundary)
        } else {
            word_parts(piece, at + 1, init, mode_after(mode, piece[at]))
        }
    } else {
        seq![piece.subrange(init, piece.len() as int)]
    }
}

/// The piece holds a letter or a digit.
pub open spec fn has_alphanumeric(piece: Seq<char>) -> bool {
    exists|i: int| 0 <= i < piece.len() && is_alphanumeric_char(#[trigger] piece[i])
}

/// The words of the first `upto` pieces.
pub open spec fn words_in(pieces: Seq<Seq<char>>, upto: int) -> Seq<Seq<char>>
    decreases upto,
{
    if upto <= 0 || upto > pieces.len() {
        Seq::empty()
    } else if has_alphanumeric(pieces[upto - 1]) {
        words_in(pieces, upto - 1) + word_parts(pieces[upto - 1], 0, 0, WordMode::Boundary)
    } else {
        words_in(pieces, upto - 1)
    }
}

/// The words of a text.
pub open spec fn words_of(text: Seq<char>) -> Seq<Seq<char>> {
    words_in(word_bounds_of(text), word_bounds_of(text).len() as int)
}

/// The character at `at` of a word in lower case. A capital sigma at the
/// end of the word becomes the final sigma.
pub open spec fn lower_at(word: Seq<char>, at: int) -> Seq<char> {
    if word[at] == '\u{3a3}' && at == word.len() - 1 {
        seq!['\u{3c2}']
    } else {
        lowercase_of(seq![word[at]])
    }
}

/// The characters of a word from `from` up to `upto` in lower case.
pub open spec fn lowered(word: Seq<char>, from: int, upto: int) -> Seq<char>
    decreases upto - from,
{
    if upto <= from || from < 0 || upto > word.len() {
        Seq::empty()
    } else {
        lowered(word, from, upto - 1) + lower_at(word, upto - 1)
    }
}

/// The first `upto` characters of a word in upper case.
pub open spec fn raised(word: Seq<char>, upto: int) -> Seq<char>
    decreases upto,
{
    if upto <= 0 || upto > word.len() {
        Seq::empty()
    } else {
        raised(word, upto - 1) + uppercase_of(seq![word[upto - 1]])
    }
}

/// A word as `casing` writes it.
pub open spec fn cased(word: Seq<char>, casing: Casing) -> Seq<char> {
    match casing {
        Casing::Capitalized => raised(word, 1) + lowered(word, 1, word.len() as int),
        Casing::Lower => lowered(word, 0, word.len() as int),
        Casing::Upper => raised(word, word.len() as int),
    }
}

/// The first `upto` words joined: the first of all words as `first` writes
/// it, every other as `others` writes it, and `boundary` between each two.
pub open spec fn joined_words(
    words: Seq<Seq<char>>,
    upto: int,
    first: Casing,
    others: Casing,
    boundary: Seq<char>,
) -> Seq<char>
    decreases upto,
{
    if upto <= 0 || upto > words.len() {
        Seq::empty()
    } else if upto == 1 {
        cased(words[0], first)
    } else {
        joined_words(words, upto - 1, first, others, boundary) + boundary + cased(
            words[upto - 1],
            others,
        )
    }
}

/// A text with its words written anew.
pub open spec fn transformed(text: Seq<char>, first: Casing, others: Casing, boundary: Seq<char>) -> Seq<
    char,
> {
    joined_words(words_of(text), words_of(text).len() as int, first, others, boundary)
}

/// A word without flaw: it is not empty and holds no separator.
pub open spec fn is_clean(word: Seq<char>) -> bool {
    word.len() > 0 && forall|k: int| 0 <= k < word.len() ==> !is_separator(#[trigger] word[k])
}

/// The words that are cut out of a piece are not empty and hold no
/// separator.
pub proof fn lemma_word_parts_are_clean(piece: Seq<char>, at: int, init: int, mode: WordMode)
    requires
        0 <= init <= at <= piece.len(),
        forall|k: int| init <= k < at ==> !is_separator(#[trigger] piece[k]),
        init < at < piece.len() ==> !is_separator(piece[at]),
        mode != WordMode::Boundary ==> init < at,
    ensures
        forall|j: int|
            0 <= j < word_parts(piece, at, init, mode).len() ==> is_clean(
                #[trigger] word_parts(piece, at, init, mode)[j],
            ),
    decreases piece.len() - at,
{
    let all = word_parts(piece, at, init, mode);
    if at >= piece.len() {
        assert(all.len() == 0);
    } else if is_separator(piece[at]) {
        assert(init == at);
        lemma_word_parts_are_clean(piece, at + 1, at + 1, mode);
        assert(all == word_parts(piece, at + 1, at + 1, mode));
    } else if at + 1 < piece.len() {
        if is_separator(piece[at + 1]) || (mode_after(mode, piece[at]) == WordMode::Lowercase
            && is_uppercase_char(piece[at + 1])) {
            let part = piece.subrange(init, at + 1);
            let later = word_parts(piece, at + 1, at + 1, WordMode::Boundary);
            lemma_word_parts_are_clean(piece, at + 1, at + 1, WordMode::Boundary);
            lemma_part_is_clean(piece, init, at + 1);
            assert(all == seq![part] + later);
            assert forall|j: int| 0 <= j < all.len() implies is_clean(#[trigger] all[j]) by {
                if j > 0 {
                    assert(all[j] == later[j - 1]);
                }
            }
        } else if mode == WordMode::Uppercase && is_uppercase_char(piece[at]) && is_lowercase_char(
            piece[at + 1],
        ) {
            let part = piece.subrange(init, at);
            let later = word_parts(piece, at + 1, at, WordMode::Boundary);
            lemma_word_parts_are_clean(piece, at + 1, at, WordMode::Boundary);
            lemma_part_is_clean(piece, init, at);
            assert(all == seq![part] + later);
            assert forall|j: int| 0 <= j < all.len() implies is_clean(#[trigger] all[j]) by {
                if j > 0 {
                    assert(all[j] == later[j - 1]);
                }
            }
        } else {
            lemma_word_parts_are_clean(piece, at + 1, init, mode_after(mode, piece[at]));
            assert(all == word_parts(piece, at + 1, init, mode_after(mode, piece[at])));
        }
    } else {
        lemma_part_is_clean(piece, init, piece.len() as int);
        assert(all == seq![piece.subrange(init, piece.len() as int)]);
    }
}

/// A stretch of a piece that is not empty and holds no separator is a clean
/// word.
proof fn lemma_part_is_clean(piece: Seq<char>, from: int, upto: int)
    requires
        0 <= from < upto <= piece.len(),
        forall|k: int| from <= k < upto ==> !is_separator(#[trigger] piece[k]),
    ensures
        is_clean(piece.subrange(from, upto)),
{
    let part = piece.subrange(from, upto);
    assert forall|k: int| 0 <= k < part.len() implies !is_separator(#[trigger] part[k]) by {
        assert(part[k] == piece[from + k]);
    }
}

/// The words of a text are not empty and hold no separator.
pub proof fn lemma_words_are_clean(pieces: Seq<Seq<char>>, upto: int)
    ensures
        forall|j: int|
            0 <= j < words_in(pieces, upto).len() ==> is_clean(#[trigger] words_in(pieces, upto)[j]),
    decreases upto,
{
    if upto <= 0 || upto > pieces.len() {
    } else {
        lemma_words_are_clean(pieces, upto - 1);
        if has_alphanumeric(pieces[upto - 1]) {
            let before = words_in(pieces, upto - 1);
            let added = word_parts(pieces[upto - 1], 0, 0, WordMode::Boundary);
            lemma_word_parts_are_clean(pieces[upto - 1], 0, 0, WordMode::Boundary);
            assert forall|j: int| 0 <= j < (before + added).len() implies is_clean(
                #[trigger] (before + added)[j],
            ) by {
                if j >= before.len() {
                    assert((before + added)[j] == added[j - before.len()]);
                }
            }
        }
    }
}

/// The texts of a vector of words.
pub open spec fn rows(words: Seq<Vec<char>>) -> Seq<Seq<char>> {
    Seq::new(words.len(), |i: int| words[i]@)
}

/// The characters of `word` from `from` up to `upto`.
fn slice(word: &Vec<char>, from: usize, upto: usize) -> (part: Vec<char>)
    requires
        from <= upto <= word@.len(),
    ensures
        part@ == word@.subrange(from as int, upto as int),
{
    let mut part: Vec<char> = Vec::new();
    let mut i: usize = from;
    while i < upto
        invariant
            from <= i <= upto <= word@.len(),
            part@ == word@.subrange(from as int, i as int),
        decreases upto - i,
    {
        part.push(word[i]);
        i = i + 1;
        assert(part@ =~= word@.subrange(from as int, i as int));
    }
    part
}

/// Decides `has_alphanumeric`.
fn holds_alphanumeric(piece: &Vec<char>) -> (yes: bool)
    ensures
        yes == has_alphanumeric(piece@),
{
    let mut i: usize = 0;
    while i < piece.len()
        invariant
            i <= piece@.len(),
            forall|k: int| 0 <= k < i ==> !is_alphanumeric_char(#[trigger] piece@[k]),
        decreases piece@.len() - i,
    {
        if piece[i].is_alphanumeric() {
            return true;
        }
        i = i + 1;
    }
    false
}

/// Cuts a piece into its words and puts them behind `words`.
fn split_piece(piece: &Vec<char>, words: &mut Vec<Vec<char>>)
    ensures
        rows(final(words)@) == rows(old(words)@) + word_parts(piece@, 0, 0, WordMode::Boundary),
{
    let ghost whole = rows(words@) + word_parts(piece@, 0, 0, WordMode::Boundary);
    let mut at: usize = 0;
    let mut init: usize = 0;
    let mut mode = WordMode::Boundary;
    while at < piece.len()
        invariant
            init <= piece@.len(),
            at <= piece@.len(),
            init <= at || at == piece@.len(),
            rows(words@) + word_parts(piece@, at as int, init as int, mode) == whole,
        decreases piece@.len() - at,
    {
        let ghost before = rows(words@);
        let ghost began = init as int;
        let c = piece[at];
        if c == '_' || c == '.' {
            if init == at {
                init = init + 1;
            }
            at = at + 1;
        } else if at + 1 < piece.len() {
            let next = piece[at + 1];
            let next_mode = if c.is_lowercase() {
                WordMode::Lowercase
            } else if c.is_uppercase() {
                WordMode::Uppercase
            } else {
                mode
            };
            if next == '_' || next == '.' || (next_mode == WordMode::Lowercase
                && next.is_uppercase()) {
                words.push(slice(piece, init, at + 1));
                init = at + 1;
                mode = WordMode::Boundary;
                proof {
                    let part = piece@.subrange(began, at + 1);
                    let later = word_parts(piece@, at + 1, at + 1, WordMode::Boundary);
                    assert(rows(words@) =~= before + seq![part]);
                    assert(rows(words@) + later =~= before + (seq![part] + later));
                }
            } else if mode == WordMode::Uppercase && c.is_uppercase() && next.is_lowercase() {
                words.push(slice(piece, init, at));
                init = at;
                mode = WordMode::Boundary;
                proof {
                    let part = piece@.subrange(began, at as int);
                    let later = word_parts(piece@, at + 1, at as int, WordMode::Boundary);
                    assert(rows(words@) =~= before + seq![part]);
                    assert(rows(words@) + later =~= before + (seq![part] + later));
                }
            } else {
                mode = next_mode;
            }
            at = at + 1;
        } else {
            words.push(slice(piece, init, piece.len()));
            proof {
                let part = piece@.subrange(began, piece@.len() as int);
                assert(rows(words@) =~= before + seq![part]);
                assert(rows(words@) + Seq::<Seq<char>>::empty() =~= before + seq![part]);
            }
            at = piece.len();
        }
    }
}

/// Cuts a text into its words. None of them is empty, and none holds a
/// separator.
pub fn words(text: &str) -> (found: Vec<Vec<char>>)
    ensures
        rows(found@) == words_of(text@),
        forall|j: int| 0 <= j < found@.len() ==> is_clean(#[trigger] found@[j]@),
{
    let pieces = word_bounds(text);
    let ghost all = texts(pieces@);
    let mut found: Vec<Vec<char>> = Vec::new();
    let mut i: usize = 0;
    assert(rows(found@) =~= words_in(all, 0));
    while i < pieces.len()
        invariant
            i <= pieces@.len(),
            all == texts(pieces@),
            all == word_bounds_of(text@),
            rows(found@) == words_in(all, i as int),
        decreases pieces@.len() - i,
    {
        let piece = chars_of(pieces[i].as_str());
        assert(piece@ == all[i as int]);
        if holds_alphanumeric(&piece) {
            split_piece(&piece, &mut found);
        }
        i = i + 1;
    }
    proof {
        lemma_words_are_clean(all, all.len() as int);
        assert forall|j: int| 0 <= j < found@.len() implies is_clean(#[trigger] found@[j]@) by {
            assert(found@[j]@ == rows(found@)[j]);
        }
    }
    found
}

/// Puts the character `c`, in upper case, behind `out`.
fn push_upper(out: &mut String, c: char)
    ensures
        final(out)@ == old(out)@ + uppercase_of(seq![c]),
{
    let mut one = String::new();
    one.push(c);
    assert(one@ =~= seq![c]);
    let upper = uppercase(one.as_str());
    out.append(upper.as_str());
}

/// Puts the characters of `word` from `from` on, in lower case, behind
/// `out`.
fn push_lowered(out: &mut String, word: &Vec<char>, from: usize)
    requires
        from <= word@.len(),
    ensures
        final(out)@ == old(out)@ + lowered(word@, from as int, word@.len() as int),
{
    let mut i: usize = from;
    assert(out@ =~= old(out)@ + lowered(word@, from as int, from as int));
    while i < word.len()
        invariant
            from <= i <= word@.len(),
            out@ == old(out)@ + lowered(word@, from as int, i as int),
        decreases word@.len() - i,
    {
        let ghost before = out@;
        let c = word[i];
        if c == '\u{3a3}' && i + 1 == word.len() {
            out.push('\u{3c2}');
            assert(out@ =~= before + seq!['\u{3c2}']);
        } else {
            let mut one = String::new();
            one.push(c);
            assert(one@ =~= seq![c]);
            let lower = lowercase(one.as_str());
            out.append(lower.as_str());
        }
        i = i + 1;
        assert(out@ =~= old(out)@ + lowered(word@, from as int, i as int));
    }
}

/// Puts the characters of `word`, in upper case, behind `out`.
fn push_raised(out: &mut String, word: &Vec<char>, upto: usize)
    requires
        upto <= word@.len(),
    ensures
        final(out)@ == old(out)@ + raised(word@, upto as int),
{
    let mut i: usize = 0;
    assert(out@ =~= old(out)@ + raised(word@, 0));
    while i < upto
        invariant
            i <= upto <= word@.len(),
            out@ == old(out)@ + raised(word@, i as int),
        decreases upto - i,
    {
        push_upper(out, word[i]);
        i = i + 1;
        assert(out@ =~= old(out)@ + raised(word@, i as int));
    }
}

/// Puts `word`, written as `casing` says, behind `out`.
pub fn push_cased(out: &mut String, word: &Vec<char>, casing: Casing)
    ensures
        final(out)@ == old(out)@ + cased(word@, casing),
{
    match casing {
        Casing::Capitalized => {
            if word.len() == 0 {
                assert(out@ =~= old(out)@ + cased(word@, casing));
            } else {
                push_raised(out, word, 1);
                let ghost middle = out@;
                push_lowered(out, word, 1);
                assert(out@ =~= old(out)@ + cased(word@, casing));
            }
        },
        Casing::Lower => {
            push_lowered(out, word, 0);
        },
        Casing::Upper => {
            push_raised(out, word, word.len());
        },
    }
}

/// Writes the words of a text anew: the first word as `first` says, every
/// other as `others` says, with `boundary` between each two.
pub fn transform(text: &str, first: Casing, others: Casing, boundary: &str) -> (out: String)
    ensures
        out@ == transformed(text@, first, others, boundary@),
{
    let found = words(text);
    let ghost all = rows(found@);
    let mut out = String::new();
    let mut i: usize = 0;
    assert(out@ =~= joined_words(all, 0, first, others, boundary@));
    while i < found.len()
        invariant
            i <= found@.len(),
            all == rows(found@),
            out@ == joined_words(all, i as int, first, others, boundary@),
        decreases found@.len() - i,
    {
        let ghost before = out@;
        assert(all[i as int] == found@[i as int]@);
        if i == 0 {
            push_cased(&mut out, &found[i], first);
            assert(out@ =~= cased(all[0], first));
        } else {
            out.append(boundary);
            push_cased(&mut out, &found[i], others);
            assert(out@ =~= before + boundary@ + cased(all[i as int], others));
        }
        i = i + 1;
    }
    out
}

} // verus!
