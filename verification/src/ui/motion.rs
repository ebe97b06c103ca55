//! Cursor motions over a line of text.
//!
//! A line is seen as a row of marks, one for each character, that say whether
//! the character is white space. A word is a run of characters that are not.

use vstd::prelude::*;

verus! {

/// A cursor motion.
#[derive(Debug, Clone, Copy, PartialEq, Eq, Structural)]
pub enum VimMotion {
    WordForward,
    WordBackward,
    Line,
    CharRight,
    CharLeft,
    StartOfLine,
    EndOfLine,
}

/// Whether `c` is white space as `char::is_whitespace` tells it.
pub uninterp spec fn is_whitespace_char(c: char) -> bool;

/// `char::is_whitespace`: whether `c` has the Unicode property White_Space.
/// The contract only names the answer.
#[verifier::external_body]
fn is_whitespace(c: char) -> (blank: bool)
    ensures
        blank == is_whitespace_char(c),
{
    c.is_whitespace()
}

/// For each character of `text`, whether it is white space.
pub open spec fn blanks_of(text: Seq<char>) -> Seq<bool> {
    text.map_values(|c: char| is_whitespace_char(c))
}

/// The first position from `pos` on that holds no white space, or the end of
/// the line.
pub open spec fn past_blanks(blank: Seq<bool>, pos: int) -> int
    decreases blank.len() - pos,
{
    if 0 <= pos < blank.len() && blank[pos] {
        past_blanks(blank, pos + 1)
    } else {
        pos
    }
}

/// The first position from `pos` on that holds white space, or the end of the
/// line.
pub open spec fn past_word(blank: Seq<bool>, pos: int) -> int
    decreases blank.len() - pos,
{
    if 0 <= pos < blank.len() && !blank[pos] {
        past_word(blank, pos + 1)
    } else {
        pos
    }
}

/// The last position up to `pos` that holds no white space, or the start of
/// the line.
pub open spec fn back_past_blanks(blank: Seq<bool>, pos: int) -> int
    decreases pos,
{
    if 0 < pos < blank.len() && blank[pos] {
        back_past_blanks(blank, pos - 1)
    } else {
        pos
    }
}

/// The start of the run without white space that ends just before `pos`, or
/// `pos` if white space stands before it.
pub open spec fn back_to_word_start(blank: Seq<bool>, pos: int) -> int
    decreases pos,
{
    if 0 < pos <= blank.len() && !blank[pos - 1] {
        back_to_word_start(blank, pos - 1)
    } else {
        pos
    }
}

/// Whether a motion can be made from `start` in a line of `len` characters.
/// A motion to the word before needs a character to look at, and a motion to
/// the right a position that can be counted up.
pub open spec fn motion_defined(len: nat, start: usize, motion: VimMotion) -> bool {
    match motion {
        VimMotion::WordBackward => start <= len || start <= 1,
        VimMotion::CharRight => start < usize::MAX,
        _ => true,
    }
}

/// Where a motion from `start` ends.
///
/// - `WordForward`: past the white space under the cursor, past the word
///   after it, and past the white space after that word; the end of the line
///   from a cursor that is not on a character.
/// - `WordBackward`: one back, then back over white space, then to the start
///   of the word.
/// - `CharRight`, `CharLeft`: one step, inside the line.
/// - `StartOfLine`; `EndOfLine` and `Line`: position 0; the length of the line.
pub open spec fn motion_target(blank: Seq<bool>, start: usize, motion: VimMotion) -> int {
    let len = blank.len() as int;
    match motion {
        VimMotion::WordForward => if start < len {
            past_blanks(blank, past_word(blank, past_blanks(blank, start as int)))
        } else {
            len
        },
        VimMotion::WordBackward => if start > 0 {
            back_to_word_start(blank, back_past_blanks(blank, start - 1))
        } else {
            0
        },
        VimMotion::Line => len,
        VimMotion::CharRight => if start + 1 < len {
            start + 1
        } else {
            len
        },
        VimMotion::CharLeft => if start > 0 {
            start - 1
        } else {
            0
        },
        VimMotion::StartOfLine => 0,
        VimMotion::EndOfLine => len,
    }
}

/// A scan over white space ends at the first character from `pos` on that is
/// none, or at the end of the line.
pub proof fn lemma_past_blanks(blank: Seq<bool>, pos: int)
    requires
        0 <= pos <= blank.len(),
    ensures
        pos <= past_blanks(blank, pos) <= blank.len(),
        forall|i: int| pos <= i < past_blanks(blank, pos) ==> blank[i],
        past_blanks(blank, pos) < blank.len() ==> !blank[past_blanks(blank, pos)],
    decreases blank.len() - pos,
{
    if pos < blank.len() && blank[pos] {
        lemma_past_blanks(blank, pos + 1);
    }
}

/// A scan over a word ends at the first white space from `pos` on, or at the
/// end of the line.
pub proof fn lemma_past_word(blank: Seq<bool>, pos: int)
    requires
        0 <= pos <= blank.len(),
    ensures
        pos <= past_word(blank, pos) <= blank.len(),
        forall|i: int| pos <= i < past_word(blank, pos) ==> !blank[i],
        past_word(blank, pos) < blank.len() ==> blank[past_word(blank, pos)],
    decreases blank.len() - pos,
{
    if pos < blank.len() && !blank[pos] {
        lemma_past_word(blank, pos + 1);
    }
}

/// A scan back over white space ends at the last character up to `pos` that
/// is none, or at the start of the line.
pub proof fn lemma_back_past_blanks(blank: Seq<bool>, pos: int)
    requires
        0 <= pos < blank.len(),
    ensures
        0 <= back_past_blanks(blank, pos) <= pos,
        forall|i: int| back_past_blanks(blank, pos) < i <= pos ==> blank[i],
        back_past_blanks(blank, pos) > 0 ==> !blank[back_past_blanks(blank, pos)],
    decreases pos,
{
    if pos > 0 && blank[pos] {
        lemma_back_past_blanks(blank, pos - 1);
    }
}

/// A scan back to the start of a word ends behind the last white space
/// before `pos`, or at the start of the line.
pub proof fn lemma_back_to_word_start(blank: Seq<bool>, pos: int)
    requires
        0 <= pos <= blank.len(),
    ensures
        0 <= back_to_word_start(blank, pos) <= pos,
        forall|i: int| back_to_word_start(blank, pos) <= i < pos ==> !blank[i],
        back_to_word_start(blank, pos) > 0 ==> blank[back_to_word_start(blank, pos) - 1],
    decreases pos,
{
    if pos > 0 && !blank[pos - 1] {
        lemma_back_to_word_start(blank, pos - 1);
    }
}

/// A motion from inside the line ends inside the line: a motion backward at
/// or before its start, a motion forward at or after it.
pub proof fn lemma_motion_target_bounds(blank: Seq<bool>, start: usize, motion: VimMotion)
    requires
        start <= blank.len(),
    ensures
        0 <= motion_target(blank, start, motion) <= blank.len(),
        motion == VimMotion::WordBackward || motion == VimMotion::CharLeft ==> motion_target(
            blank,
            start,
            motion,
        ) <= start,
        motion == VimMotion::WordForward || motion == VimMotion::CharRight ==> start
            <= motion_target(blank, start, motion),
{
    match motion {
        VimMotion::WordForward => {
            if start < blank.len() {
                lemma_past_blanks(blank, start as int);
                let word = past_blanks(blank, start as int);
                lemma_past_word(blank, word);
                lemma_past_blanks(blank, past_word(blank, word));
            }
        },
        VimMotion::WordBackward => {
            if start > 0 {
                lemma_back_past_blanks(blank, start - 1);
                lemma_back_to_word_start(blank, back_past_blanks(blank, start - 1));
            }
        },
        _ => {},
    }
}

/// For each character of `text`, whether it is white space.
pub fn blanks(text: &Vec<char>) -> (blank: Vec<bool>)
    ensures
        blank@ == blanks_of(text@),
{
    let mut blank: Vec<bool> = Vec::new();
    let mut i: usize = 0;
    while i < text.len()
        invariant
            i <= text.len(),
            blank@ == blanks_of(text@.take(i as int)),
        decreases text.len() - i,
    {
        blank.push(is_whitespace(text[i]));
        assert(blank@ =~= blanks_of(text@.take(i + 1)));
        i += 1;
    }
    assert(text@.take(text.len() as int) =~= text@);
    blank
}

/// Where a motion from `start` ends in a line with the white space marked by
/// `blank`.
pub fn motion_end(blank: &Vec<bool>, start: usize, motion: VimMotion) -> (end: usize)
    requires
        motion_defined(blank@.len(), start, motion),
    ensures
        end == motion_target(blank@, start, motion),
{
    let len = blank.len();
    match motion {
        VimMotion::WordForward => {
            let mut pos = start;
            if pos < len {
                while pos < len && blank[pos]
                    invariant
                        start <= pos <= len,
                        len == blank@.len(),
                        past_blanks(blank@, pos as int) == past_blanks(blank@, start as int),
                    decreases len - pos,
                {
                    pos += 1;
                }
                let ghost first = pos;
                while pos < len && !blank[pos]
                    invariant
                        first <= pos <= len,
                        len == blank@.len(),
                        past_word(blank@, pos as int) == past_word(blank@, first as int),
                    decreases len - pos,
                {
                    pos += 1;
                }
                let ghost second = pos;
                while pos < len && blank[pos]
                    invariant
                        second <= pos <= len,
                        len == blank@.len(),
                        past_blanks(blank@, pos as int) == past_blanks(blank@, second as int),
                    decreases len - pos,
                {
                    pos += 1;
                }
                pos
            } else {
                len
            }
        },
        VimMotion::WordBackward => {
            let mut pos = start;
            if pos > 0 {
                pos -= 1;
                while pos > 0 && blank[pos]
                    invariant
                        pos < start,
                        pos < len || pos == 0,
                        len == blank@.len(),
                        back_past_blanks(blank@, pos as int) == back_past_blanks(
                            blank@,
                            start - 1,
                        ),
                    decreases pos,
                {
                    pos -= 1;
                }
                let ghost first = pos;
                while pos > 0 && !blank[pos - 1]
                    invariant
                        pos <= first,
                        pos < len || pos == 0,
                        len == blank@.len(),
                        back_to_word_start(blank@, pos as int) == back_to_word_start(
                            blank@,
                            first as int,
                        ),
                    decreases pos,
                {
                    pos -= 1;
                }
            }
            pos
        },
        VimMotion::Line => len,
        VimMotion::CharRight => if start + 1 < len {
            start + 1
        } else {
            len
        },
        VimMotion::CharLeft => if start > 0 {
            start - 1
        } else {
            0
        },
        VimMotion::StartOfLine => 0,
        VimMotion::EndOfLine => len,
    }
}

} // verus!
