use crate::text::{chars_of, lowered, same_letter, trim_bounds, trimmed};
use vstd::prelude::*;

verus! {

/// What a typed answer to a yes-or-no question means.
///
/// White space around the answer and the case of its letters do not count.
/// `y` and `yes` mean yes, `n` and `no` mean no, and anything else is no
/// answer.
pub open spec fn answer_of(input: Seq<char>) -> Option<bool> {
    let word = lowered(trimmed(input));
    if word == seq!['y'] || word == seq!['y', 'e', 's'] {
        Some(true)
    } else if word == seq!['n'] || word == seq!['n', 'o'] {
        Some(false)
    } else {
        None
    }
}

/// Reads a typed answer to a yes-or-no question.
///
/// Returns `None` for an answer that is neither, in which case the question
/// is to be asked again.
pub fn parse_answer(input: &str) -> (answer: Option<bool>)
    ensures
        answer == answer_of(input@),
{
    let chars = chars_of(input);
    let (start, end) = trim_bounds(&chars);
    let ghost word = lowered(chars@.subrange(start as int, end as int));
    let len = end - start;
    assert(seq!['y'].len() == 1 && seq!['n'].len() == 1 && seq!['n', 'o'].len() == 2 && seq![
        'y',
        'e',
        's',
    ].len() == 3);
    if len == 1 {
        if same_letter(chars[start], 'y') {
            assert(word =~= seq!['y']);
            Some(true)
        } else if same_letter(chars[start], 'n') {
            assert(word =~= seq!['n']);
            assert(word[0] != seq!['y'][0]);
            Some(false)
        } else {
            assert(word[0] != 'y' && word[0] != 'n');
            None
        }
    } else if len == 2 {
        if same_letter(chars[start], 'n') && same_letter(chars[start + 1], 'o') {
            assert(word =~= seq!['n', 'o']);
            Some(false)
        } else {
            None
        }
    } else if len == 3 {
        if same_letter(chars[start], 'y') && same_letter(chars[start + 1], 'e') && same_letter(
            chars[start + 2],
            's',
        ) {
            assert(word =~= seq!['y', 'e', 's']);
            Some(true)
        } else {
            None
        }
    } else {
        None
    }
}

} // verus!
