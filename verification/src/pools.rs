//! The letter pools from which pseudo-words are put together.
//!
//! Each pool is a list of letters without repetition, so that an index drawn
//! evenly picks each letter of the pool with the same chance. The letters
//! stand in the order in which they first occur.

use crate::catalog::{catalog, name, CATALOG_LEN};
use crate::words::Word;
use vstd::prelude::*;

verus! {

/// Letters that may start a pseudo-word besides the first letters of the names.
pub const EXTRA_FIRST_LETTERS: [char; 5] = ['t', 'l', 'b', 'p', 's'];

/// The vowels.
pub const VOWELS: [char; 5] = ['a', 'e', 'i', 'o', 'u'];

/// The letter that a word has at a position: 0, 1 or 2.
pub open spec fn letter_at(word: Word, position: int) -> char {
    if position == 0 {
        word.first
    } else if position == 1 {
        word.second
    } else {
        word.third
    }
}

/// The letter at one position of the name at `index`.
pub open spec fn name_letter(index: int, position: int) -> char {
    letter_at(catalog()[index], position)
}

/// The letters that the names have at one position, in catalog order and with
/// repetitions.
pub open spec fn column(position: int) -> Seq<char> {
    Seq::new(catalog().len(), |index: int| name_letter(index, position))
}

pub open spec fn is_vowel(letter: char) -> bool {
    VOWELS@.contains(letter)
}

/// The vowels among some letters, in their order.
pub open spec fn vowels_of(letters: Seq<char>) -> Seq<char> {
    letters.filter(|letter: char| is_vowel(letter))
}

/// The letters without repetition: each stays where it occurs first.
pub open spec fn distinct(letters: Seq<char>) -> Seq<char>
    decreases letters.len(),
{
    if letters.len() == 0 {
        Seq::empty()
    } else {
        let before = distinct(letters.drop_last());
        if before.contains(letters.last()) {
            before
        } else {
            before.push(letters.last())
        }
    }
}

/// Pool of first letters: the first letters of the names and the extra ones.
pub open spec fn first_pool() -> Seq<char> {
    distinct(column(0) + EXTRA_FIRST_LETTERS@)
}

/// Pool of second letters: the second letters of the names that are vowels,
/// or every vowel if no name has a vowel there.
pub open spec fn second_pool() -> Seq<char> {
    let kept = distinct(vowels_of(column(1)));
    if kept.len() == 0 {
        VOWELS@
    } else {
        kept
    }
}

/// Pool of third letters: the third letters of the names.
pub open spec fn third_pool() -> Seq<char> {
    distinct(column(2))
}

/// The pseudo-word that three draws select: each draw counts round its pool.
pub open spec fn synthesized(first: usize, second: usize, third: usize) -> Word {
    Word {
        first: first_pool()[first as int % first_pool().len() as int],
        second: second_pool()[second as int % second_pool().len() as int],
        third: third_pool()[third as int % third_pool().len() as int],
    }
}

/// `distinct` keeps exactly the letters it was given and repeats none.
pub proof fn lemma_distinct(letters: Seq<char>)
    ensures
        distinct(letters).no_duplicates(),
        distinct(letters).len() <= letters.len(),
        letters.len() > 0 ==> distinct(letters).len() > 0,
        forall|letter: char| distinct(letters).contains(letter) <==> letters.contains(letter),
    decreases letters.len(),
{
    if letters.len() > 0 {
        let init = letters.drop_last();
        let last = letters.last();
        let before = distinct(init);
        lemma_distinct(init);
        assert forall|letter: char| distinct(letters).contains(letter) <==> letters.contains(
            letter,
        ) by {
            if letters.contains(letter) {
                let at = choose|at: int| 0 <= at < letters.len() && letters[at] == letter;
                if at < init.len() {
                    assert(init[at] == letter);
                    assert(init.contains(letter));
                    assert(before.contains(letter));
                    let place = choose|place: int| 0 <= place < before.len() && before[place] == letter;
                    assert(distinct(letters)[place] == letter);
                } else if !before.contains(last) {
                    assert(distinct(letters)[before.len() as int] == letter);
                }
            }
            if distinct(letters).contains(letter) {
                let place = choose|place: int|
                    0 <= place < distinct(letters).len() && distinct(letters)[place] == letter;
                if place < before.len() {
                    assert(before[place] == letter);
                    assert(before.contains(letter));
                    assert(init.contains(letter));
                    let at = choose|at: int| 0 <= at < init.len() && init[at] == letter;
                    assert(letters[at] == letter);
                } else {
                    assert(letters[letters.len() - 1] == letter);
                }
            }
        }
    }
}

/// No pool is empty.
pub proof fn lemma_pools_are_not_empty()
    ensures
        first_pool().len() > 0,
        second_pool().len() > 0,
        third_pool().len() > 0,
{
    lemma_distinct(column(0) + EXTRA_FIRST_LETTERS@);
    lemma_distinct(column(2));
}

/// The first pool holds the first letters of the names and the extra letters,
/// and nothing else.
pub proof fn lemma_first_pool_letters()
    ensures
        first_pool().no_duplicates(),
        forall|letter: char|
            first_pool().contains(letter) <==> (column(0).contains(letter)
                || EXTRA_FIRST_LETTERS@.contains(letter)),
{
    let all = column(0) + EXTRA_FIRST_LETTERS@;
    lemma_distinct(all);
    assert forall|letter: char|
        first_pool().contains(letter) <==> (column(0).contains(letter)
            || EXTRA_FIRST_LETTERS@.contains(letter)) by {
        assert(first_pool().contains(letter) <==> all.contains(letter));
        if column(0).contains(letter) {
            let at = choose|at: int| 0 <= at < column(0).len() && column(0)[at] == letter;
            assert(all[at] == letter);
        }
        if EXTRA_FIRST_LETTERS@.contains(letter) {
            let at = choose|at: int|
                0 <= at < EXTRA_FIRST_LETTERS@.len() && EXTRA_FIRST_LETTERS@[at] == letter;
            assert(all[column(0).len() + at] == letter);
        }
        if all.contains(letter) {
            let at = choose|at: int| 0 <= at < all.len() && all[at] == letter;
            if at < column(0).len() {
                assert(column(0)[at] == letter);
            } else {
                assert(EXTRA_FIRST_LETTERS@[at - column(0).len()] == letter);
            }
        }
    }
}

/// The second pool holds vowels only: those that stand second in a name, or,
/// where no name has a vowel there, all of them.
pub proof fn lemma_second_pool_letters()
    ensures
        second_pool().no_duplicates(),
        forall|letter: char| second_pool().contains(letter) ==> is_vowel(letter),
        vowels_of(column(1)).len() > 0 ==> (forall|letter: char|
            #[trigger] second_pool().contains(letter) <==> (column(1).contains(letter) && is_vowel(
                letter,
            ))),
        vowels_of(column(1)).len() == 0 ==> second_pool() == VOWELS@,
{
    let kept = vowels_of(column(1));
    lemma_distinct(kept);
    lemma_vowels_of(column(1));
    if kept.len() > 0 {
        assert(second_pool() == distinct(kept));
        assert forall|letter: char|
            #[trigger] second_pool().contains(letter) <==> (column(1).contains(letter) && is_vowel(
                letter,
            )) by {
            assert(distinct(kept).contains(letter) <==> kept.contains(letter));
        }
    }
}

/// The third pool holds the third letters of the names, and nothing else.
pub proof fn lemma_third_pool_letters()
    ensures
        third_pool().no_duplicates(),
        forall|letter: char| third_pool().contains(letter) <==> column(2).contains(letter),
{
    lemma_distinct(column(2));
}

/// `vowels_of` keeps exactly the vowels among the letters.
pub proof fn lemma_vowels_of(letters: Seq<char>)
    ensures
        forall|letter: char|
            vowels_of(letters).contains(letter) <==> (letters.contains(letter) && is_vowel(
                letter,
            )),
{
    let keep = |letter: char| is_vowel(letter);
    assert forall|letter: char|
        vowels_of(letters).contains(letter) <==> (letters.contains(letter) && is_vowel(
            letter,
        )) by {
        if vowels_of(letters).contains(letter) {
            letters.lemma_filter_contains_rev(keep, letter);
        }
        if letters.contains(letter) && is_vowel(letter) {
            let at = choose|at: int| 0 <= at < letters.len() && letters[at] == letter;
            letters.lemma_filter_contains(keep, at);
        }
    }
}

/// Whether a letter occurs in a list of letters.
fn occurs(letters: &Vec<char>, letter: char) -> (found: bool)
    ensures
        found == letters@.contains(letter),
{
    let mut at: usize = 0;
    while at < letters.len()
        invariant
            at <= letters.len(),
            forall|k: int| 0 <= k < at ==> letters@[k] != letter,
        decreases letters.len() - at,
    {
        if letters[at] == letter {
            return true;
        }
        at += 1;
    }
    false
}

/// Whether a letter is a vowel.
pub fn is_vowel_letter(letter: char) -> (vowel: bool)
    ensures
        vowel == is_vowel(letter),
{
    let mut at: usize = 0;
    while at < 5
        invariant
            at <= 5,
            forall|k: int| 0 <= k < at ==> VOWELS@[k] != letter,
        decreases 5 - at,
    {
        if VOWELS[at] == letter {
            return true;
        }
        at += 1;
    }
    false
}

/// The letters that the names have at one position, in catalog order.
fn column_letters(position: usize) -> (letters: Vec<char>)
    requires
        position < 3,
    ensures
        letters@ == column(position as int),
{
    let mut letters: Vec<char> = Vec::new();
    let mut index: usize = 0;
    while index < CATALOG_LEN
        invariant
            index <= CATALOG_LEN,
            position < 3,
            letters@.len() == index,
            forall|k: int| 0 <= k < index ==> letters@[k] == name_letter(k, position as int),
        decreases CATALOG_LEN - index,
    {
        let word = name(index);
        let letter = if position == 0 {
            word.first
        } else if position == 1 {
            word.second
        } else {
            word.third
        };
        letters.push(letter);
        index += 1;
    }
    assert(letters@ =~= column(position as int));
    letters
}

/// The letters without repetition, each where it occurs first.
fn without_repetition(letters: &Vec<char>) -> (kept: Vec<char>)
    ensures
        kept@ == distinct(letters@),
{
    let mut kept: Vec<char> = Vec::new();
    let mut at: usize = 0;
    while at < letters.len()
        invariant
            at <= letters.len(),
            kept@ == distinct(letters@.take(at as int)),
        decreases letters.len() - at,
    {
        let letter = letters[at];
        let seen = occurs(&kept, letter);
        if !seen {
            kept.push(letter);
        }
        proof {
            let next = letters@.take(at + 1);
            assert(next.drop_last() =~= letters@.take(at as int));
            assert(next.last() == letter);
        }
        at += 1;
    }
    assert(letters@.take(letters.len() as int) =~= letters@);
    kept
}

/// The pool of first letters.
pub fn first_letters() -> (pool: Vec<char>)
    ensures
        pool@ == first_pool(),
{
    let mut letters = column_letters(0);
    let mut at: usize = 0;
    while at < 5
        invariant
            at <= 5,
            letters@ == column(0) + EXTRA_FIRST_LETTERS@.take(at as int),
        decreases 5 - at,
    {
        letters.push(EXTRA_FIRST_LETTERS[at]);
        assert(letters@ =~= column(0) + EXTRA_FIRST_LETTERS@.take(at + 1));
        at += 1;
    }
    assert(EXTRA_FIRST_LETTERS@.take(5) =~= EXTRA_FIRST_LETTERS@);
    without_repetition(&letters)
}

/// The pool of second letters.
pub fn second_letters() -> (pool: Vec<char>)
    ensures
        pool@ == second_pool(),
{
    let letters = column_letters(1);
    let mut kept: Vec<char> = Vec::new();
    let mut at: usize = 0;
    while at < letters.len()
        invariant
            at <= letters.len(),
            kept@ == vowels_of(letters@.take(at as int)),
        decreases letters.len() - at,
    {
        let letter = letters[at];
        proof {
            let keep = |letter: char| is_vowel(letter);
            assert(letters@.take(at + 1) =~= letters@.take(at as int).push(letter));
            letters@.take(at as int).lemma_filter_push(letter, keep);
        }
        if is_vowel_letter(letter) {
            kept.push(letter);
        }
        at += 1;
    }
    assert(letters@.take(letters.len() as int) =~= letters@);
    let pool = without_repetition(&kept);
    if pool.len() == 0 {
        let mut vowels: Vec<char> = Vec::new();
        let mut next: usize = 0;
        while next < 5
            invariant
                next <= 5,
                vowels@ == VOWELS@.take(next as int),
            decreases 5 - next,
        {
            vowels.push(VOWELS[next]);
            assert(vowels@ =~= VOWELS@.take(next + 1));
            next += 1;
        }
        assert(VOWELS@.take(5) =~= VOWELS@);
        vowels
    } else {
        pool
    }
}

/// The pool of third letters.
pub fn third_letters() -> (pool: Vec<char>)
    ensures
        pool@ == third_pool(),
{
    let letters = column_letters(2);
    without_repetition(&letters)
}

/// Puts a pseudo-word together from three draws, one for each pool. A draw
/// counts round its pool, so every value picks a letter.
pub fn synthesize(first: usize, second: usize, third: usize) -> (word: Word)
    ensures
        word == synthesized(first, second, third),
        word@.len() == 3,
        column(0).contains(word.first) || EXTRA_FIRST_LETTERS@.contains(word.first),
        is_vowel(word.second),
        column(2).contains(word.third),
{
    let firsts = first_letters();
    let seconds = second_letters();
    let thirds = third_letters();
    proof {
        lemma_pools_are_not_empty();
        lemma_synthesized_letters(first, second, third);
    }
    Word {
        first: firsts[first % firsts.len()],
        second: seconds[second % seconds.len()],
        third: thirds[third % thirds.len()],
    }
}

/// Whatever the draws, a pseudo-word starts with a first letter of a name or
/// an extra letter, has a vowel in the middle, and ends with a third letter of
/// a name.
pub proof fn lemma_synthesized_letters(first: usize, second: usize, third: usize)
    ensures
        synthesized(first, second, third)@.len() == 3,
        first_pool().contains(synthesized(first, second, third).first),
        second_pool().contains(synthesized(first, second, third).second),
        third_pool().contains(synthesized(first, second, third).third),
        column(0).contains(synthesized(first, second, third).first)
            || EXTRA_FIRST_LETTERS@.contains(synthesized(first, second, third).first),
        is_vowel(synthesized(first, second, third).second),
        column(2).contains(synthesized(first, second, third).third),
{
    lemma_pools_are_not_empty();
    lemma_first_pool_letters();
    lemma_second_pool_letters();
    lemma_third_pool_letters();
    let word = synthesized(first, second, third);
    assert(first_pool()[first as int % first_pool().len() as int] == word.first);
    assert(second_pool()[second as int % second_pool().len() as int] == word.second);
    assert(third_pool()[third as int % third_pool().len() as int] == word.third);
}

} // verus!
