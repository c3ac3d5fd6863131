//! The fixed catalog of animal names.

use crate::words::Word;
use vstd::prelude::*;

verus! {

/// How many names the catalog holds.
pub const CATALOG_LEN: usize = 16;

/// The letters of the catalog's names, in catalog order.
pub const NAMES: [[char; 3]; 16] = [
    ['p', 'u', 'p'],
    ['d', 'o', 'g'],
    ['c', 'a', 't'],
    ['r', 'a', 't'],
    ['f', 'o', 'x'],
    ['h', 'e', 'n'],
    ['b', 'u', 'g'],
    ['a', 'n', 't'],
    ['f', 'l', 'y'],
    ['p', 'i', 'g'],
    ['b', 'a', 't'],
    ['c', 'o', 'w'],
    ['h', 'o', 'g'],
    ['a', 'p', 'e'],
    ['o', 'w', 'l'],
    ['b', 'e', 'e'],
];

/// The word that the letters at one position of `NAMES` spell.
pub open spec fn spelled(index: int) -> Word {
    Word { first: NAMES@[index]@[0], second: NAMES@[index]@[1], third: NAMES@[index]@[2] }
}

/// The catalog as an ordered list of words.
pub open spec fn catalog() -> Seq<Word> {
    Seq::new(CATALOG_LEN as nat, |i: int| spelled(i))
}

/// The catalog as a set: order forgotten.
pub open spec fn catalog_set() -> Set<Word> {
    catalog().to_set()
}

/// The catalog holds sixteen names and none of them twice.
pub proof fn lemma_names_are_distinct()
    ensures
        catalog().len() == CATALOG_LEN,
        catalog().no_duplicates(),
{
    assert forall|i: int, j: int|
        0 <= i < catalog().len() && 0 <= j < catalog().len() && i != j implies catalog()[i]
        != catalog()[j] by {
        if i < j {
            assert(catalog()[i] != catalog()[j]);
        } else {
            assert(catalog()[j] != catalog()[i]);
        }
    }
}

/// As a set the catalog is finite and has sixteen members.
pub proof fn lemma_catalog_set_size()
    ensures
        catalog_set().finite(),
        catalog_set().len() == CATALOG_LEN,
{
    lemma_names_are_distinct();
    catalog().unique_seq_to_set();
    vstd::seq_lib::seq_to_set_is_finite(catalog());
}

/// The name at a position of the catalog.
pub fn name(index: usize) -> (word: Word)
    requires
        index < CATALOG_LEN,
    ensures
        word == catalog()[index as int],
{
    let letters = NAMES[index];
    Word { first: letters[0], second: letters[1], third: letters[2] }
}

/// Where a word stands in the catalog: `Some` position exactly when the word
/// is one of the names, `None` when it is not.
pub fn position(word: Word) -> (found: Option<usize>)
    ensures
        found is Some <==> catalog().contains(word),
        found matches Some(index) ==> index < CATALOG_LEN && catalog()[index as int] == word,
{
    let mut index: usize = 0;
    while index < CATALOG_LEN
        invariant
            index <= CATALOG_LEN,
            forall|k: int| 0 <= k < index ==> catalog()[k] != word,
        decreases CATALOG_LEN - index,
    {
        if name(index) == word {
            return Some(index);
        }
        index += 1;
    }
    None
}

/// Whether a word is one of the catalog's names.
pub fn is_name(word: Word) -> (known: bool)
    ensures
        known == catalog_set().contains(word),
{
    position(word).is_some()
}

} // verus!
