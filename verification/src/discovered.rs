//! The set of catalog names that a session has produced so far.

use crate::catalog::{catalog, catalog_set, lemma_names_are_distinct, name, position, CATALOG_LEN};
use crate::words::Word;
use vstd::prelude::*;

verus! {

/// The names produced so far. Only names of the catalog can be in it.
///
/// Its view is the set of those names.
#[derive(Clone, Copy, Debug)]
pub struct Discovered {
    /// One mark for each catalog position: whether that name is in the set.
    found: [bool; 16],
}

impl View for Discovered {
    type V = Set<Word>;

    closed spec fn view(&self) -> Set<Word> {
        Set::new(
            |word: Word|
                exists|index: int|
                    0 <= index < CATALOG_LEN && self.found@[index] && catalog()[index] == word,
        )
    }
}

/// The test that a word is not in a set.
pub open spec fn absent_from(found: Set<Word>) -> spec_fn(Word) -> bool {
    |word: Word| !found.contains(word)
}

/// The test that a word is in a set.
pub open spec fn present_in(found: Set<Word>) -> spec_fn(Word) -> bool {
    |word: Word| found.contains(word)
}

/// The catalog names that a set lacks, in catalog order.
pub open spec fn missing(found: Set<Word>) -> Seq<Word> {
    catalog().filter(absent_from(found))
}

/// The catalog names that a set holds, in catalog order.
pub open spec fn listed(found: Set<Word>) -> Seq<Word> {
    catalog().filter(present_in(found))
}

/// The set after a word was produced: the word joins it if it is a catalog
/// name, and the set stays as it is otherwise.
pub open spec fn recorded(found: Set<Word>, word: Word) -> Set<Word> {
    if catalog_set().contains(word) {
        found.insert(word)
    } else {
        found
    }
}

impl Discovered {
    /// A mark tells whether the name at its position is in the set.
    proof fn lemma_marks(self)
        ensures
            forall|index: int|
                0 <= index < CATALOG_LEN ==> (self.found@[index] <==> self@.contains(
                    #[trigger] catalog()[index],
                )),
    {
        lemma_names_are_distinct();
    }

    /// The set is finite and holds catalog names only.
    pub proof fn lemma_within_catalog(self)
        ensures
            self@.subset_of(catalog_set()),
            self@.finite(),
            self@.len() <= CATALOG_LEN,
    {
        assert forall|word: Word| self@.contains(word) implies catalog_set().contains(word) by {
            let index = choose|index: int|
                0 <= index < CATALOG_LEN && self.found@[index] && catalog()[index] == word;
            assert(catalog()[index] == word);
        }
        crate::catalog::lemma_catalog_set_size();
        vstd::set_lib::lemma_len_subset(self@, catalog_set());
    }

    /// The empty set.
    pub fn new() -> (discovered: Discovered)
        ensures
            discovered@ == Set::<Word>::empty(),
    {
        let discovered = Discovered { found: [false; 16] };
        assert(discovered@ =~= Set::<Word>::empty());
        discovered
    }

    /// Whether a word is in the set.
    pub fn contains(&self, word: Word) -> (found: bool)
        ensures
            found == self@.contains(word),
    {
        proof {
            self.lemma_marks();
        }
        match position(word) {
            Some(index) => self.found[index],
            None => false,
        }
    }

    /// Records a produced word: a catalog name joins the set, any other word
    /// leaves it as it is. Returns whether the set has grown.
    pub fn insert(&mut self, word: Word) -> (added: bool)
        ensures
            final(self)@ == recorded(old(self)@, word),
            added == (catalog_set().contains(word) && !old(self)@.contains(word)),
    {
        proof {
            self.lemma_marks();
        }
        match position(word) {
            Some(index) => {
                let added = !self.found[index];
                self.found[index] = true;
                assert(self@ =~= old(self)@.insert(word)) by {
                    assert(self.found@[index as int] && catalog()[index as int] == word);
                    assert forall|other: Word| old(self)@.contains(other) implies self@.contains(
                        other,
                    ) by {
                        let at = choose|at: int|
                            0 <= at < CATALOG_LEN && old(self).found@[at] && catalog()[at]
                                == other;
                        assert(self.found@[at] && catalog()[at] == other);
                    }
                }
                added
            },
            None => false,
        }
    }

    /// Whether every catalog name is in the set.
    pub fn is_complete(&self) -> (complete: bool)
        ensures
            complete == (self@ == catalog_set()),
    {
        proof {
            self.lemma_marks();
            self.lemma_within_catalog();
        }
        let mut index: usize = 0;
        while index < CATALOG_LEN
            invariant
                index <= CATALOG_LEN,
                forall|k: int| 0 <= k < index ==> self.found@[k],
            decreases CATALOG_LEN - index,
        {
            if !self.found[index] {
                assert(!self@.contains(catalog()[index as int]));
                assert(catalog_set().contains(catalog()[index as int]));
                return false;
            }
            index += 1;
        }
        assert(self@ =~= catalog_set()) by {
            assert forall|word: Word| catalog_set().contains(word) implies self@.contains(
                word,
            ) by {
                let at = choose|at: int| 0 <= at < catalog().len() && catalog()[at] == word;
                assert(self.found@[at]);
            }
        }
        true
    }

    /// The catalog names that are not in the set yet, in catalog order.
    pub fn missing(&self) -> (names: Vec<Word>)
        ensures
            names@ == missing(self@),
    {
        self.select(false)
    }

    /// The names in the set, in catalog order.
    pub fn words(&self) -> (names: Vec<Word>)
        ensures
            names@ == listed(self@),
    {
        self.select(true)
    }

    /// The catalog names whose mark is `wanted`, in catalog order.
    fn select(&self, wanted: bool) -> (names: Vec<Word>)
        ensures
            wanted ==> names@ == listed(self@),
            !wanted ==> names@ == missing(self@),
    {
        let ghost keep = if wanted {
            present_in(self@)
        } else {
            absent_from(self@)
        };
        proof {
            self.lemma_marks();
        }
        let mut names: Vec<Word> = Vec::new();
        let mut index: usize = 0;
        assert(catalog().take(0).filter(keep) =~= Seq::<Word>::empty()) by {
            reveal(Seq::filter);
        }
        while index < CATALOG_LEN
            invariant
                index <= CATALOG_LEN,
                keep == if wanted {
                    present_in(self@)
                } else {
                    absent_from(self@)
                },
                forall|k: int|
                    0 <= k < CATALOG_LEN ==> (self.found@[k] <==> self@.contains(
                        #[trigger] catalog()[k],
                    )),
                names@ == catalog().take(index as int).filter(keep),
            decreases CATALOG_LEN - index,
        {
            let word = name(index);
            proof {
                assert(catalog().take(index + 1) =~= catalog().take(index as int).push(word));
                catalog().take(index as int).lemma_filter_push(word, keep);
            }
            if self.found[index] == wanted {
                names.push(word);
            }
            index += 1;
        }
        assert(catalog().take(CATALOG_LEN as int) =~= catalog());
        names
    }
}

} // verus!
