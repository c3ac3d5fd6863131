//! The word generator: one step produces either a catalog name that was not
//! produced before or a pseudo-word, and keeps the set of produced names.

use crate::catalog::{catalog, catalog_set, is_name};
use crate::discovered::{absent_from, missing, recorded, Discovered};
use crate::pools::{first_letters, second_letters, synthesize, synthesized, third_letters};
use crate::random::random_usize;
use crate::words::Word;
use vstd::prelude::*;

verus! {

/// One draw in this many takes a name from the catalog.
pub const KNOWN_NAME_ODDS: usize = 4;

/// How a generation step ended.
#[derive(Clone, Copy, Debug, PartialEq, Eq, Structural)]
pub enum Outcome {
    /// A word was produced and the game goes on.
    Continue(Word),
    /// Every catalog name had been produced already: no word this time.
    AllDone,
}

/// The raw draws that decide one generation step. Each is counted round the
/// number of choices at its decision, so any value is a valid draw.
#[derive(Clone, Copy, Debug, PartialEq, Eq, Structural)]
pub struct Draws {
    /// Decides between a catalog name and a pseudo-word.
    pub branch: usize,
    /// Picks among the catalog names not produced yet.
    pub pick: usize,
    /// Picks the first letter of a pseudo-word.
    pub first: usize,
    /// Picks its second letter.
    pub second: usize,
    /// Picks its third letter.
    pub third: usize,
}

/// Whether a step takes its word from the catalog: the branch draw says so
/// and some name is still missing.
pub open spec fn takes_known_name(found: Set<Word>, draws: Draws) -> bool {
    draws.branch as int % KNOWN_NAME_ODDS as int == 0 && missing(found).len() > 0
}

/// The word that a step produces from an incomplete set.
pub open spec fn produced(found: Set<Word>, draws: Draws) -> Word {
    if takes_known_name(found, draws) {
        missing(found)[draws.pick as int % missing(found).len() as int]
    } else {
        synthesized(draws.first, draws.second, draws.third)
    }
}

/// How a step ends.
pub open spec fn outcome_of(found: Set<Word>, draws: Draws) -> Outcome {
    if found == catalog_set() {
        Outcome::AllDone
    } else {
        Outcome::Continue(produced(found, draws))
    }
}

/// The set of produced names after a step.
pub open spec fn found_after(found: Set<Word>, draws: Draws) -> Set<Word> {
    if found == catalog_set() {
        found
    } else {
        recorded(found, produced(found, draws))
    }
}

/// Every missing name is a catalog name that the set lacks.
pub proof fn lemma_missing_names(found: Set<Word>)
    ensures
        forall|k: int|
            0 <= k < missing(found).len() ==> catalog_set().contains(#[trigger] missing(found)[k])
                && !found.contains(missing(found)[k]),
        forall|word: Word|
            catalog_set().contains(word) && !found.contains(word) ==> #[trigger] missing(
                found,
            ).contains(word),
{
    let lacks = absent_from(found);
    assert forall|k: int| 0 <= k < missing(found).len() implies catalog_set().contains(
        #[trigger] missing(found)[k],
    ) && !found.contains(missing(found)[k]) by {
        let word = missing(found)[k];
        assert(missing(found).contains(word));
        catalog().lemma_filter_contains_rev(lacks, word);
    }
    assert forall|word: Word|
        catalog_set().contains(word) && !found.contains(word) implies #[trigger] missing(
            found,
        ).contains(word) by {
        let at = choose|at: int| 0 <= at < catalog().len() && catalog()[at] == word;
        catalog().lemma_filter_contains(lacks, at);
    }
}

/// One generation step with the draws given: what the clock-driven
/// [`generate`] does once its draws are known.
///
/// With every catalog name produced already it ends with `AllDone` and
/// changes nothing. Otherwise it produces a word: where the branch draw is a
/// multiple of four and a name is missing, the missing name that `pick`
/// selects; a pseudo-word from the three letter draws in every other case.
/// A produced word that is a catalog name joins the set.
pub fn generate_with(discovered: &mut Discovered, draws: Draws) -> (outcome: Outcome)
    ensures
        outcome == outcome_of(old(discovered)@, draws),
        final(discovered)@ == found_after(old(discovered)@, draws),
        outcome is AllDone <==> old(discovered)@ == catalog_set(),
        outcome is AllDone ==> *final(discovered) == *old(discovered),
        old(discovered)@.subset_of(final(discovered)@),
        final(discovered)@.subset_of(catalog_set()),
{
    proof {
        discovered.lemma_within_catalog();
    }
    if discovered.is_complete() {
        return Outcome::AllDone;
    }
    if draws.branch % KNOWN_NAME_ODDS == 0 {
        let available = discovered.missing();
        if available.len() > 0 {
            let word = available[draws.pick % available.len()];
            proof {
                lemma_missing_names(discovered@);
            }
            discovered.insert(word);
            return Outcome::Continue(word);
        }
    }
    let word = synthesize(draws.first, draws.second, draws.third);
    if is_name(word) {
        discovered.insert(word);
    }
    Outcome::Continue(word)
}

/// One generation step, its draws taken from the clock.
///
/// The step is the one that [`generate_with`] makes for some draws: which
/// draws, the clock decides. Whatever they are, the step ends with `AllDone`
/// exactly when every catalog name had been produced, and then changes
/// nothing.
pub fn generate(discovered: &mut Discovered) -> (outcome: Outcome)
    ensures
        exists|draws: Draws|
            outcome == #[trigger] outcome_of(old(discovered)@, draws) && final(discovered)@
                == found_after(old(discovered)@, draws),
        outcome is AllDone <==> old(discovered)@ == catalog_set(),
        outcome is AllDone ==> *final(discovered) == *old(discovered),
        old(discovered)@.subset_of(final(discovered)@),
        final(discovered)@.subset_of(catalog_set()),
{
    if discovered.is_complete() {
        let ghost any = Draws { branch: 0, pick: 0, first: 0, second: 0, third: 0 };
        assert(Outcome::AllDone == outcome_of(discovered@, any));
        return Outcome::AllDone;
    }
    let branch = random_usize(KNOWN_NAME_ODDS);
    let available = if branch == 0 {
        discovered.missing().len()
    } else {
        0
    };
    let draws = if available > 0 {
        Draws { branch, pick: random_usize(available), first: 0, second: 0, third: 0 }
    } else {
        Draws {
            branch,
            pick: 0,
            first: random_usize(first_letters().len()),
            second: random_usize(second_letters().len()),
            third: random_usize(third_letters().len()),
        }
    };
    generate_with(discovered, draws)
}

/// A step never leads out of the catalog: if the produced names were catalog
/// names before it, they are after it.
pub proof fn lemma_step_stays_within_catalog(found: Set<Word>, draws: Draws)
    requires
        found.subset_of(catalog_set()),
    ensures
        found_after(found, draws).subset_of(catalog_set()),
{
}

/// A step ends with `AllDone` exactly when the produced names are the whole
/// catalog, in whatever order they came; the set is then left as it was.
pub proof fn lemma_all_done_iff_complete(found: Set<Word>, draws: Draws)
    ensures
        outcome_of(found, draws) is AllDone <==> found == catalog_set(),
        found == catalog_set() ==> found_after(found, draws) == found,
{
}

/// A step loses no name and adds at most the word it produced.
pub proof fn lemma_step_grows_by_at_most_one(found: Set<Word>, draws: Draws)
    requires
        found.finite(),
    ensures
        found.subset_of(found_after(found, draws)),
        found_after(found, draws).subset_of(found.insert(produced(found, draws))),
        found_after(found, draws).finite(),
        found.len() <= found_after(found, draws).len() <= found.len() + 1,
{
    let word = produced(found, draws);
    if found_after(found, draws) != found {
        assert(found_after(found, draws) == found.insert(word));
    }
}

/// Recording a word a second time changes nothing: a catalog name is in the
/// set after it was recorded once, and once only, however often it is
/// produced; a word that is no catalog name is never in it.
pub proof fn lemma_recording_is_idempotent(found: Set<Word>, word: Word)
    requires
        found.finite(),
    ensures
        recorded(recorded(found, word), word) == recorded(found, word),
        catalog_set().contains(word) ==> recorded(found, word).contains(word),
        found.contains(word) ==> recorded(found, word) == found,
        !catalog_set().contains(word) ==> recorded(found, word) == found,
        recorded(found, word).len() == found.len() + if catalog_set().contains(word)
            && !found.contains(word) {
            1nat
        } else {
            0nat
        },
{
    if found.contains(word) {
        assert(found.insert(word) =~= found);
    }
    assert(recorded(found, word).insert(word) =~= found.insert(word));
}

/// While a set of catalog names is not the whole catalog, a name is missing:
/// a step whose branch draw asks for a catalog name always finds one.
pub proof fn lemma_incomplete_set_lacks_a_name(found: Set<Word>, draws: Draws)
    requires
        found.subset_of(catalog_set()),
        found != catalog_set(),
    ensures
        missing(found).len() > 0,
        takes_known_name(found, draws) <==> draws.branch as int % KNOWN_NAME_ODDS as int == 0,
        takes_known_name(found, draws) ==> catalog_set().contains(produced(found, draws))
            && !found.contains(produced(found, draws)),
{
    lemma_missing_names(found);
    if forall|word: Word| catalog_set().contains(word) ==> found.contains(word) {
        assert(found =~= catalog_set());
    }
    let word = choose|word: Word| catalog_set().contains(word) && !found.contains(word);
    assert(missing(found).contains(word));
}

/// Where one name only is missing, a step that takes its word from the
/// catalog produces that name, whatever the other draws are, and completes
/// the set.
pub proof fn lemma_last_missing_name_is_selected(found: Set<Word>, draws: Draws)
    requires
        found.subset_of(catalog_set()),
        missing(found).len() == 1,
        draws.branch as int % KNOWN_NAME_ODDS as int == 0,
    ensures
        outcome_of(found, draws) == Outcome::Continue(missing(found)[0]),
        found_after(found, draws) == catalog_set(),
{
    lemma_missing_names(found);
    let last = missing(found)[0];
    assert(!found.contains(last));
    assert(found_after(found, draws) =~= catalog_set()) by {
        assert forall|word: Word| catalog_set().contains(word) implies found.insert(
            last,
        ).contains(word) by {
            if !found.contains(word) {
                assert(missing(found).contains(word));
            }
        }
    }
}

} // verus!
