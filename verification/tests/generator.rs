use animal_words::catalog::{is_name, name, CATALOG_LEN};
use animal_words::discovered::Discovered;
use animal_words::generator::{generate, generate_with, Draws, Outcome, KNOWN_NAME_ODDS};
use animal_words::pools::{first_letters, second_letters, third_letters};
use animal_words::words::Word;

fn word(text: &str) -> Word {
    Word::parse(text).unwrap()
}

fn texts(words: Vec<Word>) -> Vec<String> {
    words.iter().map(|w| w.text()).collect()
}

fn full() -> Discovered {
    let mut set = Discovered::new();
    for index in 0..CATALOG_LEN {
        set.insert(name(index));
    }
    set
}

fn all_but(left_out: &str) -> Discovered {
    let mut set = Discovered::new();
    for index in 0..CATALOG_LEN {
        if name(index) != word(left_out) {
            set.insert(name(index));
        }
    }
    set
}

fn draws(branch: usize, pick: usize, first: usize, second: usize, third: usize) -> Draws {
    Draws { branch, pick, first, second, third }
}

#[test]
fn one_draw_in_four_takes_a_name() {
    assert_eq!(KNOWN_NAME_ODDS, 4);
}

#[test]
fn full_set_gives_all_done_and_stays_as_it_is() {
    let mut set = full();
    for branch in 0..8 {
        assert_eq!(generate_with(&mut set, draws(branch, 3, 1, 2, 3)), Outcome::AllDone);
        assert!(set.is_complete());
        assert_eq!(set.words().len(), CATALOG_LEN);
    }
}

#[test]
fn clock_driven_step_on_full_set_gives_all_done() {
    let mut set = full();
    for _ in 0..20 {
        assert_eq!(generate(&mut set), Outcome::AllDone);
        assert!(set.is_complete());
    }
}

#[test]
fn last_missing_name_is_selected_whatever_the_pick() {
    for pick in [0usize, 1, 2, 7, 15, 16, 1000, usize::MAX] {
        let mut set = all_but("owl");
        let outcome = generate_with(&mut set, draws(0, pick, 5, 3, 2));
        assert_eq!(outcome, Outcome::Continue(word("owl")));
        assert!(set.is_complete());
    }
}

#[test]
fn branch_draw_counts_round_four() {
    for branch in [0usize, 4, 8, 400] {
        let mut set = all_but("owl");
        assert_eq!(generate_with(&mut set, draws(branch, 0, 9, 2, 0)), Outcome::Continue(word("owl")));
    }
    for branch in [1usize, 2, 3, 5, 7, 401] {
        let mut set = all_but("owl");
        assert_eq!(generate_with(&mut set, draws(branch, 0, 9, 2, 0)), Outcome::Continue(word("tap")));
        assert!(!set.is_complete());
    }
}

#[test]
fn known_branch_picks_among_missing_names_in_catalog_order() {
    let mut set = Discovered::new();
    assert_eq!(generate_with(&mut set, draws(0, 0, 0, 0, 0)), Outcome::Continue(word("pup")));
    assert_eq!(generate_with(&mut set, draws(0, 0, 0, 0, 0)), Outcome::Continue(word("dog")));
    assert_eq!(generate_with(&mut set, draws(0, 13, 0, 0, 0)), Outcome::Continue(word("bee")));
    assert_eq!(generate_with(&mut set, draws(0, 13, 0, 0, 0)), Outcome::Continue(word("cat")));
    assert_eq!(texts(set.words()), vec!["pup", "dog", "cat", "bee"]);
}

#[test]
fn synthesized_word_outside_the_catalog_changes_nothing() {
    let mut set = Discovered::new();
    let outcome = generate_with(&mut set, draws(1, 0, 9, 2, 0));
    assert_eq!(outcome, Outcome::Continue(word("tap")));
    assert!(set.words().is_empty());
}

#[test]
fn synthesized_catalog_name_is_recorded_once() {
    let mut set = Discovered::new();
    for _ in 0..3 {
        let outcome = generate_with(&mut set, draws(1, 0, 0, 0, 0));
        assert_eq!(outcome, Outcome::Continue(word("pup")));
        assert_eq!(texts(set.words()), vec!["pup"]);
        assert_eq!(set.missing().len(), CATALOG_LEN - 1);
    }
}

#[test]
fn synthesis_may_repeat_a_name_already_found() {
    let mut set = Discovered::new();
    set.insert(word("cow"));
    let outcome = generate_with(&mut set, draws(3, 0, 2, 1, 6));
    assert_eq!(outcome, Outcome::Continue(word("cow")));
    assert_eq!(texts(set.words()), vec!["cow"]);
}

#[test]
fn every_step_keeps_the_set_within_the_catalog_and_growing() {
    let mut set = Discovered::new();
    let mut seed: usize = 12345;
    let mut next = || {
        seed = seed.wrapping_mul(6364136223846793005).wrapping_add(1442695040888963407);
        seed >> 33
    };
    for _ in 0..2000 {
        let before = set.words();
        let complete = set.is_complete();
        let outcome = generate_with(&mut set, draws(next(), next(), next(), next(), next()));
        let after = set.words();
        assert_eq!(outcome == Outcome::AllDone, complete);
        assert!(after.iter().all(|w| is_name(*w)));
        assert!(before.iter().all(|w| after.contains(w)));
        assert!(after.len() <= before.len() + 1);
        match outcome {
            Outcome::AllDone => assert_eq!(before, after),
            Outcome::Continue(produced) => {
                assert_eq!(after.len() > before.len(), is_name(produced) && !before.contains(&produced));
                assert_eq!(set.contains(produced), is_name(produced));
            }
        }
    }
}

#[test]
fn clock_driven_steps_end_with_all_done() {
    let mut set = Discovered::new();
    let firsts = first_letters();
    let seconds = second_letters();
    let thirds = third_letters();
    let mut steps = 0;
    loop {
        let before = set.words();
        let complete = set.is_complete();
        match generate(&mut set) {
            Outcome::AllDone => {
                assert!(complete);
                assert_eq!(set.words(), before);
                break;
            }
            Outcome::Continue(produced) => {
                assert!(!complete);
                assert!(firsts.contains(&produced.first));
                assert!(thirds.contains(&produced.third));
                if before.contains(&produced) || !is_name(produced) {
                    assert_eq!(set.words(), before);
                    assert!(seconds.contains(&produced.second) || is_name(produced));
                } else {
                    assert_eq!(set.words().len(), before.len() + 1);
                    assert!(set.contains(produced));
                }
            }
        }
        steps += 1;
        assert!(steps < 10_000_000);
    }
    assert!(set.is_complete());
}
