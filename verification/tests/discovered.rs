use animal_words::catalog::{name, CATALOG_LEN};
use animal_words::discovered::Discovered;
use animal_words::words::Word;

fn word(text: &str) -> Word {
    Word::parse(text).unwrap()
}

fn texts(words: Vec<Word>) -> Vec<String> {
    words.iter().map(|w| w.text()).collect()
}

#[test]
fn new_set_is_empty() {
    let set = Discovered::new();
    assert!(set.words().is_empty());
    assert_eq!(set.missing().len(), CATALOG_LEN);
    assert!(!set.is_complete());
    assert!(!set.contains(word("owl")));
}

#[test]
fn insert_adds_a_catalog_name() {
    let mut set = Discovered::new();
    assert!(set.insert(word("owl")));
    assert!(set.contains(word("owl")));
    assert!(!set.contains(word("bee")));
    assert_eq!(texts(set.words()), vec!["owl"]);
}

#[test]
fn insert_is_idempotent() {
    let mut set = Discovered::new();
    assert!(set.insert(word("cat")));
    assert!(!set.insert(word("cat")));
    assert!(!set.insert(word("cat")));
    assert_eq!(texts(set.words()), vec!["cat"]);
    assert_eq!(set.missing().len(), CATALOG_LEN - 1);
}

#[test]
fn insert_ignores_words_outside_the_catalog() {
    let mut set = Discovered::new();
    assert!(!set.insert(word("zzz")));
    assert!(!set.insert(word("tap")));
    assert!(!set.contains(word("zzz")));
    assert!(set.words().is_empty());
}

#[test]
fn words_and_missing_follow_catalog_order() {
    let mut set = Discovered::new();
    set.insert(word("owl"));
    set.insert(word("dog"));
    set.insert(word("fly"));
    assert_eq!(texts(set.words()), vec!["dog", "fly", "owl"]);
    assert_eq!(
        texts(set.missing()),
        vec!["pup", "cat", "rat", "fox", "hen", "bug", "ant", "pig", "bat", "cow", "hog", "ape",
             "bee"]
    );
}

#[test]
fn set_is_complete_with_all_sixteen_names() {
    let mut set = Discovered::new();
    for index in 0..CATALOG_LEN {
        assert!(!set.is_complete());
        assert!(set.insert(name(index)));
    }
    assert!(set.is_complete());
    assert!(set.missing().is_empty());
    assert_eq!(set.words().len(), CATALOG_LEN);
}

#[test]
fn completeness_does_not_depend_on_insertion_order() {
    let mut set = Discovered::new();
    for index in (0..CATALOG_LEN).rev() {
        set.insert(name(index));
    }
    assert!(set.is_complete());
}

#[test]
fn set_without_owl_is_not_complete() {
    let mut set = Discovered::new();
    for index in 0..CATALOG_LEN {
        if name(index) != word("owl") {
            set.insert(name(index));
        }
    }
    assert!(!set.is_complete());
    assert_eq!(texts(set.missing()), vec!["owl"]);
}
