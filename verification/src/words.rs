//! Three-letter words.

use vstd::prelude::*;

verus! {

/// A word of exactly three letters.
///
/// Its view is the text it spells: the three letters in order.
#[derive(Clone, Copy, Debug, PartialEq, Eq, Hash, Structural)]
pub struct Word {
    pub first: char,
    pub second: char,
    pub third: char,
}

impl View for Word {
    type V = Seq<char>;

    open spec fn view(&self) -> Seq<char> {
        seq![self.first, self.second, self.third]
    }
}

/// `String::push` of std appends one character to the end of the string and
/// leaves what was there before in place.
pub assume_specification[ String::push ](text: &mut String, ch: char)
    ensures
        final(text)@ == old(text)@.push(ch),
;

impl Word {
    pub fn new(first: char, second: char, third: char) -> (word: Word)
        ensures
            word == (Word { first, second, third }),
    {
        Word { first, second, third }
    }

    /// Reads a word from text: `Some` exactly when the text has three
    /// characters, and then the word spells that text.
    pub fn parse(text: &str) -> (word: Option<Word>)
        ensures
            word is Some <==> text@.len() == 3,
            word matches Some(w) ==> w@ == text@,
    {
        if text.unicode_len() != 3 {
            return None;
        }
        let word = Word {
            first: text.get_char(0),
            second: text.get_char(1),
            third: text.get_char(2),
        };
        assert(word@ =~= text@);
        Some(word)
    }

    /// The word as an owned string.
    pub fn text(&self) -> (text: String)
        ensures
            text@ == self@,
    {
        let mut text = String::new();
        text.push(self.first);
        text.push(self.second);
        text.push(self.third);
        assert(text@ =~= self@);
        text
    }

    /// A word always spells three characters.
    pub proof fn lemma_three_letters(self)
        ensures
            self@.len() == 3,
            self@[0] == self.first,
            self@[1] == self.second,
            self@[2] == self.third,
    {
    }

    /// Two words spell the same text only if they are the same word.
    pub proof fn lemma_spelling_is_injective(self, other: Word)
        ensures
            self@ == other@ <==> self == other,
    {
        if self@ == other@ {
            assert(self@[0] == other@[0]);
            assert(self@[1] == other@[1]);
            assert(self@[2] == other@[2]);
        }
    }
}

} // verus!
