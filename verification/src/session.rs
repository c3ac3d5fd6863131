//! The session: the rules by which a game goes on or ends.
//!
//! A session is `Running` until every catalog name was produced or the
//! player asks to leave; then it is `Done`, and stays so. The caller shows
//! what a step produced, reads the player's answer and hands it back.

use crate::catalog::catalog_set;
use crate::discovered::Discovered;
use crate::generator::{found_after, generate, generate_with, outcome_of, Draws, Outcome};
use crate::words::Word;
use vstd::prelude::*;

verus! {

/// What the player types to leave.
pub const EXIT_COMMAND: &'static str = "exit";

/// Shown when every catalog name was produced.
pub const COMPLETION_NOTICE: &'static str = "All Done!";

/// Shown when the player has asked to leave.
pub const EXIT_NOTICE: &'static str = "OK!";

/// Shown after each word, before the player's answer is read.
pub const PROMPT: &'static str = "Press Enter to continue (or type 'exit' to quit): ";

/// Whether a session still goes on.
#[derive(Clone, Copy, Debug, PartialEq, Eq, Structural)]
pub enum Phase {
    Running,
    Done,
}

/// The characters that count as white space: those with the Unicode property
/// White_Space.
pub open spec fn is_white_space(c: char) -> bool {
    let code = c as u32;
    ||| 0x09 <= code <= 0x0d
    ||| code == 0x20
    ||| code == 0x85
    ||| code == 0xa0
    ||| code == 0x1680
    ||| 0x2000 <= code <= 0x200a
    ||| code == 0x2028
    ||| code == 0x2029
    ||| code == 0x202f
    ||| code == 0x205f
    ||| code == 0x3000
}

/// The text without the white space at its start.
pub open spec fn trimmed_start(text: Seq<char>) -> Seq<char>
    decreases text.len(),
{
    if text.len() > 0 && is_white_space(text.first()) {
        trimmed_start(text.drop_first())
    } else {
        text
    }
}

/// The text without the white space at its end.
pub open spec fn trimmed_end(text: Seq<char>) -> Seq<char>
    decreases text.len(),
{
    if text.len() > 0 && is_white_space(text.last()) {
        trimmed_end(text.drop_last())
    } else {
        text
    }
}

/// The text without the white space at its start and at its end.
pub open spec fn trimmed(text: Seq<char>) -> Seq<char> {
    trimmed_end(trimmed_start(text))
}

/// Whether an answer asks to leave: it is the exit command, with nothing but
/// white space before and after it.
pub open spec fn asks_to_leave(answer: Seq<char>) -> bool {
    trimmed(answer) == EXIT_COMMAND@
}

/// The exit command itself asks to leave.
pub proof fn lemma_exit_command_asks_to_leave()
    ensures
        asks_to_leave(EXIT_COMMAND@),
{
    reveal_strlit("exit");
    let command = EXIT_COMMAND@;
    assert(!is_white_space(command.first()));
    assert(!is_white_space(command.last()));
}

/// White space in front of an answer does not change what it asks.
pub proof fn lemma_leading_white_space_is_ignored(c: char, answer: Seq<char>)
    requires
        is_white_space(c),
    ensures
        trimmed(seq![c] + answer) == trimmed(answer),
        asks_to_leave(seq![c] + answer) == asks_to_leave(answer),
{
    let padded = seq![c] + answer;
    assert(padded.first() == c);
    assert(padded.drop_first() =~= answer);
}

/// White space behind an answer does not change what it asks.
pub proof fn lemma_trailing_white_space_is_ignored(answer: Seq<char>, c: char)
    requires
        is_white_space(c),
    ensures
        trimmed(answer.push(c)) == trimmed(answer),
        asks_to_leave(answer.push(c)) == asks_to_leave(answer),
{
    lemma_trimmed_start_of_padded(answer, c);
    let start = trimmed_start(answer);
    if start.len() > 0 {
        assert(start.push(c).last() == c);
        assert(start.push(c).drop_last() =~= start);
    }
}

/// Trimming the start of an answer with one white space behind it: what is
/// left of the answer keeps that white space, unless nothing is left.
proof fn lemma_trimmed_start_of_padded(answer: Seq<char>, c: char)
    requires
        is_white_space(c),
    ensures
        trimmed_start(answer.push(c)) == if trimmed_start(answer).len() == 0 {
            Seq::<char>::empty()
        } else {
            trimmed_start(answer).push(c)
        },
    decreases answer.len(),
{
    let padded = answer.push(c);
    if answer.len() == 0 {
        assert(padded.first() == c);
        assert(padded.drop_first() =~= Seq::<char>::empty());
        assert(trimmed_start(padded.drop_first()) =~= Seq::<char>::empty());
    } else {
        assert(padded.first() == answer.first());
        if is_white_space(answer.first()) {
            assert(padded.drop_first() =~= answer.drop_first().push(c));
            lemma_trimmed_start_of_padded(answer.drop_first(), c);
        }
    }
}

/// `str::trim` of std returns the slice that is left when the leading and the
/// trailing white space are removed, white space being the characters with the
/// Unicode property White_Space.
#[verifier::external_body]
fn trim(text: &str) -> (inner: &str)
    ensures
        inner@ == trimmed(text@),
{
    text.trim()
}

/// Whether the player's answer asks to leave.
pub fn is_exit(answer: &str) -> (leave: bool)
    ensures
        leave == asks_to_leave(answer@),
{
    let inner = trim(answer);
    proof {
        reveal_strlit("exit");
    }
    if inner.unicode_len() != 4 {
        return false;
    }
    let leave = inner.get_char(0) == 'e' && inner.get_char(1) == 'x' && inner.get_char(2) == 'i'
        && inner.get_char(3) == 't';
    assert(leave ==> inner@ =~= EXIT_COMMAND@);
    leave
}

/// A game in progress: the names produced so far and whether it goes on.
#[derive(Clone, Copy, Debug)]
pub struct Session {
    discovered: Discovered,
    phase: Phase,
}

impl Session {
    /// The names produced so far.
    pub closed spec fn found(&self) -> Set<Word> {
        self.discovered@
    }

    /// Whether the session goes on.
    pub closed spec fn phase(&self) -> Phase {
        self.phase
    }

    /// A session at its start: running, with no name produced.
    pub fn new() -> (session: Session)
        ensures
            session.phase() == Phase::Running,
            session.found() == Set::<Word>::empty(),
    {
        Session { discovered: Discovered::new(), phase: Phase::Running }
    }

    /// Whether the session goes on.
    pub fn is_running(&self) -> (running: bool)
        ensures
            running == (self.phase() == Phase::Running),
    {
        self.phase == Phase::Running
    }

    /// The names produced so far.
    pub fn discovered(&self) -> (discovered: &Discovered)
        ensures
            discovered@ == self.found(),
    {
        &self.discovered
    }

    /// One turn with the draws given: what [`Session::advance`] does once its
    /// draws are known.
    ///
    /// A session that is done stays as it is and gives `None`. A running
    /// session makes one generation step and gives its outcome; with `AllDone`
    /// it is done.
    pub fn advance_with(&mut self, draws: Draws) -> (turn: Option<Outcome>)
        ensures
            old(self).phase() == Phase::Done ==> turn is None && *final(self) == *old(self),
            old(self).phase() == Phase::Running ==> turn == Some(
                outcome_of(old(self).found(), draws),
            ) && final(self).found() == found_after(old(self).found(), draws),
            final(self).phase() == Phase::Running <==> turn matches Some(Outcome::Continue(_)),
    {
        if !self.is_running() {
            return None;
        }
        let outcome = generate_with(&mut self.discovered, draws);
        self.conclude(outcome);
        Some(outcome)
    }

    /// One turn, its draws taken from the clock.
    ///
    /// A session that is done stays as it is and gives `None`. A running
    /// session makes the generation step that [`Session::advance_with`] makes
    /// for some draws; it is done afterwards exactly when every catalog name
    /// had been produced before.
    pub fn advance(&mut self) -> (turn: Option<Outcome>)
        ensures
            old(self).phase() == Phase::Done ==> turn is None && *final(self) == *old(self),
            old(self).phase() == Phase::Running ==> exists|draws: Draws|
                turn == Some(#[trigger] outcome_of(old(self).found(), draws))
                    && final(self).found() == found_after(old(self).found(), draws),
            old(self).phase() == Phase::Running ==> (final(self).phase() == Phase::Done
                <==> old(self).found() == catalog_set()),
            final(self).phase() == Phase::Running <==> turn matches Some(Outcome::Continue(_)),
    {
        if !self.is_running() {
            return None;
        }
        let ghost before = self.discovered@;
        let outcome = generate(&mut self.discovered);
        let ghost after = self.discovered@;
        self.conclude(outcome);
        proof {
            let draws = choose|draws: Draws|
                outcome == #[trigger] outcome_of(before, draws) && after == found_after(
                    before,
                    draws,
                );
            assert(Some(outcome) == Some(outcome_of(old(self).found(), draws)));
        }
        Some(outcome)
    }

    /// Ends the session where a step found nothing left to produce.
    fn conclude(&mut self, outcome: Outcome)
        ensures
            final(self).found() == old(self).found(),
            final(self).phase() == match outcome {
                Outcome::AllDone => Phase::Done,
                Outcome::Continue(_) => old(self).phase(),
            },
            outcome is Continue ==> *final(self) == *old(self),
    {
        match outcome {
            Outcome::AllDone => {
                self.phase = Phase::Done;
            },
            Outcome::Continue(_) => {},
        }
    }

    /// Takes the player's answer to the prompt: the session is done if the
    /// answer asks to leave, and is as before otherwise. The names produced
    /// stay as they are. Returns whether the answer asked to leave.
    pub fn answer(&mut self, answer: &str) -> (leave: bool)
        ensures
            leave == asks_to_leave(answer@),
            final(self).found() == old(self).found(),
            final(self).phase() == if leave {
                Phase::Done
            } else {
                old(self).phase()
            },
    {
        let leave = is_exit(answer);
        if leave {
            self.phase = Phase::Done;
        }
        leave
    }

    /// In every state of a session the names produced are catalog names.
    pub proof fn lemma_found_within_catalog(self)
        ensures
            self.found().subset_of(catalog_set()),
            self.found().finite(),
    {
        self.discovered.lemma_within_catalog();
    }
}

} // verus!
