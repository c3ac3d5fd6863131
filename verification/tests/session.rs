use animal_words::catalog::CATALOG_LEN;
use animal_words::generator::{Draws, Outcome};
use animal_words::session::{
    is_exit, Session, COMPLETION_NOTICE, EXIT_COMMAND, EXIT_NOTICE, PROMPT,
};
use animal_words::words::Word;

fn word(text: &str) -> Word {
    Word::parse(text).unwrap()
}

fn known(pick: usize) -> Draws {
    Draws { branch: 0, pick, first: 0, second: 0, third: 0 }
}

fn pseudo(first: usize, second: usize, third: usize) -> Draws {
    Draws { branch: 1, pick: 0, first, second, third }
}

#[test]
fn texts_shown_to_the_player() {
    assert_eq!(COMPLETION_NOTICE, "All Done!");
    assert_eq!(EXIT_NOTICE, "OK!");
    assert_eq!(EXIT_COMMAND, "exit");
    assert_eq!(PROMPT, "Press Enter to continue (or type 'exit' to quit): ");
}

#[test]
fn exit_is_recognised() {
    assert!(is_exit("exit"));
}

#[test]
fn exit_with_surrounding_whitespace_is_recognised() {
    assert!(is_exit("  exit\n"));
    assert!(is_exit("exit\r\n"));
    assert!(is_exit("\t exit \t"));
    assert!(is_exit("\u{a0}exit\u{3000}"));
    assert!(is_exit("\u{2003}exit\u{85}"));
}

#[test]
fn other_answers_do_not_exit() {
    assert!(!is_exit("Exit"));
    assert!(!is_exit("exit now"));
    assert!(!is_exit(""));
    assert!(!is_exit("\n"));
    assert!(!is_exit("   "));
    assert!(!is_exit("EXIT"));
    assert!(!is_exit("ex it"));
    assert!(!is_exit("exi"));
    assert!(!is_exit("exits"));
    assert!(!is_exit("quit"));
    assert!(!is_exit("_exit_"));
    assert!(!is_exit("\u{200b}exit"));
}

#[test]
fn new_session_runs_with_nothing_found() {
    let session = Session::new();
    assert!(session.is_running());
    assert!(session.discovered().words().is_empty());
}

#[test]
fn exit_answer_ends_the_session() {
    let mut session = Session::new();
    assert_eq!(session.advance_with(pseudo(9, 2, 0)), Some(Outcome::Continue(word("tap"))));
    assert!(session.answer("  exit\n"));
    assert!(!session.is_running());
}

#[test]
fn other_answers_keep_the_session_running() {
    let mut session = Session::new();
    for answer in ["Exit", "exit now", "", "\n", "yes"] {
        assert!(session.advance_with(pseudo(9, 2, 0)).is_some());
        assert!(!session.answer(answer));
        assert!(session.is_running());
    }
}

#[test]
fn answers_leave_the_found_names_alone() {
    let mut session = Session::new();
    session.advance_with(known(0));
    session.answer("\n");
    assert_eq!(session.discovered().words(), vec![word("pup")]);
    session.answer("exit");
    assert_eq!(session.discovered().words(), vec![word("pup")]);
}

#[test]
fn session_ends_when_every_name_was_found() {
    let mut session = Session::new();
    for step in 0..CATALOG_LEN {
        let turn = session.advance_with(known(step));
        assert!(matches!(turn, Some(Outcome::Continue(_))));
        assert!(session.is_running());
        assert_eq!(session.discovered().words().len(), step + 1);
        assert!(!session.answer("\n"));
    }
    assert!(session.discovered().is_complete());
    assert_eq!(session.advance_with(known(0)), Some(Outcome::AllDone));
    assert!(!session.is_running());
    assert!(session.discovered().is_complete());
}

#[test]
fn finished_session_makes_no_further_turn() {
    let mut session = Session::new();
    session.advance_with(known(3));
    assert!(session.answer("exit"));
    let found = session.discovered().words();
    assert_eq!(session.advance_with(known(0)), None);
    assert_eq!(session.advance(), None);
    assert!(!session.is_running());
    assert_eq!(session.discovered().words(), found);
    assert!(!session.answer("go on"));
    assert!(!session.is_running());
}

#[test]
fn clock_driven_session_runs_to_completion() {
    let mut session = Session::new();
    let mut turns = 0;
    while session.is_running() {
        let complete = session.discovered().is_complete();
        match session.advance() {
            Some(Outcome::AllDone) => assert!(complete),
            Some(Outcome::Continue(_)) => {
                assert!(!complete);
                assert!(!session.answer("\n"));
            }
            None => unreachable!(),
        }
        turns += 1;
        assert!(turns < 10_000_000);
    }
    assert!(session.discovered().is_complete());
}
