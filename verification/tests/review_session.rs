use spaced::session::{command_for, Change, Command, Outcome, Redraw, Session};

#[test]
fn session_starts_on_the_first_card() {
    let session = Session::new(vec![4, 5, 6]);
    assert_eq!(session.front(), Some(4));
    assert_eq!(session.queue(), &vec![4, 5, 6]);
    assert_eq!(session.side_index(), 0);
    assert_eq!(session.remembered_count(), 0);
    assert_eq!(session.forgotten_count(), 0);
    assert_eq!(session.incomplete(), 3);
    assert_eq!(session.undo_depth(), 0);
    assert!(!session.is_finished());
}

#[test]
fn session_on_nothing_is_over() {
    let mut session = Session::new(Vec::new());
    assert!(session.is_finished());
    assert_eq!(session.front(), None);
    let outcome = session.step(Command::Advance, 1);
    assert_eq!(outcome, Outcome { change: Change::Nothing, redraw: Redraw::Nothing });
    assert_eq!(session.remembered_count(), 0);
}

#[test]
fn advance_shows_the_next_side_first() {
    let mut session = Session::new(vec![1, 2]);
    let outcome = session.step(Command::Advance, 3);
    assert_eq!(outcome, Outcome { change: Change::Nothing, redraw: Redraw::Card });
    assert_eq!(session.side_index(), 1);
    let outcome = session.step(Command::Advance, 3);
    assert_eq!(outcome, Outcome { change: Change::Nothing, redraw: Redraw::Card });
    assert_eq!(session.side_index(), 2);
    assert_eq!(session.queue(), &vec![1, 2]);
    let outcome = session.step(Command::Advance, 3);
    assert_eq!(
        outcome,
        Outcome { change: Change::Mark { card: 1, remembered: true }, redraw: Redraw::Reload }
    );
    assert_eq!(session.side_index(), 0);
    assert_eq!(session.queue(), &vec![2]);
    assert_eq!(session.remembered_count(), 1);
}

#[test]
fn three_cards_remembered_skipped_forgotten() {
    let mut session = Session::new(vec![1, 2, 3]);
    let first = session.step(Command::Advance, 1);
    assert_eq!(first.change, Change::Mark { card: 1, remembered: true });
    let second = session.step(Command::Skip, 1);
    assert_eq!(second.change, Change::Nothing);
    assert_eq!(session.queue(), &vec![3, 2]);
    let third = session.step(Command::Forgot, 1);
    assert_eq!(third.change, Change::Mark { card: 3, remembered: false });
    assert_eq!(session.queue(), &vec![2, 3]);
    assert_eq!(session.remembered_count(), 1);
    assert_eq!(session.forgotten_count(), 1);
    assert!(!session.is_finished());
}

#[test]
fn archiving_the_last_card_ends_the_session() {
    let mut session = Session::new(vec![9]);
    let outcome = session.step(Command::Archive, 2);
    assert_eq!(
        outcome,
        Outcome { change: Change::Archive { card: 9, archived: true }, redraw: Redraw::Nothing }
    );
    assert!(session.is_finished());
    assert_eq!(session.incomplete(), 0);
    assert_eq!(session.remembered_count(), 0);
    assert_eq!(session.forgotten_count(), 0);
}

#[test]
fn remembering_the_last_card_ends_the_session() {
    let mut session = Session::new(vec![9]);
    let outcome = session.step(Command::Advance, 1);
    assert_eq!(
        outcome,
        Outcome { change: Change::Mark { card: 9, remembered: true }, redraw: Redraw::Nothing }
    );
    assert!(session.is_finished());
    let after = session.step(Command::Undo, 1);
    assert_eq!(after, Outcome { change: Change::Nothing, redraw: Redraw::Nothing });
    assert_eq!(session.remembered_count(), 1);
}

#[test]
fn undo_takes_a_recall_back() {
    let mut session = Session::new(vec![1, 2, 3]);
    session.step(Command::Advance, 2);
    session.step(Command::Advance, 2);
    assert_eq!(session.queue(), &vec![2, 3]);
    assert_eq!(session.remembered_count(), 1);
    session.step(Command::Advance, 2);
    assert_eq!(session.side_index(), 1);
    let outcome = session.step(Command::Undo, 2);
    assert_eq!(outcome, Outcome { change: Change::Unmark { card: 1 }, redraw: Redraw::Reload });
    assert_eq!(session.queue(), &vec![1, 2, 3]);
    assert_eq!(session.remembered_count(), 0);
    assert_eq!(session.side_index(), 0);
    assert_eq!(session.undo_depth(), 0);
}

#[test]
fn undo_takes_a_lapse_back() {
    let mut session = Session::new(vec![1, 2, 3]);
    session.step(Command::Forgot, 1);
    assert_eq!(session.queue(), &vec![2, 3, 1]);
    assert_eq!(session.forgotten_count(), 1);
    let outcome = session.step(Command::Undo, 1);
    assert_eq!(outcome, Outcome { change: Change::Unmark { card: 1 }, redraw: Redraw::Reload });
    assert_eq!(session.queue(), &vec![1, 2, 3]);
    assert_eq!(session.forgotten_count(), 0);
}

#[test]
fn undo_takes_a_skip_and_an_archiving_back() {
    let mut session = Session::new(vec![1, 2, 3]);
    session.step(Command::Skip, 1);
    session.step(Command::Archive, 1);
    assert_eq!(session.queue(), &vec![3, 1]);
    let outcome = session.step(Command::Undo, 1);
    assert_eq!(
        outcome,
        Outcome { change: Change::Archive { card: 2, archived: false }, redraw: Redraw::Reload }
    );
    assert_eq!(session.queue(), &vec![2, 3, 1]);
    let outcome = session.step(Command::Undo, 1);
    assert_eq!(outcome, Outcome { change: Change::Nothing, redraw: Redraw::Reload });
    assert_eq!(session.queue(), &vec![1, 2, 3]);
    let outcome = session.step(Command::Undo, 1);
    assert_eq!(outcome, Outcome { change: Change::Nothing, redraw: Redraw::Nothing });
    assert_eq!(session.queue(), &vec![1, 2, 3]);
}

#[test]
fn undo_goes_back_through_several_actions() {
    let mut session = Session::new(vec![1, 2, 3]);
    session.step(Command::Forgot, 1);
    session.step(Command::Advance, 1);
    assert_eq!(session.queue(), &vec![3, 1]);
    let outcome = session.step(Command::Undo, 1);
    assert_eq!(outcome.change, Change::Unmark { card: 2 });
    let outcome = session.step(Command::Undo, 1);
    assert_eq!(outcome.change, Change::Unmark { card: 1 });
    assert_eq!(session.queue(), &vec![1, 2, 3]);
    assert_eq!(session.remembered_count(), 0);
    assert_eq!(session.forgotten_count(), 0);
}

#[test]
fn edit_and_resize_and_quit() {
    let mut session = Session::new(vec![7, 8]);
    session.step(Command::Advance, 2);
    let outcome = session.step(Command::Resize, 2);
    assert_eq!(outcome, Outcome { change: Change::Nothing, redraw: Redraw::Screen });
    assert_eq!(session.side_index(), 1);
    let outcome = session.step(Command::Edit, 2);
    assert_eq!(outcome, Outcome { change: Change::Edit { card: 7 }, redraw: Redraw::Reload });
    assert_eq!(session.side_index(), 0);
    assert_eq!(session.queue(), &vec![7, 8]);
    let outcome = session.step(Command::Quit, 2);
    assert_eq!(outcome, Outcome { change: Change::Nothing, redraw: Redraw::Nothing });
    assert!(session.is_finished());
    assert_eq!(session.queue(), &vec![7, 8]);
    let outcome = session.step(Command::Forgot, 2);
    assert_eq!(outcome, Outcome { change: Change::Nothing, redraw: Redraw::Nothing });
    assert_eq!(session.forgotten_count(), 0);
}

#[test]
fn skipping_the_only_card_keeps_it_in_front() {
    let mut session = Session::new(vec![5]);
    session.step(Command::Advance, 2);
    let outcome = session.step(Command::Skip, 2);
    assert_eq!(outcome.redraw, Redraw::Reload);
    assert_eq!(session.queue(), &vec![5]);
    assert_eq!(session.side_index(), 0);
}

#[test]
fn keys_and_their_commands() {
    assert_eq!(command_for(' '), Some(Command::Advance));
    assert_eq!(command_for('f'), Some(Command::Forgot));
    assert_eq!(command_for('s'), Some(Command::Skip));
    assert_eq!(command_for('l'), Some(Command::Skip));
    assert_eq!(command_for('a'), Some(Command::Archive));
    assert_eq!(command_for('u'), Some(Command::Undo));
    assert_eq!(command_for('e'), Some(Command::Edit));
    assert_eq!(command_for('q'), Some(Command::Quit));
    assert_eq!(command_for('x'), None);
    assert_eq!(command_for('Q'), None);
}
