//! The review session: a queue of cards, the side of the front card that is
//! shown, and a log of what can be undone.
//!
//! The session decides; it touches no file and no terminal. Each command yields
//! an [`Outcome`] that tells the caller which card's file to change and what to
//! draw again.

use vstd::prelude::*;

verus! {

/// An action of the session that can be taken back.
#[derive(Clone, Copy, Debug, PartialEq, Eq, Structural)]
pub enum UndoItem {
    /// The card was recalled and left the queue.
    MarkRemembered(usize),
    /// The front card was forgotten and went to the back of the queue.
    MarkForgotten,
    /// The card was archived and left the queue.
    MarkArchived(usize),
    /// The front card went to the back of the queue unanswered.
    Skip,
}

/// What the user asks of the session.
#[derive(Clone, Copy, Debug, PartialEq, Eq, Structural)]
pub enum Command {
    /// Show the next side, or, on the last side, count the card as recalled.
    Advance,
    /// Count the front card as forgotten.
    Forgot,
    /// Put the front card off.
    Skip,
    /// Retire the front card.
    Archive,
    /// Take back the last action.
    Undo,
    /// Edit the front card's file.
    Edit,
    /// Leave the session.
    Quit,
    /// The terminal changed its size.
    Resize,
}

/// The command that a key stands for, if it stands for one.
pub open spec fn command_of(key: char) -> Option<Command> {
    if key == ' ' {
        Some(Command::Advance)
    } else if key == 'f' {
        Some(Command::Forgot)
    } else if key == 's' || key == 'l' {
        Some(Command::Skip)
    } else if key == 'a' {
        Some(Command::Archive)
    } else if key == 'u' {
        Some(Command::Undo)
    } else if key == 'e' {
        Some(Command::Edit)
    } else if key == 'q' {
        Some(Command::Quit)
    } else {
        None
    }
}

/// The command that a key stands for, if it stands for one.
pub fn command_for(key: char) -> (command: Option<Command>)
    ensures
        command == command_of(key),
{
    if key == ' ' {
        Some(Command::Advance)
    } else if key == 'f' {
        Some(Command::Forgot)
    } else if key == 's' || key == 'l' {
        Some(Command::Skip)
    } else if key == 'a' {
        Some(Command::Archive)
    } else if key == 'u' {
        Some(Command::Undo)
    } else if key == 'e' {
        Some(Command::Edit)
    } else if key == 'q' {
        Some(Command::Quit)
    } else {
        None
    }
}

/// What has to happen to a card's file after a command.
#[derive(Clone, Copy, Debug, PartialEq, Eq, Structural)]
pub enum Change {
    /// No file changes.
    Nothing,
    /// A review of today is added to the card's history.
    Mark { card: usize, remembered: bool },
    /// The last review is removed from the card's history.
    Unmark { card: usize },
    /// The card's archive flag is set.
    Archive { card: usize, archived: bool },
    /// The card's file is handed to the editor.
    Edit { card: usize },
}

/// What has to be drawn again after a command.
#[derive(Clone, Copy, Debug, PartialEq, Eq, Structural)]
pub enum Redraw {
    /// The screen stays as it is.
    Nothing,
    /// The card's text, now with another side.
    Card,
    /// The status bar and the card's text.
    Screen,
    /// The front card is to be read again, then the status bar and its text drawn.
    Reload,
}

/// What a command asks of the caller.
#[derive(Clone, Copy, Debug, PartialEq, Eq, Structural)]
pub struct Outcome {
    pub change: Change,
    pub redraw: Redraw,
}

/// The number of recalls in an undo log.
pub open spec fn recalls(log: Seq<UndoItem>) -> nat
    decreases log.len(),
{
    if log.len() == 0 {
        0
    } else {
        recalls(log.drop_last()) + if log.last() is MarkRemembered {
            1nat
        } else {
            0nat
        }
    }
}

/// The number of lapses in an undo log.
pub open spec fn lapses(log: Seq<UndoItem>) -> nat
    decreases log.len(),
{
    if log.len() == 0 {
        0
    } else {
        lapses(log.drop_last()) + if log.last() is MarkForgotten {
            1nat
        } else {
            0nat
        }
    }
}

/// The queue with its front card moved to the back.
pub open spec fn rotated(queue: Seq<usize>) -> Seq<usize> {
    queue.remove(0).push(queue[0])
}

/// The queue with its last card moved to the front.
pub open spec fn unrotated(queue: Seq<usize>) -> Seq<usize> {
    queue.drop_last().insert(0, queue.last())
}

/// A session as a value: what [`Session`] holds, seen from outside.
pub struct State {
    /// The cards still to be reviewed; the first is the one on screen.
    pub queue: Seq<usize>,
    /// The last side of the front card that is shown, counted from zero.
    pub side_index: nat,
    /// What can be undone, the latest action last.
    pub undo_stack: Seq<UndoItem>,
    /// How many cards were recalled and not taken back.
    pub remembered_count: nat,
    /// How many answers were wrong and not taken back.
    pub forgotten_count: nat,
    /// Whether the user left.
    pub quit: bool,
}

impl State {
    /// A session is over when the user left or no card is waiting.
    pub open spec fn finished(self) -> bool {
        self.quit || self.queue.len() == 0
    }

    /// The counters say what the undo log holds.
    pub open spec fn consistent(self) -> bool {
        &&& self.remembered_count == recalls(self.undo_stack)
        &&& self.forgotten_count == lapses(self.undo_stack)
    }

    /// The session that starts on `queue`.
    pub open spec fn start(queue: Seq<usize>) -> State {
        State {
            queue,
            side_index: 0,
            undo_stack: Seq::empty(),
            remembered_count: 0,
            forgotten_count: 0,
            quit: false,
        }
    }

    /// Whether the side on screen is the last of a card with `sides` sides.
    pub open spec fn on_last_side(self, sides: nat) -> bool {
        self.side_index + 1 >= sides
    }

    /// The session after the front card was recalled.
    pub open spec fn recalled(self) -> State {
        State {
            queue: self.queue.remove(0),
            side_index: 0,
            undo_stack: self.undo_stack.push(UndoItem::MarkRemembered(self.queue[0])),
            remembered_count: self.remembered_count + 1,
            ..self
        }
    }

    /// The session after the front card was forgotten.
    pub open spec fn lapsed(self) -> State {
        State {
            queue: rotated(self.queue),
            side_index: 0,
            undo_stack: self.undo_stack.push(UndoItem::MarkForgotten),
            forgotten_count: self.forgotten_count + 1,
            ..self
        }
    }

    /// The session after the front card was put off.
    pub open spec fn skipped(self) -> State {
        State {
            queue: rotated(self.queue),
            side_index: 0,
            undo_stack: self.undo_stack.push(UndoItem::Skip),
            ..self
        }
    }

    /// The session after the front card was archived.
    pub open spec fn archived(self) -> State {
        State {
            queue: self.queue.remove(0),
            side_index: 0,
            undo_stack: self.undo_stack.push(UndoItem::MarkArchived(self.queue[0])),
            ..self
        }
    }

    /// The session after its last action was taken back. With nothing to take
    /// back it stays as it is.
    pub open spec fn undone(self) -> State {
        if self.undo_stack.len() == 0 {
            self
        } else {
            let rest = self.undo_stack.drop_last();
            match self.undo_stack.last() {
                UndoItem::MarkRemembered(card) => State {
                    queue: self.queue.insert(0, card),
                    side_index: 0,
                    undo_stack: rest,
                    remembered_count: (self.remembered_count - 1) as nat,
                    ..self
                },
                UndoItem::MarkForgotten => State {
                    queue: unrotated(self.queue),
                    side_index: 0,
                    undo_stack: rest,
                    forgotten_count: (self.forgotten_count - 1) as nat,
                    ..self
                },
                UndoItem::MarkArchived(card) => State {
                    queue: self.queue.insert(0, card),
                    side_index: 0,
                    undo_stack: rest,
                    ..self
                },
                UndoItem::Skip => State {
                    queue: unrotated(self.queue),
                    side_index: 0,
                    undo_stack: rest,
                    ..self
                },
            }
        }
    }

    /// The session after `command`, where the front card has `sides` sides. A
    /// session that is over stays as it is.
    pub open spec fn after(self, command: Command, sides: nat) -> State {
        if self.finished() {
            self
        } else {
            match command {
                Command::Advance => if self.on_last_side(sides) {
                    self.recalled()
                } else {
                    State { side_index: self.side_index + 1, ..self }
                },
                Command::Forgot => self.lapsed(),
                Command::Skip => self.skipped(),
                Command::Archive => self.archived(),
                Command::Undo => self.undone(),
                Command::Edit => State { side_index: 0, ..self },
                Command::Quit => State { quit: true, ..self },
                Command::Resize => self,
            }
        }
    }

    /// What is to be drawn once the queue has changed: the new front card, or
    /// nothing where none is left.
    pub open spec fn redraw_after(self, command: Command, sides: nat) -> Redraw {
        if self.after(command, sides).finished() {
            Redraw::Nothing
        } else {
            Redraw::Reload
        }
    }

    /// What the caller has to do after `command`.
    pub open spec fn outcome(self, command: Command, sides: nat) -> Outcome {
        if self.finished() {
            Outcome { change: Change::Nothing, redraw: Redraw::Nothing }
        } else {
            match command {
                Command::Advance => if self.on_last_side(sides) {
                    Outcome {
                        change: Change::Mark { card: self.queue[0], remembered: true },
                        redraw: self.redraw_after(command, sides),
                    }
                } else {
                    Outcome { change: Change::Nothing, redraw: Redraw::Card }
                },
                Command::Forgot => Outcome {
                    change: Change::Mark { card: self.queue[0], remembered: false },
                    redraw: Redraw::Reload,
                },
                Command::Skip => Outcome { change: Change::Nothing, redraw: Redraw::Reload },
                Command::Archive => Outcome {
                    change: Change::Archive { card: self.queue[0], archived: true },
                    redraw: self.redraw_after(command, sides),
                },
                Command::Undo => if self.undo_stack.len() == 0 {
                    Outcome { change: Change::Nothing, redraw: Redraw::Nothing }
                } else {
                    Outcome {
                        change: match self.undo_stack.last() {
                            UndoItem::MarkRemembered(card) => Change::Unmark { card },
                            UndoItem::MarkForgotten => Change::Unmark { card: self.queue.last() },
                            UndoItem::MarkArchived(card) => Change::Archive {
                                card,
                                archived: false,
                            },
                            UndoItem::Skip => Change::Nothing,
                        },
                        redraw: Redraw::Reload,
                    }
                },
                Command::Edit => Outcome {
                    change: Change::Edit { card: self.queue[0] },
                    redraw: Redraw::Reload,
                },
                Command::Quit => Outcome { change: Change::Nothing, redraw: Redraw::Nothing },
                Command::Resize => Outcome { change: Change::Nothing, redraw: Redraw::Screen },
            }
        }
    }
}

/// Every command keeps the counters in step with the undo log.
pub proof fn lemma_after_consistent(s: State, command: Command, sides: nat)
    requires
        s.consistent(),
    ensures
        s.after(command, sides).consistent(),
{
    let next = s.after(command, sides);
    assert(next.undo_stack.len() > s.undo_stack.len() ==> next.undo_stack.drop_last()
        =~= s.undo_stack);
}

/// Taking back an answer, a skip or an archiving restores the queue, the undo log
/// and both counters; the first side of the card is shown again. This holds of
/// every such action after which the session goes on; it asks the caller to
/// remove the review that the action had added, or to clear the archive flag that
/// it had set.
pub proof fn lemma_undo_restores(s: State, command: Command, sides: nat)
    requires
        !s.finished(),
        s.consistent(),
        command == Command::Forgot || command == Command::Skip || command == Command::Archive || (
        command == Command::Advance && s.on_last_side(sides)),
        !s.after(command, sides).finished(),
    ensures
        s.after(command, sides).after(Command::Undo, sides) == (State { side_index: 0, ..s }),
        s.after(command, sides).outcome(Command::Undo, sides).change == match command {
            Command::Advance => Change::Unmark { card: s.queue[0] },
            Command::Forgot => Change::Unmark { card: s.queue[0] },
            Command::Archive => Change::Archive { card: s.queue[0], archived: false },
            _ => Change::Nothing,
        },
{
    let mid = s.after(command, sides);
    let back = mid.after(Command::Undo, sides);
    assert(mid.undo_stack.drop_last() =~= s.undo_stack);
    assert(back.queue =~= s.queue);
}

/// A review session.
pub struct Session {
    queue: Vec<usize>,
    side_index: usize,
    undo_stack: Vec<UndoItem>,
    remembered_count: usize,
    forgotten_count: usize,
    quit: bool,
}

impl View for Session {
    type V = State;

    closed spec fn view(&self) -> State {
        State {
            queue: self.queue@,
            side_index: self.side_index as nat,
            undo_stack: self.undo_stack@,
            remembered_count: self.remembered_count as nat,
            forgotten_count: self.forgotten_count as nat,
            quit: self.quit,
        }
    }
}

impl Session {
    /// What holds of every session: its counters say what its undo log holds.
    #[verifier::type_invariant]
    spec fn sound(self) -> bool {
        self@.consistent()
    }

    /// Starts a session on `queue`, its first card in front.
    pub fn new(queue: Vec<usize>) -> (session: Session)
        ensures
            session@ == State::start(queue@),
            session@.consistent(),
    {
        Session {
            queue,
            side_index: 0,
            undo_stack: Vec::new(),
            remembered_count: 0,
            forgotten_count: 0,
            quit: false,
        }
    }

    /// Whether the session is over.
    pub fn is_finished(&self) -> (over: bool)
        ensures
            over == self@.finished(),
    {
        self.quit || self.queue.len() == 0
    }

    /// The card on screen, if any is left.
    pub fn front(&self) -> (card: Option<usize>)
        ensures
            card == if self@.queue.len() > 0 {
                Some(self@.queue[0])
            } else {
                None
            },
    {
        if self.queue.len() > 0 {
            Some(self.queue[0])
        } else {
            None
        }
    }

    /// The cards still to be reviewed, the one on screen first.
    pub fn queue(&self) -> (queue: &Vec<usize>)
        ensures
            queue@ == self@.queue,
    {
        &self.queue
    }

    /// The number of cards still to be reviewed.
    pub fn incomplete(&self) -> (count: usize)
        ensures
            count == self@.queue.len(),
    {
        self.queue.len()
    }

    /// The last side of the front card that is shown, counted from zero.
    pub fn side_index(&self) -> (index: usize)
        ensures
            index == self@.side_index,
    {
        self.side_index
    }

    /// How many cards were recalled and not taken back.
    pub fn remembered_count(&self) -> (count: usize)
        ensures
            count == self@.remembered_count,
    {
        self.remembered_count
    }

    /// How many answers were wrong and not taken back.
    pub fn forgotten_count(&self) -> (count: usize)
        ensures
            count == self@.forgotten_count,
    {
        self.forgotten_count
    }

    /// The number of actions that can be taken back.
    pub fn undo_depth(&self) -> (depth: usize)
        ensures
            depth == self@.undo_stack.len(),
    {
        self.undo_stack.len()
    }

    /// Carries out `command`, where the front card has `sides` sides, and says
    /// what the caller has to do.
    pub fn step(&mut self, command: Command, sides: usize) -> (outcome: Outcome)
        ensures
            final(self)@ == old(self)@.after(command, sides as nat),
            outcome == old(self)@.outcome(command, sides as nat),
            old(self)@.consistent(),
            final(self)@.consistent(),
    {
        proof {
            use_type_invariant(&*self);
        }
        let mut current = Session::new(Vec::new());
        core::mem::swap(self, &mut current);
        let (next, outcome) = current.stepped(command, sides);
        *self = next;
        outcome
    }

    /// The session after `command`, and what the caller has to do.
    fn stepped(self, command: Command, sides: usize) -> (result: (Session, Outcome))
        ensures
            result.0@ == self@.after(command, sides as nat),
            result.1 == self@.outcome(command, sides as nat),
            result.0@.consistent(),
    {
        proof {
            use_type_invariant(&self);
            lemma_after_consistent(self@, command, sides as nat);
        }
        let ghost before = self@;
        if self.is_finished() {
            return (self, Outcome { change: Change::Nothing, redraw: Redraw::Nothing });
        }
        let Session { mut queue, side_index, mut undo_stack, remembered_count, forgotten_count, quit } =
            self;
        let front = queue[0];
        match command {
            Command::Advance => {
                if sides == 0 || side_index >= sides - 1 {
                    let card = queue.remove(0);
                    undo_stack.push(UndoItem::MarkRemembered(card));
                    let redraw = if queue.len() == 0 {
                        Redraw::Nothing
                    } else {
                        Redraw::Reload
                    };
                    let depth = undo_stack.len();
                    proof {
                        lemma_log_bounds(before.undo_stack);
                        assert(depth == before.undo_stack.len() + 1);
                    }
                    (
                        Session {
                            queue,
                            side_index: 0,
                            undo_stack,
                            remembered_count: remembered_count + 1,
                            forgotten_count,
                            quit,
                        },
                        Outcome { change: Change::Mark { card, remembered: true }, redraw },
                    )
                } else {
                    (
                        Session {
                            queue,
                            side_index: side_index + 1,
                            undo_stack,
                            remembered_count,
                            forgotten_count,
                            quit,
                        },
                        Outcome { change: Change::Nothing, redraw: Redraw::Card },
                    )
                }
            },
            Command::Forgot => {
                let card = queue.remove(0);
                queue.push(card);
                undo_stack.push(UndoItem::MarkForgotten);
                let depth = undo_stack.len();
                proof {
                    lemma_log_bounds(before.undo_stack);
                    assert(depth == before.undo_stack.len() + 1);
                }
                (
                    Session {
                        queue,
                        side_index: 0,
                        undo_stack,
                        remembered_count,
                        forgotten_count: forgotten_count + 1,
                        quit,
                    },
                    Outcome {
                        change: Change::Mark { card, remembered: false },
                        redraw: Redraw::Reload,
                    },
                )
            },
            Command::Skip => {
                let card = queue.remove(0);
                queue.push(card);
                undo_stack.push(UndoItem::Skip);
                (
                    Session {
                        queue,
                        side_index: 0,
                        undo_stack,
                        remembered_count,
                        forgotten_count,
                        quit,
                    },
                    Outcome { change: Change::Nothing, redraw: Redraw::Reload },
                )
            },
            Command::Archive => {
                let card = queue.remove(0);
                undo_stack.push(UndoItem::MarkArchived(card));
                let redraw = if queue.len() == 0 {
                    Redraw::Nothing
                } else {
                    Redraw::Reload
                };
                (
                    Session {
                        queue,
                        side_index: 0,
                        undo_stack,
                        remembered_count,
                        forgotten_count,
                        quit,
                    },
                    Outcome { change: Change::Archive { card, archived: true }, redraw },
                )
            },
            Command::Undo => {
                match undo_stack.pop() {
                    None => (
                        Session {
                            queue,
                            side_index,
                            undo_stack,
                            remembered_count,
                            forgotten_count,
                            quit,
                        },
                        Outcome { change: Change::Nothing, redraw: Redraw::Nothing },
                    ),
                    Some(UndoItem::MarkRemembered(card)) => {
                        queue.insert(0, card);
                        (
                            Session {
                                queue,
                                side_index: 0,
                                undo_stack,
                                remembered_count: remembered_count - 1,
                                forgotten_count,
                                quit,
                            },
                            Outcome { change: Change::Unmark { card }, redraw: Redraw::Reload },
                        )
                    },
                    Some(UndoItem::MarkForgotten) => {
                        let card = queue.pop().unwrap();
                        queue.insert(0, card);
                        (
                            Session {
                                queue,
                                side_index: 0,
                                undo_stack,
                                remembered_count,
                                forgotten_count: forgotten_count - 1,
                                quit,
                            },
                            Outcome { change: Change::Unmark { card }, redraw: Redraw::Reload },
                        )
                    },
                    Some(UndoItem::MarkArchived(card)) => {
                        queue.insert(0, card);
                        (
                            Session {
                                queue,
                                side_index: 0,
                                undo_stack,
                                remembered_count,
                                forgotten_count,
                                quit,
                            },
                            Outcome {
                                change: Change::Archive { card, archived: false },
                                redraw: Redraw::Reload,
                            },
                        )
                    },
                    Some(UndoItem::Skip) => {
                        let card = queue.pop().unwrap();
                        queue.insert(0, card);
                        (
                            Session {
                                queue,
                                side_index: 0,
                                undo_stack,
                                remembered_count,
                                forgotten_count,
                                quit,
                            },
                            Outcome { change: Change::Nothing, redraw: Redraw::Reload },
                        )
                    },
                }
            },
            Command::Edit => (
                Session {
                    queue,
                    side_index: 0,
                    undo_stack,
                    remembered_count,
                    forgotten_count,
                    quit,
                },
                Outcome { change: Change::Edit { card: front }, redraw: Redraw::Reload },
            ),
            Command::Quit => (
                Session {
                    queue,
                    side_index,
                    undo_stack,
                    remembered_count,
                    forgotten_count,
                    quit: true,
                },
                Outcome { change: Change::Nothing, redraw: Redraw::Nothing },
            ),
            Command::Resize => (
                Session { queue, side_index, undo_stack, remembered_count, forgotten_count, quit },
                Outcome { change: Change::Nothing, redraw: Redraw::Screen },
            ),
        }
    }
}

/// An undo log holds no more recalls and lapses than it has entries.
pub proof fn lemma_log_bounds(log: Seq<UndoItem>)
    ensures
        recalls(log) + lapses(log) <= log.len(),
    decreases log.len(),
{
    if log.len() > 0 {
        lemma_log_bounds(log.drop_last());
    }
}

} // verus!
