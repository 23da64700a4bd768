//! The guessing game: a secret number from 1 to 100, and a player who
//! types one line after another until a line names the secret or says
//! `quit`.
//!
//! The game is a state machine. A [`Session`] holds the secret and the
//! state; the program around it prompts, reads a line, and hands the
//! [`Event`] to [`Session::step`], which says what came of the line. It
//! prompts again only while the state is [`State::Prompting`].

use vstd::prelude::*;
use crate::text::{chars_of, is_quit_token, parse_guess, parsed_guess, quits, trim, trimmed};

verus! {

/// The smallest number that the secret can be.
pub const LOWEST: u32 = 1;

/// The largest number that the secret can be.
pub const HIGHEST: u32 = 100;

/// What comes of one stage of a turn.
#[derive(Clone, Copy, Debug, PartialEq, Eq, Structural)]
pub enum Outcome {
    /// The line is not the quit token: the turn goes on to read it as a
    /// guess.
    Continue,
    /// The line writes no guess.
    Invalid,
    /// The guess is below the secret.
    TooLow,
    /// The guess is above the secret.
    TooHigh,
    /// The guess is the secret.
    Win,
    /// The line is the quit token.
    Quit,
}

/// Where a session stands.
#[derive(Clone, Copy, Debug, PartialEq, Eq, Structural)]
pub enum State {
    /// Waiting for the next line.
    Prompting,
    /// Holding a line that is not the quit token and has yet to be judged.
    Evaluating,
    /// Over: the secret was guessed.
    Won,
    /// Over: the player quit.
    Quit,
    /// Over: no line could be read.
    Failed,
}

/// What an attempt to read a line gave.
#[derive(Debug, PartialEq, Eq)]
pub enum Event {
    /// A line, as it was read: a line ending may still be on it.
    Line(String),
    /// The input is at its end, or reading failed.
    ReadFailed,
}

impl View for Event {
    type V = Option<Seq<char>>;

    /// The characters of the line, or `None` where none was read.
    open spec fn view(&self) -> Option<Seq<char>> {
        match self {
            Event::Line(line) => Some(line@),
            Event::ReadFailed => None,
        }
    }
}

/// The first stage of a turn, on the trimmed line: `Quit` for the quit
/// token, `Continue` for anything else.
pub open spec fn quit_outcome(text: Seq<char>) -> Outcome {
    if is_quit_token(text) {
        Outcome::Quit
    } else {
        Outcome::Continue
    }
}

/// How a guess compares with the secret.
pub open spec fn compared(guess: u32, secret: u32) -> Outcome {
    if guess < secret {
        Outcome::TooLow
    } else if guess > secret {
        Outcome::TooHigh
    } else {
        Outcome::Win
    }
}

/// The second stage of a turn, on the trimmed line: `Invalid` where it
/// writes no guess, else how the guess compares with the secret.
pub open spec fn verdict_of(text: Seq<char>, secret: u32) -> Outcome {
    match parsed_guess(text) {
        None => Outcome::Invalid,
        Some(guess) => compared(guess, secret),
    }
}

/// What comes of a whole turn on `line`: `Quit` where the trimmed line is
/// the quit token, and the verdict on the trimmed line where it is not.
pub open spec fn outcome_of(line: Seq<char>, secret: u32) -> Outcome {
    let text = trimmed(line);
    if is_quit_token(text) {
        Outcome::Quit
    } else {
        verdict_of(text, secret)
    }
}

impl State {
    /// Whether the session is over.
    pub open spec fn terminal(self) -> bool {
        self is Won || self is Quit || self is Failed
    }

    /// The state after an attempt to read a line. Only `Prompting` waits
    /// for one: it fails where none was read, quits on the quit token, and
    /// goes on to evaluate any other line. Every other state stays.
    pub open spec fn after_read(self, read: Option<Seq<char>>) -> State {
        match self {
            State::Prompting => match read {
                None => State::Failed,
                Some(line) => match quit_outcome(trimmed(line)) {
                    Outcome::Quit => State::Quit,
                    _ => State::Evaluating,
                },
            },
            _ => self,
        }
    }

    /// The state after an outcome. Only `Evaluating` waits for one: a win
    /// ends the session, as does a quit; a guess that is invalid, too low
    /// or too high leads back to the prompt; `Continue` decides nothing.
    /// Every other state stays.
    pub open spec fn after_outcome(self, outcome: Outcome) -> State {
        match self {
            State::Evaluating => match outcome {
                Outcome::Win => State::Won,
                Outcome::Quit => State::Quit,
                Outcome::Continue => State::Evaluating,
                Outcome::Invalid | Outcome::TooLow | Outcome::TooHigh => State::Prompting,
            },
            _ => self,
        }
    }

    /// The state after a whole turn with a secret of `secret`: the read,
    /// and the verdict on the line where the read leads to one.
    pub open spec fn after_turn(self, secret: u32, read: Option<Seq<char>>) -> State {
        match (self, read) {
            (State::Prompting, Some(line)) => self.after_read(read).after_outcome(
                verdict_of(trimmed(line), secret),
            ),
            (State::Prompting, None) => State::Failed,
            _ => self,
        }
    }

    /// What a whole turn reports: the outcome of the line where the state
    /// is `Prompting` and a line was read, and nothing otherwise.
    pub open spec fn reported(self, secret: u32, read: Option<Seq<char>>) -> Option<Outcome> {
        match (self, read) {
            (State::Prompting, Some(line)) => Some(outcome_of(line, secret)),
            _ => None,
        }
    }

    /// The state after one turn for each of `reads`, in order.
    pub open spec fn after_turns(self, secret: u32, reads: Seq<Option<Seq<char>>>) -> State
        decreases reads.len(),
    {
        if reads.len() == 0 {
            self
        } else {
            self.after_turn(secret, reads[0]).after_turns(secret, reads.drop_first())
        }
    }

    /// The outcomes that the turns on `reads` report, in order.
    pub open spec fn transcript(self, secret: u32, reads: Seq<Option<Seq<char>>>) -> Seq<Outcome>
        decreases reads.len(),
    {
        if reads.len() == 0 {
            Seq::empty()
        } else {
            let rest = self.after_turn(secret, reads[0]).transcript(secret, reads.drop_first());
            match self.reported(secret, reads[0]) {
                Some(outcome) => seq![outcome] + rest,
                None => rest,
            }
        }
    }

    /// Whether the session is over.
    pub fn is_terminal(&self) -> (over: bool)
        ensures
            over == self.terminal(),
    {
        match self {
            State::Won | State::Quit | State::Failed => true,
            State::Prompting | State::Evaluating => false,
        }
    }

    /// The state after an attempt to read a line.
    pub fn on_read(&self, event: &Event) -> (next: State)
        ensures
            next == self.after_read(event@),
    {
        match self {
            State::Prompting => match event {
                Event::ReadFailed => State::Failed,
                Event::Line(line) => {
                    let chars = chars_of(line.as_str());
                    match quit_check(trim(chars.as_slice())) {
                        Outcome::Quit => State::Quit,
                        _ => State::Evaluating,
                    }
                },
            },
            _ => *self,
        }
    }

    /// The state after an outcome.
    pub fn on_outcome(&self, outcome: Outcome) -> (next: State)
        ensures
            next == self.after_outcome(outcome),
    {
        match self {
            State::Evaluating => match outcome {
                Outcome::Win => State::Won,
                Outcome::Quit => State::Quit,
                Outcome::Continue => State::Evaluating,
                Outcome::Invalid | Outcome::TooLow | Outcome::TooHigh => State::Prompting,
            },
            _ => *self,
        }
    }
}

impl Outcome {
    /// The line to show the player for this outcome; `Continue` has none.
    pub open spec fn message_text(self) -> Option<Seq<char>> {
        match self {
            Outcome::Continue => None,
            Outcome::Invalid => Some("Please type a number or 'quit' to exit!"@),
            Outcome::TooLow => Some("Too small!"@),
            Outcome::TooHigh => Some("Too big!"@),
            Outcome::Win => Some("You win!"@),
            Outcome::Quit => Some("You have chosen to quit. Farewell!"@),
        }
    }

    /// The line to show the player for this outcome.
    pub fn message(&self) -> (line: Option<&'static str>)
        ensures
            line is Some <==> self.message_text() is Some,
            line is Some ==> line->0@ == self.message_text()->0,
    {
        match self {
            Outcome::Continue => None,
            Outcome::Invalid => Some("Please type a number or 'quit' to exit!"),
            Outcome::TooLow => Some("Too small!"),
            Outcome::TooHigh => Some("Too big!"),
            Outcome::Win => Some("You win!"),
            Outcome::Quit => Some("You have chosen to quit. Farewell!"),
        }
    }
}

/// The line that opens a session.
pub fn banner() -> (line: &'static str)
    ensures
        line@ == "Guess the number!"@,
{
    "Guess the number!"
}

/// The line that asks for a guess.
pub fn prompt() -> (line: &'static str)
    ensures
        line@ == "Please input your guess."@,
{
    "Please input your guess."
}

/// The first stage of a turn, on the trimmed line.
pub fn quit_check(text: &[char]) -> (outcome: Outcome)
    ensures
        outcome == quit_outcome(text@),
{
    if quits(text) {
        Outcome::Quit
    } else {
        Outcome::Continue
    }
}

/// How `guess` compares with `secret`.
pub fn compare(guess: u32, secret: u32) -> (outcome: Outcome)
    ensures
        outcome == compared(guess, secret),
{
    if guess < secret {
        Outcome::TooLow
    } else if guess > secret {
        Outcome::TooHigh
    } else {
        Outcome::Win
    }
}

/// The second stage of a turn, on the trimmed line.
pub fn verdict(text: &[char], secret: u32) -> (outcome: Outcome)
    ensures
        outcome == verdict_of(text@, secret),
{
    match parse_guess(text) {
        None => Outcome::Invalid,
        Some(guess) => compare(guess, secret),
    }
}

/// What comes of a whole turn on `line`, as it was read, with a secret of
/// `secret`.
pub fn evaluate(line: &str, secret: u32) -> (outcome: Outcome)
    ensures
        outcome == outcome_of(line@, secret),
{
    let chars = chars_of(line);
    let text = trim(chars.as_slice());
    match quit_check(text) {
        Outcome::Quit => Outcome::Quit,
        _ => verdict(text, secret),
    }
}

/// The guess that `line` writes once it is trimmed, if it writes one.
pub fn read_guess(line: &str) -> (guess: Option<u32>)
    ensures
        guess == parsed_guess(trimmed(line@)),
{
    let chars = chars_of(line);
    parse_guess(trim(chars.as_slice()))
}

/// `rand::random_range` on an inclusive range of `u32`, with the
/// generator of the current thread: some number of the range, which is
/// all that holds of every draw. It panics on an empty range, which
/// `requires` leaves out.
#[verifier::external_body]
fn random_between(low: u32, high: u32) -> (drawn: u32)
    requires
        low <= high,
    ensures
        low <= drawn <= high,
{
    rand::random_range(low..=high)
}

/// One game: the secret, and where the game stands.
pub struct Session {
    secret: u32,
    state: State,
}

impl Session {
    /// The secret, which no function hands out.
    pub closed spec fn secret(&self) -> u32 {
        self.secret
    }

    /// Where the session stands.
    pub closed spec fn spec_state(&self) -> State {
        self.state
    }

    /// What holds of every session between turns: the secret is in range,
    /// and no line is waiting to be judged.
    pub open spec fn wf(&self) -> bool {
        &&& LOWEST <= self.secret() <= HIGHEST
        &&& !(self.spec_state() is Evaluating)
    }

    /// A new session with a secret drawn at random.
    pub fn start() -> (session: Session)
        ensures
            session.wf(),
            session.spec_state() == State::Prompting,
    {
        Session { secret: random_between(LOWEST, HIGHEST), state: State::Prompting }
    }

    /// A new session with the given secret, if that is in range.
    pub fn with_secret(secret: u32) -> (session: Option<Session>)
        ensures
            session is Some <==> LOWEST <= secret <= HIGHEST,
            session is Some ==> {
                &&& session->0.wf()
                &&& session->0.secret() == secret
                &&& session->0.spec_state() == State::Prompting
            },
    {
        if LOWEST <= secret && secret <= HIGHEST {
            Some(Session { secret, state: State::Prompting })
        } else {
            None
        }
    }

    /// Where the session stands.
    #[verifier::when_used_as_spec(spec_state)]
    pub fn state(&self) -> (state: State)
        ensures
            state == self.spec_state(),
    {
        self.state
    }

    /// One turn: takes what the read gave, moves the session on, and
    /// reports the outcome of the line. A session that is over stays as it
    /// is and reports nothing, as does a turn in which no line was read.
    pub fn step(&mut self, event: &Event) -> (outcome: Option<Outcome>)
        ensures
            final(self).secret() == old(self).secret(),
            final(self).spec_state() == old(self).spec_state().after_turn(
                old(self).secret(),
                event@,
            ),
            outcome == old(self).spec_state().reported(old(self).secret(), event@),
            old(self).wf() ==> final(self).wf(),
    {
        match (self.state, event) {
            (State::Prompting, Event::Line(line)) => {
                let chars = chars_of(line.as_str());
                let text = trim(chars.as_slice());
                match quit_check(text) {
                    Outcome::Quit => {
                        self.state = State::Quit;
                        Some(Outcome::Quit)
                    },
                    _ => {
                        let outcome = verdict(text, self.secret);
                        self.state = State::Evaluating.on_outcome(outcome);
                        Some(outcome)
                    },
                }
            },
            (State::Prompting, Event::ReadFailed) => {
                self.state = State::Failed;
                None
            },
            _ => None,
        }
    }

    /// One turn for each of `events`, in order. Returns the outcomes that
    /// the turns report.
    pub fn play(&mut self, events: &Vec<Event>) -> (outcomes: Vec<Outcome>)
        ensures
            final(self).secret() == old(self).secret(),
            final(self).spec_state() == old(self).spec_state().after_turns(
                old(self).secret(),
                reads_of(events@),
            ),
            outcomes@ == old(self).spec_state().transcript(old(self).secret(), reads_of(events@)),
            old(self).wf() ==> final(self).wf(),
    {
        let ghost first = *self;
        let ghost reads = reads_of(events@);
        let mut outcomes: Vec<Outcome> = Vec::new();
        let mut i: usize = 0;
        assert(reads.skip(0) =~= reads);
        while i < events.len()
            invariant
                i <= events.len(),
                reads == reads_of(events@),
                self.secret() == first.secret(),
                first.wf() ==> self.wf(),
                first.spec_state().after_turns(first.secret(), reads)
                    == self.spec_state().after_turns(first.secret(), reads.skip(i as int)),
                first.spec_state().transcript(first.secret(), reads) == outcomes@
                    + self.spec_state().transcript(first.secret(), reads.skip(i as int)),
            decreases events.len() - i,
        {
            let ghost before = outcomes@;
            let ghost rest = reads.skip(i as int);
            assert(rest.drop_first() =~= reads.skip(i + 1));
            assert(rest[0] == events@[i as int]@);
            match self.step(&events[i]) {
                Some(outcome) => {
                    outcomes.push(outcome);
                    assert(forall|tail: Seq<Outcome>|
                        before + (seq![outcome] + tail) =~= #[trigger] (outcomes@ + tail));
                },
                None => {},
            }
            i = i + 1;
        }
        assert(reads.skip(i as int) =~= Seq::empty());
        outcomes
    }
}

/// What each of `events` read, in order.
pub open spec fn reads_of(events: Seq<Event>) -> Seq<Option<Seq<char>>> {
    events.map_values(|event: Event| event@)
}

} // verus!
