//! What holds of every game, proved from the rules of the turn.

use vstd::prelude::*;
use crate::game::{compared, outcome_of, Outcome, State, HIGHEST, LOWEST};
use crate::text::{is_digit, is_quit_token, parsed_guess, trimmed};

verus! {

/// The guess that a read holds: that of the trimmed line, and none where
/// no line was read.
pub open spec fn guess_in(read: Option<Seq<char>>) -> Option<u32> {
    match read {
        Some(line) => parsed_guess(trimmed(line)),
        None => None,
    }
}

/// A text that writes a guess is not the quit token.
pub proof fn law_guess_is_no_quit(text: Seq<char>)
    requires
        parsed_guess(text) is Some,
    ensures
        !is_quit_token(text),
{
    if is_quit_token(text) {
        assert(!is_digit(text[0]));
    }
}

/// A session that is over stays as it is whatever is read afterwards, and
/// reports nothing more: it never prompts again.
pub proof fn law_over_stays_over(state: State, secret: u32, reads: Seq<Option<Seq<char>>>)
    requires
        state.terminal(),
    ensures
        state.after_turns(secret, reads) == state,
        state.transcript(secret, reads) == Seq::<Outcome>::empty(),
    decreases reads.len(),
{
    if reads.len() > 0 {
        law_over_stays_over(state, secret, reads.drop_first());
    }
}

/// A line that writes a number is compared with the secret, whatever the
/// number: one below the secret is too low, one above it is too high, and
/// the session prompts again; the secret itself wins.
pub proof fn law_every_number_is_compared(secret: u32, line: Seq<char>, guess: u32)
    requires
        parsed_guess(trimmed(line)) == Some(guess),
    ensures
        outcome_of(line, secret) == compared(guess, secret),
        guess < secret ==> outcome_of(line, secret) == Outcome::TooLow,
        guess > secret ==> outcome_of(line, secret) == Outcome::TooHigh,
        guess == secret ==> outcome_of(line, secret) == Outcome::Win,
        State::Prompting.reported(secret, Some(line)) == Some(compared(guess, secret)),
        guess != secret ==> State::Prompting.after_turn(secret, Some(line)) == State::Prompting,
{
    law_guess_is_no_quit(trimmed(line));
}

/// Guesses that miss the secret, and then one that hits it, end the
/// session in `Won`: each miss is reported as too low or too high, in the
/// order of the guesses, the hit as a win, and nothing after it.
pub proof fn law_guesses_lead_to_win(secret: u32, reads: Seq<Option<Seq<char>>>, hit: int)
    requires
        LOWEST <= secret <= HIGHEST,
        0 <= hit < reads.len(),
        forall|i: int|
            0 <= i < hit ==> guess_in(#[trigger] reads[i]) is Some && guess_in(reads[i]) != Some(
                secret,
            ),
        guess_in(reads[hit]) == Some(secret),
    ensures
        State::Prompting.after_turns(secret, reads) == State::Won,
        State::Prompting.transcript(secret, reads).len() == hit + 1,
        forall|i: int|
            0 <= i < hit ==> #[trigger] State::Prompting.transcript(secret, reads)[i] == (if guess_in(
                reads[i],
            )->0 < secret {
                Outcome::TooLow
            } else {
                Outcome::TooHigh
            }),
        State::Prompting.transcript(secret, reads)[hit] == Outcome::Win,
    decreases hit,
{
    let line = reads[0]->0;
    let rest = reads.drop_first();
    let guess = guess_in(reads[0])->0;
    law_every_number_is_compared(secret, line, guess);
    if hit == 0 {
        law_over_stays_over(State::Won, secret, rest);
    } else {
        assert forall|i: int| 0 <= i < hit - 1 implies guess_in(#[trigger] rest[i]) is Some
            && guess_in(rest[i]) != Some(secret) by {
            assert(rest[i] == reads[i + 1]);
        }
        assert(rest[hit - 1] == reads[hit]);
        law_guesses_lead_to_win(secret, rest, hit - 1);
        let full = State::Prompting.transcript(secret, reads);
        let tail = State::Prompting.transcript(secret, rest);
        assert(full == seq![compared(guess, secret)] + tail);
        assert forall|i: int| 0 <= i < hit implies #[trigger] full[i] == (if guess_in(
            reads[i],
        )->0 < secret {
            Outcome::TooLow
        } else {
            Outcome::TooHigh
        }) by {
            if i > 0 {
                assert(full[i] == tail[i - 1]);
                assert(rest[i - 1] == reads[i]);
            }
        }
    }
}

/// The quit token, read at the prompt, ends the session in `Quit`, and
/// does so whatever the secret is: no guess is compared with it.
pub proof fn law_quit_ends_session(secret: u32, other: u32, line: Seq<char>)
    requires
        is_quit_token(trimmed(line)),
    ensures
        outcome_of(line, secret) == Outcome::Quit,
        outcome_of(line, other) == Outcome::Quit,
        State::Prompting.reported(secret, Some(line)) == Some(Outcome::Quit),
        State::Prompting.after_turn(secret, Some(line)) == State::Quit,
        State::Prompting.after_turn(other, Some(line)) == State::Quit,
{
}

/// A line that is neither the quit token nor a number is invalid, and the
/// session prompts again.
pub proof fn law_invalid_line_prompts_again(secret: u32, line: Seq<char>)
    requires
        !is_quit_token(trimmed(line)),
        parsed_guess(trimmed(line)) is None,
    ensures
        outcome_of(line, secret) == Outcome::Invalid,
        State::Prompting.reported(secret, Some(line)) == Some(Outcome::Invalid),
        State::Prompting.after_turn(secret, Some(line)) == State::Prompting,
{
}

/// A guess equal to the secret wins and ends the session: whatever is
/// read afterwards, the state stays `Won` and nothing more is reported.
pub proof fn law_exact_guess_wins(secret: u32, line: Seq<char>, later: Seq<Option<Seq<char>>>)
    requires
        parsed_guess(trimmed(line)) == Some(secret),
    ensures
        outcome_of(line, secret) == Outcome::Win,
        State::Prompting.after_turn(secret, Some(line)) == State::Won,
        State::Prompting.after_turns(secret, seq![Some(line)] + later) == State::Won,
        State::Prompting.transcript(secret, seq![Some(line)] + later) == seq![Outcome::Win],
{
    let reads = seq![Some(line)] + later;
    law_every_number_is_compared(secret, line, secret);
    law_over_stays_over(State::Won, secret, later);
    assert(reads.drop_first() =~= later);
    assert(seq![Outcome::Win] + Seq::<Outcome>::empty() =~= seq![Outcome::Win]);
}

/// A read that fails at the prompt ends the session in `Failed` with
/// nothing reported: whatever is read afterwards, the state stays
/// `Failed` and nothing is reported.
pub proof fn law_failed_read_ends_session(secret: u32, later: Seq<Option<Seq<char>>>)
    ensures
        State::Prompting.after_turn(secret, None) == State::Failed,
        State::Prompting.reported(secret, None) is None,
        State::Prompting.after_turns(secret, seq![None] + later) == State::Failed,
        State::Prompting.transcript(secret, seq![None] + later) == Seq::<Outcome>::empty(),
{
    let reads = seq![None] + later;
    law_over_stays_over(State::Failed, secret, later);
    assert(reads.drop_first() =~= later);
}

} // verus!
