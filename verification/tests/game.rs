use primer::game::{
    banner, compare, evaluate, prompt, quit_check, read_guess, verdict, Event, Outcome, Session,
    State, HIGHEST, LOWEST,
};
use primer::text::chars_of;

fn line(text: &str) -> Event {
    Event::Line(String::from(text))
}

fn session(secret: u32) -> Session {
    Session::with_secret(secret).unwrap()
}

#[test]
fn secret_range_is_one_to_hundred() {
    assert_eq!(LOWEST, 1);
    assert_eq!(HIGHEST, 100);
}

#[test]
fn compare_orders_guess_and_secret() {
    assert_eq!(compare(41, 42), Outcome::TooLow);
    assert_eq!(compare(43, 42), Outcome::TooHigh);
    assert_eq!(compare(42, 42), Outcome::Win);
    assert_eq!(compare(0, u32::MAX), Outcome::TooLow);
    assert_eq!(compare(u32::MAX, 0), Outcome::TooHigh);
    assert_eq!(compare(u32::MAX, u32::MAX), Outcome::Win);
}

#[test]
fn guess_equal_to_secret_wins() {
    assert_eq!(evaluate("42", 42), Outcome::Win);
    assert_eq!(evaluate("42\n", 42), Outcome::Win);
    assert_eq!(evaluate("  42  \r\n", 42), Outcome::Win);
    assert_eq!(evaluate("+42", 42), Outcome::Win);
    assert_eq!(evaluate("042", 42), Outcome::Win);
}

#[test]
fn guesses_outside_the_range_are_still_compared() {
    assert_eq!(evaluate("0", 50), Outcome::TooLow);
    assert_eq!(evaluate("101", 50), Outcome::TooHigh);
    assert_eq!(evaluate("4294967295", 50), Outcome::TooHigh);
    assert_eq!(evaluate("0", 1), Outcome::TooLow);
    assert_eq!(evaluate("101", 100), Outcome::TooHigh);
}

#[test]
fn guesses_next_to_the_secret() {
    assert_eq!(evaluate("49", 50), Outcome::TooLow);
    assert_eq!(evaluate("51", 50), Outcome::TooHigh);
    assert_eq!(evaluate("50", 50), Outcome::Win);
}

#[test]
fn text_that_is_no_number_is_invalid() {
    for text in ["abc", "", "12.5", "\n", "   ", "-3", "4 2", "quit now", "q", "+", "4294967296"] {
        assert_eq!(evaluate(text, 42), Outcome::Invalid, "{text:?}");
    }
}

#[test]
fn quit_in_any_case_quits() {
    for text in ["quit", "Quit", "QUIT", "qUiT", "quit\n", "  Quit \r\n"] {
        for secret in [1, 42, 100] {
            assert_eq!(evaluate(text, secret), Outcome::Quit, "{text:?}");
        }
    }
}

#[test]
fn evaluate_never_says_continue() {
    for text in ["", "quit", "abc", "1", "50", "100", "+7", "12.5"] {
        for secret in [1, 50, 100] {
            assert_ne!(evaluate(text, secret), Outcome::Continue);
        }
    }
}

#[test]
fn quit_check_tells_the_quit_token_from_the_rest() {
    assert_eq!(quit_check(&chars_of("quit")), Outcome::Quit);
    assert_eq!(quit_check(&chars_of("QuIt")), Outcome::Quit);
    assert_eq!(quit_check(&chars_of("42")), Outcome::Continue);
    assert_eq!(quit_check(&chars_of("")), Outcome::Continue);
    assert_eq!(quit_check(&chars_of(" quit")), Outcome::Continue);
}

#[test]
fn verdict_judges_trimmed_text() {
    assert_eq!(verdict(&chars_of("42"), 42), Outcome::Win);
    assert_eq!(verdict(&chars_of("41"), 42), Outcome::TooLow);
    assert_eq!(verdict(&chars_of("43"), 42), Outcome::TooHigh);
    assert_eq!(verdict(&chars_of(" 42"), 42), Outcome::Invalid);
    assert_eq!(verdict(&chars_of("quit"), 42), Outcome::Invalid);
}

#[test]
fn read_guess_gives_the_number_on_the_line() {
    assert_eq!(read_guess("42\n"), Some(42));
    assert_eq!(read_guess(" 0 "), Some(0));
    assert_eq!(read_guess("101"), Some(101));
    assert_eq!(read_guess("quit"), None);
    assert_eq!(read_guess("12.5"), None);
    assert_eq!(read_guess(""), None);
}

#[test]
fn messages_are_the_lines_of_the_game() {
    assert_eq!(banner(), "Guess the number!");
    assert_eq!(prompt(), "Please input your guess.");
    assert_eq!(Outcome::TooLow.message(), Some("Too small!"));
    assert_eq!(Outcome::TooHigh.message(), Some("Too big!"));
    assert_eq!(Outcome::Win.message(), Some("You win!"));
    assert_eq!(Outcome::Invalid.message(), Some("Please type a number or 'quit' to exit!"));
    assert_eq!(Outcome::Quit.message(), Some("You have chosen to quit. Farewell!"));
    assert_eq!(Outcome::Continue.message(), None);
}

#[test]
fn only_won_quit_and_failed_are_terminal() {
    assert!(!State::Prompting.is_terminal());
    assert!(!State::Evaluating.is_terminal());
    assert!(State::Won.is_terminal());
    assert!(State::Quit.is_terminal());
    assert!(State::Failed.is_terminal());
}

#[test]
fn prompting_moves_on_a_read() {
    assert_eq!(State::Prompting.on_read(&line("42\n")), State::Evaluating);
    assert_eq!(State::Prompting.on_read(&line("abc\n")), State::Evaluating);
    assert_eq!(State::Prompting.on_read(&line("")), State::Evaluating);
    assert_eq!(State::Prompting.on_read(&line("Quit\n")), State::Quit);
    assert_eq!(State::Prompting.on_read(&Event::ReadFailed), State::Failed);
}

#[test]
fn other_states_ignore_a_read() {
    for state in [State::Evaluating, State::Won, State::Quit, State::Failed] {
        assert_eq!(state.on_read(&line("42")), state);
        assert_eq!(state.on_read(&line("quit")), state);
        assert_eq!(state.on_read(&Event::ReadFailed), state);
    }
}

#[test]
fn evaluating_moves_on_an_outcome() {
    assert_eq!(State::Evaluating.on_outcome(Outcome::Win), State::Won);
    assert_eq!(State::Evaluating.on_outcome(Outcome::Invalid), State::Prompting);
    assert_eq!(State::Evaluating.on_outcome(Outcome::TooLow), State::Prompting);
    assert_eq!(State::Evaluating.on_outcome(Outcome::TooHigh), State::Prompting);
    assert_eq!(State::Evaluating.on_outcome(Outcome::Quit), State::Quit);
    assert_eq!(State::Evaluating.on_outcome(Outcome::Continue), State::Evaluating);
}

#[test]
fn other_states_ignore_an_outcome() {
    let outcomes = [
        Outcome::Continue,
        Outcome::Invalid,
        Outcome::TooLow,
        Outcome::TooHigh,
        Outcome::Win,
        Outcome::Quit,
    ];
    for state in [State::Prompting, State::Won, State::Quit, State::Failed] {
        for outcome in outcomes {
            assert_eq!(state.on_outcome(outcome), state);
        }
    }
}

#[test]
fn with_secret_takes_one_to_hundred_only() {
    assert!(Session::with_secret(0).is_none());
    assert!(Session::with_secret(1).is_some());
    assert!(Session::with_secret(50).is_some());
    assert!(Session::with_secret(100).is_some());
    assert!(Session::with_secret(101).is_none());
    assert!(Session::with_secret(u32::MAX).is_none());
}

#[test]
fn a_session_starts_at_the_prompt() {
    assert_eq!(session(42).state(), State::Prompting);
    assert_eq!(Session::start().state(), State::Prompting);
}

#[test]
fn misses_then_a_hit_end_in_won() {
    let mut game = session(42);
    assert_eq!(game.step(&line("50\n")), Some(Outcome::TooHigh));
    assert_eq!(game.state(), State::Prompting);
    assert_eq!(game.step(&line("25\n")), Some(Outcome::TooLow));
    assert_eq!(game.state(), State::Prompting);
    assert_eq!(game.step(&line("37\n")), Some(Outcome::TooLow));
    assert_eq!(game.step(&line("43\n")), Some(Outcome::TooHigh));
    assert_eq!(game.step(&line("42\n")), Some(Outcome::Win));
    assert_eq!(game.state(), State::Won);
}

#[test]
fn play_reports_every_guess_in_order() {
    for secret in 1..=100u32 {
        let guesses = [0u32, 101, 1, 100, 50, 49, 51, 25, 75];
        let mut events: Vec<Event> = Vec::new();
        let mut expected: Vec<Outcome> = Vec::new();
        for guess in guesses {
            if guess == secret {
                continue;
            }
            events.push(line(&format!("{guess}\n")));
            expected.push(if guess < secret { Outcome::TooLow } else { Outcome::TooHigh });
        }
        events.push(line(&format!("{secret}\n")));
        expected.push(Outcome::Win);
        events.push(line("12\n"));
        events.push(line("quit\n"));
        let mut game = session(secret);
        assert_eq!(game.play(&events), expected);
        assert_eq!(game.state(), State::Won);
    }
}

#[test]
fn play_of_nothing_changes_nothing() {
    let mut game = session(7);
    assert_eq!(game.play(&Vec::new()), Vec::<Outcome>::new());
    assert_eq!(game.state(), State::Prompting);
}

#[test]
fn play_stops_reporting_when_the_session_is_over() {
    let mut game = session(7);
    let events = vec![line("abc"), line("8"), Event::ReadFailed, line("7"), line("quit")];
    assert_eq!(game.play(&events), vec![Outcome::Invalid, Outcome::TooHigh]);
    assert_eq!(game.state(), State::Failed);
}

#[test]
fn quit_ends_the_session_at_any_prompt() {
    for word in ["quit", "Quit", "QUIT"] {
        let mut game = session(42);
        assert_eq!(game.step(&line(word)), Some(Outcome::Quit));
        assert_eq!(game.state(), State::Quit);
    }
    let mut game = session(42);
    assert_eq!(game.step(&line("1\n")), Some(Outcome::TooLow));
    assert_eq!(game.step(&line("nonsense\n")), Some(Outcome::Invalid));
    assert_eq!(game.step(&line("QUIT\n")), Some(Outcome::Quit));
    assert_eq!(game.state(), State::Quit);
}

#[test]
fn an_invalid_line_leads_back_to_the_prompt() {
    for text in ["abc", "", "12.5"] {
        let mut game = session(42);
        assert_eq!(game.step(&line(text)), Some(Outcome::Invalid));
        assert_eq!(game.state(), State::Prompting);
        assert_eq!(game.step(&line("42")), Some(Outcome::Win));
    }
}

#[test]
fn a_win_ends_the_session() {
    let mut game = session(42);
    assert_eq!(game.step(&line("42")), Some(Outcome::Win));
    assert_eq!(game.state(), State::Won);
    assert_eq!(game.step(&line("42")), None);
    assert_eq!(game.step(&line("quit")), None);
    assert_eq!(game.step(&Event::ReadFailed), None);
    assert_eq!(game.state(), State::Won);
}

#[test]
fn a_failed_read_ends_the_session() {
    let mut game = session(42);
    assert_eq!(game.step(&Event::ReadFailed), None);
    assert_eq!(game.state(), State::Failed);
    assert_eq!(game.step(&line("42")), None);
    assert_eq!(game.step(&line("quit")), None);
    assert_eq!(game.state(), State::Failed);
}

#[test]
fn a_failed_read_after_some_guesses_ends_the_session() {
    let mut game = session(42);
    assert_eq!(game.step(&line("10")), Some(Outcome::TooLow));
    assert_eq!(game.step(&Event::ReadFailed), None);
    assert_eq!(game.state(), State::Failed);
}

#[test]
fn a_quit_session_stays_quit() {
    let mut game = session(42);
    assert_eq!(game.step(&line("quit")), Some(Outcome::Quit));
    assert_eq!(game.step(&line("42")), None);
    assert_eq!(game.step(&Event::ReadFailed), None);
    assert_eq!(game.state(), State::Quit);
}

#[test]
fn a_drawn_secret_is_found_between_one_and_hundred() {
    for _ in 0..200 {
        let mut game = Session::start();
        assert_eq!(game.step(&line("0")), Some(Outcome::TooLow));
        assert_eq!(game.step(&line("101")), Some(Outcome::TooHigh));
        let mut found: Option<u32> = None;
        for guess in 1..=100u32 {
            match game.step(&line(&format!("{guess}"))) {
                Some(Outcome::Win) => {
                    found = Some(guess);
                    break;
                }
                Some(Outcome::TooLow) => {}
                other => panic!("guess {guess} gave {other:?}"),
            }
        }
        assert!(found.is_some());
        assert_eq!(game.state(), State::Won);
    }
}

#[test]
fn drawn_secrets_differ() {
    let mut seen: Vec<u32> = Vec::new();
    for _ in 0..200 {
        let mut game = Session::start();
        let mut low: u32 = 1;
        let mut high: u32 = 100;
        loop {
            let guess = low + (high - low) / 2;
            match game.step(&line(&format!("{guess}"))) {
                Some(Outcome::Win) => {
                    if !seen.contains(&guess) {
                        seen.push(guess);
                    }
                    break;
                }
                Some(Outcome::TooLow) => low = guess + 1,
                Some(Outcome::TooHigh) => high = guess - 1,
                other => panic!("guess {guess} gave {other:?}"),
            }
        }
    }
    assert!(seen.len() > 1);
    assert!(seen.iter().all(|secret| (1..=100).contains(secret)));
}
