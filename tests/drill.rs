use word_drill::remediation::{Action, Event, Failure, Remediation, Role, RunStatus, Stage};
use word_drill::schedule::{reversed, sort_by_rating_desc, Scheduler};
use word_drill::word::{grade, update_rating, Outcome, Word};

fn word(id: u64, target: &str, known: &str, rating: u32) -> Word {
    let mut w = Word::new(id, target.to_string(), known.to_string());
    w.rating = rating;
    w
}

fn drain_ids(s: &mut Scheduler) -> Vec<u64> {
    let mut out = Vec::new();
    while let Some(w) = s.next() {
        out.push(w.id);
    }
    out
}

#[test]
fn rating_moves_by_one_step_within_range() {
    for r in 0..=100u32 {
        assert_eq!(update_rating(r, &Outcome::Correct), std::cmp::min(r + 10, 100));
        let down = if r >= 10 { r - 10 } else { 0 };
        assert_eq!(update_rating(r, &Outcome::Incorrect("x".to_string())), down);
    }
    assert_eq!(update_rating(45, &Outcome::Correct), 55);
    assert_eq!(update_rating(45, &Outcome::Incorrect(String::new())), 35);
}

#[test]
fn rating_clamps_at_both_ends() {
    assert_eq!(update_rating(100, &Outcome::Correct), 100);
    assert_eq!(update_rating(0, &Outcome::Incorrect("nope".to_string())), 0);
    assert_eq!(update_rating(95, &Outcome::Correct), 100);
    assert_eq!(update_rating(5, &Outcome::Incorrect("nope".to_string())), 0);
}

#[test]
fn word_update_rating_keeps_identity() {
    let mut w = Word::new(7, "hoi".to_string(), "hello".to_string());
    assert_eq!(w.rating, 0);
    w.update_rating(&Outcome::Correct);
    w.update_rating(&Outcome::Correct);
    assert_eq!(w.rating, 20);
    w.update_rating(&Outcome::Incorrect("bye".to_string()));
    assert_eq!(w.rating, 10);
    assert_eq!(w.id, 7);
    assert_eq!(w.target, "hoi");
    assert_eq!(w.known, "hello");
}

#[test]
fn grading_is_exact_and_case_sensitive() {
    let w = word(0, "hoi", "hello", 0);
    assert!(matches!(grade(&w, "hello"), Outcome::Correct));
    assert!(matches!(grade(&w, "Hello"), Outcome::Incorrect(ref s) if s == "Hello"));
    assert!(matches!(grade(&w, "hello "), Outcome::Incorrect(ref s) if s == "hello "));
    assert!(matches!(grade(&w, ""), Outcome::Incorrect(ref s) if s.is_empty()));
}

#[test]
fn two_word_round_puts_the_missed_word_first() {
    let bank = vec![word(0, "hoi", "hello", 0), word(1, "hij", "he", 0)];
    let mut s = Scheduler::new(bank);

    let first = s.next().unwrap();
    assert_eq!(first.id, 1);
    let outcome = grade(&first, "he");
    assert!(matches!(outcome, Outcome::Correct));
    s.record(first, &outcome);

    let second = s.next().unwrap();
    assert_eq!(second.id, 0);
    let outcome = grade(&second, "bye");
    assert!(matches!(outcome, Outcome::Incorrect(ref t) if t == "bye"));
    let (_, action) = Remediation::begin(&second, None);
    assert!(matches!(action, Action::Submit { role: Role::Generation, .. }));
    s.record(second, &outcome);

    assert!(s.next().is_none());
    s.advance_round();
    let a = s.next().unwrap();
    let b = s.next().unwrap();
    assert_eq!((a.id, a.rating), (0, 0));
    assert_eq!((b.id, b.rating), (1, 10));
    assert!(s.next().is_none());
}

#[test]
fn round_hands_out_every_word_once_and_keeps_them() {
    let bank: Vec<Word> = (0..6u64).map(|i| word(i, "t", "k", 0)).collect();
    let mut s = Scheduler::new(bank);
    let mut seen = Vec::new();
    for i in 0..6 {
        let w = s.next().unwrap();
        seen.push(w.id);
        let outcome = if i % 2 == 0 { Outcome::Correct } else { Outcome::Incorrect("x".to_string()) };
        s.record(w, &outcome);
    }
    assert!(s.next().is_none());
    assert_eq!(seen, vec![5, 4, 3, 2, 1, 0]);
    s.advance_round();
    let mut next: Vec<u64> = drain_ids(&mut s);
    assert_eq!(next.len(), 6);
    next.sort();
    assert_eq!(next, vec![0, 1, 2, 3, 4, 5]);
}

#[test]
fn next_round_presents_lower_ratings_first() {
    let ratings = [30u32, 0, 100, 10, 50, 20];
    let mut s = Scheduler::new(Vec::new());
    for (i, r) in ratings.iter().enumerate() {
        s.record(word(i as u64, "t", "k", *r), &Outcome::Correct);
    }
    s.advance_round();
    let mut last = 0u32;
    let mut count = 0;
    while let Some(w) = s.next() {
        assert!(w.rating >= last);
        last = w.rating;
        count += 1;
    }
    assert_eq!(count, 6);
}

#[test]
fn ties_keep_most_recently_tested_last_in_queue_order() {
    // Recorded in order 0, 1, 2, all ending at the same rating.
    let mut s = Scheduler::new(Vec::new());
    for id in 0..3u64 {
        s.record(word(id, "t", "k", 20), &Outcome::Correct);
    }
    s.advance_round();
    // Reversed before sorting: queue is [2, 1, 0], so 0 is presented first.
    assert_eq!(drain_ids(&mut s), vec![0, 1, 2]);
}

#[test]
fn perfect_scorer_still_sees_every_word() {
    let bank: Vec<Word> = (0..3u64).map(|i| word(i, "t", "k", 100)).collect();
    let mut s = Scheduler::new(bank);
    for _ in 0..3 {
        let w = s.next().unwrap();
        s.record(w, &Outcome::Correct);
    }
    s.advance_round();
    let ids = drain_ids(&mut s);
    assert_eq!(ids.len(), 3);
}

#[test]
fn empty_round_stays_empty() {
    let mut s = Scheduler::new(Vec::new());
    assert!(s.next().is_none());
    s.advance_round();
    assert!(s.next().is_none());
}

#[test]
fn sort_is_stable_and_descending() {
    let words = vec![
        word(0, "a", "a", 10),
        word(1, "b", "b", 30),
        word(2, "c", "c", 10),
        word(3, "d", "d", 30),
        word(4, "e", "e", 0),
    ];
    let sorted = sort_by_rating_desc(words);
    let ids: Vec<u64> = sorted.iter().map(|w| w.id).collect();
    assert_eq!(ids, vec![1, 3, 0, 2, 4]);
    assert!(sort_by_rating_desc(Vec::new()).is_empty());
}

#[test]
fn reversed_flips_order() {
    let words = vec![word(0, "a", "a", 0), word(1, "b", "b", 0), word(2, "c", "c", 0)];
    let ids: Vec<u64> = reversed(words).iter().map(|w| w.id).collect();
    assert_eq!(ids, vec![2, 1, 0]);
    assert!(reversed(Vec::new()).is_empty());
}

fn submitted(a: &Action) -> (bool, String) {
    match a {
        Action::Submit { role, content } => (matches!(role, Role::Evaluation), content.clone()),
        _ => panic!("expected a submission"),
    }
}

#[test]
fn remediation_runs_two_cycles() {
    let w = word(0, "hoi", "hello", 0);
    let (mut m, a) = Remediation::begin(&w, None);
    let mut submissions = vec![submitted(&a)];
    assert_eq!(submissions[0], (false, "hellohoi".to_string()));

    assert!(matches!(m.step(Event::Status(RunStatus::Queued)), Action::Poll));
    assert!(matches!(m.step(Event::Status(RunStatus::InProgress)), Action::Poll));
    assert!(matches!(m.step(Event::Status(RunStatus::Completed)), Action::Fetch));
    let example = "Hello, how are you?".to_string();
    match m.step(Event::Message(example.clone())) {
        Action::AskTranslation { example: e } => assert_eq!(e, example),
        _ => panic!("expected a translation request"),
    }
    let attempt = "Hoi, hoe gaat het?".to_string();
    let a = m.step(Event::Attempt(attempt.clone()));
    submissions.push(submitted(&a));
    let (is_eval, content) = &submissions[1];
    assert!(*is_eval);
    assert_eq!(
        content,
        "English sentence: Hello, how are you?\n Student's translation attempt: Hoi, hoe gaat het?"
    );
    assert!(content.contains(&example) && content.contains(&attempt));

    assert!(matches!(m.step(Event::Status(RunStatus::Cancelling)), Action::Poll));
    assert!(matches!(m.step(Event::Status(RunStatus::Completed)), Action::Fetch));
    match m.step(Event::Message("Good job".to_string())) {
        Action::ShowFeedback { feedback } => assert_eq!(feedback, "Good job"),
        _ => panic!("expected feedback"),
    }
    assert!(m.is_over());
    assert!(matches!(m.stage, Stage::Finished));
    assert_eq!(submissions.len(), 2);
    // Anything after the end is refused, and submits nothing.
    assert!(matches!(
        m.step(Event::Attempt("again".to_string())),
        Action::Abort(Failure::UnexpectedEvent)
    ));
}

#[test]
fn failed_generation_aborts_before_a_second_cycle() {
    let w = word(0, "hoi", "hello", 0);
    let (mut m, _) = Remediation::begin(&w, None);
    assert!(matches!(m.step(Event::Status(RunStatus::Failed)), Action::Abort(Failure::RunFailed)));
    assert!(m.is_over());
    assert!(matches!(
        m.step(Event::Attempt("x".to_string())),
        Action::Abort(Failure::UnexpectedEvent)
    ));
}

#[test]
fn failed_evaluation_aborts() {
    let w = word(0, "hoi", "hello", 0);
    let (mut m, _) = Remediation::begin(&w, None);
    m.step(Event::Status(RunStatus::Completed));
    m.step(Event::Message("ex".to_string()));
    let a = m.step(Event::Attempt("try".to_string()));
    assert!(matches!(a, Action::Submit { role: Role::Evaluation, .. }));
    assert!(matches!(m.step(Event::Status(RunStatus::Failed)), Action::Abort(Failure::RunFailed)));
    assert!(matches!(m.stage, Stage::Aborted));
}

#[test]
fn transport_error_aborts() {
    let w = word(0, "hoi", "hello", 0);
    let (mut m, _) = Remediation::begin(&w, None);
    assert!(!m.is_over());
    assert!(matches!(m.step(Event::TransportError), Action::Abort(Failure::Transport)));
    assert!(m.is_over());
}

#[test]
fn poll_limit_aborts() {
    let w = word(0, "hoi", "hello", 0);
    let (mut m, _) = Remediation::begin(&w, Some(2));
    assert!(matches!(m.step(Event::Status(RunStatus::Queued)), Action::Poll));
    assert!(matches!(m.step(Event::Status(RunStatus::InProgress)), Action::Poll));
    assert!(matches!(
        m.step(Event::Status(RunStatus::InProgress)),
        Action::Abort(Failure::PollLimit)
    ));
    let (mut m, _) = Remediation::begin(&w, Some(0));
    assert!(matches!(m.step(Event::Status(RunStatus::Queued)), Action::Abort(Failure::PollLimit)));
}

#[test]
fn unexpected_event_aborts() {
    let w = word(0, "hoi", "hello", 0);
    let (mut m, _) = Remediation::begin(&w, None);
    assert!(matches!(
        m.step(Event::Message("early".to_string())),
        Action::Abort(Failure::UnexpectedEvent)
    ));
}
