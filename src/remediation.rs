use vstd::prelude::*;
use vstd::string::StringExecFns;
use crate::word::Word;

verus! {

/// Which assistant a request addresses.
pub enum Role {
    /// Writes an example sentence around a word.
    Generation,
    /// Gives feedback on a translation attempt.
    Evaluation,
}

/// Status of a request in flight at the external service.
pub enum RunStatus {
    Queued,
    InProgress,
    Cancelling,
    Completed,
    /// Any other terminal status.
    Failed,
}

/// Why a remediation stopped short.
pub enum Failure {
    /// A request ended in a terminal status other than `Completed`.
    RunFailed,
    /// A request was still running after the allowed number of polls.
    PollLimit,
    /// A call to the external service failed.
    Transport,
    /// An event that the current stage does not expect.
    UnexpectedEvent,
}

/// What the driver of a remediation reports back.
pub enum Event {
    /// The status of the request in flight.
    Status(RunStatus),
    /// The newest message of the conversation.
    Message(String),
    /// The learner's translation attempt.
    Attempt(String),
    /// A call to the external service failed.
    TransportError,
}

/// What the driver of a remediation must do next.
pub enum Action {
    /// Submit `content` to the assistant in `role`, then report the request's status.
    Submit { role: Role, content: String },
    /// Wait one interval, then report the status of the request in flight again.
    Poll,
    /// Report the newest message of the conversation.
    Fetch,
    /// Show the example sentence and report the learner's translation of it.
    AskTranslation { example: String },
    /// Show the feedback; the remediation is over.
    ShowFeedback { feedback: String },
    /// Stop: the remediation cannot go on.
    Abort(Failure),
}

/// Where a remediation stands.
pub enum Stage {
    /// A request to `role` is in flight and has been polled `polls` times.
    Running { role: Role, polls: u64 },
    /// The request to `role` completed; its answer is being fetched.
    Fetching { role: Role },
    /// The example sentence is shown; waiting for the learner's attempt.
    AwaitingAttempt { example: String },
    /// Feedback was handed out.
    Finished,
    /// The remediation stopped short.
    Aborted,
}

/// One remediation exchange, run after a wrong answer: an example sentence is
/// generated for the word, the learner translates it, and the translation is
/// evaluated.
pub struct Remediation {
    pub stage: Stage,
    /// How many times one request may be polled; `None` polls until it ends.
    pub max_polls: Option<u64>,
}

/// The content submitted to generate an example sentence for `word`.
pub open spec fn generation_request(word: Word) -> Seq<char> {
    word.known@ + word.target@
}

/// The content submitted to evaluate `attempt` as a translation of `example`.
pub open spec fn evaluation_request(example: Seq<char>, attempt: Seq<char>) -> Seq<char> {
    "English sentence: "@ + example + "\n Student's translation attempt: "@ + attempt
}

/// Whether a request polled `polls` times may be polled once more.
pub open spec fn may_poll(max_polls: Option<u64>, polls: u64) -> bool {
    match max_polls {
        None => true,
        Some(m) => polls < m,
    }
}

/// The poll count after one more poll, saturating where there is no limit.
pub open spec fn polled(polls: u64) -> u64 {
    if polls < u64::MAX {
        (polls + 1) as u64
    } else {
        polls
    }
}

/// The stage that follows `role`'s request once its answer is fetched.
pub open spec fn stage_after_running(
    max_polls: Option<u64>,
    role: Role,
    polls: u64,
    status: RunStatus,
    next: Stage,
    a: Action,
) -> bool {
    match status {
        RunStatus::Completed => next == (Stage::Fetching { role }) && a == Action::Fetch,
        RunStatus::Failed => next == Stage::Aborted && a == Action::Abort(Failure::RunFailed),
        _ => if may_poll(max_polls, polls) {
            next == (Stage::Running { role, polls: polled(polls) }) && a == Action::Poll
        } else {
            next == Stage::Aborted && a == Action::Abort(Failure::PollLimit)
        },
    }
}

/// One step of a remediation: in state `m`, `e` comes in; the state becomes
/// `next` and the driver is asked to do `a`.
pub open spec fn transition(m: Remediation, e: Event, next: Remediation, a: Action) -> bool {
    &&& next.max_polls == m.max_polls
    &&& match (m.stage, e) {
        (_, Event::TransportError) => next.stage == Stage::Aborted && a == Action::Abort(
            Failure::Transport,
        ),
        (Stage::Running { role, polls }, Event::Status(status)) => stage_after_running(
            m.max_polls,
            role,
            polls,
            status,
            next.stage,
            a,
        ),
        (Stage::Fetching { role: Role::Generation }, Event::Message(text)) => {
            &&& next.stage == (Stage::AwaitingAttempt { example: text })
            &&& a == (Action::AskTranslation { example: text })
        },
        (Stage::Fetching { role: Role::Evaluation }, Event::Message(text)) => {
            &&& next.stage == Stage::Finished
            &&& a == (Action::ShowFeedback { feedback: text })
        },
        (Stage::AwaitingAttempt { example }, Event::Attempt(attempt)) => {
            &&& next.stage == (Stage::Running { role: Role::Evaluation, polls: 0 })
            &&& a matches Action::Submit { role: Role::Evaluation, content }
            &&& a->content@ == evaluation_request(example@, attempt@)
        },
        _ => next.stage == Stage::Aborted && a == Action::Abort(Failure::UnexpectedEvent),
    }
}

/// Builds the message that asks for feedback on `attempt` as a translation of `example`.
fn compose_evaluation(example: &String, attempt: &String) -> (r: String)
    ensures
        r@ == evaluation_request(example@, attempt@),
{
    let mut r = String::from_str("English sentence: ");
    r.append(example.as_str());
    r.append("\n Student's translation attempt: ");
    r.append(attempt.as_str());
    r
}

impl Remediation {
    /// Starts the remediation of a wrongly answered `word`: its request for an
    /// example sentence is the first thing to submit.
    pub fn begin(word: &Word, max_polls: Option<u64>) -> (r: (Remediation, Action))
        ensures
            r.0.stage == (Stage::Running { role: Role::Generation, polls: 0 }),
            r.0.max_polls == max_polls,
            r.1 matches Action::Submit { role: Role::Generation, content },
            r.1->content@ == generation_request(*word),
    {
        let mut content = word.known.clone();
        content.append(word.target.as_str());
        (
            Remediation { stage: Stage::Running { role: Role::Generation, polls: 0 }, max_polls },
            Action::Submit { role: Role::Generation, content },
        )
    }

    /// Whether the remediation is over, by success or not.
    pub fn is_over(&self) -> (r: bool)
        ensures
            r == (self.stage is Finished || self.stage is Aborted),
    {
        match self.stage {
            Stage::Finished | Stage::Aborted => true,
            _ => false,
        }
    }

    fn after_status(&mut self, role: Role, polls: u64, status: RunStatus) -> (a: Action)
        ensures
            stage_after_running(old(self).max_polls, role, polls, status, final(self).stage, a),
            final(self).max_polls == old(self).max_polls,
    {
        match status {
            RunStatus::Completed => {
                self.stage = Stage::Fetching { role };
                Action::Fetch
            },
            RunStatus::Failed => {
                self.stage = Stage::Aborted;
                Action::Abort(Failure::RunFailed)
            },
            _ => {
                let allowed = match self.max_polls {
                    None => true,
                    Some(m) => polls < m,
                };
                if allowed {
                    let polls = if polls < u64::MAX {
                        polls + 1
                    } else {
                        polls
                    };
                    self.stage = Stage::Running { role, polls };
                    Action::Poll
                } else {
                    self.stage = Stage::Aborted;
                    Action::Abort(Failure::PollLimit)
                }
            },
        }
    }

    /// Takes in what the driver reports and says what it must do next.
    pub fn step(&mut self, event: Event) -> (a: Action)
        ensures
            transition(*old(self), event, *final(self), a),
    {
        let mut stage = Stage::Aborted;
        std::mem::swap(&mut stage, &mut self.stage);
        match event {
            Event::TransportError => Action::Abort(Failure::Transport),
            Event::Status(status) => match stage {
                Stage::Running { role, polls } => self.after_status(role, polls, status),
                _ => Action::Abort(Failure::UnexpectedEvent),
            },
            Event::Message(text) => match stage {
                Stage::Fetching { role: Role::Generation } => {
                    self.stage = Stage::AwaitingAttempt { example: text.clone() };
                    Action::AskTranslation { example: text }
                },
                Stage::Fetching { role: Role::Evaluation } => {
                    self.stage = Stage::Finished;
                    Action::ShowFeedback { feedback: text }
                },
                _ => Action::Abort(Failure::UnexpectedEvent),
            },
            Event::Attempt(attempt) => match stage {
                Stage::AwaitingAttempt { example } => {
                    let content = compose_evaluation(&example, &attempt);
                    self.stage = Stage::Running { role: Role::Evaluation, polls: 0 };
                    Action::Submit { role: Role::Evaluation, content }
                },
                _ => Action::Abort(Failure::UnexpectedEvent),
            },
        }
    }
}

/// How far a remediation has got; no step takes it back.
pub open spec fn progress(stage: Stage) -> int {
    match stage {
        Stage::Running { role: Role::Generation, .. } => 0,
        Stage::Fetching { role: Role::Generation } => 1,
        Stage::AwaitingAttempt { .. } => 2,
        Stage::Running { role: Role::Evaluation, .. } => 3,
        Stage::Fetching { role: Role::Evaluation } => 4,
        Stage::Finished => 5,
        Stage::Aborted => 6,
    }
}

/// `states`, `events` and `actions` record a remediation from its start: each
/// event moved the state before it to the one after it and asked for the action.
pub open spec fn is_run(states: Seq<Remediation>, events: Seq<Event>, actions: Seq<Action>) -> bool {
    &&& states.len() == events.len() + 1
    &&& actions.len() == events.len()
    &&& states[0].stage == (Stage::Running { role: Role::Generation, polls: 0 })
    &&& forall|i: int|
        #![trigger events[i]]
        0 <= i < events.len() ==> transition(states[i], events[i], states[i + 1], actions[i])
}

proof fn lemma_step_progress(m: Remediation, e: Event, next: Remediation, a: Action)
    requires
        transition(m, e, next, a),
    ensures
        progress(next.stage) >= progress(m.stage),
        a is Submit ==> progress(m.stage) == 2 && progress(next.stage) == 3,
        a is Abort ==> progress(next.stage) == 6,
        m.stage is AwaitingAttempt && next.stage is AwaitingAttempt ==> next.stage == m.stage,
{
}

proof fn lemma_progress_grows(
    states: Seq<Remediation>,
    events: Seq<Event>,
    actions: Seq<Action>,
    i: int,
    j: int,
)
    requires
        is_run(states, events, actions),
        0 <= i <= j < states.len(),
    ensures
        progress(states[i].stage) <= progress(states[j].stage),
    decreases j - i,
{
    if i < j {
        lemma_progress_grows(states, events, actions, i, j - 1);
        let e = events[j - 1];
        lemma_step_progress(states[j - 1], events[j - 1], states[j], actions[j - 1]);
    }
}

/// The example the learner is asked to translate is the text of a message
/// that came in earlier in the run.
proof fn lemma_example_was_fetched(
    states: Seq<Remediation>,
    events: Seq<Event>,
    actions: Seq<Action>,
    i: int,
)
    requires
        is_run(states, events, actions),
        0 <= i < states.len(),
        states[i].stage is AwaitingAttempt,
    ensures
        exists|k: int| 0 <= k < i && events[k] == Event::Message(states[i].stage->example),
    decreases i,
{
    let prev = states[i - 1];
    let e = events[i - 1];
    assert(transition(prev, e, states[i], actions[i - 1]));
    if prev.stage is AwaitingAttempt {
        lemma_example_was_fetched(states, events, actions, i - 1);
    } else {
        assert(events[i - 1] == Event::Message(states[i].stage->example));
    }
}

/// A remediation submits at most two requests: after the generation request
/// that starts it, only one more, the evaluation request, whose content holds
/// a text fetched earlier in the run and the learner's attempt, verbatim. Once
/// it aborts, nothing more is submitted.
pub proof fn lemma_two_cycles_at_most(
    states: Seq<Remediation>,
    events: Seq<Event>,
    actions: Seq<Action>,
)
    requires
        is_run(states, events, actions),
    ensures
        forall|i: int, j: int|
            0 <= i < j < actions.len() && #[trigger] actions[i] is Submit ==> !(
            #[trigger] actions[j] is Submit),
        forall|i: int, j: int|
            0 <= i < j < actions.len() && #[trigger] actions[i] is Abort ==> !(
            #[trigger] actions[j] is Submit),
        forall|i: int|
            0 <= i < actions.len() && #[trigger] actions[i] is Submit ==> {
                &&& actions[i]->role == Role::Evaluation
                &&& events[i] is Attempt
                &&& exists|k: int|
                    0 <= k < i && #[trigger] events[k] == Event::Message(
                        states[i].stage->example,
                    ) && actions[i]->content@ == evaluation_request(
                        states[i].stage->example@,
                        events[i]->Attempt_0@,
                    )
            },
{
    assert forall|i: int, j: int|
        0 <= i < j < actions.len() && #[trigger] actions[i] is Submit implies !(
        #[trigger] actions[j] is Submit) by {
        let (ei, ej) = (events[i], events[j]);
        lemma_step_progress(states[i], events[i], states[i + 1], actions[i]);
        lemma_step_progress(states[j], events[j], states[j + 1], actions[j]);
        lemma_progress_grows(states, events, actions, i + 1, j);
    }
    assert forall|i: int, j: int|
        0 <= i < j < actions.len() && #[trigger] actions[i] is Abort implies !(
        #[trigger] actions[j] is Submit) by {
        let (ei, ej) = (events[i], events[j]);
        lemma_step_progress(states[i], events[i], states[i + 1], actions[i]);
        lemma_step_progress(states[j], events[j], states[j + 1], actions[j]);
        lemma_progress_grows(states, events, actions, i + 1, j);
    }
    assert forall|i: int| 0 <= i < actions.len() && #[trigger] actions[i] is Submit implies {
        &&& actions[i]->role == Role::Evaluation
        &&& events[i] is Attempt
        &&& exists|k: int|
            0 <= k < i && #[trigger] events[k] == Event::Message(states[i].stage->example)
                && actions[i]->content@ == evaluation_request(
                states[i].stage->example@,
                events[i]->Attempt_0@,
            )
    } by {
        let e = events[i];
        assert(transition(states[i], events[i], states[i + 1], actions[i]));
        lemma_step_progress(states[i], events[i], states[i + 1], actions[i]);
        lemma_example_was_fetched(states, events, actions, i);
    }
}

} // verus!
