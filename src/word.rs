use vstd::prelude::*;
use vstd::string::StringExecFns;

verus! {

/// Largest rating a word can reach.
pub const MAX_RATING: u32 = 100;

/// Amount a rating moves after one answer.
pub const RATING_STEP: u32 = 10;

/// What grading one response produced.
pub enum Outcome {
    Correct,
    /// The learner's response, verbatim.
    Incorrect(String),
}

/// One practice item: a word in the language being learned, its meaning in
/// the learner's own language, and how well the learner knows it.
pub struct Word {
    /// Identity, fixed when the word is made.
    pub id: u64,
    /// The word in the language being learned.
    pub target: String,
    /// The word in the learner's base language: the expected answer.
    pub known: String,
    /// Recent recall success, within `[0, MAX_RATING]`; lower is drilled sooner.
    pub rating: u32,
}

/// `v` clamped to the closed range `[0, MAX_RATING]`.
pub open spec fn clamp_rating(v: int) -> int {
    if v < 0 {
        0
    } else if v > MAX_RATING as int {
        MAX_RATING as int
    } else {
        v
    }
}

/// The signed change an outcome applies to a rating.
pub open spec fn rating_delta(outcome: Outcome) -> int {
    match outcome {
        Outcome::Correct => RATING_STEP as int,
        Outcome::Incorrect(_) => -(RATING_STEP as int),
    }
}

/// The rating after `outcome`: move by one step, then clamp.
pub open spec fn updated_rating(current: int, outcome: Outcome) -> int {
    clamp_rating(current + rating_delta(outcome))
}

/// New rating after an answer with the given outcome.
pub fn update_rating(current: u32, outcome: &Outcome) -> (r: u32)
    ensures
        r as int == updated_rating(current as int, *outcome),
{
    match outcome {
        Outcome::Correct => {
            if current >= MAX_RATING - RATING_STEP {
                MAX_RATING
            } else {
                current + RATING_STEP
            }
        },
        Outcome::Incorrect(_) => {
            if current <= RATING_STEP {
                0
            } else if current - RATING_STEP > MAX_RATING {
                MAX_RATING
            } else {
                current - RATING_STEP
            }
        },
    }
}

/// Grades `response` against the expected answer: exact, case-sensitive
/// equality with `word.known` is `Correct`, anything else is `Incorrect`
/// carrying the response verbatim.
pub fn grade(word: &Word, response: &str) -> (r: Outcome)
    ensures
        response@ == word.known@ ==> r == Outcome::Correct,
        response@ != word.known@ ==> (r matches Outcome::Incorrect(s) && s@ == response@),
{
    let given = String::from_str(response);
    if given == word.known {
        Outcome::Correct
    } else {
        Outcome::Incorrect(given)
    }
}

impl Word {
    /// The rating lies within `[0, MAX_RATING]`.
    pub open spec fn wf(&self) -> bool {
        self.rating <= MAX_RATING
    }

    /// A fresh word, rated 0.
    pub fn new(id: u64, target: String, known: String) -> (w: Word)
        ensures
            w.id == id,
            w.target == target,
            w.known == known,
            w.rating == 0,
            w.wf(),
    {
        Word { id, target, known, rating: 0 }
    }

    /// Moves this word's rating by the outcome of one answer.
    pub fn update_rating(&mut self, outcome: &Outcome)
        ensures
            final(self).rating as int == updated_rating(old(self).rating as int, *outcome),
            final(self).id == old(self).id,
            final(self).target == old(self).target,
            final(self).known == old(self).known,
            final(self).wf(),
    {
        self.rating = update_rating(self.rating, outcome);
    }
}

/// Within the valid range a right answer adds a step and stops at the top, a
/// wrong one takes a step off and stops at zero; the result stays in range.
pub proof fn lemma_update_rating_steps(r: int, outcome: Outcome)
    requires
        0 <= r <= MAX_RATING,
    ensures
        outcome == Outcome::Correct ==> updated_rating(r, outcome) == if r + 10 < 100 {
            r + 10
        } else {
            100
        },
        outcome matches Outcome::Incorrect(_) ==> updated_rating(r, outcome) == if r - 10 > 0 {
            r - 10
        } else {
            0
        },
        0 <= updated_rating(r, outcome) <= MAX_RATING,
{
}

} // verus!
