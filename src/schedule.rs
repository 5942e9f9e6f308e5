use vstd::prelude::*;
use crate::word::{Outcome, Word, update_rating, updated_rating};

verus! {

broadcast use vstd::seq_lib::group_to_multiset_ensures;

/// Ratings never rise from front to back.
pub open spec fn sorted_desc(s: Seq<Word>) -> bool {
    forall|i: int, j: int| 0 <= i < j < s.len() ==> s[i].rating >= s[j].rating
}

/// Holds of the words rated exactly `r`.
pub open spec fn rated(r: u32) -> spec_fn(Word) -> bool {
    |w: Word| w.rating == r
}

/// The words of `s` rated exactly `r`, in the order they stand in `s`.
pub open spec fn with_rating(s: Seq<Word>, r: u32) -> Seq<Word> {
    s.filter(rated(r))
}

/// `output` is `input` stably sorted by rating, highest first: the same words,
/// in non-increasing rating, and words of equal rating keep their order.
pub open spec fn stable_sorted_desc(input: Seq<Word>, output: Seq<Word>) -> bool {
    &&& output.to_multiset() == input.to_multiset()
    &&& sorted_desc(output)
    &&& forall|r: u32| #[trigger] with_rating(output, r) == with_rating(input, r)
}

proof fn lemma_filter_none(s: Seq<Word>, r: u32)
    requires
        forall|j: int| 0 <= j < s.len() ==> s[j].rating != r,
    ensures
        with_rating(s, r) == Seq::<Word>::empty(),
    decreases s.len(),
{
    reveal(Seq::filter);
    if s.len() > 0 {
        lemma_filter_none(s.drop_last(), r);
    }
}

/// Inserting `w` at `k` in a sorted sequence, where all before `k` rate at
/// least `w` and all from `k` on rate below it, keeps it a stable sort.
proof fn lemma_insert_step(input: Seq<Word>, out: Seq<Word>, w: Word, k: int)
    requires
        stable_sorted_desc(input, out),
        0 <= k <= out.len(),
        forall|j: int| 0 <= j < k ==> out[j].rating >= w.rating,
        forall|j: int| k <= j < out.len() ==> out[j].rating < w.rating,
    ensures
        stable_sorted_desc(input.push(w), out.insert(k, w)),
{
    let res = out.insert(k, w);
    assert(out =~= out.take(k) + out.skip(k));
    assert(res =~= out.take(k) + seq![w] + out.skip(k));
    assert(res.to_multiset() == input.push(w).to_multiset());
    assert forall|r: u32| #[trigger] with_rating(res, r) == with_rating(input.push(w), r) by {
        let p = rated(r);
        let a = out.take(k);
        let b = out.skip(k);
        Seq::filter_distributes_over_add(a, b, p);
        Seq::filter_distributes_over_add(a + seq![w], b, p);
        Seq::filter_distributes_over_add(a, seq![w], p);
        input.lemma_filter_push(w, p);
        Seq::<Word>::empty().lemma_filter_push(w, p);
        assert(with_rating(out, r) == with_rating(input, r));
        assert(Seq::<Word>::empty().push(w) =~= seq![w]);
        reveal(Seq::filter);
        assert(Seq::<Word>::empty().filter(p) =~= Seq::<Word>::empty());
        if r == w.rating {
            lemma_filter_none(b, r);
            assert(seq![w].filter(p) =~= seq![w]);
            assert(with_rating(res, r) =~= with_rating(input.push(w), r));
        } else {
            assert(seq![w].filter(p) =~= Seq::<Word>::empty());
            assert(with_rating(res, r) =~= with_rating(input.push(w), r));
        }
    }
}

/// The words of `words` in the opposite order.
pub fn reversed(words: Vec<Word>) -> (r: Vec<Word>)
    ensures
        r@ == words@.reverse(),
{
    let ghost input = words@;
    let mut rest = words;
    let mut out: Vec<Word> = Vec::new();
    while rest.len() > 0
        invariant
            rest@.len() <= input.len(),
            rest@ =~= input.take(rest@.len() as int),
            out@ =~= input.skip(rest@.len() as int).reverse(),
        decreases rest.len(),
    {
        let w = rest.pop().unwrap();
        out.push(w);
        proof {
            assert(rest@ =~= input.take(rest@.len() as int));
            assert(out@ =~= input.skip(rest@.len() as int).reverse());
        }
    }
    proof {
        assert(input.skip(0) =~= input);
    }
    out
}

/// Sorts `words` by rating, highest first, keeping the order of equal ratings.
pub fn sort_by_rating_desc(words: Vec<Word>) -> (r: Vec<Word>)
    ensures
        stable_sorted_desc(words@, r@),
{
    let ghost input = words@;
    let mut out: Vec<Word> = Vec::new();
    let mut rest = reversed(words);
    let ghost taken: int = 0;
    proof {
        assert(input.take(0) =~= Seq::<Word>::empty());
        assert(rest@ =~= input.reverse());
    }
    while rest.len() > 0
        invariant
            0 <= taken <= input.len(),
            rest@ =~= input.skip(taken).reverse(),
            stable_sorted_desc(input.take(taken), out@),
        decreases rest.len(),
    {
        let w = rest.pop().unwrap();
        proof {
            assert(w == input[taken]);
        }
        let mut k: usize = 0;
        while k < out.len() && out[k].rating >= w.rating
            invariant
                0 <= k <= out.len(),
                forall|j: int| 0 <= j < k ==> out[j].rating >= w.rating,
            decreases out.len() - k,
        {
            k = k + 1;
        }
        proof {
            lemma_insert_step(input.take(taken), out@, w, k as int);
            assert(input.take(taken).push(w) =~= input.take(taken + 1));
            taken = taken + 1;
            assert(input.skip(taken).reverse() =~= input.skip(taken - 1).reverse().drop_last());
        }
        out.insert(k, w);
    }
    proof {
        assert(input.take(taken) =~= input);
    }
    out
}

/// `w` after its rating has moved by `outcome`.
pub open spec fn after_outcome(w: Word, outcome: Outcome) -> Word {
    Word {
        id: w.id,
        target: w.target,
        known: w.known,
        rating: updated_rating(w.rating as int, outcome) as u32,
    }
}

/// Decides which word is drilled next. Words wait in the practice queue and
/// are handed out from its back; tested words gather in the completed queue
/// until the round ends and they are re-sorted into the next round.
pub struct Scheduler {
    queue: Vec<Word>,
    completed: Vec<Word>,
}

impl Scheduler {
    /// The practice queue; its last word is presented next.
    pub closed spec fn pending(&self) -> Seq<Word> {
        self.queue@
    }

    /// The words tested in this round, in the order they were recorded.
    pub closed spec fn done(&self) -> Seq<Word> {
        self.completed@
    }

    /// Starts the first round with `words`, presented from the last one back.
    pub fn new(words: Vec<Word>) -> (s: Scheduler)
        ensures
            s.pending() == words@,
            s.done() == Seq::<Word>::empty(),
    {
        Scheduler { queue: words, completed: Vec::new() }
    }

    /// Takes the next word to present, or `None` once the round is complete.
    pub fn next(&mut self) -> (r: Option<Word>)
        ensures
            old(self).pending().len() == 0 ==> r is None && final(self).pending() == old(
                self,
            ).pending(),
            old(self).pending().len() > 0 ==> r == Some(old(self).pending().last())
                && final(self).pending() == old(self).pending().drop_last(),
            final(self).done() == old(self).done(),
    {
        self.queue.pop()
    }

    /// Puts a tested word, its rating moved by `outcome`, on the completed queue.
    pub fn record(&mut self, word: Word, outcome: &Outcome)
        ensures
            final(self).done() == old(self).done().push(after_outcome(word, *outcome)),
            final(self).pending() == old(self).pending(),
    {
        let ghost before = word;
        let mut word = word;
        word.update_rating(outcome);
        proof {
            assert(word == after_outcome(before, *outcome));
        }
        self.completed.push(word);
    }

    /// Ends a round: the completed words, reversed and then stably sorted by
    /// rating, highest first, become the practice queue, so that lower-rated
    /// words are presented first.
    pub fn advance_round(&mut self)
        requires
            old(self).pending().len() == 0,
        ensures
            stable_sorted_desc(old(self).done().reverse(), final(self).pending()),
            final(self).done() == Seq::<Word>::empty(),
    {
        let mut completed: Vec<Word> = Vec::new();
        std::mem::swap(&mut completed, &mut self.completed);
        self.queue = sort_by_rating_desc(reversed(completed));
    }
}

/// The ids of the words of `s`, in order.
pub open spec fn ids(s: Seq<Word>) -> Seq<u64> {
    s.map_values(|w: Word| w.id)
}

/// The completed queue at the end of a round that started with the practice
/// queue `q`: `next` hands the words out from the back of `q`, and `record`
/// appends the `i`-th one with its rating moved by `outcomes[i]`.
pub open spec fn played(q: Seq<Word>, outcomes: Seq<Outcome>) -> Seq<Word> {
    Seq::new(q.len(), |i: int| after_outcome(q[q.len() - 1 - i], outcomes[i]))
}

proof fn lemma_same_ids(a: Seq<Word>, b: Seq<Word>)
    requires
        a.to_multiset() == b.to_multiset(),
    ensures
        ids(a).to_multiset() == ids(b).to_multiset(),
    decreases a.len(),
{
    broadcast use vstd::multiset::group_multiset_axioms;

    if a.len() == 0 {
        vstd::seq_lib::to_multiset_len(a);
        vstd::seq_lib::to_multiset_len(b);
        assert(ids(a) =~= ids(b));
    } else {
        let x = a.last();
        let a1 = a.drop_last();
        assert(a1.push(x) =~= a);
        assert(a.to_multiset().count(x) > 0);
        assert(b.contains(x));
        let i = choose|i: int| 0 <= i < b.len() && b[i] == x;
        let b1 = b.remove(i);
        assert(b1.to_multiset() == b.to_multiset().remove(x));
        assert(a1.to_multiset() =~= a.to_multiset().remove(x));
        lemma_same_ids(a1, b1);
        assert(ids(a) =~= ids(a1).push(x.id));
        assert(ids(b) =~= ids(b1).insert(i, x.id));
    }
}

/// A round keeps its words: if the next round is the stable sort of the
/// reversed completed queue of a round started with `q`, it holds the words
/// of `q`, by id, each as often as `q` did.
pub proof fn lemma_round_keeps_words(q: Seq<Word>, outcomes: Seq<Outcome>, next_round: Seq<Word>)
    requires
        outcomes.len() == q.len(),
        stable_sorted_desc(played(q, outcomes).reverse(), next_round),
    ensures
        next_round.len() == q.len(),
        ids(next_round).to_multiset() == ids(q).to_multiset(),
{
    let c = played(q, outcomes);
    c.lemma_reverse_to_multiset();
    lemma_same_ids(next_round, c);
    assert(ids(c) =~= ids(q).reverse());
    ids(q).lemma_reverse_to_multiset();
    assert(next_round.len() == next_round.to_multiset().len());
    assert(c.reverse().len() == c.reverse().to_multiset().len());
}

/// In the next round a word rated lower than another is presented before it:
/// `next` takes from the back, and the lower-rated word stands further back.
pub proof fn lemma_lower_rating_first(completed: Seq<Word>, next_round: Seq<Word>)
    requires
        stable_sorted_desc(completed.reverse(), next_round),
    ensures
        forall|i: int, j: int|
            0 <= i < next_round.len() && 0 <= j < next_round.len() && #[trigger] next_round[i].rating
                < #[trigger] next_round[j].rating ==> i > j,
{
}

/// Words of equal rating enter the next round in the order they have in the
/// reversed completed queue.
pub proof fn lemma_ties_keep_order(completed: Seq<Word>, next_round: Seq<Word>, r: u32)
    requires
        stable_sorted_desc(completed.reverse(), next_round),
    ensures
        with_rating(next_round, r) == with_rating(completed.reverse(), r),
{
}

} // verus!
