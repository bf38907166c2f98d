//! What the game does every frame: handing on the hits that are new.
use crate::grade;
use crate::grade::Grade;
use vstd::prelude::*;

verus! {

/// How many hits of a grade are new: none, if the count went down.
pub open spec fn new_hits(last: Seq<u32>, counts: Seq<u32>, i: int) -> nat {
    if counts[i] > last[i] {
        (counts[i] - last[i]) as nat
    } else {
        0
    }
}

/// The new hits of a grade.
pub open spec fn hits_of(i: int, n: nat) -> Seq<Grade> {
    Seq::new(n, |_k: int| grade::grade_at(i))
}

/// The new hits of the grades from the one at `i` on, grade after grade.
pub open spec fn hits_from(last: Seq<u32>, counts: Seq<u32>, i: int) -> Seq<Grade>
    decreases 4 - i,
{
    if i >= 4 {
        Seq::empty()
    } else {
        hits_of(i, new_hits(last, counts, i)) + hits_from(last, counts, i + 1)
    }
}

/// The hits that are new in a frame: from `Perfect` to `Miss`, each as often as its count has
/// grown.
pub open spec fn frame_hits(last: Seq<u32>, counts: Seq<u32>) -> Seq<Grade> {
    hits_from(last, counts, 0)
}

/// The counts of hits that were handed on, and the frame at hand.
#[derive(Debug)]
pub struct CountDiff {
    last: [u32; 4],
    counts: [u32; 4],
    index: usize,
    left: u32,
}

/// The counts up to which hits were handed on, the counts of the frame at hand, and the hits
/// of that frame that were not handed out yet.
#[verifier::ext_equal]
pub struct DiffModel {
    pub last: Seq<u32>,
    pub counts: Seq<u32>,
    pub pending: Seq<Grade>,
}

impl View for CountDiff {
    type V = DiffModel;

    closed spec fn view(&self) -> DiffModel {
        DiffModel {
            last: self.last@,
            counts: self.counts@,
            pending: if self.index >= 4 {
                Seq::empty()
            } else {
                hits_of(self.index as int, self.left as nat) + hits_from(
                    self.last@,
                    self.counts@,
                    self.index + 1,
                )
            },
        }
    }
}

impl DiffModel {
    /// Before any hit.
    pub open spec fn fresh() -> DiffModel {
        DiffModel {
            last: seq![0u32, 0, 0, 0],
            counts: seq![0u32, 0, 0, 0],
            pending: Seq::empty(),
        }
    }

    /// The start of a frame. Its hits are those since the last frame that was settled, so that
    /// a frame that was broken off is handed out again.
    pub open spec fn framed(self, counts: Seq<u32>) -> DiffModel {
        DiffModel { counts, pending: frame_hits(self.last, counts), ..self }
    }

    /// The next hit to hand on. When there is none, the counts of the frame are settled.
    pub open spec fn next(self) -> (DiffModel, Option<Grade>) {
        if self.pending.len() > 0 {
            (
                DiffModel { pending: self.pending.drop_first(), ..self },
                Some(self.pending.first()),
            )
        } else {
            (DiffModel { last: self.counts, ..self }, None)
        }
    }
}

impl CountDiff {
    /// Before any hit.
    pub fn new() -> (r: CountDiff)
        ensures
            r@ == DiffModel::fresh(),
    {
        let diff = CountDiff { last: [0, 0, 0, 0], counts: [0, 0, 0, 0], index: 4, left: 0 };
        assert(diff@.last =~= DiffModel::fresh().last);
        assert(diff@.counts =~= DiffModel::fresh().counts);
        diff
    }

    /// Starts a frame, with the counts that the game shows in it.
    pub fn frame(&mut self, counts: [u32; 4])
        ensures
            final(self)@ == old(self)@.framed(counts@),
    {
        self.counts = counts;
        self.index = 0;
        self.left = if counts[0] > self.last[0] {
            counts[0] - self.last[0]
        } else {
            0
        };
    }

    /// The next hit of the frame to hand on. The caller stops when the hit cannot be handed on:
    /// the frame then stays unsettled, and all of it is handed out again in the next one.
    pub fn next_grade(&mut self) -> (r: Option<Grade>)
        ensures
            final(self)@ == old(self)@.next().0,
            r == old(self)@.next().1,
    {
        let ghost before = self@;
        while self.index < 4 && self.left == 0
            invariant
                self@ == before,
            decreases 4 - self.index,
        {
            self.index = self.index + 1;
            if self.index < 4 {
                let count = self.counts[self.index];
                let last = self.last[self.index];
                self.left = if count > last {
                    count - last
                } else {
                    0
                };
            }
            assert(self@.pending =~= before.pending);
        }
        if self.index >= 4 {
            self.last = self.counts;
            return None;
        }
        self.left = self.left - 1;
        assert(self@.pending =~= before.pending.drop_first());
        Some(Grade::from_index(self.index))
    }
}

/// The functions that the game calls every frame, one after the other.
#[derive(Debug)]
pub enum UpdateFns<F> {
    One(F),
    Two(F, F),
}

impl<F> UpdateFns<F> {
    /// The functions, in the order in which they are called.
    pub open spec fn calls(self) -> Seq<F> {
        match self {
            UpdateFns::One(f) => seq![f],
            UpdateFns::Two(f, g) => seq![f, g],
        }
    }
}

/// A function that may be there.
pub open spec fn given<F>(f: Option<F>) -> Seq<F> {
    match f {
        Some(f) => seq![f],
        None => Seq::empty(),
    }
}

/// Chains two functions that may be there; there is nothing to call when neither is.
pub fn chain_update_fns<F>(a: Option<F>, b: Option<F>) -> (r: Option<UpdateFns<F>>)
    ensures
        (match r {
            Some(fns) => fns.calls() == given(a) + given(b),
            None => given(a) + given(b) == Seq::<F>::empty(),
        }),
        r is None <==> a is None && b is None,
        (match (a, b) {
            (Some(f), Some(g)) => r == Some(UpdateFns::Two(f, g)),
            (Some(f), None) => r == Some(UpdateFns::One(f)),
            (None, Some(g)) => r == Some(UpdateFns::One(g)),
            (None, None) => r is None,
        }),
{
    match (a, b) {
        (None, None) => None,
        (Some(f), None) => Some(UpdateFns::One(f)),
        (None, Some(f)) => Some(UpdateFns::One(f)),
        (Some(f), Some(g)) => Some(UpdateFns::Two(f, g)),
    }
}

impl DiffModel {
    /// The state after this many hits of a frame were handed on.
    pub open spec fn handed(self, n: nat) -> DiffModel
        decreases n,
    {
        if n == 0 {
            self
        } else {
            self.handed((n - 1) as nat).next().0
        }
    }

    /// The state after a frame, and all hits that were handed on in it.
    pub open spec fn drained(self) -> (DiffModel, Seq<Grade>)
        decreases self.pending.len(),
    {
        let (next, hit) = self.next();
        if self.pending.len() == 0 {
            (next, Seq::empty())
        } else {
            let (end, hits) = next.drained();
            (end, seq![self.pending.first()] + hits)
        }
    }
}

/// A frame whose hits are all handed on is settled, and hands on its new hits and no others.
pub proof fn a_frame_hands_on_its_new_hits(diff: DiffModel, counts: Seq<u32>)
    ensures
        diff.framed(counts).drained() == (
            DiffModel { last: counts, counts, pending: Seq::empty() },
            frame_hits(diff.last, counts),
        ),
{
    draining_empties(diff.framed(counts));
}

proof fn draining_empties(diff: DiffModel)
    ensures
        diff.drained() == (
            DiffModel { last: diff.counts, counts: diff.counts, pending: Seq::empty() },
            diff.pending,
        ),
    decreases diff.pending.len(),
{
    if diff.pending.len() == 0 {
        assert(diff.pending =~= Seq::empty());
    } else {
        draining_empties(diff.next().0);
        assert(seq![diff.pending.first()] + diff.pending.drop_first() =~= diff.pending);
    }
}

/// A frame that breaks off before its last hit was handed on loses nothing: the next one is as
/// if it had not been there.
pub proof fn a_broken_frame_is_handed_out_again(
    diff: DiffModel,
    counts: Seq<u32>,
    handed: nat,
    later: Seq<u32>,
)
    requires
        handed <= frame_hits(diff.last, counts).len(),
    ensures
        diff.framed(counts).handed(handed).framed(later) == diff.framed(later),
{
    handing_keeps_the_last_counts(diff.framed(counts), handed);
}

proof fn handing_keeps_the_last_counts(diff: DiffModel, n: nat)
    requires
        n <= diff.pending.len(),
    ensures
        diff.handed(n).last == diff.last,
        diff.handed(n).pending.len() == diff.pending.len() - n,
    decreases n,
{
    if n > 0 {
        handing_keeps_the_last_counts(diff, (n - 1) as nat);
    }
}

/// All hits of frames that were handed on, one after the other, from the start of a game.
pub open spec fn all_hits(frames: Seq<Seq<u32>>) -> Seq<Grade>
    decreases frames.len(),
{
    if frames.len() == 0 {
        Seq::empty()
    } else {
        all_hits(frames.drop_last()) + frame_hits(counts_after(frames.drop_last()), frames.last())
    }
}

/// The counts after these frames of a game.
pub open spec fn counts_after(frames: Seq<Seq<u32>>) -> Seq<u32> {
    if frames.len() == 0 {
        DiffModel::fresh().last
    } else {
        frames.last()
    }
}

/// Over the frames of a game, in which no count goes down, every hit is handed on exactly once:
/// each grade as often as it was counted.
pub proof fn every_hit_is_handed_on_once(frames: Seq<Seq<u32>>, grade: Grade)
    requires
        forall|k: int, i: int|
            1 <= k < frames.len() && 0 <= i < 4 ==> frames[k - 1][i] <= #[trigger] frames[k][i],
    ensures
        all_hits(frames).to_multiset().count(grade) == counts_after(frames)[grade.place()],
    decreases frames.len(),
{
    broadcast use vstd::seq_lib::group_to_multiset_ensures;

    if frames.len() > 0 {
        let less = frames.drop_last();
        every_hit_is_handed_on_once(less, grade);
        let last = counts_after(less);
        vstd::seq_lib::lemma_multiset_commutative(
            all_hits(less),
            frame_hits(last, frames.last()),
        );
        frame_hits_by_grade(last, frames.last(), 0, grade);
        if less.len() > 0 {
            assert(last[grade.place()] <= frames[frames.len() - 1][grade.place()]);
        }
    }
}

proof fn hits_of_one_grade(i: int, n: nat, grade: Grade)
    requires
        0 <= i < 4,
    ensures
        hits_of(i, n).to_multiset().count(grade) == if grade.place() == i {
            n
        } else {
            0
        },
    decreases n,
{
    broadcast use vstd::seq_lib::group_to_multiset_ensures;

    if n == 0 {
        assert(hits_of(i, n) =~= Seq::empty());
    } else {
        let less = hits_of(i, (n - 1) as nat);
        hits_of_one_grade(i, (n - 1) as nat, grade);
        assert(hits_of(i, n) =~= less.push(grade::grade_at(i)));
        grade::place_and_grade_agree(grade, i);
    }
}

proof fn frame_hits_by_grade(last: Seq<u32>, counts: Seq<u32>, i: int, grade: Grade)
    requires
        0 <= i <= 4,
    ensures
        hits_from(last, counts, i).to_multiset().count(grade) == if grade.place() >= i {
            new_hits(last, counts, grade.place())
        } else {
            0
        },
    decreases 4 - i,
{
    broadcast use vstd::seq_lib::group_to_multiset_ensures;

    if i < 4 {
        hits_of_one_grade(i, new_hits(last, counts, i), grade);
        frame_hits_by_grade(last, counts, i + 1, grade);
        vstd::seq_lib::lemma_multiset_commutative(
            hits_of(i, new_hits(last, counts, i)),
            hits_from(last, counts, i + 1),
        );
    }
}

/// A frame hands on each grade as often as its count has grown, and not at all if it went down, in
/// the order from `Perfect` to `Miss`.
pub proof fn a_frame_has_every_new_hit_in_order(
    last: Seq<u32>,
    counts: Seq<u32>,
    grade: Grade,
    i: int,
    j: int,
)
    ensures
        frame_hits(last, counts).to_multiset().count(grade) == if counts[grade.place()]
            > last[grade.place()] {
            counts[grade.place()] - last[grade.place()]
        } else {
            0
        },
        0 <= i <= j < frame_hits(last, counts).len() ==> frame_hits(last, counts)[i].place()
            <= frame_hits(last, counts)[j].place(),
        Grade::Perfect.place() == 0,
        Grade::Good.place() == 1,
        Grade::Bad.place() == 2,
        Grade::Miss.place() == 3,
{
    frame_hits_by_grade(last, counts, 0, grade);
    hits_are_in_order(last, counts, 0);
}

proof fn hits_are_in_order(last: Seq<u32>, counts: Seq<u32>, from: int)
    requires
        0 <= from <= 4,
    ensures
        forall|i: int|
            0 <= i < hits_from(last, counts, from).len() ==> from <= (#[trigger] hits_from(
                last,
                counts,
                from,
            )[i]).place() < 4,
        forall|i: int, j: int|
            0 <= i <= j < hits_from(last, counts, from).len() ==> (#[trigger] hits_from(
                last,
                counts,
                from,
            )[i]).place() <= (#[trigger] hits_from(last, counts, from)[j]).place(),
    decreases 4 - from,
{
    if from < 4 {
        hits_are_in_order(last, counts, from + 1);
        let own = hits_of(from, new_hits(last, counts, from));
        let rest = hits_from(last, counts, from + 1);
        let all = hits_from(last, counts, from);
        assert(all == own + rest);
        assert forall|i: int| 0 <= i < all.len() implies from <= (#[trigger] all[i]).place() < 4 by {
            grade::place_and_grade_agree(Grade::Miss, from);
            if i >= own.len() {
                assert(all[i] == rest[i - own.len()]);
            }
        }
        assert forall|i: int, j: int| 0 <= i <= j < all.len() implies (#[trigger] all[i]).place()
            <= (#[trigger] all[j]).place() by {
            grade::place_and_grade_agree(Grade::Miss, from);
            if i >= own.len() {
                assert(all[i] == rest[i - own.len()] && all[j] == rest[j - own.len()]);
            } else if j >= own.len() {
                assert(all[j] == rest[j - own.len()]);
            }
        }
    }
}

/// The first frame of a game hands on every hit that it counts, and a frame that is like the last
/// one hands on none.
pub proof fn only_new_hits_are_handed_on(diff: DiffModel, counts: Seq<u32>, grade: Grade)
    ensures
        DiffModel::fresh().framed(counts).pending.to_multiset().count(grade)
            == counts[grade.place()],
        diff.framed(counts).drained().0.framed(counts).pending.to_multiset().count(grade) == 0,
{
    a_frame_has_every_new_hit_in_order(DiffModel::fresh().last, counts, grade, 0, 0);
    a_frame_hands_on_its_new_hits(diff, counts);
    a_frame_has_every_new_hit_in_order(counts, counts, grade, 0, 0);
}

} // verus!
