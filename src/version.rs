use vstd::prelude::*;

verus! {

/// `gt` orders versions strictly and its "neither is greater" is an
/// equivalence, as packaging version comparison does.
pub open spec fn strict_weak_order(gt: spec_fn(Seq<char>, Seq<char>) -> bool) -> bool {
    &&& forall|a: Seq<char>| !#[trigger] gt(a, a)
    &&& forall|a: Seq<char>, b: Seq<char>, c: Seq<char>|
        #[trigger] gt(a, b) && #[trigger] gt(b, c) ==> gt(a, c)
    &&& forall|a: Seq<char>, b: Seq<char>, c: Seq<char>|
        #[trigger] gt(a, c) ==> #[trigger] gt(a, b) || #[trigger] gt(b, c)
}

/// The position of the candidate kept after looking at the first `k`
/// candidates under `gt`: a later candidate replaces the kept one only when
/// it is greater, so of equal ones the first is kept.
pub open spec fn selected(c: Seq<Seq<char>>, gt: spec_fn(Seq<char>, Seq<char>) -> bool, k: nat) -> int
    decreases k,
{
    if k <= 1 {
        0
    } else {
        let b = selected(c, gt, (k - 1) as nat);
        if gt(c[k - 1], c[b]) {
            k - 1
        } else {
            b
        }
    }
}

/// Under a strict weak order, the candidate kept after looking at the
/// first `k` is greatest among them and greater than every one before it.
pub proof fn lemma_selected_is_first_greatest(
    c: Seq<Seq<char>>,
    gt: spec_fn(Seq<char>, Seq<char>) -> bool,
    k: nat,
)
    requires
        strict_weak_order(gt),
        1 <= k <= c.len(),
    ensures
        0 <= selected(c, gt, k) < k,
        forall|j: int| 0 <= j < k ==> !gt(#[trigger] c[j], c[selected(c, gt, k)]),
        forall|j: int| 0 <= j < selected(c, gt, k) ==> gt(c[selected(c, gt, k)], #[trigger] c[j]),
    decreases k,
{
    if k == 1 {
        assert(!gt(c[0], c[0]));
    } else {
        let km = (k - 1) as nat;
        lemma_selected_is_first_greatest(c, gt, km);
        let b = selected(c, gt, km);
        let n = k - 1;
        if gt(c[n], c[b]) {
            assert forall|j: int| 0 <= j < k implies !gt(c[j], c[n]) by {
                if j == n {
                } else if gt(c[j], c[n]) {
                    assert(gt(c[j], c[b]));
                }
            }
            assert forall|j: int| 0 <= j < n implies gt(c[n], c[j]) by {
                assert(!gt(c[j], c[b]));
                assert(gt(c[n], c[j]) || gt(c[j], c[b]));
            }
        }
    }
}

/// The choice of the greatest of several candidate versions, asking an
/// outside comparison one pair at a time.
pub struct VersionPick {
    pub candidates: Vec<String>,
    pub best: usize,
    pub next: usize,
}

impl VersionPick {
    pub open spec fn wf(&self) -> bool {
        &&& self.candidates.len() > 0
        &&& self.best < self.next <= self.candidates.len()
    }

    /// The choice so far is what `selected` keeps under `gt`.
    pub open spec fn follows(&self, gt: spec_fn(Seq<char>, Seq<char>) -> bool) -> bool {
        self.best == selected(self.candidates.deep_view(), gt, self.next as nat)
    }

    /// Starts with the first candidate kept.
    pub fn new(candidates: Vec<String>) -> (r: VersionPick)
        requires
            candidates.len() > 0,
        ensures
            r.wf(),
            r.candidates == candidates,
            r.best == 0,
            r.next == 1,
            forall|gt: spec_fn(Seq<char>, Seq<char>) -> bool| #[trigger] r.follows(gt),
    {
        VersionPick { candidates, best: 0, next: 1 }
    }

    /// The pair to compare next, `(later, kept)`: is the candidate at
    /// `later` greater than the one kept? `None` once all were looked at.
    pub fn query(&self) -> (r: Option<(usize, usize)>)
        requires
            self.wf(),
        ensures
            self.next < self.candidates.len() ==> r == Some((self.next, self.best)),
            self.next == self.candidates.len() ==> r is None,
    {
        if self.next < self.candidates.len() {
            Some((self.next, self.best))
        } else {
            None
        }
    }

    /// Takes the answer to the pair that `query` gave: whether the later
    /// candidate is greater than the one kept.
    pub fn answer(&mut self, greater: bool)
        requires
            old(self).wf(),
            old(self).next < old(self).candidates.len(),
        ensures
            final(self).wf(),
            final(self).candidates == old(self).candidates,
            final(self).next == old(self).next + 1,
            final(self).best == if greater {
                old(self).next
            } else {
                old(self).best
            },
    {
        if greater {
            self.best = self.next;
        }
        self.next = self.next + 1;
    }

    /// The version chosen, once every candidate was looked at.
    pub fn chosen(&self) -> (r: &String)
        requires
            self.wf(),
        ensures
            r == self.candidates[self.best as int],
    {
        &self.candidates[self.best]
    }
}

/// An answer given by `gt` keeps the choice following `gt`.
pub proof fn lemma_answer_follows(
    before: VersionPick,
    after: VersionPick,
    gt: spec_fn(Seq<char>, Seq<char>) -> bool,
    greater: bool,
)
    requires
        before.wf(),
        before.next < before.candidates.len(),
        before.follows(gt),
        greater == gt(
            before.candidates[before.next as int]@,
            before.candidates[before.best as int]@,
        ),
        after.candidates == before.candidates,
        after.next == before.next + 1,
        after.best == if greater {
            before.next
        } else {
            before.best
        },
    ensures
        after.follows(gt),
{
}

/// Asked of a strict weak order until every candidate was looked at, the
/// choice is a greatest candidate, and the first of the greatest.
pub proof fn lemma_pick_is_first_greatest(p: VersionPick, gt: spec_fn(Seq<char>, Seq<char>) -> bool)
    requires
        p.wf(),
        p.next == p.candidates.len(),
        p.follows(gt),
        strict_weak_order(gt),
    ensures
        forall|j: int|
            0 <= j < p.candidates.len() ==> !gt(#[trigger] p.candidates[j]@, p.candidates[p.best as int]@),
        forall|j: int| 0 <= j < p.best ==> gt(p.candidates[p.best as int]@, #[trigger] p.candidates[j]@),
{
    let c = p.candidates.deep_view();
    lemma_selected_is_first_greatest(c, gt, p.next as nat);
    let b = p.best as int;
    assert(c[b] == p.candidates[b]@);
    assert forall|j: int| 0 <= j < p.candidates.len() implies !gt(
        #[trigger] p.candidates[j]@,
        p.candidates[b]@,
    ) by {
        assert(c[j] == p.candidates[j]@);
    }
    assert forall|j: int| 0 <= j < p.best implies gt(p.candidates[b]@, #[trigger] p.candidates[j]@) by {
        assert(c[j] == p.candidates[j]@);
    }
}

} // verus!
