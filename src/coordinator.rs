use vstd::prelude::*;

use crate::error::BuildError;

verus! {

/// A file a build produced: the directory it lies in and its name.
#[derive(Clone, Debug)]
pub struct Artifact {
    pub dir: String,
    pub file_name: String,
}

impl View for Artifact {
    type V = (Seq<char>, Seq<char>);

    open spec fn view(&self) -> (Seq<char>, Seq<char>) {
        (self.dir@, self.file_name@)
    }
}

/// How one target architecture's build of a package ended.
#[derive(Debug)]
pub struct ArchOutcome {
    pub target: String,
    pub result: Result<Vec<Artifact>, BuildError>,
}

/// The views of a sequence of artifacts.
pub open spec fn artifact_views(s: Seq<Artifact>) -> Seq<(Seq<char>, Seq<char>)> {
    s.map_values(|a: Artifact| a@)
}

/// What the successful builds among `outcomes` produced, in order; a
/// failed build adds nothing.
pub open spec fn ok_artifacts(outcomes: Seq<ArchOutcome>) -> Seq<(Seq<char>, Seq<char>)>
    decreases outcomes.len(),
{
    if outcomes.len() == 0 {
        Seq::empty()
    } else {
        let rest = ok_artifacts(outcomes.drop_last());
        match outcomes.last().result {
            Ok(v) => rest + artifact_views(v@),
            Err(_) => rest,
        }
    }
}

/// The targets whose build failed, with their errors, in order.
pub open spec fn failed_targets(outcomes: Seq<ArchOutcome>) -> Seq<Seq<char>>
    decreases outcomes.len(),
{
    if outcomes.len() == 0 {
        Seq::empty()
    } else {
        let rest = failed_targets(outcomes.drop_last());
        match outcomes.last().result {
            Ok(_) => rest,
            Err(_) => rest.push(outcomes.last().target@),
        }
    }
}

fn copy_artifact(a: &Artifact) -> (r: Artifact)
    ensures
        r@ == a@,
{
    Artifact { dir: a.dir.clone(), file_name: a.file_name.clone() }
}

/// Everything the successful builds produced, in the order of `outcomes`:
/// one architecture's failure takes nothing from the others.
pub fn successful_artifacts(outcomes: &Vec<ArchOutcome>) -> (r: Vec<Artifact>)
    ensures
        artifact_views(r@) == ok_artifacts(outcomes@),
{
    let mut r: Vec<Artifact> = Vec::new();
    let mut i: usize = 0;
    while i < outcomes.len()
        invariant
            i <= outcomes.len(),
            artifact_views(r@) == ok_artifacts(outcomes@.take(i as int)),
        decreases outcomes.len() - i,
    {
        proof {
            assert(outcomes@.take(i + 1).drop_last() =~= outcomes@.take(i as int));
        }
        match &outcomes[i].result {
            Ok(v) => {
                let ghost base = artifact_views(r@);
                let mut j: usize = 0;
                while j < v.len()
                    invariant
                        j <= v.len(),
                        artifact_views(r@) == base + artifact_views(v@.take(j as int)),
                    decreases v.len() - j,
                {
                    let ghost before = r@;
                    r.push(copy_artifact(&v[j]));
                    assert(v@.take(j + 1) =~= v@.take(j as int).push(v@[j as int]));
                    assert(artifact_views(r@) =~= artifact_views(before).push(v@[j as int]@));
                    assert(artifact_views(v@.take(j + 1)) =~= artifact_views(v@.take(j as int)).push(v@[j as int]@));
                    assert(artifact_views(r@) =~= base + artifact_views(v@.take(j + 1)));
                    j = j + 1;
                }
                assert(v@.take(j as int) =~= v@);
            },
            Err(_) => {},
        }
        i = i + 1;
    }
    assert(outcomes@.take(i as int) =~= outcomes@);
    r
}

/// The targets whose build failed, in order.
pub fn failed(outcomes: &Vec<ArchOutcome>) -> (r: Vec<String>)
    ensures
        r.deep_view() == failed_targets(outcomes@),
{
    let mut r: Vec<String> = Vec::new();
    let mut i: usize = 0;
    while i < outcomes.len()
        invariant
            i <= outcomes.len(),
            r.deep_view() == failed_targets(outcomes@.take(i as int)),
        decreases outcomes.len() - i,
    {
        proof {
            assert(outcomes@.take(i + 1).drop_last() =~= outcomes@.take(i as int));
        }
        if outcomes[i].result.is_err() {
            let ghost before = r.deep_view();
            r.push(outcomes[i].target.clone());
            assert(r.deep_view() =~= before.push(outcomes[i as int].target@));
        }
        i = i + 1;
    }
    assert(outcomes@.take(i as int) =~= outcomes@);
    r
}

proof fn lemma_ok_artifacts_append(a: Seq<ArchOutcome>, b: Seq<ArchOutcome>)
    ensures
        ok_artifacts(a + b) == ok_artifacts(a) + ok_artifacts(b),
    decreases b.len(),
{
    if b.len() == 0 {
        assert(a + b =~= a);
        assert(ok_artifacts(b) =~= Seq::empty());
        assert(ok_artifacts(a) + ok_artifacts(b) =~= ok_artifacts(a));
    } else {
        assert((a + b).drop_last() =~= a + b.drop_last());
        lemma_ok_artifacts_append(a, b.drop_last());
        match b.last().result {
            Ok(v) => {
                assert(ok_artifacts(a + b) =~= ok_artifacts(a) + ok_artifacts(b));
            },
            Err(_) => {},
        }
    }
}

/// One architecture's failure is isolated: whatever the other
/// architectures' outcomes, the artifacts collected are those of the
/// builds before it followed by those of the builds after it.
pub proof fn lemma_failure_is_isolated(outcomes: Seq<ArchOutcome>, i: int)
    requires
        0 <= i < outcomes.len(),
        outcomes[i].result is Err,
    ensures
        ok_artifacts(outcomes) == ok_artifacts(outcomes.take(i)) + ok_artifacts(outcomes.skip(i + 1)),
        failed_targets(outcomes).contains(outcomes[i].target@),
{
    let one = seq![outcomes[i]];
    assert(outcomes =~= outcomes.take(i) + one + outcomes.skip(i + 1));
    lemma_ok_artifacts_append(outcomes.take(i) + one, outcomes.skip(i + 1));
    lemma_ok_artifacts_append(outcomes.take(i), one);
    assert(one.drop_last() =~= Seq::<ArchOutcome>::empty());
    assert(ok_artifacts(Seq::<ArchOutcome>::empty()) =~= Seq::empty());
    assert(ok_artifacts(one) =~= Seq::empty());
    lemma_failed_contains(outcomes, i);
}

proof fn lemma_failed_contains(outcomes: Seq<ArchOutcome>, i: int)
    requires
        0 <= i < outcomes.len(),
        outcomes[i].result is Err,
    ensures
        failed_targets(outcomes).contains(outcomes[i].target@),
    decreases outcomes.len(),
{
    if i == outcomes.len() - 1 {
        let f = failed_targets(outcomes);
        assert(f.last() == outcomes[i].target@);
    } else {
        lemma_failed_contains(outcomes.drop_last(), i);
        let f0 = failed_targets(outcomes.drop_last());
        let k = choose|k: int| 0 <= k < f0.len() && f0[k] == outcomes[i].target@;
        let f = failed_targets(outcomes);
        match outcomes.last().result {
            Ok(_) => {},
            Err(_) => {
                assert(f[k] == f0[k]);
            },
        }
    }
}

/// Every artifact of a successful build is among those collected.
pub proof fn lemma_success_is_collected(outcomes: Seq<ArchOutcome>, i: int, j: int)
    requires
        0 <= i < outcomes.len(),
        outcomes[i].result is Ok,
        0 <= j < outcomes[i].result->Ok_0.len(),
    ensures
        ok_artifacts(outcomes).contains(outcomes[i].result->Ok_0[j]@),
{
    let one = seq![outcomes[i]];
    assert(outcomes =~= outcomes.take(i) + one + outcomes.skip(i + 1));
    lemma_ok_artifacts_append(outcomes.take(i) + one, outcomes.skip(i + 1));
    lemma_ok_artifacts_append(outcomes.take(i), one);
    assert(one.drop_last() =~= Seq::<ArchOutcome>::empty());
    assert(ok_artifacts(Seq::<ArchOutcome>::empty()) =~= Seq::empty());
    let v = outcomes[i].result->Ok_0;
    assert(ok_artifacts(one) =~= artifact_views(v@));
    let pre = ok_artifacts(outcomes.take(i));
    let all = ok_artifacts(outcomes);
    assert(all[pre.len() + j] == v@[j]@);
}

} // verus!
