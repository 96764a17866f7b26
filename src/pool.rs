use vstd::prelude::*;

use crate::coordinator::{artifact_views, Artifact};

verus! {

/// The file names of artifacts.
pub open spec fn names_of(arts: Seq<(Seq<char>, Seq<char>)>) -> Seq<Seq<char>> {
    arts.map_values(|a: (Seq<char>, Seq<char>)| a.1)
}

/// Of `arts`, those to link into a pool that holds `existing`: an artifact
/// whose name is in the pool, or was met earlier in `arts`, is skipped.
pub open spec fn to_link(existing: Seq<Seq<char>>, arts: Seq<(Seq<char>, Seq<char>)>) -> Seq<
    (Seq<char>, Seq<char>),
>
    decreases arts.len(),
{
    if arts.len() == 0 {
        Seq::empty()
    } else {
        let rest = to_link(existing, arts.drop_last());
        let a = arts.last();
        if existing.contains(a.1) || names_of(arts.drop_last()).contains(a.1) {
            rest
        } else {
            rest.push(a)
        }
    }
}

/// The names in a pool that held `existing`, after linking `arts` into it.
pub open spec fn pool_after(existing: Seq<Seq<char>>, arts: Seq<(Seq<char>, Seq<char>)>) -> Seq<
    Seq<char>,
> {
    existing + names_of(to_link(existing, arts))
}

/// Whether `name` is one of `names`.
pub fn contains_name(names: &Vec<String>, name: &String) -> (r: bool)
    ensures
        r == names.deep_view().contains(name@),
{
    let mut i: usize = 0;
    while i < names.len()
        invariant
            i <= names.len(),
            forall|j: int| 0 <= j < i ==> names[j]@ != name@,
        decreases names.len() - i,
    {
        if names[i] == *name {
            assert(names.deep_view()[i as int] == name@);
            return true;
        }
        i = i + 1;
    }
    proof {
        if names.deep_view().contains(name@) {
            let k = choose|k: int| 0 <= k < names.len() && names.deep_view()[k] == name@;
            assert(names[k]@ == name@);
        }
    }
    false
}

/// The artifacts to link into a pool directory that already holds the
/// files named `existing`: each name is linked at most once, and never over
/// a file already there.
pub fn plan_links(existing: &Vec<String>, artifacts: &Vec<Artifact>) -> (r: Vec<Artifact>)
    ensures
        artifact_views(r@) == to_link(existing.deep_view(), artifact_views(artifacts@)),
{
    let ghost arts = artifact_views(artifacts@);
    let mut r: Vec<Artifact> = Vec::new();
    let mut seen: Vec<String> = Vec::new();
    let mut i: usize = 0;
    while i < artifacts.len()
        invariant
            arts == artifact_views(artifacts@),
            i <= artifacts.len(),
            artifact_views(r@) == to_link(existing.deep_view(), arts.take(i as int)),
            seen.deep_view() == names_of(arts.take(i as int)),
        decreases artifacts.len() - i,
    {
        proof {
            assert(arts.take(i + 1).drop_last() =~= arts.take(i as int));
        }
        let a = &artifacts[i];
        let there = contains_name(existing, &a.file_name);
        let met = contains_name(&seen, &a.file_name);
        let ghost seen_before = seen.deep_view();
        let ghost r_before = artifact_views(r@);
        if !there && !met {
            r.push(Artifact { dir: a.dir.clone(), file_name: a.file_name.clone() });
            assert(artifact_views(r@) =~= r_before.push(arts[i as int]));
        }
        seen.push(a.file_name.clone());
        assert(seen.deep_view() =~= seen_before.push(a.file_name@));
        assert(names_of(arts.take(i + 1)) =~= names_of(arts.take(i as int)).push(a.file_name@));
        i = i + 1;
    }
    assert(arts.take(i as int) =~= arts);
    r
}

proof fn lemma_pool_step(existing: Seq<Seq<char>>, arts: Seq<(Seq<char>, Seq<char>)>)
    requires
        arts.len() > 0,
    ensures
        ({
            let a = arts.last();
            let before = pool_after(existing, arts.drop_last());
            if existing.contains(a.1) || names_of(arts.drop_last()).contains(a.1) {
                pool_after(existing, arts) == before
            } else {
                pool_after(existing, arts) == before.push(a.1)
            }
        }),
{
    let rest = to_link(existing, arts.drop_last());
    let a = arts.last();
    if !(existing.contains(a.1) || names_of(arts.drop_last()).contains(a.1)) {
        assert(names_of(rest.push(a)) =~= names_of(rest).push(a.1));
        assert(existing + names_of(rest).push(a.1) =~= (existing + names_of(rest)).push(a.1));
    }
}

/// After linking, the pool holds a name exactly when it held it before or
/// one of the artifacts bears it.
pub proof fn lemma_pool_holds_all(existing: Seq<Seq<char>>, arts: Seq<(Seq<char>, Seq<char>)>)
    ensures
        forall|n: Seq<char>|
            #[trigger] pool_after(existing, arts).contains(n) <==> existing.contains(n)
                || names_of(arts).contains(n),
    decreases arts.len(),
{
    if arts.len() == 0 {
        assert(pool_after(existing, arts) =~= existing);
        assert(names_of(arts) =~= Seq::<Seq<char>>::empty());
    } else {
        let init = arts.drop_last();
        let a = arts.last();
        lemma_pool_holds_all(existing, init);
        lemma_pool_step(existing, arts);
        assert(names_of(arts) =~= names_of(init).push(a.1));
        let before = pool_after(existing, init);
        assert forall|n: Seq<char>|
            #[trigger] pool_after(existing, arts).contains(n) <==> existing.contains(n)
                || names_of(arts).contains(n) by {
            if names_of(arts).contains(n) && !names_of(init).contains(n) {
                assert(n == a.1) by {
                    let k = choose|k: int| 0 <= k < names_of(arts).len() && names_of(arts)[k] == n;
                    if k < init.len() {
                        assert(names_of(init)[k] == n);
                    }
                }
            }
            if names_of(init).contains(n) {
                let k = choose|k: int| 0 <= k < names_of(init).len() && names_of(init)[k] == n;
                assert(names_of(arts)[k] == n);
            }
            if pool_after(existing, arts).contains(n) && !before.contains(n) {
                let k = choose|k: int|
                    0 <= k < pool_after(existing, arts).len() && pool_after(existing, arts)[k] == n;
                assert(n == a.1);
                assert(names_of(arts)[init.len() as int] == n);
            }
            if before.contains(n) {
                let k = choose|k: int| 0 <= k < before.len() && before[k] == n;
                assert(pool_after(existing, arts)[k] == n);
            }
            if n == a.1 {
                assert(names_of(arts)[init.len() as int] == n);
                if !(existing.contains(a.1) || names_of(init).contains(a.1)) {
                    assert(pool_after(existing, arts)[before.len() as int] == n);
                }
            }
        }
    }
}

/// A pool without duplicate names keeps none after linking: a name that
/// comes twice gives one entry.
pub proof fn lemma_pool_no_duplicates(existing: Seq<Seq<char>>, arts: Seq<(Seq<char>, Seq<char>)>)
    requires
        existing.no_duplicates(),
    ensures
        pool_after(existing, arts).no_duplicates(),
    decreases arts.len(),
{
    if arts.len() == 0 {
        assert(pool_after(existing, arts) =~= existing);
    } else {
        let init = arts.drop_last();
        let a = arts.last();
        lemma_pool_no_duplicates(existing, init);
        lemma_pool_step(existing, arts);
        lemma_pool_holds_all(existing, init);
        let before = pool_after(existing, init);
        if !(existing.contains(a.1) || names_of(init).contains(a.1)) {
            assert(!before.contains(a.1));
            let after = before.push(a.1);
            assert forall|i: int, j: int|
                0 <= i < after.len() && 0 <= j < after.len() && i != j implies after[i]
                != after[j] by {
                if i == before.len() && j < before.len() {
                    assert(before[j] == after[j]);
                } else if j == before.len() && i < before.len() {
                    assert(before[i] == after[i]);
                }
            }
        }
    }
}

/// Linking the same artifacts again into the pool they left links nothing.
pub proof fn lemma_relink_is_empty(existing: Seq<Seq<char>>, arts: Seq<(Seq<char>, Seq<char>)>)
    ensures
        to_link(pool_after(existing, arts), arts).len() == 0,
{
    lemma_pool_holds_all(existing, arts);
    lemma_nothing_new(pool_after(existing, arts), arts);
}

proof fn lemma_nothing_new(pool: Seq<Seq<char>>, arts: Seq<(Seq<char>, Seq<char>)>)
    requires
        forall|n: Seq<char>| names_of(arts).contains(n) ==> #[trigger] pool.contains(n),
    ensures
        to_link(pool, arts).len() == 0,
    decreases arts.len(),
{
    if arts.len() > 0 {
        let init = arts.drop_last();
        assert forall|n: Seq<char>| names_of(init).contains(n) implies #[trigger] pool.contains(n) by {
            let k = choose|k: int| 0 <= k < names_of(init).len() && names_of(init)[k] == n;
            assert(names_of(arts)[k] == n);
        }
        lemma_nothing_new(pool, init);
        assert(names_of(arts)[init.len() as int] == arts.last().1);
        assert(pool.contains(arts.last().1));
    }
}

} // verus!
