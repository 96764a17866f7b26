use vstd::prelude::*;

use crate::error::BuildError;
use crate::text::{chars_of, has_prefix, lines, lines_of};

verus! {

/// A package to build: its source name and the patches applied to its
/// source, in this order.
#[derive(Clone, Debug)]
pub struct Pkg {
    pub name: String,
    pub patches: Vec<String>,
}

/// `key` followed by a colon and a space: how a metadata line names its key.
pub open spec fn key_marker(key: Seq<char>) -> Seq<char> {
    key + seq![':', ' ']
}

/// Of each line that starts with `marker`, what follows the marker, in the
/// order of the lines.
pub open spec fn marked_values(ls: Seq<Seq<char>>, marker: Seq<char>) -> Seq<Seq<char>>
    decreases ls.len(),
{
    if ls.len() == 0 {
        Seq::empty()
    } else {
        let rest = marked_values(ls.drop_last(), marker);
        if has_prefix(ls.last(), marker) {
            rest.push(ls.last().skip(marker.len() as int))
        } else {
            rest
        }
    }
}

/// The values given to `key` in a `Key: value` listing.
pub open spec fn listed_values(source: Seq<char>, key: Seq<char>) -> Seq<Seq<char>> {
    marked_values(lines(source), key_marker(key))
}

/// Whether `s` starts with `p`.
pub fn starts_with(s: &str, p: &str) -> (r: bool)
    ensures
        r == has_prefix(s@, p@),
{
    let sc = chars_of(s);
    let pc = chars_of(p);
    if pc.len() > sc.len() {
        return false;
    }
    let mut i: usize = 0;
    while i < pc.len()
        invariant
            sc@ == s@,
            pc@ == p@,
            pc.len() <= sc.len(),
            i <= pc.len(),
            forall|j: int| 0 <= j < i ==> sc@[j] == pc@[j],
        decreases pc.len() - i,
    {
        if sc[i] != pc[i] {
            assert(s@.subrange(0, p@.len() as int)[i as int] != p@[i as int]);
            return false;
        }
        i = i + 1;
    }
    assert(s@.subrange(0, p@.len() as int) =~= p@);
    true
}

/// Every value given to `key` in the listing `source`, in order; an error
/// when there is none.
pub fn source_values(source: &str, key: &str) -> (r: Result<Vec<String>, BuildError>)
    ensures
        match r {
            Ok(v) => v.deep_view() == listed_values(source@, key@) && v.len() > 0,
            Err(e) => listed_values(source@, key@).len() == 0 && (e matches BuildError::MetadataFormat { key: k } && k@ == key@),
        },
{
    let mut marker = String::from_str(key);
    proof { reveal_strlit(": "); }
    marker.append(": ");
    assert(marker@ =~= key_marker(key@));
    let ls = lines_of(source);
    let mut values: Vec<String> = Vec::new();
    let mut i: usize = 0;
    while i < ls.len()
        invariant
            ls.deep_view() == lines(source@),
            marker@ == key_marker(key@),
            i <= ls.len(),
            values.deep_view() == marked_values(ls.deep_view().take(i as int), marker@),
        decreases ls.len() - i,
    {
        let ghost before = values.deep_view();
        proof {
            assert(ls.deep_view().take(i + 1).drop_last() =~= ls.deep_view().take(i as int));
        }
        let line: &str = ls[i].as_str();
        if starts_with(line, marker.as_str()) {
            let n = line.unicode_len();
            let m = marker.as_str().unicode_len();
            let rest = line.substring_char(m, n);
            values.push(String::from_str(rest));
            proof {
                assert(rest@ =~= ls.deep_view()[i as int].skip(marker@.len() as int));
                assert(values.deep_view() =~= before.push(rest@));
            }
        }
        i = i + 1;
    }
    proof {
        assert(ls.deep_view().take(i as int) =~= ls.deep_view());
    }
    if values.len() > 0 {
        Ok(values)
    } else {
        Err(BuildError::MetadataFormat { key: String::from_str(key) })
    }
}

/// Every listed package name is `name`; at the first that is not, the
/// mismatch.
pub fn check_packages(name: &str, packages: &Vec<String>) -> (r: Result<(), BuildError>)
    ensures
        match r {
            Ok(()) => forall|i: int| 0 <= i < packages.len() ==> packages[i]@ == name@,
            Err(e) => exists|i: int|
                0 <= i < packages.len() && packages[i]@ != name@ && (forall|j: int|
                    0 <= j < i ==> packages[j]@ == name@) && (e matches BuildError::PackageMismatch { requested: q, found: f } && q@ == name@ && f@ == packages[i]@),
        },
{
    let wanted = String::from_str(name);
    let mut i: usize = 0;
    while i < packages.len()
        invariant
            wanted@ == name@,
            i <= packages.len(),
            forall|j: int| 0 <= j < i ==> packages[j]@ == name@,
        decreases packages.len() - i,
    {
        if !(packages[i] == wanted) {
            return Err(BuildError::PackageMismatch { requested: String::from_str(name), found: packages[i].clone() });
        }
        i = i + 1;
    }
    Ok(())
}

/// Every listed package name is `name`.
pub open spec fn all_named(packages: Seq<Seq<char>>, name: Seq<char>) -> bool {
    forall|i: int| 0 <= i < packages.len() ==> packages[i] == name
}

/// The candidate versions of the package `name` in a metadata listing:
/// the listing must name packages, all of them `name`, and give versions.
pub fn source_versions(source: &str, name: &str) -> (r: Result<Vec<String>, BuildError>)
    ensures
        ({
            let packages = listed_values(source@, "Package"@);
            let versions = listed_values(source@, "Version"@);
            match r {
                Ok(v) => packages.len() > 0 && all_named(packages, name@) && v.deep_view()
                    == versions && v.len() > 0,
                Err(e) => if packages.len() == 0 {
                    e matches BuildError::MetadataFormat { key: k } && k@ == "Package"@
                } else if !all_named(packages, name@) {
                    exists|i: int|
                        0 <= i < packages.len() && packages[i] != name@ && (forall|j: int|
                            0 <= j < i ==> packages[j] == name@) && (e matches BuildError::PackageMismatch { requested: q, found: f } && q@ == name@ && f@ == packages[i])
                } else {
                    versions.len() == 0 && (e matches BuildError::MetadataFormat { key: k } && k@ == "Version"@)
                },
            }
        }),
{
    let packages = source_values(source, "Package")?;
    match check_packages(name, &packages) {
        Ok(()) => {},
        Err(e) => {
            proof {
                assert(!all_named(packages.deep_view(), name@)) by {
                    let i = choose|i: int|
                        0 <= i < packages.len() && packages[i]@ != name@ && (forall|j: int|
                            0 <= j < i ==> packages[j]@ == name@) && (e matches BuildError::PackageMismatch { requested: q, found: f } && q@ == name@ && f@ == packages[i]@);
                    assert(packages.deep_view()[i] == packages[i]@);
                }
                let i = choose|i: int|
                    0 <= i < packages.len() && packages[i]@ != name@ && (forall|j: int|
                        0 <= j < i ==> packages[j]@ == name@) && (e matches BuildError::PackageMismatch { requested: q, found: f } && q@ == name@ && f@ == packages[i]@);
                assert(packages.deep_view()[i] == packages[i]@);
                assert forall|j: int| 0 <= j < i implies packages.deep_view()[j] == name@ by {
                    assert(packages.deep_view()[j] == packages[j]@);
                }
            }
            return Err(e);
        },
    }
    proof {
        assert forall|i: int| 0 <= i < packages.len() implies packages.deep_view()[i] == name@ by {
            assert(packages.deep_view()[i] == packages[i]@);
        }
    }
    source_values(source, "Version")
}

} // verus!
