use vstd::prelude::*;

use crate::text::pieces;
use crate::text::chars_of;

verus! {

/// A CPU micro-architecture tier: its compiler name, a page that describes
/// it, the CPU features it needs, and its numeric optimisation level.
#[derive(Clone, Debug)]
pub struct Arch {
    pub name: String,
    pub wiki: String,
    pub features: Vec<String>,
    pub level: u64,
}

/// Of `wanted`, those not in `have`, in order.
pub open spec fn missing_features(wanted: Seq<Seq<char>>, have: Seq<Seq<char>>) -> Seq<Seq<char>>
    decreases wanted.len(),
{
    if wanted.len() == 0 {
        Seq::empty()
    } else {
        let rest = missing_features(wanted.drop_last(), have);
        if have.contains(wanted.last()) {
            rest
        } else {
            rest.push(wanted.last())
        }
    }
}

/// The views of a sequence of strings.
pub open spec fn views(s: Seq<String>) -> Seq<Seq<char>> {
    s.map_values(|x: String| x@)
}

/// A CPU with the features `have` runs code built for `a`.
pub open spec fn runs_on(a: Arch, have: Seq<Seq<char>>) -> bool {
    missing_features(a.features.deep_view(), have).len() == 0
}

/// The C compiler flag that selects the tier.
pub open spec fn march_flag(name: Seq<char>) -> Seq<char> {
    "-march="@ + name
}

/// The Rust compiler flag value that selects the tier.
pub open spec fn target_cpu_value(name: Seq<char>) -> Seq<char> {
    "target-cpu="@ + name
}

/// Whether `c` has Unicode's `White_Space` property.
pub open spec fn is_white(c: char) -> bool {
    let u = c as u32;
    (0x09 <= u <= 0x0d) || u == 0x20 || u == 0x85 || u == 0xa0 || u == 0x1680 || (0x2000
        <= u <= 0x200a) || u == 0x2028 || u == 0x2029 || u == 0x202f || u == 0x205f || u
        == 0x3000
}

pub open spec fn trim_start(s: Seq<char>) -> Seq<char>
    decreases s.len(),
{
    if s.len() > 0 && is_white(s[0]) {
        trim_start(s.skip(1))
    } else {
        s
    }
}

pub open spec fn trim_end(s: Seq<char>) -> Seq<char>
    decreases s.len(),
{
    if s.len() > 0 && is_white(s.last()) {
        trim_end(s.drop_last())
    } else {
        s
    }
}

/// `s` without white space at either end.
pub open spec fn trimmed(s: Seq<char>) -> Seq<char> {
    trim_end(trim_start(s))
}

/// The feature names in a space-separated CPU flag listing, each trimmed.
pub open spec fn listed_features(s: Seq<char>) -> Seq<Seq<char>> {
    pieces(s, ' ').map_values(|p: Seq<char>| trimmed(p))
}

/// Relies on str::trim: leading and trailing characters with the Unicode
/// `White_Space` property are removed.
#[verifier::external_body]
fn trim(s: &str) -> (r: &str)
    ensures
        r@ == trimmed(s@),
{
    s.trim()
}

impl Arch {
    /// Flags for the C compiler.
    pub fn cflags(&self) -> (r: Vec<String>)
        ensures
            r.deep_view() == seq![march_flag(self.name@)],
    {
        let mut flag = String::from_str("-march=");
        flag.append(self.name.as_str());
        let r = vec![flag];
        assert(r.deep_view() =~= seq![march_flag(self.name@)]);
        r
    }

    /// Flags for the C++ compiler: the same as for C.
    pub fn cxxflags(&self) -> (r: Vec<String>)
        ensures
            r.deep_view() == seq![march_flag(self.name@)],
    {
        self.cflags()
    }

    /// Flags for the Rust compiler.
    pub fn rustflags(&self) -> (r: Vec<String>)
        ensures
            r.deep_view() == seq!["--codegen"@, target_cpu_value(self.name@)],
    {
        let codegen = String::from_str("--codegen");
        let mut cpu = String::from_str("target-cpu=");
        cpu.append(self.name.as_str());
        let r = vec![codegen, cpu];
        assert(r.deep_view() =~= seq!["--codegen"@, target_cpu_value(self.name@)]);
        r
    }

    /// `Ok` when the CPU has every feature the tier needs, else the missing
    /// ones in the tier's order.
    pub fn check_features(&self, cpu_features: &[String]) -> (r: Result<(), Vec<String>>)
        ensures
            match r {
                Ok(()) => missing_features(self.features.deep_view(), views(cpu_features@)).len()
                    == 0,
                Err(m) => m.deep_view() == missing_features(
                    self.features.deep_view(),
                    views(cpu_features@),
                ) && m.len() > 0,
            },
    {
        let ghost have = views(cpu_features@);
        let mut missing: Vec<String> = Vec::new();
        let mut i: usize = 0;
        while i < self.features.len()
            invariant
                have == views(cpu_features@),
                i <= self.features.len(),
                missing.deep_view() == missing_features(self.features.deep_view().take(i as int), have),
            decreases self.features.len() - i,
        {
            proof {
                assert(self.features.deep_view().take(i + 1).drop_last() =~= self.features.deep_view().take(i as int));
            }
            let f = &self.features[i];
            let mut found = false;
            let mut j: usize = 0;
            while j < cpu_features.len()
                invariant
                    have == views(cpu_features@),
                    j <= cpu_features.len(),
                    found == (exists|k: int| 0 <= k < j && have[k] == f@),
                decreases cpu_features.len() - j,
            {
                let same = cpu_features[j] == *f;
                proof {
                    assert(have[j as int] == cpu_features@[j as int]@);
                    if same {
                        assert(0 <= j < j + 1 && have[j as int] == f@);
                    }
                    if !found && !same {
                        assert forall|k: int| 0 <= k < j + 1 implies have[k] != f@ by {
                            if k < j {
                            }
                        }
                    }
                }
                if same {
                    found = true;
                }
                j = j + 1;
            }
            proof {
                if found {
                    let k = choose|k: int| 0 <= k < cpu_features.len() && have[k] == f@;
                    assert(have.contains(f@));
                } else {
                    assert(!have.contains(f@));
                }
            }
            if !found {
                let ghost before = missing.deep_view();
                missing.push(f.clone());
                assert(missing.deep_view() =~= before.push(f@));
            }
            i = i + 1;
        }
        assert(self.features.deep_view().take(i as int) =~= self.features.deep_view());
        if missing.len() == 0 {
            Ok(())
        } else {
            Err(missing)
        }
    }
}

/// Of the tiers in `archs`, the position of the last one that a CPU with
/// `cpu_features` runs; `None` when it runs none of them.
pub fn highest_supported(archs: &Vec<Arch>, cpu_features: &[String]) -> (r: Option<usize>)
    ensures
        match r {
            Some(i) => i < archs.len() && runs_on(archs[i as int], views(cpu_features@)) && (
            forall|j: int| i < j < archs.len() ==> !runs_on(archs[j], views(cpu_features@))),
            None => forall|j: int|
                0 <= j < archs.len() ==> !runs_on(archs[j], views(cpu_features@)),
        },
{
    let mut best: Option<usize> = None;
    let mut i: usize = 0;
    while i < archs.len()
        invariant
            i <= archs.len(),
            match best {
                Some(b) => b < i && runs_on(archs[b as int], views(cpu_features@)) && (forall|j: int|
                    b < j < i ==> !runs_on(archs[j], views(cpu_features@))),
                None => forall|j: int| 0 <= j < i ==> !runs_on(archs[j], views(cpu_features@)),
            },
        decreases archs.len() - i,
    {
        match archs[i].check_features(cpu_features) {
            Ok(()) => {
                best = Some(i);
            },
            Err(_) => {},
        }
        i = i + 1;
    }
    best
}

/// The CPU features named in `output`, a space-separated listing; each is
/// trimmed of white space.
pub fn parse_cpu_features(output: &str) -> (r: Vec<String>)
    ensures
        r.deep_view() == listed_features(output@),
{
    let cs = chars_of(output);
    let mut r: Vec<String> = Vec::new();
    let mut start: usize = 0;
    let mut i: usize = 0;
    proof {
        assert(output@.take(0) =~= Seq::<char>::empty());
    }
    while i < cs.len()
        invariant
            cs@ == output@,
            start <= i <= cs.len(),
            pieces(output@.take(i as int), ' ').len() >= 1,
            r.deep_view() =~= pieces(output@.take(i as int), ' ').drop_last().map_values(
                |p: Seq<char>| trimmed(p),
            ),
            pieces(output@.take(i as int), ' ').last() == output@.subrange(start as int, i as int),
        decreases cs.len() - i,
    {
        let ghost before = pieces(output@.take(i as int), ' ');
        proof {
            assert(output@.take(i + 1).drop_last() =~= output@.take(i as int));
            crate::text::lemma_pieces_nonempty(output@.take(i + 1), ' ');
        }
        if cs[i] == ' ' {
            let ghost r_before = r.deep_view();
            let piece = output.substring_char(start, i);
            let t = trim(piece);
            r.push(String::from_str(t));
            start = i + 1;
            proof {
                let after = pieces(output@.take(i + 1), ' ');
                assert(after == before.push(Seq::<char>::empty()));
                assert(after.drop_last() =~= before);
                assert(r.deep_view() =~= r_before.push(trimmed(before.last())));
                assert(before =~= before.drop_last().push(before.last()));
            }
        } else {
            proof {
                let after = pieces(output@.take(i + 1), ' ');
                assert(after.drop_last() =~= before.drop_last());
                assert(after.last() =~= output@.subrange(start as int, i + 1));
            }
        }
        i = i + 1;
    }
    proof {
        assert(output@.take(i as int) =~= output@);
    }
    let ghost p = pieces(output@, ' ');
    let ghost r_before = r.deep_view();
    let piece = output.substring_char(start, cs.len());
    let t = trim(piece);
    r.push(String::from_str(t));
    proof {
        assert(r.deep_view() =~= r_before.push(trimmed(p.last())));
        assert(p =~= p.drop_last().push(p.last()));
        assert(r.deep_view() =~= listed_features(output@));
    }
    r
}

} // verus!
