use vstd::prelude::*;

use crate::arch::{march_flag, target_cpu_value, Arch};
use crate::names::{chroot_name, chroot_name_of};
use crate::pkg::Pkg;
use crate::stage::Work;
use crate::text::has_suffix;

verus! {

/// The steps that prepare a package's source with `patch_count` patches.
pub open spec fn source_work_of(patch_count: nat) -> Seq<Work> {
    seq![
        Work::PrepareScratch,
        Work::Fetch,
        Work::ExpectFetched,
        Work::Extract,
        Work::DropScratch,
        Work::CopyTree,
    ] + Seq::new(patch_count, |i: int| Work::ApplyPatch { index: i as usize }) + seq![
        Work::Changelog,
        Work::BuildControl,
    ]
}

/// The steps of one architecture's build.
pub open spec fn build_work_of() -> Seq<Work> {
    seq![Work::WriteBuildConfig, Work::RunBuild]
}

/// The parts joined, with `sep` between each two.
pub open spec fn joined(parts: Seq<Seq<char>>, sep: Seq<char>) -> Seq<char>
    decreases parts.len(),
{
    if parts.len() == 0 {
        Seq::empty()
    } else if parts.len() == 1 {
        parts[0]
    } else {
        joined(parts.drop_last(), sep) + sep + parts.last()
    }
}

/// The build environment descriptor for a tier: the compiler flags the
/// build tool hands to the compilers.
pub open spec fn build_config_of(name: Seq<char>) -> Seq<char> {
    "$build_environment = {\n"@ + "    'DEB_CFLAGS_APPEND' => '"@ + march_flag(name) + "',\n"@
        + "    'DEB_CXXFLAGS_APPEND' => '"@ + march_flag(name) + "',\n"@
        + "    'POP_OPT_ARCH' => '"@ + name + "',\n"@ + "    'RUSTFLAGS' => '"@ + joined(
        seq!["--codegen"@, target_cpu_value(name)],
        " "@,
    ) + "',\n"@ + "};\n"@
}

/// The first flag of a build: only the primary architecture builds the
/// architecture-independent packages.
pub open spec fn arch_all_flag(primary: bool) -> Seq<char> {
    if primary {
        "--arch-all"@
    } else {
        "--no-arch-all"@
    }
}

/// The mirror the builds take updates from.
pub open spec fn mirror_line(dist: Seq<char>, pocket: Seq<char>) -> Seq<char> {
    "--extra-repository=deb http://us.archive.ubuntu.com/ubuntu/ "@ + dist + pocket
        + " main restricted universe multiverse"@
}

/// The arguments of the build tool for one target architecture.
pub open spec fn build_args_of(
    dist: Seq<char>,
    target: Seq<char>,
    primary: bool,
    dsc: Seq<char>,
) -> Seq<Seq<char>> {
    seq![
        arch_all_flag(primary),
        "--no-apt-distupgrade"@,
        "--quiet"@,
        "--chroot="@ + chroot_name_of(dist, target),
        "--dist="@ + dist,
        "--arch="@ + target,
        mirror_line(dist, "-updates"@),
        mirror_line(dist, "-security"@),
        dsc,
    ]
}

/// A file name of a binary package.
pub open spec fn is_binary_package_name(name: Seq<char>) -> bool {
    has_suffix(name, ".deb"@)
}

/// Of `names`, the binary packages, in order.
pub open spec fn binary_packages_of(names: Seq<Seq<char>>) -> Seq<Seq<char>>
    decreases names.len(),
{
    if names.len() == 0 {
        Seq::empty()
    } else if is_binary_package_name(names.last()) {
        binary_packages_of(names.drop_last()).push(names.last())
    } else {
        binary_packages_of(names.drop_last())
    }
}

impl Pkg {
    /// The steps that prepare this package's source: download, extract,
    /// copy, each patch in the declared order, changelog, control file.
    pub fn source_work(&self) -> (r: Vec<Work>)
        ensures
            r@ == source_work_of(self.patches.len() as nat),
    {
        let mut r: Vec<Work> = vec![
            Work::PrepareScratch,
            Work::Fetch,
            Work::ExpectFetched,
            Work::Extract,
            Work::DropScratch,
            Work::CopyTree,
        ];
        let ghost head = r@;
        let mut i: usize = 0;
        while i < self.patches.len()
            invariant
                i <= self.patches.len(),
                r@ == head + Seq::new(i as nat, |k: int| Work::ApplyPatch { index: k as usize }),
            decreases self.patches.len() - i,
        {
            r.push(Work::ApplyPatch { index: i });
            i = i + 1;
            assert(r@ =~= head + Seq::new(i as nat, |k: int| Work::ApplyPatch { index: k as usize }));
        }
        r.push(Work::Changelog);
        r.push(Work::BuildControl);
        assert(r@ =~= source_work_of(self.patches.len() as nat));
        r
    }
}

/// The steps of one architecture's build.
pub fn build_work() -> (r: Vec<Work>)
    ensures
        r@ == build_work_of(),
{
    let r = vec![Work::WriteBuildConfig, Work::RunBuild];
    assert(r@ =~= build_work_of());
    r
}

/// The parts joined, with `sep` between each two.
pub fn join(parts: &Vec<String>, sep: &str) -> (r: String)
    ensures
        r@ == joined(parts.deep_view(), sep@),
{
    let mut r = String::new();
    let mut i: usize = 0;
    while i < parts.len()
        invariant
            i <= parts.len(),
            r@ == joined(parts.deep_view().take(i as int), sep@),
        decreases parts.len() - i,
    {
        proof {
            assert(parts.deep_view().take(i + 1).drop_last() =~= parts.deep_view().take(i as int));
        }
        if i > 0 {
            r.append(sep);
        } else {
            assert(r@ =~= Seq::<char>::empty());
        }
        r.append(parts[i].as_str());
        i = i + 1;
    }
    assert(parts.deep_view().take(i as int) =~= parts.deep_view());
    r
}

/// The build environment descriptor for a tier.
pub fn build_config(arch: &Arch) -> (r: String)
    ensures
        r@ == build_config_of(arch.name@),
{
    let cflags = arch.cflags();
    let cxxflags = arch.cxxflags();
    let rustflags = arch.rustflags();
    let mut r = String::from_str("$build_environment = {\n");
    r.append("    'DEB_CFLAGS_APPEND' => '");
    r.append(join(&cflags, " ").as_str());
    r.append("',\n");
    r.append("    'DEB_CXXFLAGS_APPEND' => '");
    r.append(join(&cxxflags, " ").as_str());
    r.append("',\n");
    r.append("    'POP_OPT_ARCH' => '");
    r.append(arch.name.as_str());
    r.append("',\n");
    r.append("    'RUSTFLAGS' => '");
    r.append(join(&rustflags, " ").as_str());
    r.append("',\n");
    r.append("};\n");
    proof {
        let one = seq![march_flag(arch.name@)];
        assert(one.drop_last() =~= Seq::<Seq<char>>::empty());
        assert(joined(one, " "@) == march_flag(arch.name@));
        let two = seq!["--codegen"@, target_cpu_value(arch.name@)];
        assert(two.drop_last() =~= seq!["--codegen"@]);
        assert(seq!["--codegen"@].drop_last() =~= Seq::<Seq<char>>::empty());
    }
    r
}

/// Whether `target` is the primary architecture: the first of `targets`.
pub fn is_primary(target: &str, targets: &Vec<String>) -> (r: bool)
    ensures
        r == (targets.len() > 0 && targets[0]@ == target@),
{
    if targets.len() == 0 {
        return false;
    }
    let t = String::from_str(target);
    targets[0] == t
}

fn prefixed(p: &str, s: &str) -> (r: String)
    ensures
        r@ == p@ + s@,
{
    let mut r = String::from_str(p);
    r.append(s);
    r
}

fn mirror(dist: &str, pocket: &str) -> (r: String)
    ensures
        r@ == mirror_line(dist@, pocket@),
{
    let mut r = String::from_str("--extra-repository=deb http://us.archive.ubuntu.com/ubuntu/ ");
    r.append(dist);
    r.append(pocket);
    r.append(" main restricted universe multiverse");
    r
}

/// The arguments of the build tool for one target architecture, building
/// from the source control file `dsc`.
pub fn build_args(dist: &str, target: &str, primary: bool, dsc: &str) -> (r: Vec<String>)
    ensures
        r.deep_view() == build_args_of(dist@, target@, primary, dsc@),
{
    let first = if primary {
        String::from_str("--arch-all")
    } else {
        String::from_str("--no-arch-all")
    };
    let chroot = chroot_name(dist, target);
    let r = vec![
        first,
        String::from_str("--no-apt-distupgrade"),
        String::from_str("--quiet"),
        prefixed("--chroot=", chroot.as_str()),
        prefixed("--dist=", dist),
        prefixed("--arch=", target),
        mirror(dist, "-updates"),
        mirror(dist, "-security"),
        String::from_str(dsc),
    ];
    assert(r.deep_view() =~= build_args_of(dist@, target@, primary, dsc@));
    r
}

/// Whether `name` is the file name of a binary package.
pub fn is_binary_package(name: &str) -> (r: bool)
    ensures
        r == is_binary_package_name(name@),
{
    let cs = crate::text::chars_of(name);
    let suffix = crate::text::chars_of(".deb");
    if cs.len() < suffix.len() {
        return false;
    }
    let off = cs.len() - suffix.len();
    let mut i: usize = 0;
    while i < suffix.len()
        invariant
            cs@ == name@,
            suffix@ == ".deb"@,
            off == cs.len() - suffix.len(),
            i <= suffix.len(),
            forall|j: int| 0 <= j < i ==> cs@[off + j] == suffix@[j],
        decreases suffix.len() - i,
    {
        if cs[off + i] != suffix[i] {
            assert(name@.subrange(off as int, name@.len() as int)[i as int] != suffix@[i as int]);
            return false;
        }
        i = i + 1;
    }
    assert(name@.subrange(off as int, name@.len() as int) =~= ".deb"@);
    true
}

/// Of the file names a build left, those of binary packages, in order.
pub fn binary_packages(names: &Vec<String>) -> (r: Vec<String>)
    ensures
        r.deep_view() == binary_packages_of(names.deep_view()),
{
    let mut r: Vec<String> = Vec::new();
    let mut i: usize = 0;
    while i < names.len()
        invariant
            i <= names.len(),
            r.deep_view() == binary_packages_of(names.deep_view().take(i as int)),
        decreases names.len() - i,
    {
        proof {
            assert(names.deep_view().take(i + 1).drop_last() =~= names.deep_view().take(i as int));
        }
        if is_binary_package(names[i].as_str()) {
            let ghost before = r.deep_view();
            r.push(names[i].clone());
            assert(r.deep_view() =~= before.push(names[i as int]@));
        }
        i = i + 1;
    }
    assert(names.deep_view().take(i as int) =~= names.deep_view());
    r
}

/// The patches of a package are applied one after the other in the order
/// the package declares them, after the tree is copied and before the
/// changelog is written.
pub proof fn lemma_patches_in_declared_order(patch_count: nat)
    ensures
        source_work_of(patch_count).len() == patch_count + 8,
        source_work_of(patch_count)[5] == Work::CopyTree,
        forall|k: int|
            0 <= k < patch_count ==> #[trigger] source_work_of(patch_count)[6 + k]
                == (Work::ApplyPatch { index: k as usize }),
        source_work_of(patch_count)[6 + patch_count as int] == Work::Changelog,
{
}

} // verus!
