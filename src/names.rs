use vstd::prelude::*;

use crate::text::{append_decimal, decimal};

verus! {

/// The version given to a rebuilt source: the upstream version, the vendor
/// tag and the tier's level.
pub open spec fn synthetic_version_of(version: Seq<char>, level: nat) -> Seq<char> {
    version + "popopt"@ + decimal(level)
}

/// The name of a package's source control file.
pub open spec fn dsc_name_of(name: Seq<char>, version: Seq<char>) -> Seq<char> {
    name + "_"@ + version + ".dsc"@
}

/// The name of the scratch directory a download goes to.
pub open spec fn scratch_name_of(
    arch: Seq<char>,
    dist: Seq<char>,
    name: Seq<char>,
    version: Seq<char>,
) -> Seq<char> {
    "popopt_"@ + arch + "_"@ + dist + "_"@ + name + "_"@ + version
}

/// The name of the build root for a distribution and target architecture.
pub open spec fn chroot_name_of(dist: Seq<char>, target: Seq<char>) -> Seq<char> {
    dist + "-"@ + target + "-popopt"@
}

/// The name of the build stage of a target architecture.
pub open spec fn build_stage_name_of(target: Seq<char>) -> Seq<char> {
    "sbuild-"@ + target
}

/// The name of the directory a stage works in before it is committed.
pub open spec fn partial_name_of(stage: Seq<char>) -> Seq<char> {
    stage + ".partial"@
}

/// What the download asks for: a package at a version.
pub open spec fn pinned_of(name: Seq<char>, version: Seq<char>) -> Seq<char> {
    name + "="@ + version
}

/// The version given to a rebuilt source; the same inputs always give the
/// same version.
pub fn synthetic_version(version: &str, level: u64) -> (r: String)
    ensures
        r@ == synthetic_version_of(version@, level as nat),
{
    let mut r = String::from_str(version);
    r.append("popopt");
    append_decimal(&mut r, level);
    r
}

/// The name of a package's source control file.
pub fn dsc_file_name(name: &str, version: &str) -> (r: String)
    ensures
        r@ == dsc_name_of(name@, version@),
{
    let mut r = String::from_str(name);
    r.append("_");
    r.append(version);
    r.append(".dsc");
    r
}

/// The name of the scratch directory a download goes to: distinct for each
/// tier, distribution, package and version.
pub fn scratch_name(arch: &str, dist: &str, name: &str, version: &str) -> (r: String)
    ensures
        r@ == scratch_name_of(arch@, dist@, name@, version@),
{
    let mut r = String::from_str("popopt_");
    r.append(arch);
    r.append("_");
    r.append(dist);
    r.append("_");
    r.append(name);
    r.append("_");
    r.append(version);
    r
}

/// The name of the build root for a distribution and target architecture.
pub fn chroot_name(dist: &str, target: &str) -> (r: String)
    ensures
        r@ == chroot_name_of(dist@, target@),
{
    let mut r = String::from_str(dist);
    r.append("-");
    r.append(target);
    r.append("-popopt");
    r
}

/// The name of the stage that prepares the source.
pub fn source_stage_name() -> (r: String)
    ensures
        r@ == "source"@,
{
    String::from_str("source")
}

/// The name of the build stage of a target architecture.
pub fn build_stage_name(target: &str) -> (r: String)
    ensures
        r@ == build_stage_name_of(target@),
{
    let mut r = String::from_str("sbuild-");
    r.append(target);
    r
}

/// The name of the directory a stage works in before it is committed.
pub fn partial_name(stage: &str) -> (r: String)
    ensures
        r@ == partial_name_of(stage@),
{
    let mut r = String::from_str(stage);
    r.append(".partial");
    r
}

/// What the download asks for: a package at a version.
pub fn pinned(name: &str, version: &str) -> (r: String)
    ensures
        r@ == pinned_of(name@, version@),
{
    let mut r = String::from_str(name);
    r.append("=");
    r.append(version);
    r
}

} // verus!
