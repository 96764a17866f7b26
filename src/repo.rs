use vstd::prelude::*;

use crate::pool::contains_name;

verus! {

/// Whether the package `name` is to be built when the packages named in
/// `requested` were asked for: all of them when none was named.
pub fn is_requested(name: &String, requested: &Vec<String>) -> (r: bool)
    ensures
        r == (requested.len() == 0 || requested.deep_view().contains(name@)),
{
    requested.len() == 0 || contains_name(requested, name)
}

/// The release description of one architecture's part of the repository.
pub open spec fn release_text_of(
    dist: Seq<char>,
    dist_version: Seq<char>,
    arch: Seq<char>,
    target: Seq<char>,
) -> Seq<char> {
    "Archive: "@ + dist + "\n"@ + "Version: "@ + dist_version + "\n"@ + "Component: main\n"@
        + "Origin: pop-os-opt-"@ + arch + "\n"@ + "Label: Pop!_OS Opt "@ + arch + "\n"@
        + "Architecture: "@ + target + "\n"@
}

/// The release description of one architecture's part of the repository
/// built for the tier `arch`.
pub fn release_text(dist: &str, dist_version: &str, arch: &str, target: &str) -> (r: String)
    ensures
        r@ == release_text_of(dist@, dist_version@, arch@, target@),
{
    let mut r = String::from_str("Archive: ");
    r.append(dist);
    r.append("\n");
    r.append("Version: ");
    r.append(dist_version);
    r.append("\n");
    r.append("Component: main\n");
    r.append("Origin: pop-os-opt-");
    r.append(arch);
    r.append("\n");
    r.append("Label: Pop!_OS Opt ");
    r.append(arch);
    r.append("\n");
    r.append("Architecture: ");
    r.append(target);
    r.append("\n");
    r
}

/// Where the repository of a tier is published.
pub fn repo_url(arch: &str) -> (r: String)
    ensures
        r@ == "https://apt.pop-os.org/opt/"@ + arch@ + "/"@,
{
    let mut r = String::from_str("https://apt.pop-os.org/opt/");
    r.append(arch);
    r.append("/");
    r
}

/// The package source line for a repository and a distribution codename.
pub fn source_line(url: &str, codename: &str) -> (r: String)
    ensures
        r@ == "deb "@ + url@ + " "@ + codename@ + " main"@,
{
    let mut r = String::from_str("deb ");
    r.append(url);
    r.append(" ");
    r.append(codename);
    r.append(" main");
    r
}

} // verus!
