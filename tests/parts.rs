use pop_opt::{
    binary_packages, build_args, build_config, build_stage_name, check_exit, check_packages,
    chroot_name, contains_name, decimal_string, dsc_file_name, failed, highest_supported,
    is_binary_package, is_primary, is_requested, join, lines_of, parse_cpu_features,
    partial_name, pinned, plan_links, release_text, repo_url, scratch_name, source_line,
    source_stage_name, source_values, source_versions, starts_with, successful_artifacts, synthetic_version,
    ArchOutcome, Arch, Artifact, BuildError, VersionPick,
};

fn strings(v: &[&str]) -> Vec<String> {
    v.iter().map(|s| s.to_string()).collect()
}

fn arch(name: &str, features: &[&str], level: u64) -> Arch {
    Arch { name: name.to_string(), wiki: String::new(), features: strings(features), level }
}

fn artifact(dir: &str, file_name: &str) -> Artifact {
    Artifact { dir: dir.to_string(), file_name: file_name.to_string() }
}

#[test]
fn cflags_select_the_tier() {
    let a = arch("x86-64-v3", &[], 3);
    assert_eq!(a.cflags(), strings(&["-march=x86-64-v3"]));
    assert_eq!(a.cxxflags(), strings(&["-march=x86-64-v3"]));
}

#[test]
fn rustflags_select_the_tier() {
    let a = arch("znver2", &[], 4);
    assert_eq!(a.rustflags(), strings(&["--codegen", "target-cpu=znver2"]));
}

#[test]
fn check_features_lists_missing_in_order() {
    let a = arch("x86-64-v3", &["avx2", "sse4_2", "bmi2", "fma"], 3);
    let cpu = strings(&["fpu", "sse4_2", "fma"]);
    assert_eq!(a.check_features(&cpu), Err(strings(&["avx2", "bmi2"])));
    let cpu = strings(&["avx2", "sse4_2", "bmi2", "fma"]);
    assert_eq!(a.check_features(&cpu), Ok(()));
    assert_eq!(arch("x86-64", &[], 1).check_features(&[]), Ok(()));
}

#[test]
fn highest_supported_takes_the_last_that_runs() {
    let archs = vec![
        arch("x86-64", &[], 1),
        arch("x86-64-v2", &["sse4_2"], 2),
        arch("x86-64-v3", &["avx2"], 3),
        arch("x86-64-v4", &["avx512f"], 4),
    ];
    assert_eq!(highest_supported(&archs, &strings(&["sse4_2", "avx2"])), Some(2));
    assert_eq!(highest_supported(&archs[1..].to_vec(), &strings(&["fpu"])), None);
    assert_eq!(highest_supported(&vec![], &strings(&["fpu"])), None);
}

#[test]
fn cpu_flag_listing_is_split_and_trimmed() {
    assert_eq!(parse_cpu_features("fpu vme avx2\n"), strings(&["fpu", "vme", "avx2"]));
    assert_eq!(parse_cpu_features(""), strings(&[""]));
    assert_eq!(parse_cpu_features("a  b"), strings(&["a", "", "b"]));
    assert_eq!(parse_cpu_features("\tsse\u{3000}"), strings(&["sse"]));
}

#[test]
fn lines_split_like_str_lines() {
    assert_eq!(lines_of("a\r\nb\n\nc"), strings(&["a", "b", "", "c"]));
    assert_eq!(lines_of("a\n"), strings(&["a"]));
    assert_eq!(lines_of(""), strings(&[]));
    assert_eq!(lines_of("\n"), strings(&[""]));
}

#[test]
fn prefix_test() {
    assert!(starts_with("Version: 1.0", "Version: "));
    assert!(!starts_with("Vers", "Version: "));
    assert!(starts_with("x", ""));
}

const LISTING: &str = "Package: hello\nBinary: hello\nVersion: 2.10-2\nFormat: 3.0 (quilt)\n\nPackage: hello\nVersion: 2.10-2ubuntu2\n";

#[test]
fn source_values_collects_every_value_in_order() {
    assert_eq!(source_values(LISTING, "Package"), Ok(strings(&["hello", "hello"])));
    assert_eq!(source_values(LISTING, "Version"), Ok(strings(&["2.10-2", "2.10-2ubuntu2"])));
}

#[test]
fn source_values_without_the_key_fails() {
    assert_eq!(
        source_values(LISTING, "Binaries"),
        Err(BuildError::MetadataFormat { key: "Binaries".to_string() })
    );
    assert_eq!(
        source_values("", "Package"),
        Err(BuildError::MetadataFormat { key: "Package".to_string() })
    );
    assert_eq!(
        source_values("PackageX: hello\n", "Package"),
        Err(BuildError::MetadataFormat { key: "Package".to_string() })
    );
}

#[test]
fn package_mismatch_is_detected() {
    assert_eq!(check_packages("hello", &strings(&["hello", "hello"])), Ok(()));
    assert_eq!(
        check_packages("hello", &strings(&["hello", "hello-traditional", "other"])),
        Err(BuildError::PackageMismatch {
            requested: "hello".to_string(),
            found: "hello-traditional".to_string(),
        })
    );
}

#[test]
fn exit_codes_map_to_results() {
    assert_eq!(check_exit(Some(0)), Ok(()));
    assert_eq!(check_exit(Some(2)), Err(BuildError::CommandFailed { status: Some(2) }));
    assert_eq!(check_exit(None), Err(BuildError::CommandFailed { status: None }));
}

/// Packaging order on the versions used below.
fn packaging_gt(a: &str, b: &str) -> bool {
    let rank = |v: &str| match v {
        "0.9-1" => 0,
        "1.0-1" => 1,
        "1.0-2ubuntu1" => 2,
        _ => panic!("unexpected version {}", v),
    };
    rank(a) > rank(b)
}

fn pick(candidates: &[&str], gt: impl Fn(&str, &str) -> bool) -> String {
    let mut p = VersionPick::new(strings(candidates));
    while let Some((later, kept)) = p.query() {
        let greater = gt(&p.candidates[later], &p.candidates[kept]);
        p.answer(greater);
    }
    p.chosen().clone()
}

#[test]
fn version_selection_uses_packaging_order() {
    assert_eq!(pick(&["1.0-1", "1.0-2ubuntu1", "0.9-1"], packaging_gt), "1.0-2ubuntu1");
    assert_eq!(pick(&["0.9-1"], packaging_gt), "0.9-1");
}

#[test]
fn version_selection_keeps_the_first_of_equals() {
    let mut p = VersionPick::new(strings(&["1.0", "1.0.0", "0.5"]));
    let mut asked = Vec::new();
    while let Some(pair) = p.query() {
        asked.push(pair);
        p.answer(false);
    }
    assert_eq!(asked, vec![(1, 0), (2, 0)]);
    assert_eq!(p.chosen(), "1.0");
}

#[test]
fn decimal_notation() {
    assert_eq!(decimal_string(0), "0");
    assert_eq!(decimal_string(7), "7");
    assert_eq!(decimal_string(10), "10");
    assert_eq!(decimal_string(18446744073709551615), "18446744073709551615");
}

#[test]
fn synthetic_version_is_stable_and_tagged() {
    assert_eq!(synthetic_version("2.10-2ubuntu2", 3), "2.10-2ubuntu2popopt3");
    assert_eq!(synthetic_version("2.10-2ubuntu2", 3), synthetic_version("2.10-2ubuntu2", 3));
    assert_eq!(synthetic_version("1:1.0-1", 12), "1:1.0-1popopt12");
}

#[test]
fn file_and_directory_names() {
    assert_eq!(dsc_file_name("hello", "2.10-2popopt3"), "hello_2.10-2popopt3.dsc");
    assert_eq!(scratch_name("x86-64-v3", "focal", "hello", "2.10-2"), "popopt_x86-64-v3_focal_hello_2.10-2");
    assert_eq!(chroot_name("focal", "i386"), "focal-i386-popopt");
    assert_eq!(source_stage_name(), "source");
    assert_eq!(build_stage_name("amd64"), "sbuild-amd64");
    assert_eq!(partial_name("sbuild-amd64"), "sbuild-amd64.partial");
    assert_eq!(pinned("hello", "2.10-2"), "hello=2.10-2");
}

#[test]
fn join_puts_separators_between() {
    assert_eq!(join(&strings(&[]), " "), "");
    assert_eq!(join(&strings(&["a"]), " "), "a");
    assert_eq!(join(&strings(&["a", "b", "c"]), ", "), "a, b, c");
}

#[test]
fn build_config_carries_the_flags() {
    let a = arch("x86-64-v3", &["avx2"], 3);
    assert_eq!(
        build_config(&a),
        "$build_environment = {\n    'DEB_CFLAGS_APPEND' => '-march=x86-64-v3',\n    'DEB_CXXFLAGS_APPEND' => '-march=x86-64-v3',\n    'POP_OPT_ARCH' => 'x86-64-v3',\n    'RUSTFLAGS' => '--codegen target-cpu=x86-64-v3',\n};\n"
    );
}

#[test]
fn only_the_first_target_is_primary() {
    let targets = strings(&["amd64", "i386"]);
    assert!(is_primary("amd64", &targets));
    assert!(!is_primary("i386", &targets));
    assert!(!is_primary("amd64", &vec![]));
}

#[test]
fn build_args_for_primary_and_other() {
    let primary = build_args("focal", "amd64", true, "/b/hello_1.dsc");
    assert_eq!(
        primary,
        strings(&[
            "--arch-all",
            "--no-apt-distupgrade",
            "--quiet",
            "--chroot=focal-amd64-popopt",
            "--dist=focal",
            "--arch=amd64",
            "--extra-repository=deb http://us.archive.ubuntu.com/ubuntu/ focal-updates main restricted universe multiverse",
            "--extra-repository=deb http://us.archive.ubuntu.com/ubuntu/ focal-security main restricted universe multiverse",
            "/b/hello_1.dsc",
        ])
    );
    let other = build_args("focal", "i386", false, "/b/hello_1.dsc");
    assert_eq!(other[0], "--no-arch-all");
    assert_eq!(other[3], "--chroot=focal-i386-popopt");
}

#[test]
fn binary_packages_are_filtered() {
    assert!(is_binary_package("hello_1_amd64.deb"));
    assert!(!is_binary_package("hello_1_amd64.buildinfo"));
    assert!(!is_binary_package("deb"));
    assert_eq!(
        binary_packages(&strings(&["a.deb", "a.changes", ".deb", "b.udeb", "x.deb.log"])),
        strings(&["a.deb", ".deb"])
    );
}

#[test]
fn one_architecture_failing_leaves_the_other() {
    let outcomes = vec![
        ArchOutcome {
            target: "amd64".to_string(),
            result: Ok(vec![artifact("/b/sbuild-amd64", "hello_1_amd64.deb"), artifact("/b/sbuild-amd64", "hello-doc_1_all.deb")]),
        },
        ArchOutcome {
            target: "i386".to_string(),
            result: Err(BuildError::CommandFailed { status: Some(1) }),
        },
    ];
    let arts = successful_artifacts(&outcomes);
    assert_eq!(arts.len(), 2);
    assert_eq!(arts[0].file_name, "hello_1_amd64.deb");
    assert_eq!(arts[1].file_name, "hello-doc_1_all.deb");
    assert_eq!(failed(&outcomes), strings(&["i386"]));
    let links = plan_links(&vec![], &arts);
    assert_eq!(links.len(), 2);
    assert_eq!(links[0].dir, "/b/sbuild-amd64");
}

#[test]
fn pool_links_a_name_once() {
    let arts = vec![
        artifact("/b/sbuild-amd64", "hello-doc_1_all.deb"),
        artifact("/b/sbuild-i386", "hello-doc_1_all.deb"),
        artifact("/b/sbuild-i386", "hello_1_i386.deb"),
    ];
    let links = plan_links(&vec![], &arts);
    assert_eq!(links.len(), 2);
    assert_eq!(links[0].dir, "/b/sbuild-amd64");
    assert_eq!(links[1].file_name, "hello_1_i386.deb");
    let pool = strings(&["hello-doc_1_all.deb", "hello_1_i386.deb"]);
    assert!(plan_links(&pool, &arts).is_empty());
    let pool = strings(&["hello_1_i386.deb"]);
    let again = plan_links(&pool, &arts);
    assert_eq!(again.len(), 1);
    assert_eq!(again[0].file_name, "hello-doc_1_all.deb");
}

#[test]
fn name_lookup() {
    let names = strings(&["a", "b"]);
    assert!(contains_name(&names, &"b".to_string()));
    assert!(!contains_name(&names, &"c".to_string()));
}

#[test]
fn requested_packages() {
    let hello = "hello".to_string();
    assert!(is_requested(&hello, &vec![]));
    assert!(is_requested(&hello, &strings(&["x", "hello"])));
    assert!(!is_requested(&hello, &strings(&["x"])));
}

#[test]
fn release_description() {
    assert_eq!(
        release_text("focal", "20.04", "x86-64-v3", "amd64"),
        "Archive: focal\nVersion: 20.04\nComponent: main\nOrigin: pop-os-opt-x86-64-v3\nLabel: Pop!_OS Opt x86-64-v3\nArchitecture: amd64\n"
    );
}

#[test]
fn repository_source_line() {
    let url = repo_url("x86-64-v3");
    assert_eq!(url, "https://apt.pop-os.org/opt/x86-64-v3/");
    assert_eq!(source_line(&url, "focal"), "deb https://apt.pop-os.org/opt/x86-64-v3/ focal main");
}

#[test]
fn versions_of_the_requested_package() {
    assert_eq!(source_versions(LISTING, "hello"), Ok(strings(&["2.10-2", "2.10-2ubuntu2"])));
}

#[test]
fn versions_need_matching_package_names() {
    assert_eq!(
        source_versions(LISTING, "hello-traditional"),
        Err(BuildError::PackageMismatch {
            requested: "hello-traditional".to_string(),
            found: "hello".to_string(),
        })
    );
    assert_eq!(
        source_versions("Version: 1.0\n", "hello"),
        Err(BuildError::MetadataFormat { key: "Package".to_string() })
    );
    assert_eq!(
        source_versions("Package: hello\n", "hello"),
        Err(BuildError::MetadataFormat { key: "Version".to_string() })
    );
}
