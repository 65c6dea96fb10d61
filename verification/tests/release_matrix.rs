use pythonbuild::names::{install_only_filename, install_only_stripped_filename};
use pythonbuild::matrix::release_triples;
use pythonbuild::triples::TripleRelease;
use pythonbuild::wanted::{build_wanted_filenames, python_version_of, WantedFilenamesError};

fn triple(name: &str) -> TripleRelease {
    release_triples()
        .into_iter()
        .find(|(n, _)| n == name)
        .map(|(_, t)| t)
        .expect("triple in the matrix")
}

#[test]
fn matrix_has_every_triple_once_in_name_order() {
    let names: Vec<String> = release_triples().into_iter().map(|(n, _)| n).collect();
    assert_eq!(names.len(), 23);
    let mut sorted = names.clone();
    sorted.sort();
    sorted.dedup();
    assert_eq!(names, sorted);
    assert!(names.contains(&"ppc64le_power11-unknown-linux-gnu".to_string()));
}

#[test]
fn suffixes_without_version_include_every_conditional_group() {
    let t = triple("x86_64-unknown-linux-gnu");
    assert_eq!(
        t.suffixes(None),
        vec!["debug", "pgo+lto", "freethreaded+debug", "freethreaded+pgo+lto"]
    );
}

#[test]
fn suffixes_follow_the_version_requirement() {
    let linux = triple("x86_64-unknown-linux-gnu");
    assert_eq!(linux.suffixes(Some("3.12.4")), vec!["debug", "pgo+lto"]);
    assert_eq!(
        linux.suffixes(Some("3.13.1")),
        vec!["debug", "pgo+lto", "freethreaded+debug", "freethreaded+pgo+lto"]
    );
    // `>=3.13` does not admit a 3.13 release candidate, `>=3.13.0rc0` does.
    assert_eq!(linux.suffixes(Some("3.13.0rc1")), vec!["debug", "pgo+lto"]);
    let mac = triple("aarch64-apple-darwin");
    assert_eq!(
        mac.suffixes(Some("3.13.0rc1")),
        vec!["debug", "pgo+lto", "freethreaded+debug", "freethreaded+pgo+lto"]
    );
}

#[test]
fn musl_triples_carry_static_builds() {
    let t = triple("aarch64-unknown-linux-musl");
    assert_eq!(
        t.suffixes(Some("3.11.9")),
        vec!["debug", "lto", "noopt", "debug+static", "lto+static", "noopt+static"]
    );
    assert_eq!(t.install_only_suffix, "lto");
    assert_eq!(t.freethreaded_install_only_suffix, "freethreaded+lto");
}

#[test]
fn requirements_of_the_matrix_parse() {
    for (_, t) in release_triples() {
        assert!(t.requirements_valid());
    }
}

#[test]
fn python_version_is_the_second_field() {
    assert_eq!(
        python_version_of("cpython-3.12.4-x86_64-unknown-linux-gnu-pgo+lto-20240722T0909.tar.zst"),
        "3.12.4"
    );
    assert_eq!(python_version_of("cpython-3.13.0"), "3.13.0");
}

fn names(list: &[&str]) -> Vec<String> {
    list.iter().map(|s| s.to_string()).collect()
}

#[test]
fn wanted_filenames_map_artifacts_to_assets() {
    let files = names(&["cpython-3.12.4-x86_64-unknown-linux-gnu-pgo+lto-20240722T0909.tar.zst"]);
    let map = build_wanted_filenames(&files, "20240722T0909", "20240722").unwrap();
    assert_eq!(
        map.get("cpython-3.12.4-x86_64-unknown-linux-gnu-pgo+lto-20240722T0909.tar.zst").map(|s| s.as_str()),
        Some("cpython-3.12.4+20240722-x86_64-unknown-linux-gnu-pgo+lto-full.tar.zst")
    );
    assert_eq!(
        map.get("cpython-3.12.4-x86_64-unknown-linux-gnu-install_only-20240722T0909.tar.gz").map(|s| s.as_str()),
        Some("cpython-3.12.4+20240722-x86_64-unknown-linux-gnu-install_only.tar.gz")
    );
    assert_eq!(
        map.get("cpython-3.12.4-aarch64-pc-windows-msvc-install_only_stripped-20240722T0909.tar.gz")
            .map(|s| s.as_str()),
        Some("cpython-3.12.4+20240722-aarch64-pc-windows-msvc-install_only_stripped.tar.gz")
    );
    assert!(map
        .get("cpython-3.12.4-x86_64-unknown-linux-gnu-freethreaded-install_only-20240722T0909.tar.gz")
        .is_none());
    // 71 full archives and two install-only archives for each of the 23 triples.
    assert_eq!(map.len(), 117);
}

#[test]
fn wanted_filenames_add_free_threaded_builds_from_3_13() {
    let files = names(&["cpython-3.13.0-x86_64-unknown-linux-gnu-pgo+lto-20241008T1200.tar.zst"]);
    let map = build_wanted_filenames(&files, "20241008T1200", "20241008").unwrap();
    assert_eq!(
        map.get("cpython-3.13.0-x86_64-unknown-linux-gnu-freethreaded+pgo+lto-20241008T1200.tar.zst")
            .map(|s| s.as_str()),
        Some("cpython-3.13.0+20241008-x86_64-unknown-linux-gnu-freethreaded+pgo+lto-full.tar.zst")
    );
    assert_eq!(
        map.get("cpython-3.13.0-s390x-unknown-linux-gnu-freethreaded-install_only_stripped-20241008T1200.tar.gz")
            .map(|s| s.as_str()),
        Some("cpython-3.13.0+20241008-s390x-unknown-linux-gnu-freethreaded-install_only_stripped.tar.gz")
    );
    assert_eq!(map.len(), 219);
}

#[test]
fn wanted_filenames_skip_triples_not_released_for_a_version() {
    let files = names(&[
        "cpython-3.9.20-x86_64-unknown-linux-gnu-pgo+lto-20240909T1200.tar.zst",
        "cpython-3.9.20-x86_64-unknown-linux-gnu-debug-20240909T1200.tar.zst",
    ]);
    let map = build_wanted_filenames(&files, "20240909T1200", "20240909").unwrap();
    assert!(map
        .get("cpython-3.9.20-s390x-unknown-linux-gnu-lto-20240909T1200.tar.zst")
        .is_none());
    assert!(map
        .get("cpython-3.9.20-aarch64-pc-windows-msvc-pgo-20240909T1200.tar.zst")
        .is_none());
    assert!(map
        .get("cpython-3.9.20-i686-pc-windows-msvc-pgo-20240909T1200.tar.zst")
        .is_some());
    assert_eq!(map.len(), 62);
}

#[test]
fn wanted_filenames_of_several_versions_add_up() {
    let files = names(&[
        "cpython-3.12.4-x86_64-unknown-linux-gnu-pgo+lto-20240722T0909.tar.zst",
        "cpython-3.13.0-x86_64-unknown-linux-gnu-pgo+lto-20240722T0909.tar.zst",
        "cpython-3.12.4-aarch64-apple-darwin-debug-20240722T0909.tar.zst",
    ]);
    let map = build_wanted_filenames(&files, "20240722T0909", "20240722").unwrap();
    assert_eq!(map.len(), 117 + 219);
}

#[test]
fn wanted_filenames_of_nothing_are_empty() {
    let map = build_wanted_filenames(&Vec::new(), "20240722T0909", "20240722").unwrap();
    assert_eq!(map.len(), 0);
}

#[test]
fn wanted_filenames_reject_an_invalid_version() {
    let files = names(&["cpython-banana-x86_64-unknown-linux-gnu-pgo+lto-20240722T0909.tar.zst"]);
    match build_wanted_filenames(&files, "20240722T0909", "20240722") {
        Err(e @ WantedFilenamesError::InvalidVersion { .. }) => {
            let expected = <pep440_rs::Version as std::str::FromStr>::from_str("banana").unwrap_err().to_string();
            assert_eq!(e.message(), expected);
            match e {
                WantedFilenamesError::InvalidVersion { version, .. } => assert_eq!(version, "banana"),
                _ => unreachable!(),
            }
        }
        _ => panic!("expected an invalid version"),
    }
}

#[test]
fn wanted_filenames_name_the_first_invalid_version_in_text_order() {
    let files = names(&[
        "cpython-zebra-x86_64-unknown-linux-gnu-pgo+lto-20240722T0909.tar.zst",
        "cpython-3.12.4-x86_64-unknown-linux-gnu-pgo+lto-20240722T0909.tar.zst",
        "cpython-apple-x86_64-unknown-linux-gnu-pgo+lto-20240722T0909.tar.zst",
        "cpython-mango-x86_64-unknown-linux-gnu-pgo+lto-20240722T0909.tar.zst",
    ]);
    match build_wanted_filenames(&files, "20240722T0909", "20240722") {
        Err(WantedFilenamesError::InvalidVersion { version, .. }) => assert_eq!(version, "apple"),
        _ => panic!("expected an invalid version"),
    }
}

#[test]
fn version_suffixes_are_among_all_suffixes() {
    for (_, t) in release_triples() {
        let all = t.suffixes(None);
        for v in ["3.9.20", "3.12.4", "3.13.0rc1", "3.14.0"] {
            for s in t.suffixes(Some(v)) {
                assert!(all.contains(&s));
            }
        }
    }
}

#[test]
fn every_artifact_maps_to_one_asset_of_its_version() {
    let files = names(&[
        "cpython-3.13.0-x86_64-unknown-linux-gnu-pgo+lto-20240722T0909.tar.zst",
        "cpython-3.12.4-x86_64-unknown-linux-gnu-pgo+lto-20240722T0909.tar.zst",
    ]);
    let map = build_wanted_filenames(&files, "20240722T0909", "20240722").unwrap();
    for (k, v) in map.pairs() {
        let version = python_version_of(k);
        assert!(v.starts_with(&format!("cpython-{version}+20240722-")));
        assert_eq!(map.get(k), Some(v));
    }
}

#[test]
fn install_only_suffixes_are_released_once_each() {
    for (_, t) in release_triples() {
        assert!(t.suffixes.contains(&t.install_only_suffix));
        let all = t.suffixes(None);
        assert!(all.contains(&t.freethreaded_install_only_suffix));
        let mut distinct = all.clone();
        distinct.sort();
        distinct.dedup();
        assert_eq!(distinct.len(), all.len());
    }
}

#[test]
fn checked_suffixes_test_what_they_are_given() {
    let t = triple("s390x-unknown-linux-gnu");
    assert_eq!(t.checked_suffixes(Some("3.12.4")), Some(t.suffixes(Some("3.12.4"))));
    assert_eq!(
        t.checked_suffixes(Some("3.13.0")),
        Some(vec![
            "debug".to_string(),
            "lto".to_string(),
            "noopt".to_string(),
            "freethreaded+debug".to_string(),
            "freethreaded+lto".to_string(),
            "freethreaded+noopt".to_string(),
        ])
    );
    assert_eq!(t.checked_suffixes(None), Some(t.suffixes(None)));
    assert_eq!(t.checked_suffixes(Some("banana")), None);
    let mut broken = triple("s390x-unknown-linux-gnu");
    broken.python_version_requirement = Some(">=>3".to_string());
    assert_eq!(broken.checked_suffixes(Some("3.12.4")), None);
    assert_eq!(broken.checked_suffixes(None), None);
}

#[test]
fn more_artifact_names_keep_every_pair() {
    let fewer = names(&["cpython-3.12.4-x86_64-unknown-linux-gnu-pgo+lto-20240722T0909.tar.zst"]);
    let more = names(&[
        "cpython-3.12.4-x86_64-unknown-linux-gnu-pgo+lto-20240722T0909.tar.zst",
        "cpython-3.13.0-aarch64-apple-darwin-debug-20240722T0909.tar.zst",
    ]);
    let small = build_wanted_filenames(&fewer, "20240722T0909", "20240722").unwrap();
    let large = build_wanted_filenames(&more, "20240722T0909", "20240722").unwrap();
    for (k, v) in small.pairs() {
        assert_eq!(large.get(k), Some(v));
    }
    assert!(large.len() > small.len());
}

#[test]
fn derived_archive_names_are_wanted() {
    let full = "cpython-3.13.0-x86_64_v3-unknown-linux-gnu-pgo+lto-20241008T1200.tar.zst";
    let map = build_wanted_filenames(&names(&[full]), "20241008T1200", "20241008").unwrap();
    let io = install_only_filename(full);
    assert_eq!(
        map.get(&io).map(|s| s.as_str()),
        Some("cpython-3.13.0+20241008-x86_64_v3-unknown-linux-gnu-install_only.tar.gz")
    );
    let stripped = install_only_stripped_filename(&io);
    assert_eq!(
        map.get(&stripped).map(|s| s.as_str()),
        Some("cpython-3.13.0+20241008-x86_64_v3-unknown-linux-gnu-install_only_stripped.tar.gz")
    );
    let ft = "cpython-3.13.0-x86_64_v3-unknown-linux-gnu-freethreaded+pgo+lto-20241008T1200.tar.zst";
    let ft_io = install_only_filename(ft);
    assert_eq!(
        map.get(&ft_io).map(|s| s.as_str()),
        Some("cpython-3.13.0+20241008-x86_64_v3-unknown-linux-gnu-freethreaded-install_only.tar.gz")
    );
    assert_eq!(
        map.get(&install_only_stripped_filename(&ft_io)).map(|s| s.as_str()),
        Some("cpython-3.13.0+20241008-x86_64_v3-unknown-linux-gnu-freethreaded-install_only_stripped.tar.gz")
    );
}

#[test]
fn version_suffixes_keep_the_order_of_all_suffixes() {
    for (_, t) in release_triples() {
        let all = t.suffixes(None);
        for v in ["3.9.20", "3.12.4", "3.13.0", "3.14.0"] {
            let mut rest = all.iter();
            for s in t.suffixes(Some(v)) {
                assert!(rest.any(|x| *x == s), "{s} out of order");
            }
        }
    }
}
