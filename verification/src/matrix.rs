//! The release matrix itself: every target triple that a release covers, in
//! the order of their names.

use vstd::prelude::*;
use crate::text::{
    chars_lt, has_infix, lacks_char, lemma_chars_lt_total, lemma_chars_lt_transitive, lemma_lacks_char,
    lemma_no_infix_missing_char,
};
use crate::wanted::no_dash;
use crate::triples::{
    applicable_conditional_suffixes, ConditionalSuffixes, ConditionalSuffixesView, TripleRelease, TripleReleaseView,
};

verus! {

/// Build suffixes of the `macos` group.
pub open spec fn spec_macos_suffixes() -> Seq<Seq<char>> {
    seq!["debug"@, "pgo+lto"@]
}

fn macos_suffixes() -> (v: Vec<String>)
    ensures
        v.deep_view() == spec_macos_suffixes(),
{
    let mut v: Vec<String> = Vec::new();
    v.push(String::from_str("debug"));
    v.push(String::from_str("pgo+lto"));
    assert(v.deep_view() =~= spec_macos_suffixes());
    v
}

/// Build suffixes of the `macos_freethreaded` group.
pub open spec fn spec_macos_freethreaded_suffixes() -> Seq<Seq<char>> {
    seq!["freethreaded+debug"@, "freethreaded+pgo+lto"@]
}

fn macos_freethreaded_suffixes() -> (v: Vec<String>)
    ensures
        v.deep_view() == spec_macos_freethreaded_suffixes(),
{
    let mut v: Vec<String> = Vec::new();
    v.push(String::from_str("freethreaded+debug"));
    v.push(String::from_str("freethreaded+pgo+lto"));
    assert(v.deep_view() =~= spec_macos_freethreaded_suffixes());
    v
}

/// Build suffixes of the `windows` group.
pub open spec fn spec_windows_suffixes() -> Seq<Seq<char>> {
    seq!["pgo"@]
}

fn windows_suffixes() -> (v: Vec<String>)
    ensures
        v.deep_view() == spec_windows_suffixes(),
{
    let mut v: Vec<String> = Vec::new();
    v.push(String::from_str("pgo"));
    assert(v.deep_view() =~= spec_windows_suffixes());
    v
}

/// Build suffixes of the `windows_freethreaded` group.
pub open spec fn spec_windows_freethreaded_suffixes() -> Seq<Seq<char>> {
    seq!["freethreaded+pgo"@]
}

fn windows_freethreaded_suffixes() -> (v: Vec<String>)
    ensures
        v.deep_view() == spec_windows_freethreaded_suffixes(),
{
    let mut v: Vec<String> = Vec::new();
    v.push(String::from_str("freethreaded+pgo"));
    assert(v.deep_view() =~= spec_windows_freethreaded_suffixes());
    v
}

/// Build suffixes of the `linux_pgo` group.
pub open spec fn spec_linux_pgo_suffixes() -> Seq<Seq<char>> {
    seq!["debug"@, "pgo+lto"@]
}

fn linux_pgo_suffixes() -> (v: Vec<String>)
    ensures
        v.deep_view() == spec_linux_pgo_suffixes(),
{
    let mut v: Vec<String> = Vec::new();
    v.push(String::from_str("debug"));
    v.push(String::from_str("pgo+lto"));
    assert(v.deep_view() =~= spec_linux_pgo_suffixes());
    v
}

/// Build suffixes of the `linux_nopgo` group.
pub open spec fn spec_linux_nopgo_suffixes() -> Seq<Seq<char>> {
    seq!["debug"@, "lto"@, "noopt"@]
}

fn linux_nopgo_suffixes() -> (v: Vec<String>)
    ensures
        v.deep_view() == spec_linux_nopgo_suffixes(),
{
    let mut v: Vec<String> = Vec::new();
    v.push(String::from_str("debug"));
    v.push(String::from_str("lto"));
    v.push(String::from_str("noopt"));
    assert(v.deep_view() =~= spec_linux_nopgo_suffixes());
    v
}

/// Build suffixes of the `linux_musl` group.
pub open spec fn spec_linux_musl_suffixes() -> Seq<Seq<char>> {
    seq!["debug"@, "lto"@, "noopt"@, "debug+static"@, "lto+static"@, "noopt+static"@]
}

fn linux_musl_suffixes() -> (v: Vec<String>)
    ensures
        v.deep_view() == spec_linux_musl_suffixes(),
{
    let mut v: Vec<String> = Vec::new();
    v.push(String::from_str("debug"));
    v.push(String::from_str("lto"));
    v.push(String::from_str("noopt"));
    v.push(String::from_str("debug+static"));
    v.push(String::from_str("lto+static"));
    v.push(String::from_str("noopt+static"));
    assert(v.deep_view() =~= spec_linux_musl_suffixes());
    v
}

/// Build suffixes of the `linux_musl_freethreaded` group.
pub open spec fn spec_linux_musl_freethreaded_suffixes() -> Seq<Seq<char>> {
    seq!["freethreaded+debug"@, "freethreaded+lto"@, "freethreaded+noopt"@]
}

fn linux_musl_freethreaded_suffixes() -> (v: Vec<String>)
    ensures
        v.deep_view() == spec_linux_musl_freethreaded_suffixes(),
{
    let mut v: Vec<String> = Vec::new();
    v.push(String::from_str("freethreaded+debug"));
    v.push(String::from_str("freethreaded+lto"));
    v.push(String::from_str("freethreaded+noopt"));
    assert(v.deep_view() =~= spec_linux_musl_freethreaded_suffixes());
    v
}

/// Build suffixes of the `linux_pgo_freethreaded` group.
pub open spec fn spec_linux_pgo_freethreaded_suffixes() -> Seq<Seq<char>> {
    seq!["freethreaded+debug"@, "freethreaded+pgo+lto"@]
}

fn linux_pgo_freethreaded_suffixes() -> (v: Vec<String>)
    ensures
        v.deep_view() == spec_linux_pgo_freethreaded_suffixes(),
{
    let mut v: Vec<String> = Vec::new();
    v.push(String::from_str("freethreaded+debug"));
    v.push(String::from_str("freethreaded+pgo+lto"));
    assert(v.deep_view() =~= spec_linux_pgo_freethreaded_suffixes());
    v
}

/// Build suffixes of the `linux_nopgo_freethreaded` group.
pub open spec fn spec_linux_nopgo_freethreaded_suffixes() -> Seq<Seq<char>> {
    seq!["freethreaded+debug"@, "freethreaded+lto"@, "freethreaded+noopt"@]
}

fn linux_nopgo_freethreaded_suffixes() -> (v: Vec<String>)
    ensures
        v.deep_view() == spec_linux_nopgo_freethreaded_suffixes(),
{
    let mut v: Vec<String> = Vec::new();
    v.push(String::from_str("freethreaded+debug"));
    v.push(String::from_str("freethreaded+lto"));
    v.push(String::from_str("freethreaded+noopt"));
    assert(v.deep_view() =~= spec_linux_nopgo_freethreaded_suffixes());
    v
}

/// The view of a triple built from its parts.
pub open spec fn spec_triple(
    suffixes: Seq<Seq<char>>,
    install_only_suffix: Seq<char>,
    freethreaded_install_only_suffix: Seq<char>,
    python_version_requirement: Option<Seq<char>>,
    conditional_requirement: Seq<char>,
    conditional_suffixes: Seq<Seq<char>>,
) -> TripleReleaseView {
    TripleReleaseView {
        suffixes,
        install_only_suffix,
        freethreaded_install_only_suffix,
        python_version_requirement,
        conditional_suffixes: seq![
            ConditionalSuffixesView {
                python_version_requirement: conditional_requirement,
                suffixes: conditional_suffixes,
            },
        ],
    }
}

fn triple(
    suffixes: Vec<String>,
    install_only_suffix: &str,
    freethreaded_install_only_suffix: &str,
    python_version_requirement: Option<&str>,
    conditional_requirement: &str,
    conditional_suffixes: Vec<String>,
) -> (t: TripleRelease)
    ensures
        t@ == spec_triple(
            suffixes.deep_view(),
            install_only_suffix@,
            freethreaded_install_only_suffix@,
            crate::triples::opt_str_view(python_version_requirement),
            conditional_requirement@,
            conditional_suffixes.deep_view(),
        ),
{
    let requirement = match python_version_requirement {
        Some(r) => Some(String::from_str(r)),
        None => None,
    };
    let mut conditionals: Vec<ConditionalSuffixes> = Vec::new();
    conditionals.push(ConditionalSuffixes {
        python_version_requirement: String::from_str(conditional_requirement),
        suffixes: conditional_suffixes,
    });
    let t = TripleRelease {
        suffixes,
        install_only_suffix: String::from_str(install_only_suffix),
        freethreaded_install_only_suffix: String::from_str(freethreaded_install_only_suffix),
        python_version_requirement: requirement,
        conditional_suffixes: conditionals,
    };
    assert(t@.conditional_suffixes =~= spec_triple(
        suffixes.deep_view(),
        install_only_suffix@,
        freethreaded_install_only_suffix@,
        crate::triples::opt_str_view(python_version_requirement),
        conditional_requirement@,
        conditional_suffixes.deep_view(),
    ).conditional_suffixes);
    t
}

/// The view of a `macos` triple with the given overall requirement.
pub open spec fn spec_macos(requirement: Option<Seq<char>>) -> TripleReleaseView {
    spec_triple(spec_macos_suffixes(), "pgo+lto"@, "freethreaded+pgo+lto"@, requirement, ">=3.13.0rc0"@, spec_macos_freethreaded_suffixes())
}

fn macos(requirement: Option<&str>) -> (t: TripleRelease)
    ensures
        t@ == spec_macos(crate::triples::opt_str_view(requirement)),
{
    triple(macos_suffixes(), "pgo+lto", "freethreaded+pgo+lto", requirement, ">=3.13.0rc0", macos_freethreaded_suffixes())
}

/// The view of a `windows` triple with the given overall requirement.
pub open spec fn spec_windows(requirement: Option<Seq<char>>) -> TripleReleaseView {
    spec_triple(spec_windows_suffixes(), "pgo"@, "freethreaded+pgo"@, requirement, ">=3.13"@, spec_windows_freethreaded_suffixes())
}

fn windows(requirement: Option<&str>) -> (t: TripleRelease)
    ensures
        t@ == spec_windows(crate::triples::opt_str_view(requirement)),
{
    triple(windows_suffixes(), "pgo", "freethreaded+pgo", requirement, ">=3.13", windows_freethreaded_suffixes())
}

/// The view of a `gnu_pgo` triple with the given overall requirement.
pub open spec fn spec_gnu_pgo(requirement: Option<Seq<char>>) -> TripleReleaseView {
    spec_triple(spec_linux_pgo_suffixes(), "pgo+lto"@, "freethreaded+pgo+lto"@, requirement, ">=3.13"@, spec_linux_pgo_freethreaded_suffixes())
}

fn gnu_pgo(requirement: Option<&str>) -> (t: TripleRelease)
    ensures
        t@ == spec_gnu_pgo(crate::triples::opt_str_view(requirement)),
{
    triple(linux_pgo_suffixes(), "pgo+lto", "freethreaded+pgo+lto", requirement, ">=3.13", linux_pgo_freethreaded_suffixes())
}

/// The view of a `gnu_nopgo` triple with the given overall requirement.
pub open spec fn spec_gnu_nopgo(requirement: Option<Seq<char>>) -> TripleReleaseView {
    spec_triple(spec_linux_nopgo_suffixes(), "lto"@, "freethreaded+lto"@, requirement, ">=3.13"@, spec_linux_nopgo_freethreaded_suffixes())
}

fn gnu_nopgo(requirement: Option<&str>) -> (t: TripleRelease)
    ensures
        t@ == spec_gnu_nopgo(crate::triples::opt_str_view(requirement)),
{
    triple(linux_nopgo_suffixes(), "lto", "freethreaded+lto", requirement, ">=3.13", linux_nopgo_freethreaded_suffixes())
}

/// The view of a `musl` triple with the given overall requirement.
pub open spec fn spec_musl(requirement: Option<Seq<char>>) -> TripleReleaseView {
    spec_triple(spec_linux_musl_suffixes(), "lto"@, "freethreaded+lto"@, requirement, ">=3.13"@, spec_linux_musl_freethreaded_suffixes())
}

fn musl(requirement: Option<&str>) -> (t: TripleRelease)
    ensures
        t@ == spec_musl(crate::triples::opt_str_view(requirement)),
{
    triple(linux_musl_suffixes(), "lto", "freethreaded+lto", requirement, ">=3.13", linux_musl_freethreaded_suffixes())
}

/// The release matrix: each target triple with what a release carries for it,
/// ordered by the triple's name.
pub open spec fn spec_release_triples() -> Seq<(Seq<char>, TripleReleaseView)> {
    seq![
        ("aarch64-apple-darwin"@, spec_macos(None)),
        ("aarch64-pc-windows-msvc"@, spec_windows(Some(">=3.11"@))),
        ("aarch64-unknown-linux-gnu"@, spec_gnu_pgo(None)),
        ("aarch64-unknown-linux-musl"@, spec_musl(None)),
        ("armv7-unknown-linux-gnueabi"@, spec_gnu_nopgo(Some(">=3.10"@))),
        ("armv7-unknown-linux-gnueabihf"@, spec_gnu_nopgo(Some(">=3.10"@))),
        ("i686-pc-windows-msvc"@, spec_windows(None)),
        ("ppc64le-unknown-linux-gnu"@, spec_gnu_nopgo(Some(">=3.10"@))),
        ("ppc64le_power10-unknown-linux-gnu"@, spec_gnu_nopgo(Some(">=3.10"@))),
        ("ppc64le_power11-unknown-linux-gnu"@, spec_gnu_nopgo(Some(">=3.10"@))),
        ("ppc64le_power9-unknown-linux-gnu"@, spec_gnu_nopgo(Some(">=3.10"@))),
        ("riscv64-unknown-linux-gnu"@, spec_gnu_nopgo(Some(">=3.10"@))),
        ("s390x-unknown-linux-gnu"@, spec_gnu_nopgo(Some(">=3.10"@))),
        ("x86_64-apple-darwin"@, spec_macos(None)),
        ("x86_64-pc-windows-msvc"@, spec_windows(None)),
        ("x86_64-unknown-linux-gnu"@, spec_gnu_pgo(None)),
        ("x86_64-unknown-linux-musl"@, spec_musl(None)),
        ("x86_64_v2-unknown-linux-gnu"@, spec_gnu_pgo(Some(">=3.10"@))),
        ("x86_64_v2-unknown-linux-musl"@, spec_musl(None)),
        ("x86_64_v3-unknown-linux-gnu"@, spec_gnu_pgo(Some(">=3.10"@))),
        ("x86_64_v3-unknown-linux-musl"@, spec_musl(None)),
        ("x86_64_v4-unknown-linux-gnu"@, spec_gnu_pgo(Some(">=3.10"@))),
        ("x86_64_v4-unknown-linux-musl"@, spec_musl(None)),
    ]
}

/// The view of a table of named triples.
pub open spec fn triples_view(t: Seq<(String, TripleRelease)>) -> Seq<(Seq<char>, TripleReleaseView)> {
    t.map_values(|e: (String, TripleRelease)| (e.0@, e.1@))
}

/// The release matrix, one entry per target triple, ordered by name.
pub fn release_triples() -> (h: Vec<(String, TripleRelease)>)
    ensures
        triples_view(h@) == spec_release_triples(),
{
    let mut h: Vec<(String, TripleRelease)> = Vec::new();
    h.push((String::from_str("aarch64-apple-darwin"), macos(None)));
    h.push((String::from_str("aarch64-pc-windows-msvc"), windows(Some(">=3.11"))));
    h.push((String::from_str("aarch64-unknown-linux-gnu"), gnu_pgo(None)));
    h.push((String::from_str("aarch64-unknown-linux-musl"), musl(None)));
    h.push((String::from_str("armv7-unknown-linux-gnueabi"), gnu_nopgo(Some(">=3.10"))));
    h.push((String::from_str("armv7-unknown-linux-gnueabihf"), gnu_nopgo(Some(">=3.10"))));
    h.push((String::from_str("i686-pc-windows-msvc"), windows(None)));
    h.push((String::from_str("ppc64le-unknown-linux-gnu"), gnu_nopgo(Some(">=3.10"))));
    h.push((String::from_str("ppc64le_power10-unknown-linux-gnu"), gnu_nopgo(Some(">=3.10"))));
    h.push((String::from_str("ppc64le_power11-unknown-linux-gnu"), gnu_nopgo(Some(">=3.10"))));
    h.push((String::from_str("ppc64le_power9-unknown-linux-gnu"), gnu_nopgo(Some(">=3.10"))));
    h.push((String::from_str("riscv64-unknown-linux-gnu"), gnu_nopgo(Some(">=3.10"))));
    h.push((String::from_str("s390x-unknown-linux-gnu"), gnu_nopgo(Some(">=3.10"))));
    h.push((String::from_str("x86_64-apple-darwin"), macos(None)));
    h.push((String::from_str("x86_64-pc-windows-msvc"), windows(None)));
    h.push((String::from_str("x86_64-unknown-linux-gnu"), gnu_pgo(None)));
    h.push((String::from_str("x86_64-unknown-linux-musl"), musl(None)));
    h.push((String::from_str("x86_64_v2-unknown-linux-gnu"), gnu_pgo(Some(">=3.10"))));
    h.push((String::from_str("x86_64_v2-unknown-linux-musl"), musl(None)));
    h.push((String::from_str("x86_64_v3-unknown-linux-gnu"), gnu_pgo(Some(">=3.10"))));
    h.push((String::from_str("x86_64_v3-unknown-linux-musl"), musl(None)));
    h.push((String::from_str("x86_64_v4-unknown-linux-gnu"), gnu_pgo(Some(">=3.10"))));
    h.push((String::from_str("x86_64_v4-unknown-linux-musl"), musl(None)));
    assert(triples_view(h@) =~= spec_release_triples());
    h
}

/// A triple's install-only archive is built from one of its unconditional
/// suffixes, its free-threaded install-only archive from one of the suffixes
/// it releases where no version is given, and no suffix is released twice.
pub open spec fn install_only_suffixes_released(t: TripleReleaseView) -> bool {
    &&& t.suffixes.contains(t.install_only_suffix)
    &&& t.suffixes_for(None).contains(t.freethreaded_install_only_suffix)
    &&& t.suffixes_for(None).no_duplicates()
}

/// Where no version is given, a triple with one conditional group releases
/// its unconditional suffixes followed by those of the group.
proof fn lemma_spec_triple_all(
    suffixes: Seq<Seq<char>>,
    install_only_suffix: Seq<char>,
    freethreaded_install_only_suffix: Seq<char>,
    python_version_requirement: Option<Seq<char>>,
    conditional_requirement: Seq<char>,
    conditional_suffixes: Seq<Seq<char>>,
)
    ensures
        spec_triple(
            suffixes,
            install_only_suffix,
            freethreaded_install_only_suffix,
            python_version_requirement,
            conditional_requirement,
            conditional_suffixes,
        ).suffixes_for(None) == suffixes + conditional_suffixes,
{
    let t = spec_triple(
        suffixes,
        install_only_suffix,
        freethreaded_install_only_suffix,
        python_version_requirement,
        conditional_requirement,
        conditional_suffixes,
    );
    let cs = t.conditional_suffixes;
    assert(cs.drop_last() =~= Seq::<ConditionalSuffixesView>::empty());
    assert(applicable_conditional_suffixes(cs.drop_last(), None) =~= Seq::<Seq<char>>::empty());
    assert(applicable_conditional_suffixes(cs, None) =~= conditional_suffixes);
}

proof fn lemma_macos_released(r: Option<Seq<char>>)
    ensures
        install_only_suffixes_released(spec_macos(r)),
{
    reveal_strlit("debug");
    reveal_strlit("pgo+lto");
    reveal_strlit("freethreaded+debug");
    reveal_strlit("freethreaded+pgo+lto");
    let t = spec_macos(r);
    lemma_spec_triple_all(spec_macos_suffixes(), "pgo+lto"@, "freethreaded+pgo+lto"@, r, ">=3.13.0rc0"@, spec_macos_freethreaded_suffixes());
    let all = t.suffixes_for(None);
    assert(all =~= seq!["debug"@, "pgo+lto"@, "freethreaded+debug"@, "freethreaded+pgo+lto"@]);
    assert(t.suffixes[1] == t.install_only_suffix);
    assert(t.suffixes.contains(t.install_only_suffix));
    assert(all[3] == t.freethreaded_install_only_suffix);
    assert(all.contains(t.freethreaded_install_only_suffix));
    assert("debug"@.len() == 5);
    assert("pgo+lto"@.len() == 7);
    assert("freethreaded+debug"@.len() == 18);
    assert("freethreaded+pgo+lto"@.len() == 20);
    assert(all.no_duplicates());
}

proof fn lemma_windows_released(r: Option<Seq<char>>)
    ensures
        install_only_suffixes_released(spec_windows(r)),
{
    reveal_strlit("pgo");
    reveal_strlit("freethreaded+pgo");
    let t = spec_windows(r);
    lemma_spec_triple_all(spec_windows_suffixes(), "pgo"@, "freethreaded+pgo"@, r, ">=3.13"@, spec_windows_freethreaded_suffixes());
    let all = t.suffixes_for(None);
    assert(all =~= seq!["pgo"@, "freethreaded+pgo"@]);
    assert(t.suffixes[0] == t.install_only_suffix);
    assert(all[1] == t.freethreaded_install_only_suffix);
}

proof fn lemma_gnu_pgo_released(r: Option<Seq<char>>)
    ensures
        install_only_suffixes_released(spec_gnu_pgo(r)),
{
    reveal_strlit("debug");
    reveal_strlit("pgo+lto");
    reveal_strlit("freethreaded+debug");
    reveal_strlit("freethreaded+pgo+lto");
    let t = spec_gnu_pgo(r);
    lemma_spec_triple_all(spec_linux_pgo_suffixes(), "pgo+lto"@, "freethreaded+pgo+lto"@, r, ">=3.13"@, spec_linux_pgo_freethreaded_suffixes());
    let all = t.suffixes_for(None);
    assert(all =~= seq!["debug"@, "pgo+lto"@, "freethreaded+debug"@, "freethreaded+pgo+lto"@]);
    assert(t.suffixes[1] == t.install_only_suffix);
    assert(t.suffixes.contains(t.install_only_suffix));
    assert(all[3] == t.freethreaded_install_only_suffix);
    assert(all.contains(t.freethreaded_install_only_suffix));
    assert("debug"@.len() == 5);
    assert("pgo+lto"@.len() == 7);
    assert("freethreaded+debug"@.len() == 18);
    assert("freethreaded+pgo+lto"@.len() == 20);
    assert(all.no_duplicates());
}

proof fn lemma_gnu_nopgo_released(r: Option<Seq<char>>)
    ensures
        install_only_suffixes_released(spec_gnu_nopgo(r)),
{
    reveal_strlit("debug");
    reveal_strlit("lto");
    reveal_strlit("noopt");
    reveal_strlit("freethreaded+debug");
    reveal_strlit("freethreaded+lto");
    reveal_strlit("freethreaded+noopt");
    let t = spec_gnu_nopgo(r);
    lemma_spec_triple_all(spec_linux_nopgo_suffixes(), "lto"@, "freethreaded+lto"@, r, ">=3.13"@, spec_linux_nopgo_freethreaded_suffixes());
    let all = t.suffixes_for(None);
    assert(all =~= seq!["debug"@, "lto"@, "noopt"@, "freethreaded+debug"@, "freethreaded+lto"@, "freethreaded+noopt"@]);
    assert("debug"@[0] != "noopt"@[0]);
    assert("freethreaded+debug"@[13] != "freethreaded+noopt"@[13]);
    assert(t.suffixes[1] == t.install_only_suffix);
    assert(all[4] == t.freethreaded_install_only_suffix);
}

proof fn lemma_musl_released(r: Option<Seq<char>>)
    ensures
        install_only_suffixes_released(spec_musl(r)),
{
    reveal_strlit("debug");
    reveal_strlit("lto");
    reveal_strlit("noopt");
    reveal_strlit("debug+static");
    reveal_strlit("lto+static");
    reveal_strlit("noopt+static");
    reveal_strlit("freethreaded+debug");
    reveal_strlit("freethreaded+lto");
    reveal_strlit("freethreaded+noopt");
    let t = spec_musl(r);
    lemma_spec_triple_all(spec_linux_musl_suffixes(), "lto"@, "freethreaded+lto"@, r, ">=3.13"@, spec_linux_musl_freethreaded_suffixes());
    let all = t.suffixes_for(None);
    assert(all =~= seq![
        "debug"@,
        "lto"@,
        "noopt"@,
        "debug+static"@,
        "lto+static"@,
        "noopt+static"@,
        "freethreaded+debug"@,
        "freethreaded+lto"@,
        "freethreaded+noopt"@,
    ]);
    assert("debug"@[0] != "noopt"@[0]);
    assert("debug+static"@[0] != "noopt+static"@[0]);
    assert("freethreaded+debug"@[13] != "freethreaded+noopt"@[13]);
    assert(t.suffixes[1] == t.install_only_suffix);
    assert(t.suffixes.contains(t.install_only_suffix));
    assert(all[7] == t.freethreaded_install_only_suffix);
    assert(all.contains(t.freethreaded_install_only_suffix));
    assert("debug"@.len() == 5);
    assert("lto"@.len() == 3);
    assert("noopt"@.len() == 5);
    assert("debug+static"@.len() == 12);
    assert("lto+static"@.len() == 10);
    assert("noopt+static"@.len() == 12);
    assert("freethreaded+debug"@.len() == 18);
    assert("freethreaded+lto"@.len() == 16);
    assert("freethreaded+noopt"@.len() == 18);
    assert(all.no_duplicates());
}

/// Every triple of the release matrix releases the suffix its install-only
/// archive is built from; where no Python version is given it also releases
/// the suffix of its free-threaded install-only archive; and it never lists a
/// suffix twice.
pub proof fn lemma_release_matrix_suffixes()
    ensures
        forall|i: int|
            0 <= i < spec_release_triples().len() ==> install_only_suffixes_released(
                #[trigger] spec_release_triples()[i].1,
            ),
{
    lemma_macos_released(None);
    lemma_windows_released(None);
    lemma_windows_released(Some(">=3.11"@));
    lemma_gnu_pgo_released(None);
    lemma_gnu_pgo_released(Some(">=3.10"@));
    lemma_gnu_nopgo_released(Some(">=3.10"@));
    lemma_musl_released(None);
}

/// The names that a release derives from a triple stay apart: the triple's
/// name does not hold `.tar.zst`; its install-only suffix and free-threaded
/// install-only suffix hold no `-`; only the latter names a free-threaded
/// build.
pub open spec fn triple_names_plain(name: Seq<char>, t: TripleReleaseView) -> bool {
    &&& !has_infix(name, ".tar.zst"@)
    &&& no_dash(t.install_only_suffix)
    &&& no_dash(t.freethreaded_install_only_suffix)
    &&& !has_infix(t.install_only_suffix, "freethreaded"@)
    &&& has_infix(t.freethreaded_install_only_suffix, "freethreaded"@)
}

proof fn lemma_name_plain(name: Seq<char>)
    requires
        lacks_char(name, '.'),
    ensures
        !has_infix(name, ".tar.zst"@),
{
    reveal_strlit(".tar.zst");
    lemma_lacks_char(name, '.');
    lemma_no_infix_missing_char(name, ".tar.zst"@, 0);
}

/// The install-only and free-threaded install-only suffixes of one kind of
/// triple, as the law on the matrix's names needs them.
proof fn lemma_suffix_pair_plain(io: Seq<char>, ft: Seq<char>)
    requires
        lacks_char(io, '-'),
        lacks_char(ft, '-'),
        io.len() < 12,
        12 <= ft.len(),
        ft.take(12) == "freethreaded"@,
    ensures
        no_dash(io),
        no_dash(ft),
        !has_infix(io, "freethreaded"@),
        has_infix(ft, "freethreaded"@),
{
    reveal_strlit("freethreaded");
    lemma_lacks_char(io, '-');
    lemma_lacks_char(ft, '-');
    let k: int = 0;
    assert(ft.subrange(k, k + "freethreaded"@.len()) =~= ft.take(12));
}

proof fn lemma_kind_suffixes_plain()
    ensures
        no_dash("pgo+lto"@) && no_dash("freethreaded+pgo+lto"@) && !has_infix("pgo+lto"@, "freethreaded"@)
            && has_infix("freethreaded+pgo+lto"@, "freethreaded"@),
        no_dash("pgo"@) && no_dash("freethreaded+pgo"@) && !has_infix("pgo"@, "freethreaded"@) && has_infix(
            "freethreaded+pgo"@,
            "freethreaded"@,
        ),
        no_dash("lto"@) && no_dash("freethreaded+lto"@) && !has_infix("lto"@, "freethreaded"@) && has_infix(
            "freethreaded+lto"@,
            "freethreaded"@,
        ),
{
    reveal_strlit("freethreaded");
    reveal_strlit("pgo+lto");
    reveal_strlit("freethreaded+pgo+lto");
    reveal_strlit("pgo");
    reveal_strlit("freethreaded+pgo");
    reveal_strlit("lto");
    reveal_strlit("freethreaded+lto");
    reveal_with_fuel(lacks_char, 21);
    assert("freethreaded+pgo+lto"@.take(12) =~= "freethreaded"@);
    assert("freethreaded+pgo"@.take(12) =~= "freethreaded"@);
    assert("freethreaded+lto"@.take(12) =~= "freethreaded"@);
    lemma_suffix_pair_plain("pgo+lto"@, "freethreaded+pgo+lto"@);
    lemma_suffix_pair_plain("pgo"@, "freethreaded+pgo"@);
    lemma_suffix_pair_plain("lto"@, "freethreaded+lto"@);
}

/// Every triple of the release matrix keeps its derived names apart (see
/// `triple_names_plain`).
pub proof fn lemma_release_matrix_names()
    ensures
        forall|i: int|
            0 <= i < spec_release_triples().len() ==> triple_names_plain(
                #[trigger] spec_release_triples()[i].0,
                spec_release_triples()[i].1,
            ),
{
    reveal_strlit("aarch64-apple-darwin");
    reveal_strlit("aarch64-pc-windows-msvc");
    reveal_strlit("aarch64-unknown-linux-gnu");
    reveal_strlit("aarch64-unknown-linux-musl");
    reveal_strlit("armv7-unknown-linux-gnueabi");
    reveal_strlit("armv7-unknown-linux-gnueabihf");
    reveal_strlit("i686-pc-windows-msvc");
    reveal_strlit("ppc64le-unknown-linux-gnu");
    reveal_strlit("ppc64le_power10-unknown-linux-gnu");
    reveal_strlit("ppc64le_power11-unknown-linux-gnu");
    reveal_strlit("ppc64le_power9-unknown-linux-gnu");
    reveal_strlit("riscv64-unknown-linux-gnu");
    reveal_strlit("s390x-unknown-linux-gnu");
    reveal_strlit("x86_64-apple-darwin");
    reveal_strlit("x86_64-pc-windows-msvc");
    reveal_strlit("x86_64-unknown-linux-gnu");
    reveal_strlit("x86_64-unknown-linux-musl");
    reveal_strlit("x86_64_v2-unknown-linux-gnu");
    reveal_strlit("x86_64_v2-unknown-linux-musl");
    reveal_strlit("x86_64_v3-unknown-linux-gnu");
    reveal_strlit("x86_64_v3-unknown-linux-musl");
    reveal_strlit("x86_64_v4-unknown-linux-gnu");
    reveal_strlit("x86_64_v4-unknown-linux-musl");
    reveal_with_fuel(lacks_char, 34);
    lemma_name_plain("aarch64-apple-darwin"@);
    lemma_name_plain("aarch64-pc-windows-msvc"@);
    lemma_name_plain("aarch64-unknown-linux-gnu"@);
    lemma_name_plain("aarch64-unknown-linux-musl"@);
    lemma_name_plain("armv7-unknown-linux-gnueabi"@);
    lemma_name_plain("armv7-unknown-linux-gnueabihf"@);
    lemma_name_plain("i686-pc-windows-msvc"@);
    lemma_name_plain("ppc64le-unknown-linux-gnu"@);
    lemma_name_plain("ppc64le_power10-unknown-linux-gnu"@);
    lemma_name_plain("ppc64le_power11-unknown-linux-gnu"@);
    lemma_name_plain("ppc64le_power9-unknown-linux-gnu"@);
    lemma_name_plain("riscv64-unknown-linux-gnu"@);
    lemma_name_plain("s390x-unknown-linux-gnu"@);
    lemma_name_plain("x86_64-apple-darwin"@);
    lemma_name_plain("x86_64-pc-windows-msvc"@);
    lemma_name_plain("x86_64-unknown-linux-gnu"@);
    lemma_name_plain("x86_64-unknown-linux-musl"@);
    lemma_name_plain("x86_64_v2-unknown-linux-gnu"@);
    lemma_name_plain("x86_64_v2-unknown-linux-musl"@);
    lemma_name_plain("x86_64_v3-unknown-linux-gnu"@);
    lemma_name_plain("x86_64_v3-unknown-linux-musl"@);
    lemma_name_plain("x86_64_v4-unknown-linux-gnu"@);
    lemma_name_plain("x86_64_v4-unknown-linux-musl"@);
    lemma_kind_suffixes_plain();
    assert forall|i: int| 0 <= i < spec_release_triples().len() implies triple_names_plain(
        #[trigger] spec_release_triples()[i].0,
        spec_release_triples()[i].1,
    ) by {
        assert(i == 0 || i == 1 || i == 2 || i == 3 || i == 4 || i == 5 || i == 6 || i == 7 || i == 8 || i == 9 || i == 10 || i == 11 || i == 12 || i == 13 || i == 14 || i == 15 || i == 16 || i == 17 || i == 18 || i == 19 || i == 20 || i == 21 || i == 22);
    }
}

/// The position of the triple with this name in the release matrix, where
/// there is one.
pub open spec fn matrix_index(name: Seq<char>) -> int {
    choose|i: int| 0 <= i < spec_release_triples().len() && spec_release_triples()[i].0 == name
}

/// The triple of the release matrix with this name, where there is one.
pub open spec fn matrix_triple(name: Seq<char>) -> Option<TripleReleaseView> {
    if exists|i: int| 0 <= i < spec_release_triples().len() && spec_release_triples()[i].0 == name {
        Some(spec_release_triples()[matrix_index(name)].1)
    } else {
        None
    }
}

/// A release description with one conditional group, written out field by field.
pub open spec fn release_view(
    suffixes: Seq<Seq<char>>,
    install_only_suffix: Seq<char>,
    freethreaded_install_only_suffix: Seq<char>,
    python_version_requirement: Option<Seq<char>>,
    conditional_requirement: Seq<char>,
    conditional_suffixes: Seq<Seq<char>>,
) -> TripleReleaseView {
    TripleReleaseView {
        suffixes: suffixes,
        install_only_suffix: install_only_suffix,
        freethreaded_install_only_suffix: freethreaded_install_only_suffix,
        python_version_requirement: python_version_requirement,
        conditional_suffixes: seq![ConditionalSuffixesView { python_version_requirement: conditional_requirement, suffixes: conditional_suffixes }],
    }
}

/// Strictly ascending neighbours make a strictly ascending sequence.
proof fn lemma_ascending(s: Seq<Seq<char>>, i: int, j: int)
    requires
        forall|k: int| 0 <= k < s.len() - 1 ==> chars_lt(#[trigger] s[k], s[k + 1]),
        0 <= i < j < s.len(),
    ensures
        chars_lt(s[i], s[j]),
    decreases j - i,
{
    if j > i + 1 {
        lemma_ascending(s, i, j - 1);
        lemma_chars_lt_transitive(s[i], s[j - 1], s[j]);
    }
}

/// The names of the release matrix, in order.
pub open spec fn matrix_names() -> Seq<Seq<char>> {
    spec_release_triples().map_values(|e: (Seq<char>, TripleReleaseView)| e.0)
}

proof fn lemma_matrix_names_ascending()
    ensures
        forall|i: int, j: int| 0 <= i < j < matrix_names().len() ==> chars_lt(#[trigger] matrix_names()[i], #[trigger] matrix_names()[j]),
{
    let s = matrix_names();
    assert(s =~= seq![
        "aarch64-apple-darwin"@,
        "aarch64-pc-windows-msvc"@,
        "aarch64-unknown-linux-gnu"@,
        "aarch64-unknown-linux-musl"@,
        "armv7-unknown-linux-gnueabi"@,
        "armv7-unknown-linux-gnueabihf"@,
        "i686-pc-windows-msvc"@,
        "ppc64le-unknown-linux-gnu"@,
        "ppc64le_power10-unknown-linux-gnu"@,
        "ppc64le_power11-unknown-linux-gnu"@,
        "ppc64le_power9-unknown-linux-gnu"@,
        "riscv64-unknown-linux-gnu"@,
        "s390x-unknown-linux-gnu"@,
        "x86_64-apple-darwin"@,
        "x86_64-pc-windows-msvc"@,
        "x86_64-unknown-linux-gnu"@,
        "x86_64-unknown-linux-musl"@,
        "x86_64_v2-unknown-linux-gnu"@,
        "x86_64_v2-unknown-linux-musl"@,
        "x86_64_v3-unknown-linux-gnu"@,
        "x86_64_v3-unknown-linux-musl"@,
        "x86_64_v4-unknown-linux-gnu"@,
        "x86_64_v4-unknown-linux-musl"@
    ]);
    assert(chars_lt("aarch64-apple-darwin"@, "aarch64-pc-windows-msvc"@)) by {
        reveal_strlit("aarch64-apple-darwin");
        reveal_strlit("aarch64-pc-windows-msvc");
        reveal_with_fuel(chars_lt, 30);
    }
    assert(chars_lt("aarch64-pc-windows-msvc"@, "aarch64-unknown-linux-gnu"@)) by {
        reveal_strlit("aarch64-pc-windows-msvc");
        reveal_strlit("aarch64-unknown-linux-gnu");
        reveal_with_fuel(chars_lt, 30);
    }
    assert(chars_lt("aarch64-unknown-linux-gnu"@, "aarch64-unknown-linux-musl"@)) by {
        reveal_strlit("aarch64-unknown-linux-gnu");
        reveal_strlit("aarch64-unknown-linux-musl");
        reveal_with_fuel(chars_lt, 30);
    }
    assert(chars_lt("aarch64-unknown-linux-musl"@, "armv7-unknown-linux-gnueabi"@)) by {
        reveal_strlit("aarch64-unknown-linux-musl");
        reveal_strlit("armv7-unknown-linux-gnueabi");
        reveal_with_fuel(chars_lt, 30);
    }
    assert(chars_lt("armv7-unknown-linux-gnueabi"@, "armv7-unknown-linux-gnueabihf"@)) by {
        reveal_strlit("armv7-unknown-linux-gnueabi");
        reveal_strlit("armv7-unknown-linux-gnueabihf");
        reveal_with_fuel(chars_lt, 30);
    }
    assert(chars_lt("armv7-unknown-linux-gnueabihf"@, "i686-pc-windows-msvc"@)) by {
        reveal_strlit("armv7-unknown-linux-gnueabihf");
        reveal_strlit("i686-pc-windows-msvc");
        reveal_with_fuel(chars_lt, 30);
    }
    assert(chars_lt("i686-pc-windows-msvc"@, "ppc64le-unknown-linux-gnu"@)) by {
        reveal_strlit("i686-pc-windows-msvc");
        reveal_strlit("ppc64le-unknown-linux-gnu");
        reveal_with_fuel(chars_lt, 30);
    }
    assert(chars_lt("ppc64le-unknown-linux-gnu"@, "ppc64le_power10-unknown-linux-gnu"@)) by {
        reveal_strlit("ppc64le-unknown-linux-gnu");
        reveal_strlit("ppc64le_power10-unknown-linux-gnu");
        reveal_with_fuel(chars_lt, 30);
    }
    assert(chars_lt("ppc64le_power10-unknown-linux-gnu"@, "ppc64le_power11-unknown-linux-gnu"@)) by {
        reveal_strlit("ppc64le_power10-unknown-linux-gnu");
        reveal_strlit("ppc64le_power11-unknown-linux-gnu");
        reveal_with_fuel(chars_lt, 30);
    }
    assert(chars_lt("ppc64le_power11-unknown-linux-gnu"@, "ppc64le_power9-unknown-linux-gnu"@)) by {
        reveal_strlit("ppc64le_power11-unknown-linux-gnu");
        reveal_strlit("ppc64le_power9-unknown-linux-gnu");
        reveal_with_fuel(chars_lt, 30);
    }
    assert(chars_lt("ppc64le_power9-unknown-linux-gnu"@, "riscv64-unknown-linux-gnu"@)) by {
        reveal_strlit("ppc64le_power9-unknown-linux-gnu");
        reveal_strlit("riscv64-unknown-linux-gnu");
        reveal_with_fuel(chars_lt, 30);
    }
    assert(chars_lt("riscv64-unknown-linux-gnu"@, "s390x-unknown-linux-gnu"@)) by {
        reveal_strlit("riscv64-unknown-linux-gnu");
        reveal_strlit("s390x-unknown-linux-gnu");
        reveal_with_fuel(chars_lt, 30);
    }
    assert(chars_lt("s390x-unknown-linux-gnu"@, "x86_64-apple-darwin"@)) by {
        reveal_strlit("s390x-unknown-linux-gnu");
        reveal_strlit("x86_64-apple-darwin");
        reveal_with_fuel(chars_lt, 30);
    }
    assert(chars_lt("x86_64-apple-darwin"@, "x86_64-pc-windows-msvc"@)) by {
        reveal_strlit("x86_64-apple-darwin");
        reveal_strlit("x86_64-pc-windows-msvc");
        reveal_with_fuel(chars_lt, 30);
    }
    assert(chars_lt("x86_64-pc-windows-msvc"@, "x86_64-unknown-linux-gnu"@)) by {
        reveal_strlit("x86_64-pc-windows-msvc");
        reveal_strlit("x86_64-unknown-linux-gnu");
        reveal_with_fuel(chars_lt, 30);
    }
    assert(chars_lt("x86_64-unknown-linux-gnu"@, "x86_64-unknown-linux-musl"@)) by {
        reveal_strlit("x86_64-unknown-linux-gnu");
        reveal_strlit("x86_64-unknown-linux-musl");
        reveal_with_fuel(chars_lt, 30);
    }
    assert(chars_lt("x86_64-unknown-linux-musl"@, "x86_64_v2-unknown-linux-gnu"@)) by {
        reveal_strlit("x86_64-unknown-linux-musl");
        reveal_strlit("x86_64_v2-unknown-linux-gnu");
        reveal_with_fuel(chars_lt, 30);
    }
    assert(chars_lt("x86_64_v2-unknown-linux-gnu"@, "x86_64_v2-unknown-linux-musl"@)) by {
        reveal_strlit("x86_64_v2-unknown-linux-gnu");
        reveal_strlit("x86_64_v2-unknown-linux-musl");
        reveal_with_fuel(chars_lt, 30);
    }
    assert(chars_lt("x86_64_v2-unknown-linux-musl"@, "x86_64_v3-unknown-linux-gnu"@)) by {
        reveal_strlit("x86_64_v2-unknown-linux-musl");
        reveal_strlit("x86_64_v3-unknown-linux-gnu");
        reveal_with_fuel(chars_lt, 30);
    }
    assert(chars_lt("x86_64_v3-unknown-linux-gnu"@, "x86_64_v3-unknown-linux-musl"@)) by {
        reveal_strlit("x86_64_v3-unknown-linux-gnu");
        reveal_strlit("x86_64_v3-unknown-linux-musl");
        reveal_with_fuel(chars_lt, 30);
    }
    assert(chars_lt("x86_64_v3-unknown-linux-musl"@, "x86_64_v4-unknown-linux-gnu"@)) by {
        reveal_strlit("x86_64_v3-unknown-linux-musl");
        reveal_strlit("x86_64_v4-unknown-linux-gnu");
        reveal_with_fuel(chars_lt, 30);
    }
    assert(chars_lt("x86_64_v4-unknown-linux-gnu"@, "x86_64_v4-unknown-linux-musl"@)) by {
        reveal_strlit("x86_64_v4-unknown-linux-gnu");
        reveal_strlit("x86_64_v4-unknown-linux-musl");
        reveal_with_fuel(chars_lt, 30);
    }
    assert forall|i: int, j: int| 0 <= i < j < s.len() implies chars_lt(#[trigger] s[i], #[trigger] s[j]) by {
        lemma_ascending(s, i, j);
    }
}

proof fn lemma_matrix_triple_at(i: int)
    requires
        0 <= i < spec_release_triples().len(),
    ensures
        matrix_triple(spec_release_triples()[i].0) == Some(spec_release_triples()[i].1),
{
    lemma_matrix_names_ascending();
    let t = spec_release_triples();
    let name = t[i].0;
    assert(0 <= i < t.len() && t[i].0 == name);
    assert(exists|k: int| 0 <= k < spec_release_triples().len() && spec_release_triples()[k].0 == name);
    let j = matrix_index(name);
    assert(0 <= j < t.len() && t[j].0 == name);
    assert(matrix_names()[i] == name);
    assert(matrix_names()[j] == name);
    lemma_chars_lt_total(name, name);
    if j < i {
        assert(chars_lt(matrix_names()[j], matrix_names()[i]));
    }
    if i < j {
        assert(chars_lt(matrix_names()[i], matrix_names()[j]));
    }
    assert(j == i);
}

/// The release matrix, pinned by name: its 23 triples in ascending order of
/// name, each once, and what each releases. The triples without a Python
/// version requirement (Apple, `i686` and `x86_64` Windows, `aarch64` and
/// `x86_64` Linux GNU, every musl triple) are released for every version;
/// `aarch64-pc-windows-msvc` requires `>=3.11`; the other Linux GNU triples,
/// `x86_64_v2`/`v3`/`v4` among them, require `>=3.10`.
pub proof fn lemma_release_matrix_by_name()
    ensures
        matrix_names() == seq![
            "aarch64-apple-darwin"@,
        "aarch64-pc-windows-msvc"@,
        "aarch64-unknown-linux-gnu"@,
        "aarch64-unknown-linux-musl"@,
        "armv7-unknown-linux-gnueabi"@,
        "armv7-unknown-linux-gnueabihf"@,
        "i686-pc-windows-msvc"@,
        "ppc64le-unknown-linux-gnu"@,
        "ppc64le_power10-unknown-linux-gnu"@,
        "ppc64le_power11-unknown-linux-gnu"@,
        "ppc64le_power9-unknown-linux-gnu"@,
        "riscv64-unknown-linux-gnu"@,
        "s390x-unknown-linux-gnu"@,
        "x86_64-apple-darwin"@,
        "x86_64-pc-windows-msvc"@,
        "x86_64-unknown-linux-gnu"@,
        "x86_64-unknown-linux-musl"@,
        "x86_64_v2-unknown-linux-gnu"@,
        "x86_64_v2-unknown-linux-musl"@,
        "x86_64_v3-unknown-linux-gnu"@,
        "x86_64_v3-unknown-linux-musl"@,
        "x86_64_v4-unknown-linux-gnu"@,
        "x86_64_v4-unknown-linux-musl"@
        ],
        forall|i: int, j: int| 0 <= i < j < matrix_names().len() ==> chars_lt(#[trigger] matrix_names()[i], #[trigger] matrix_names()[j]),
        matrix_triple("aarch64-apple-darwin"@) == Some(release_view(seq!["debug"@, "pgo+lto"@], "pgo+lto"@, "freethreaded+pgo+lto"@, None, ">=3.13.0rc0"@, seq!["freethreaded+debug"@, "freethreaded+pgo+lto"@])),
        matrix_triple("aarch64-pc-windows-msvc"@) == Some(release_view(seq!["pgo"@], "pgo"@, "freethreaded+pgo"@, Some(">=3.11"@), ">=3.13"@, seq!["freethreaded+pgo"@])),
        matrix_triple("aarch64-unknown-linux-gnu"@) == Some(release_view(seq!["debug"@, "pgo+lto"@], "pgo+lto"@, "freethreaded+pgo+lto"@, None, ">=3.13"@, seq!["freethreaded+debug"@, "freethreaded+pgo+lto"@])),
        matrix_triple("aarch64-unknown-linux-musl"@) == Some(release_view(seq!["debug"@, "lto"@, "noopt"@, "debug+static"@, "lto+static"@, "noopt+static"@], "lto"@, "freethreaded+lto"@, None, ">=3.13"@, seq!["freethreaded+debug"@, "freethreaded+lto"@, "freethreaded+noopt"@])),
        matrix_triple("armv7-unknown-linux-gnueabi"@) == Some(release_view(seq!["debug"@, "lto"@, "noopt"@], "lto"@, "freethreaded+lto"@, Some(">=3.10"@), ">=3.13"@, seq!["freethreaded+debug"@, "freethreaded+lto"@, "freethreaded+noopt"@])),
        matrix_triple("armv7-unknown-linux-gnueabihf"@) == Some(release_view(seq!["debug"@, "lto"@, "noopt"@], "lto"@, "freethreaded+lto"@, Some(">=3.10"@), ">=3.13"@, seq!["freethreaded+debug"@, "freethreaded+lto"@, "freethreaded+noopt"@])),
        matrix_triple("i686-pc-windows-msvc"@) == Some(release_view(seq!["pgo"@], "pgo"@, "freethreaded+pgo"@, None, ">=3.13"@, seq!["freethreaded+pgo"@])),
        matrix_triple("ppc64le-unknown-linux-gnu"@) == Some(release_view(seq!["debug"@, "lto"@, "noopt"@], "lto"@, "freethreaded+lto"@, Some(">=3.10"@), ">=3.13"@, seq!["freethreaded+debug"@, "freethreaded+lto"@, "freethreaded+noopt"@])),
        matrix_triple("ppc64le_power10-unknown-linux-gnu"@) == Some(release_view(seq!["debug"@, "lto"@, "noopt"@], "lto"@, "freethreaded+lto"@, Some(">=3.10"@), ">=3.13"@, seq!["freethreaded+debug"@, "freethreaded+lto"@, "freethreaded+noopt"@])),
        matrix_triple("ppc64le_power11-unknown-linux-gnu"@) == Some(release_view(seq!["debug"@, "lto"@, "noopt"@], "lto"@, "freethreaded+lto"@, Some(">=3.10"@), ">=3.13"@, seq!["freethreaded+debug"@, "freethreaded+lto"@, "freethreaded+noopt"@])),
        matrix_triple("ppc64le_power9-unknown-linux-gnu"@) == Some(release_view(seq!["debug"@, "lto"@, "noopt"@], "lto"@, "freethreaded+lto"@, Some(">=3.10"@), ">=3.13"@, seq!["freethreaded+debug"@, "freethreaded+lto"@, "freethreaded+noopt"@])),
        matrix_triple("riscv64-unknown-linux-gnu"@) == Some(release_view(seq!["debug"@, "lto"@, "noopt"@], "lto"@, "freethreaded+lto"@, Some(">=3.10"@), ">=3.13"@, seq!["freethreaded+debug"@, "freethreaded+lto"@, "freethreaded+noopt"@])),
        matrix_triple("s390x-unknown-linux-gnu"@) == Some(release_view(seq!["debug"@, "lto"@, "noopt"@], "lto"@, "freethreaded+lto"@, Some(">=3.10"@), ">=3.13"@, seq!["freethreaded+debug"@, "freethreaded+lto"@, "freethreaded+noopt"@])),
        matrix_triple("x86_64-apple-darwin"@) == Some(release_view(seq!["debug"@, "pgo+lto"@], "pgo+lto"@, "freethreaded+pgo+lto"@, None, ">=3.13.0rc0"@, seq!["freethreaded+debug"@, "freethreaded+pgo+lto"@])),
        matrix_triple("x86_64-pc-windows-msvc"@) == Some(release_view(seq!["pgo"@], "pgo"@, "freethreaded+pgo"@, None, ">=3.13"@, seq!["freethreaded+pgo"@])),
        matrix_triple("x86_64-unknown-linux-gnu"@) == Some(release_view(seq!["debug"@, "pgo+lto"@], "pgo+lto"@, "freethreaded+pgo+lto"@, None, ">=3.13"@, seq!["freethreaded+debug"@, "freethreaded+pgo+lto"@])),
        matrix_triple("x86_64-unknown-linux-musl"@) == Some(release_view(seq!["debug"@, "lto"@, "noopt"@, "debug+static"@, "lto+static"@, "noopt+static"@], "lto"@, "freethreaded+lto"@, None, ">=3.13"@, seq!["freethreaded+debug"@, "freethreaded+lto"@, "freethreaded+noopt"@])),
        matrix_triple("x86_64_v2-unknown-linux-gnu"@) == Some(release_view(seq!["debug"@, "pgo+lto"@], "pgo+lto"@, "freethreaded+pgo+lto"@, Some(">=3.10"@), ">=3.13"@, seq!["freethreaded+debug"@, "freethreaded+pgo+lto"@])),
        matrix_triple("x86_64_v2-unknown-linux-musl"@) == Some(release_view(seq!["debug"@, "lto"@, "noopt"@, "debug+static"@, "lto+static"@, "noopt+static"@], "lto"@, "freethreaded+lto"@, None, ">=3.13"@, seq!["freethreaded+debug"@, "freethreaded+lto"@, "freethreaded+noopt"@])),
        matrix_triple("x86_64_v3-unknown-linux-gnu"@) == Some(release_view(seq!["debug"@, "pgo+lto"@], "pgo+lto"@, "freethreaded+pgo+lto"@, Some(">=3.10"@), ">=3.13"@, seq!["freethreaded+debug"@, "freethreaded+pgo+lto"@])),
        matrix_triple("x86_64_v3-unknown-linux-musl"@) == Some(release_view(seq!["debug"@, "lto"@, "noopt"@, "debug+static"@, "lto+static"@, "noopt+static"@], "lto"@, "freethreaded+lto"@, None, ">=3.13"@, seq!["freethreaded+debug"@, "freethreaded+lto"@, "freethreaded+noopt"@])),
        matrix_triple("x86_64_v4-unknown-linux-gnu"@) == Some(release_view(seq!["debug"@, "pgo+lto"@], "pgo+lto"@, "freethreaded+pgo+lto"@, Some(">=3.10"@), ">=3.13"@, seq!["freethreaded+debug"@, "freethreaded+pgo+lto"@])),
        matrix_triple("x86_64_v4-unknown-linux-musl"@) == Some(release_view(seq!["debug"@, "lto"@, "noopt"@, "debug+static"@, "lto+static"@, "noopt+static"@], "lto"@, "freethreaded+lto"@, None, ">=3.13"@, seq!["freethreaded+debug"@, "freethreaded+lto"@, "freethreaded+noopt"@])),
{
    lemma_matrix_names_ascending();
    assert(matrix_names() =~= seq![
        "aarch64-apple-darwin"@,
        "aarch64-pc-windows-msvc"@,
        "aarch64-unknown-linux-gnu"@,
        "aarch64-unknown-linux-musl"@,
        "armv7-unknown-linux-gnueabi"@,
        "armv7-unknown-linux-gnueabihf"@,
        "i686-pc-windows-msvc"@,
        "ppc64le-unknown-linux-gnu"@,
        "ppc64le_power10-unknown-linux-gnu"@,
        "ppc64le_power11-unknown-linux-gnu"@,
        "ppc64le_power9-unknown-linux-gnu"@,
        "riscv64-unknown-linux-gnu"@,
        "s390x-unknown-linux-gnu"@,
        "x86_64-apple-darwin"@,
        "x86_64-pc-windows-msvc"@,
        "x86_64-unknown-linux-gnu"@,
        "x86_64-unknown-linux-musl"@,
        "x86_64_v2-unknown-linux-gnu"@,
        "x86_64_v2-unknown-linux-musl"@,
        "x86_64_v3-unknown-linux-gnu"@,
        "x86_64_v3-unknown-linux-musl"@,
        "x86_64_v4-unknown-linux-gnu"@,
        "x86_64_v4-unknown-linux-musl"@
    ]);
    lemma_matrix_triple_at(0);
    lemma_matrix_triple_at(1);
    lemma_matrix_triple_at(2);
    lemma_matrix_triple_at(3);
    lemma_matrix_triple_at(4);
    lemma_matrix_triple_at(5);
    lemma_matrix_triple_at(6);
    lemma_matrix_triple_at(7);
    lemma_matrix_triple_at(8);
    lemma_matrix_triple_at(9);
    lemma_matrix_triple_at(10);
    lemma_matrix_triple_at(11);
    lemma_matrix_triple_at(12);
    lemma_matrix_triple_at(13);
    lemma_matrix_triple_at(14);
    lemma_matrix_triple_at(15);
    lemma_matrix_triple_at(16);
    lemma_matrix_triple_at(17);
    lemma_matrix_triple_at(18);
    lemma_matrix_triple_at(19);
    lemma_matrix_triple_at(20);
    lemma_matrix_triple_at(21);
    lemma_matrix_triple_at(22);
}

} // verus!
