//! Which release assets a set of build artifacts maps to: every local artifact
//! name (with the build's datetime) paired with its GitHub release asset name
//! (with the release tag).

use vstd::prelude::*;
use crate::matrix::{lemma_release_matrix_names, release_triples, spec_release_triples, triples_view};
use crate::names::{
    install_only_middle, install_only_name, install_only_stripped_middle, install_only_stripped_name,
    lemma_install_only_name_of_full, lemma_install_only_stripped_name_of,
};
use crate::namemap::NameMap;
use crate::pep440::{
    pep440_contains, pep440_specifier_valid, pep440_version_error, pep440_version_valid, specifier_contains,
    specifier_is_valid, version_error,
};
use crate::text::{
    chars_lt, first_index_of, find_first, has_infix, is_first_index, lemma_chars_lt_total,
    lemma_chars_lt_transitive, lemma_first_index_absent, str_chars, str_equal, str_lt,
};
use crate::triples::{TripleRelease, TripleReleaseView};

verus! {

/// Why no asset names could be derived.
#[derive(Debug, PartialEq, Eq)]
pub enum WantedFilenamesError {
    /// A specifier of the release matrix is not valid PEP 440.
    InvalidSpecifier,
    /// This Python version, taken from an artifact name, is not valid PEP 440,
    /// for the reason that `pep440_rs` gives.
    InvalidVersion { version: String, reason: String },
}

/// What a failure to derive asset names reads as.
pub open spec fn wanted_error_text(e: WantedFilenamesError) -> Seq<char> {
    match e {
        WantedFilenamesError::InvalidSpecifier => "invalid version specifier in the release matrix"@,
        WantedFilenamesError::InvalidVersion { reason, .. } => reason@,
    }
}

impl WantedFilenamesError {
    /// The error as text, for people.
    pub fn message(&self) -> (m: String)
        ensures
            m@ == wanted_error_text(*self),
    {
        match self {
            WantedFilenamesError::InvalidSpecifier => String::from_str("invalid version specifier in the release matrix"),
            WantedFilenamesError::InvalidVersion { reason, .. } => reason.clone(),
        }
    }
}

/// `s` holds no `-`.
pub open spec fn no_dash(s: Seq<char>) -> bool {
    forall|i: int| 0 <= i < s.len() ==> s[i] != '-'
}

/// The Python version of an artifact name: its second `-`-separated field,
/// as in `cpython-3.12.4-x86_64-unknown-linux-gnu-...`.
pub open spec fn filename_version(f: Seq<char>) -> Seq<char> {
    let rest = f.skip(first_index_of(f, '-') + 1);
    let end = first_index_of(rest, '-');
    if end < 0 {
        rest
    } else {
        rest.take(end)
    }
}

/// The Python versions that occur among the artifact names.
pub open spec fn python_versions(filenames: Seq<Seq<char>>) -> Set<Seq<char>> {
    Set::new(
        |v: Seq<char>| exists|i: int| 0 <= i < filenames.len() && filename_version(filenames[i]) == v,
    )
}

/// The specifier from which free-threaded install-only archives are released.
pub open spec fn freethreaded_requirement() -> Seq<char> {
    ">=3.13.0rc0"@
}

/// Every specifier that the release matrix holds is valid PEP 440.
pub open spec fn matrix_specifiers_valid() -> bool {
    &&& forall|i: int|
        0 <= i < spec_release_triples().len() ==> (#[trigger] spec_release_triples()[i]).1.requirements_valid()
    &&& pep440_specifier_valid(freethreaded_requirement())
}

/// The name of a local artifact: `cpython-{version}-{middle}-{datetime}` with
/// `.tar.zst` for full archives and `.tar.gz` for install-only ones.
pub open spec fn artifact_key(version: Seq<char>, middle: Seq<char>, datetime: Seq<char>, full: bool) -> Seq<char> {
    "cpython-"@ + version + "-"@ + middle + "-"@ + datetime + if full {
        ".tar.zst"@
    } else {
        ".tar.gz"@
    }
}

/// The name of a release asset: `cpython-{version}+{tag}-{middle}` with
/// `-full.tar.zst` for full archives and `.tar.gz` for install-only ones.
pub open spec fn asset_name(version: Seq<char>, middle: Seq<char>, tag: Seq<char>, full: bool) -> Seq<char> {
    "cpython-"@ + version + "+"@ + tag + "-"@ + middle + if full {
        "-full.tar.zst"@
    } else {
        ".tar.gz"@
    }
}

pub open spec fn artifact_pair(
    version: Seq<char>,
    middle: Seq<char>,
    datetime: Seq<char>,
    tag: Seq<char>,
    full: bool,
) -> (Seq<char>, Seq<char>) {
    (artifact_key(version, middle, datetime, full), asset_name(version, middle, tag, full))
}

/// A triple is released for a version where its requirement, if any, holds.
pub open spec fn triple_released_for(t: TripleReleaseView, version: Seq<char>) -> bool {
    match t.python_version_requirement {
        Some(r) => pep440_contains(r, version),
        None => true,
    }
}

/// The (artifact, asset) pairs that one Python version and one triple give:
/// one full archive per build suffix, the install-only archive and its stripped
/// form, and from 3.13 on their free-threaded counterparts; none where the
/// triple is not released for the version.
pub open spec fn triple_artifacts(
    version: Seq<char>,
    triple: Seq<char>,
    t: TripleReleaseView,
    datetime: Seq<char>,
    tag: Seq<char>,
) -> Seq<(Seq<char>, Seq<char>)> {
    if !triple_released_for(t, version) {
        Seq::empty()
    } else {
        t.suffixes_for(Some(version)).map_values(
            |s: Seq<char>| artifact_pair(version, triple + "-"@ + s, datetime, tag, true),
        ) + seq![
            artifact_pair(version, triple + "-install_only"@, datetime, tag, false),
            artifact_pair(version, triple + "-install_only_stripped"@, datetime, tag, false),
        ] + if pep440_contains(freethreaded_requirement(), version) {
            seq![
                artifact_pair(version, triple + "-freethreaded-install_only"@, datetime, tag, false),
                artifact_pair(version, triple + "-freethreaded-install_only_stripped"@, datetime, tag, false),
            ]
        } else {
            Seq::empty()
        }
    }
}

/// The artifacts of the `i`th triple of the release matrix for `version`.
pub open spec fn matrix_artifacts(version: Seq<char>, i: int, datetime: Seq<char>, tag: Seq<char>) -> Seq<(Seq<char>, Seq<char>)> {
    triple_artifacts(version, spec_release_triples()[i].0, spec_release_triples()[i].1, datetime, tag)
}

/// `name` is the asset that the artifact `key` is released as, for some
/// Python version of `versions` and some triple of the release matrix.
pub open spec fn is_wanted(
    versions: Set<Seq<char>>,
    datetime: Seq<char>,
    tag: Seq<char>,
    key: Seq<char>,
    name: Seq<char>,
) -> bool {
    exists|v: Seq<char>, i: int, j: int|
        #![trigger versions.contains(v), matrix_artifacts(v, i, datetime, tag)[j]]
        versions.contains(v) && 0 <= i < spec_release_triples().len() && 0 <= j < matrix_artifacts(
            v,
            i,
            datetime,
            tag,
        ).len() && matrix_artifacts(v, i, datetime, tag)[j] == (key, name)
}

/// Distinct versions, triples or archive kinds never give the same artifact
/// name, so an artifact name is never paired with two asset names.
pub proof fn lemma_artifact_key_injective(
    v1: Seq<char>,
    m1: Seq<char>,
    f1: bool,
    v2: Seq<char>,
    m2: Seq<char>,
    f2: bool,
    datetime: Seq<char>,
)
    requires
        no_dash(v1),
        no_dash(v2),
        artifact_key(v1, m1, datetime, f1) == artifact_key(v2, m2, datetime, f2),
    ensures
        v1 == v2,
        m1 == m2,
        f1 == f2,
{
    reveal_strlit("cpython-");
    reveal_strlit("-");
    reveal_strlit(".tar.zst");
    reveal_strlit(".tar.gz");
    let k = artifact_key(v1, m1, datetime, f1);
    let e1 = if f1 { ".tar.zst"@ } else { ".tar.gz"@ };
    let e2 = if f2 { ".tar.zst"@ } else { ".tar.gz"@ };
    let a1 = "cpython-"@ + v1 + "-"@ + m1 + "-"@ + datetime;
    let a2 = "cpython-"@ + v2 + "-"@ + m2 + "-"@ + datetime;
    assert(k == a1 + e1);
    assert(k == a2 + e2);
    assert(k[k.len() - 1] == e1[e1.len() - 1]);
    assert(k[k.len() - 1] == e2[e2.len() - 1]);
    assert(f1 == f2);
    let p1 = "cpython-"@ + v1 + "-"@;
    let p2 = "cpython-"@ + v2 + "-"@;
    assert(k == p1 + (m1 + "-"@ + datetime + e1));
    assert(k == p2 + (m2 + "-"@ + datetime + e2));
    let n1 = v1.len() as int;
    let n2 = v2.len() as int;
    if n1 < n2 {
        assert(k[8 + n1] == p1[8 + n1]);
        assert(p1[8 + n1] == '-');
        assert(k[8 + n1] == p2[8 + n1]);
        assert(p2[8 + n1] == v2[n1]);
    }
    if n2 < n1 {
        assert(k[8 + n2] == p2[8 + n2]);
        assert(p2[8 + n2] == '-');
        assert(k[8 + n2] == p1[8 + n2]);
        assert(p1[8 + n2] == v1[n2]);
    }
    assert(v1.len() == v2.len());
    assert forall|i: int| 0 <= i < v1.len() implies v1[i] == v2[i] by {
        assert(k[8 + i] == p1[8 + i]);
        assert(k[8 + i] == p2[8 + i]);
    }
    assert(v1 =~= v2);
    assert(p1 == p2);
    assert(m1.len() == m2.len());
    assert forall|i: int| 0 <= i < m1.len() implies m1[i] == m2[i] by {
        let q = p1.len() as int;
        assert(k[q + i] == (m1 + "-"@ + datetime + e1)[i]);
        assert(k[q + i] == (m2 + "-"@ + datetime + e2)[i]);
    }
    assert(m1 =~= m2);
}

/// Every pair that a triple gives is an artifact pair of its version.
pub proof fn lemma_triple_artifacts_shape(
    version: Seq<char>,
    triple: Seq<char>,
    t: TripleReleaseView,
    datetime: Seq<char>,
    tag: Seq<char>,
    j: int,
)
    requires
        0 <= j < triple_artifacts(version, triple, t, datetime, tag).len(),
    ensures
        exists|m: Seq<char>, f: bool|
            triple_artifacts(version, triple, t, datetime, tag)[j] == artifact_pair(version, m, datetime, tag, f),
{
    let all = triple_artifacts(version, triple, t, datetime, tag);
    let s = t.suffixes_for(Some(version));
    let first = s.map_values(|x: Seq<char>| artifact_pair(version, triple + "-"@ + x, datetime, tag, true));
    let second = seq![
        artifact_pair(version, triple + "-install_only"@, datetime, tag, false),
        artifact_pair(version, triple + "-install_only_stripped"@, datetime, tag, false),
    ];
    let third = seq![
        artifact_pair(version, triple + "-freethreaded-install_only"@, datetime, tag, false),
        artifact_pair(version, triple + "-freethreaded-install_only_stripped"@, datetime, tag, false),
    ];
    if j < first.len() {
        assert(all[j] == first[j]);
        assert(all[j] == artifact_pair(version, triple + "-"@ + s[j], datetime, tag, true));
    } else if j < first.len() + 2 {
        assert(all[j] == second[j - first.len()]);
    } else {
        assert(all[j] == third[j - first.len() - 2]);
    }
}

/// An artifact name is never wanted under two different asset names.
pub proof fn lemma_wanted_functional(
    versions: Set<Seq<char>>,
    datetime: Seq<char>,
    tag: Seq<char>,
    key: Seq<char>,
    a: Seq<char>,
    b: Seq<char>,
)
    requires
        forall|v: Seq<char>| versions.contains(v) ==> no_dash(v),
        is_wanted(versions, datetime, tag, key, a),
        is_wanted(versions, datetime, tag, key, b),
    ensures
        a == b,
{
    let (v1, i1, j1) = choose|v: Seq<char>, i: int, j: int|
        #![trigger versions.contains(v), matrix_artifacts(v, i, datetime, tag)[j]]
        versions.contains(v) && 0 <= i < spec_release_triples().len() && 0 <= j < matrix_artifacts(
            v,
            i,
            datetime,
            tag,
        ).len() && matrix_artifacts(v, i, datetime, tag)[j] == (key, a);
    let (v2, i2, j2) = choose|v: Seq<char>, i: int, j: int|
        #![trigger versions.contains(v), matrix_artifacts(v, i, datetime, tag)[j]]
        versions.contains(v) && 0 <= i < spec_release_triples().len() && 0 <= j < matrix_artifacts(
            v,
            i,
            datetime,
            tag,
        ).len() && matrix_artifacts(v, i, datetime, tag)[j] == (key, b);
    let t = spec_release_triples();
    lemma_triple_artifacts_shape(v1, t[i1].0, t[i1].1, datetime, tag, j1);
    lemma_triple_artifacts_shape(v2, t[i2].0, t[i2].1, datetime, tag, j2);
    let (m1, f1) = choose|m: Seq<char>, f: bool|
        matrix_artifacts(v1, i1, datetime, tag)[j1] == artifact_pair(v1, m, datetime, tag, f);
    let (m2, f2) = choose|m: Seq<char>, f: bool|
        matrix_artifacts(v2, i2, datetime, tag)[j2] == artifact_pair(v2, m, datetime, tag, f);
    lemma_artifact_key_injective(v1, m1, f1, v2, m2, f2, datetime);
}

/// Artifact names carry the build datetime and no tag, asset names carry the
/// release tag and no datetime: every wanted pair is the artifact name and the
/// asset name of one Python version and one archive.
pub proof fn lemma_wanted_pair_shape(
    versions: Set<Seq<char>>,
    datetime: Seq<char>,
    tag: Seq<char>,
    key: Seq<char>,
    name: Seq<char>,
)
    requires
        is_wanted(versions, datetime, tag, key, name),
    ensures
        exists|v: Seq<char>, m: Seq<char>, f: bool|
            versions.contains(v) && key == artifact_key(v, m, datetime, f) && name == asset_name(v, m, tag, f),
{
    let (v, i, j) = choose|v: Seq<char>, i: int, j: int|
        #![trigger versions.contains(v), matrix_artifacts(v, i, datetime, tag)[j]]
        versions.contains(v) && 0 <= i < spec_release_triples().len() && 0 <= j < matrix_artifacts(
            v,
            i,
            datetime,
            tag,
        ).len() && matrix_artifacts(v, i, datetime, tag)[j] == (key, name);
    let t = spec_release_triples();
    lemma_triple_artifacts_shape(v, t[i].0, t[i].1, datetime, tag, j);
    let (m, f) = choose|m: Seq<char>, f: bool|
        matrix_artifacts(v, i, datetime, tag)[j] == artifact_pair(v, m, datetime, tag, f);
    assert(versions.contains(v) && key == artifact_key(v, m, datetime, f) && name == asset_name(v, m, tag, f));
}

/// The mapping that a set of artifact names determines: every wanted artifact
/// name, paired with the one asset name it is released as.
pub open spec fn wanted_map(filenames: Seq<Seq<char>>, datetime: Seq<char>, tag: Seq<char>) -> Map<
    Seq<char>,
    Seq<char>,
> {
    let versions = python_versions(filenames);
    Map::new(
        |k: Seq<char>| exists|n: Seq<char>| is_wanted(versions, datetime, tag, k, n),
        |k: Seq<char>| choose|n: Seq<char>| is_wanted(versions, datetime, tag, k, n),
    )
}

/// A Python version that some artifact name of `a` carries is carried by an
/// artifact name of `b` where `b` holds every name of `a`.
proof fn lemma_versions_subset(a: Seq<Seq<char>>, b: Seq<Seq<char>>)
    requires
        forall|i: int| 0 <= i < a.len() ==> b.contains(#[trigger] a[i]),
    ensures
        python_versions(a).subset_of(python_versions(b)),
{
    assert forall|v: Seq<char>| python_versions(a).contains(v) implies python_versions(b).contains(v) by {
        let i = choose|i: int| 0 <= i < a.len() && filename_version(a[i]) == v;
        assert(b.contains(a[i]));
        let j = choose|j: int| 0 <= j < b.len() && b[j] == a[i];
        assert(filename_version(b[j]) == v);
    }
}

/// More artifact names never lose or change a pair: where `b` holds every
/// artifact name of `a`, each artifact name that `a` maps is mapped by `b`,
/// to the same asset name.
pub proof fn lemma_wanted_map_monotone(a: Seq<Seq<char>>, b: Seq<Seq<char>>, datetime: Seq<char>, tag: Seq<char>)
    requires
        forall|i: int| 0 <= i < a.len() ==> b.contains(#[trigger] a[i]),
    ensures
        wanted_map(a, datetime, tag).submap_of(wanted_map(b, datetime, tag)),
{
    lemma_versions_subset(a, b);
    lemma_versions_dash_free(b);
    let va = python_versions(a);
    let vb = python_versions(b);
    let ma = wanted_map(a, datetime, tag);
    let mb = wanted_map(b, datetime, tag);
    assert forall|k: Seq<char>| #[trigger] ma.dom().contains(k) implies mb.dom().contains(k) && ma[k] == mb[k] by {
        let n = choose|n: Seq<char>| is_wanted(va, datetime, tag, k, n);
        assert(ma[k] == n);
        let (v, i, j) = choose|v: Seq<char>, i: int, j: int|
            #![trigger va.contains(v), matrix_artifacts(v, i, datetime, tag)[j]]
            va.contains(v) && 0 <= i < spec_release_triples().len() && 0 <= j < matrix_artifacts(
                v,
                i,
                datetime,
                tag,
            ).len() && matrix_artifacts(v, i, datetime, tag)[j] == (k, n);
        assert(vb.contains(v));
        assert(is_wanted(vb, datetime, tag, k, n));
        assert(mb.dom().contains(k));
        let nb = choose|n: Seq<char>| is_wanted(vb, datetime, tag, k, n);
        assert(mb[k] == nb);
        lemma_wanted_functional(vb, datetime, tag, k, n, nb);
    }
}

/// A wanted pair is a pair of the mapping.
proof fn lemma_wanted_in_map(
    filenames: Seq<Seq<char>>,
    datetime: Seq<char>,
    tag: Seq<char>,
    key: Seq<char>,
    name: Seq<char>,
)
    requires
        is_wanted(python_versions(filenames), datetime, tag, key, name),
    ensures
        wanted_map(filenames, datetime, tag).dom().contains(key),
        wanted_map(filenames, datetime, tag)[key] == name,
{
    let versions = python_versions(filenames);
    lemma_versions_dash_free(filenames);
    let n = choose|n: Seq<char>| is_wanted(versions, datetime, tag, key, n);
    lemma_wanted_functional(versions, datetime, tag, key, name, n);
}

/// The archives derived from a released build are released too: for a
/// Python version among the artifact names and a triple of the matrix
/// released for it, renaming the full archive of the triple's install-only
/// suffix (or, from 3.13 on, of its free-threaded install-only suffix) with
/// `install_only_name` gives an artifact name that the mapping pairs with the
/// install-only asset, and renaming that with `install_only_stripped_name`
/// gives one that it pairs with the stripped asset. This holds where the
/// datetime holds no `-` and neither the version nor the datetime holds
/// `.tar.zst`.
pub proof fn lemma_derived_archives_wanted(
    filenames: Seq<Seq<char>>,
    datetime: Seq<char>,
    tag: Seq<char>,
    v: Seq<char>,
    i: int,
    freethreaded: bool,
)
    requires
        python_versions(filenames).contains(v),
        0 <= i < spec_release_triples().len(),
        triple_released_for(spec_release_triples()[i].1, v),
        freethreaded ==> pep440_contains(freethreaded_requirement(), v),
        no_dash(datetime),
        !has_infix(v, ".tar.zst"@),
        !has_infix(datetime, ".tar.zst"@),
    ensures
        ({
            let t = spec_release_triples()[i].0;
            let r = spec_release_triples()[i].1;
            let s = if freethreaded {
                r.freethreaded_install_only_suffix
            } else {
                r.install_only_suffix
            };
            let io = install_only_name(artifact_key(v, t + "-"@ + s, datetime, true));
            let m = wanted_map(filenames, datetime, tag);
            &&& io == artifact_key(v, install_only_middle(t, freethreaded), datetime, false)
            &&& m.dom().contains(io)
            &&& m[io] == asset_name(v, install_only_middle(t, freethreaded), tag, false)
            &&& m.dom().contains(install_only_stripped_name(io))
            &&& m[install_only_stripped_name(io)] == asset_name(
                v,
                install_only_stripped_middle(t, freethreaded),
                tag,
                false,
            )
        }),
{
    let t = spec_release_triples()[i].0;
    let r = spec_release_triples()[i].1;
    let s = if freethreaded {
        r.freethreaded_install_only_suffix
    } else {
        r.install_only_suffix
    };
    lemma_release_matrix_names();
    assert(crate::matrix::triple_names_plain(t, r));
    assert(has_infix(s, "freethreaded"@) == freethreaded);
    lemma_install_only_name_of_full(v, t, s, datetime);
    lemma_install_only_stripped_name_of(v, t, freethreaded, datetime);
    let io_mid = install_only_middle(t, freethreaded);
    let st_mid = install_only_stripped_middle(t, freethreaded);
    let all = matrix_artifacts(v, i, datetime, tag);
    let n = r.suffixes_for(Some(v)).len() as int;
    let j = if freethreaded {
        n + 2
    } else {
        n
    };
    assert(all[j] == artifact_pair(v, io_mid, datetime, tag, false));
    assert(all[j + 1] == artifact_pair(v, st_mid, datetime, tag, false));
    let versions = python_versions(filenames);
    assert(is_wanted(versions, datetime, tag, artifact_key(v, io_mid, datetime, false), asset_name(v, io_mid, tag, false)));
    assert(is_wanted(versions, datetime, tag, artifact_key(v, st_mid, datetime, false), asset_name(v, st_mid, tag, false)));
    lemma_wanted_in_map(filenames, datetime, tag, artifact_key(v, io_mid, datetime, false), asset_name(v, io_mid, tag, false));
    lemma_wanted_in_map(filenames, datetime, tag, artifact_key(v, st_mid, datetime, false), asset_name(v, st_mid, tag, false));
}

/// Each Python version field holds no `-`.
pub proof fn lemma_versions_dash_free(filenames: Seq<Seq<char>>)
    ensures
        forall|v: Seq<char>| python_versions(filenames).contains(v) ==> no_dash(v),
{
    assert forall|v: Seq<char>| python_versions(filenames).contains(v) implies no_dash(v) by {
        let i = choose|i: int| 0 <= i < filenames.len() && filename_version(filenames[i]) == v;
        let f = filenames[i];
        let rest = f.skip(first_index_of(f, '-') + 1);
        lemma_first_index_absent(rest, '-');
        let end = first_index_of(rest, '-');
        if end >= 0 {
            assert(is_first_index(rest, '-', end));
        }
    }
}


/// The Python version of an artifact name: its second `-`-separated field.
pub fn python_version_of(filename: &str) -> (v: String)
    requires
        first_index_of(filename@, '-') >= 0,
    ensures
        v@ == filename_version(filename@),
{
    let chars = str_chars(filename);
    let first = find_first(&chars, '-');
    let start = match first {
        Some(i) => {
            assert(i < chars.len());
            i + 1
        },
        None => 0,
    };
    let ghost rest = filename@.skip(start as int);
    let mut tail: Vec<char> = Vec::new();
    let mut i: usize = start;
    while i < chars.len()
        invariant
            chars@ == filename@,
            start <= i <= chars@.len(),
            tail@ == filename@.subrange(start as int, i as int),
        decreases chars@.len() - i,
    {
        tail.push(chars[i]);
        assert(tail@ =~= filename@.subrange(start as int, i + 1));
        i = i + 1;
    }
    assert(tail@ =~= rest);
    let end = match find_first(&tail, '-') {
        Some(e) => start + e,
        None => chars.len(),
    };
    assert(filename@.subrange(start as int, end as int) =~= filename_version(filename@));
    filename.substring_char(start, end).to_owned()
}

/// The texts of a sequence of strings, as a set.
pub open spec fn string_set(s: Seq<String>) -> Set<Seq<char>> {
    Set::new(|v: Seq<char>| exists|j: int| 0 <= j < s.len() && (#[trigger] s[j])@ == v)
}

/// The distinct Python versions of the artifact names.
fn distinct_python_versions(filenames: &Vec<String>) -> (vs: Vec<String>)
    requires
        forall|i: int| 0 <= i < filenames@.len() ==> first_index_of(#[trigger] filenames@[i]@, '-') >= 0,
    ensures
        string_set(vs@) == python_versions(filenames.deep_view()),
        vs@.len() == 0 <==> filenames@.len() == 0,
{
    let ghost fd = filenames.deep_view();
    let mut vs: Vec<String> = Vec::new();
    let mut i: usize = 0;
    assert(string_set(vs@) =~= python_versions(fd.take(0)));
    while i < filenames.len()
        invariant
            fd == filenames.deep_view(),
            i <= filenames@.len(),
            forall|i: int| 0 <= i < filenames@.len() ==> first_index_of(#[trigger] filenames@[i]@, '-') >= 0,
            string_set(vs@) == python_versions(fd.take(i as int)),
            vs@.len() == 0 <==> i == 0,
        decreases filenames@.len() - i,
    {
        let v = python_version_of(filenames[i].as_str());
        assert(fd[i as int] == filenames@[i as int]@);
        let mut seen = false;
        let mut j: usize = 0;
        while j < vs.len()
            invariant
                j <= vs@.len(),
                seen == exists|b: int| 0 <= b < j && (#[trigger] vs@[b])@ == v@,
            decreases vs@.len() - j,
        {
            if str_equal(vs[j].as_str(), v.as_str()) {
                seen = true;
            }
            j = j + 1;
        }
        let ghost old_vs = vs@;
        if !seen {
            vs.push(v);
        }
        let ghost prev = fd.take(i as int);
        let ghost next = fd.take(i + 1);
        assert forall|w: Seq<char>| #[trigger] string_set(vs@).contains(w) <==> python_versions(next).contains(w) by {
            if python_versions(next).contains(w) {
                let a = choose|a: int| 0 <= a < next.len() && filename_version(next[a]) == w;
                if a < i {
                    assert(prev[a] == next[a]);
                    assert(python_versions(prev).contains(w));
                    assert(string_set(old_vs).contains(w));
                    let j = choose|j: int| 0 <= j < old_vs.len() && (#[trigger] old_vs[j])@ == w;
                    assert(vs@[j] == old_vs[j]);
                } else if !seen {
                    assert(vs@[old_vs.len() as int]@ == w);
                } else {
                    let b = choose|b: int| 0 <= b < old_vs.len() && (#[trigger] old_vs[b])@ == v@;
                    assert(vs@[b] == old_vs[b]);
                }
            }
            if string_set(vs@).contains(w) {
                let j = choose|j: int| 0 <= j < vs@.len() && (#[trigger] vs@[j])@ == w;
                if j < old_vs.len() {
                    assert(vs@[j] == old_vs[j]);
                    assert(string_set(old_vs).contains(w));
                    let a = choose|a: int| 0 <= a < prev.len() && filename_version(prev[a]) == w;
                    assert(prev[a] == next[a]);
                } else {
                    assert(next[i as int] == fd[i as int]);
                    assert(filename_version(next[i as int]) == w);
                }
            }
        }
        assert(string_set(vs@) =~= python_versions(next));
        i = i + 1;
    }
    assert(fd.take(i as int) =~= fd);
    vs
}

/// The artifact and asset names of one full or install-only archive.
fn make_artifact_pair(version: &str, middle: &String, datetime: &str, tag: &str, full: bool) -> (p: (String, String))
    ensures
        (p.0@, p.1@) == artifact_pair(version@, middle@, datetime@, tag@, full),
{
    let mut key = String::from_str("cpython-");
    key.append(version);
    key.append("-");
    key.append(middle.as_str());
    key.append("-");
    key.append(datetime);
    let mut name = String::from_str("cpython-");
    name.append(version);
    name.append("+");
    name.append(tag);
    name.append("-");
    name.append(middle.as_str());
    if full {
        key.append(".tar.zst");
        name.append("-full.tar.zst");
    } else {
        key.append(".tar.gz");
        name.append(".tar.gz");
    }
    (key, name)
}

/// `triple` followed by `tail`.
fn joined(triple: &str, tail: &str) -> (s: String)
    ensures
        s@ == triple@ + tail@,
{
    let mut s = String::from_str(triple);
    s.append(tail);
    s
}

pub open spec fn pairs_view(p: Seq<(String, String)>) -> Seq<(Seq<char>, Seq<char>)> {
    p.map_values(|e: (String, String)| (e.0@, e.1@))
}

fn push_pair(out: &mut Vec<(String, String)>, p: (String, String))
    ensures
        pairs_view(final(out)@) == pairs_view(old(out)@).push((p.0@, p.1@)),
{
    out.push(p);
    assert(pairs_view(out@) =~= pairs_view(old(out)@).push((p.0@, p.1@)));
}

/// The (artifact, asset) pairs of one Python version and one triple.
fn triple_artifact_pairs(
    version: &str,
    triple: &str,
    t: &TripleRelease,
    datetime: &str,
    tag: &str,
) -> (r: Vec<(String, String)>)
    requires
        t@.requirements_valid(),
        pep440_specifier_valid(freethreaded_requirement()),
        pep440_version_valid(version@),
    ensures
        pairs_view(r@) == triple_artifacts(version@, triple@, t@, datetime@, tag@),
{
    let mut out: Vec<(String, String)> = Vec::new();
    let released = match &t.python_version_requirement {
        Some(req) => specifier_contains(req.as_str(), version),
        None => true,
    };
    if !released {
        assert(pairs_view(out@) =~= Seq::<(Seq<char>, Seq<char>)>::empty());
        return out;
    }
    let suffixes = t.suffixes(Some(version));
    let ghost sv = suffixes.deep_view();
    let ghost f = |x: Seq<char>| artifact_pair(version@, triple@ + "-"@ + x, datetime@, tag@, true);
    let mut i: usize = 0;
    while i < suffixes.len()
        invariant
            i <= sv.len(),
            sv == suffixes.deep_view(),
            f == (|x: Seq<char>| artifact_pair(version@, triple@ + "-"@ + x, datetime@, tag@, true)),
            pairs_view(out@) == sv.take(i as int).map_values(f),
        decreases sv.len() - i,
    {
        let mut middle = joined(triple, "-");
        middle.append(suffixes[i].as_str());
        let p = make_artifact_pair(version, &middle, datetime, tag, true);
        push_pair(&mut out, p);
        assert(sv.take(i + 1).map_values(f) =~= sv.take(i as int).map_values(f).push(f(sv[i as int])));
        i = i + 1;
    }
    assert(sv.take(sv.len() as int) =~= sv);
    push_pair(&mut out, make_artifact_pair(version, &joined(triple, "-install_only"), datetime, tag, false));
    push_pair(&mut out, make_artifact_pair(version, &joined(triple, "-install_only_stripped"), datetime, tag, false));
    if specifier_contains(">=3.13.0rc0", version) {
        push_pair(&mut out, make_artifact_pair(version, &joined(triple, "-freethreaded-install_only"), datetime, tag, false));
        push_pair(&mut out, make_artifact_pair(version, &joined(triple, "-freethreaded-install_only_stripped"), datetime, tag, false));
    }
    assert(pairs_view(out@) =~= triple_artifacts(version@, triple@, t@, datetime@, tag@));
    out
}


/// Stores each pair in turn; afterwards every key holds either its old value
/// or the value of some stored pair.
fn insert_pairs(map: &mut NameMap, pairs: &Vec<(String, String)>)
    ensures
        forall|k: Seq<char>|
            #[trigger] final(map)@.dom().contains(k) <==> (old(map)@.dom().contains(k) || exists|j: int|
                0 <= j < pairs@.len() && pairs_view(pairs@)[j].0 == k),
        forall|k: Seq<char>|
            #[trigger] final(map)@.dom().contains(k) ==> ((old(map)@.dom().contains(k) && final(map)@[k]
                == old(map)@[k]) || exists|j: int|
                0 <= j < pairs@.len() && pairs_view(pairs@)[j] == (k, final(map)@[k])),
{
    let ghost start = map@;
    let ghost pv = pairs_view(pairs@);
    let mut i: usize = 0;
    while i < pairs.len()
        invariant
            i <= pairs@.len(),
            pv == pairs_view(pairs@),
            forall|k: Seq<char>|
                #[trigger] map@.dom().contains(k) <==> (start.dom().contains(k) || exists|j: int|
                    0 <= j < i && pv[j].0 == k),
            forall|k: Seq<char>|
                #[trigger] map@.dom().contains(k) ==> ((start.dom().contains(k) && map@[k] == start[k])
                    || exists|j: int| 0 <= j < i && pv[j] == (k, map@[k])),
        decreases pairs@.len() - i,
    {
        let ghost before = map@;
        let key = pairs[i].0.clone();
        let value = pairs[i].1.clone();
        assert(pv[i as int] == (key@, value@));
        map.insert(key, value);
        assert forall|k: Seq<char>|
            #[trigger] map@.dom().contains(k) implies ((start.dom().contains(k) && map@[k] == start[k])
                || exists|j: int| 0 <= j < i + 1 && pv[j] == (k, map@[k])) by {
            if k != pv[i as int].0 {
                assert(before.dom().contains(k));
                if !(start.dom().contains(k) && before[k] == start[k]) {
                    let j = choose|j: int| 0 <= j < i && pv[j] == (k, before[k]);
                    assert(pv[j] == (k, map@[k]));
                }
            } else {
                assert(pv[i as int] == (k, map@[k]));
            }
        }
        assert forall|k: Seq<char>|
            #[trigger] map@.dom().contains(k) <==> (start.dom().contains(k) || exists|j: int|
                0 <= j < i + 1 && pv[j].0 == k) by {
            if exists|j: int| 0 <= j < i + 1 && pv[j].0 == k {
                let j = choose|j: int| 0 <= j < i + 1 && pv[j].0 == k;
                if j < i {
                    assert(before.dom().contains(k));
                }
            }
        }
        i = i + 1;
    }
}

/// Builds the mapping from local artifact names (with the build's datetime, as
/// found in the distribution directory) to the names of the corresponding
/// GitHub release assets (with the release tag and a normalised suffix).
///
/// For instance `cpython-3.12.4-x86_64-unknown-linux-gnu-pgo+lto-20240722T0909.tar.zst`
/// maps to `cpython-3.12.4+20240722-x86_64-unknown-linux-gnu-pgo+lto-full.tar.zst`.
/// The Python versions are the second `-`-separated fields of `filenames`; every
/// version is combined with every triple of the release matrix that is released
/// for it.
pub fn build_wanted_filenames(
    filenames: &Vec<String>,
    datetime: &str,
    tag: &str,
) -> (r: Result<NameMap, WantedFilenamesError>)
    requires
        forall|i: int| 0 <= i < filenames@.len() ==> first_index_of(#[trigger] filenames@[i]@, '-') >= 0,
    ensures
        ({
            let versions = python_versions(filenames.deep_view());
            &&& r is Ok <==> (filenames@.len() == 0 || (matrix_specifiers_valid() && forall|v: Seq<char>|
                versions.contains(v) ==> pep440_version_valid(v)))
            &&& match r {
                Ok(m) => {
                    &&& m@ == wanted_map(filenames.deep_view(), datetime@, tag@)
                    &&& forall|k: Seq<char>|
                        #[trigger] m@.dom().contains(k) <==> exists|n: Seq<char>| is_wanted(versions, datetime@, tag@, k, n)
                    &&& forall|k: Seq<char>|
                        #[trigger] m@.dom().contains(k) ==> is_wanted(versions, datetime@, tag@, k, m@[k])
                },
                Err(WantedFilenamesError::InvalidSpecifier) => filenames@.len() > 0 && !matrix_specifiers_valid(),
                Err(WantedFilenamesError::InvalidVersion { version, reason }) => {
                    &&& filenames@.len() > 0
                    &&& matrix_specifiers_valid()
                    &&& versions.contains(version@)
                    &&& pep440_version_error(version@) == Some(reason@)
                    &&& forall|w: Seq<char>|
                        versions.contains(w) && !pep440_version_valid(w) ==> w == version@ || chars_lt(
                            version@,
                            w,
                        )
                },
            }
        }),
{
    let ghost fd = filenames.deep_view();
    let ghost versions = python_versions(fd);
    let vs = distinct_python_versions(filenames);
    let mut map = NameMap::new();
    if vs.len() == 0 {
        assert(fd =~= Seq::<Seq<char>>::empty());
        assert(map@ =~= wanted_map(fd, datetime@, tag@));
        return Ok(map);
    }
    let table = release_triples();
    let ghost tv = triples_view(table@);
    assert(tv == spec_release_triples());
    let mut t: usize = 0;
    while t < table.len()
        invariant
            t <= table@.len(),
            filenames@.len() > 0,
            tv == triples_view(table@),
            tv == spec_release_triples(),
            forall|a: int| 0 <= a < t ==> (#[trigger] tv[a]).1.requirements_valid(),
        decreases table@.len() - t,
    {
        assert(tv[t as int].1 == table@[t as int].1@);
        if !table[t].1.requirements_valid() {
            assert(!(spec_release_triples()[t as int]).1.requirements_valid());
            return Err(WantedFilenamesError::InvalidSpecifier);
        }
        t = t + 1;
    }
    if !specifier_is_valid(">=3.13.0rc0") {
        return Err(WantedFilenamesError::InvalidSpecifier);
    }
    assert(matrix_specifiers_valid());
    // The first invalid version in the order of the texts.
    let mut worst: Option<(usize, String)> = None;
    let mut c: usize = 0;
    while c < vs.len()
        invariant
            c <= vs@.len(),
            vs@.len() > 0,
            filenames@.len() > 0,
            string_set(vs@) == versions,
            versions == python_versions(filenames.deep_view()),
            matrix_specifiers_valid(),
            match worst {
                None => forall|a: int| 0 <= a < c ==> pep440_version_valid((#[trigger] vs@[a])@),
                Some((b, reason)) => {
                    &&& b < c
                    &&& pep440_version_error(vs@[b as int]@) == Some(reason@)
                    &&& forall|a: int|
                        0 <= a < c && !pep440_version_valid((#[trigger] vs@[a])@) ==> vs@[a]@ == vs@[b as int]@
                            || chars_lt(vs@[b as int]@, vs@[a]@)
                },
            },
        decreases vs@.len() - c,
    {
        let err = version_error(vs[c].as_str());
        match err {
            None => {},
            Some(reason) => {
                let replace = match &worst {
                    None => true,
                    Some((b, _)) => str_lt(vs[c].as_str(), vs[*b].as_str()),
                };
                proof {
                    if let Some((b, _)) = worst {
                        lemma_chars_lt_total(vs@[c as int]@, vs@[b as int]@);
                        if replace {
                            assert forall|a: int|
                                0 <= a < c && !pep440_version_valid((#[trigger] vs@[a])@) implies chars_lt(
                                vs@[c as int]@,
                                vs@[a]@,
                            ) by {
                                if vs@[a]@ != vs@[b as int]@ {
                                    lemma_chars_lt_transitive(vs@[c as int]@, vs@[b as int]@, vs@[a]@);
                                }
                            }
                        }
                    }
                }
                if replace {
                    worst = Some((c, reason));
                }
            },
        }
        c = c + 1;
    }
    match worst {
        Some((b, reason)) => {
            assert(string_set(vs@).contains(vs@[b as int]@));
            assert forall|w: Seq<char>| versions.contains(w) && !pep440_version_valid(w) implies w == vs@[b as int]@
                || chars_lt(vs@[b as int]@, w) by {
                assert(string_set(vs@).contains(w));
                let j = choose|j: int| 0 <= j < vs@.len() && (#[trigger] vs@[j])@ == w;
            }
            return Err(WantedFilenamesError::InvalidVersion { version: vs[b].clone(), reason });
        },
        None => {},
    }
    assert forall|v: Seq<char>| versions.contains(v) implies pep440_version_valid(v) by {
        assert(string_set(vs@).contains(v));
        let j = choose|j: int| 0 <= j < vs@.len() && (#[trigger] vs@[j])@ == v;
    }
    proof {
        lemma_versions_dash_free(fd);
    }
    let mut vi: usize = 0;
    while vi < vs.len()
        invariant
            vi <= vs@.len(),
            tv == triples_view(table@),
            tv == spec_release_triples(),
            string_set(vs@) == versions,
            versions == python_versions(fd),
            matrix_specifiers_valid(),
            forall|a: int| 0 <= a < vs@.len() ==> pep440_version_valid((#[trigger] vs@[a])@),
            forall|v: Seq<char>| versions.contains(v) ==> no_dash(v),
            forall|k: Seq<char>|
                #[trigger] map@.dom().contains(k) ==> is_wanted(versions, datetime@, tag@, k, map@[k]),
            forall|x: int, y: int, z: int|
                0 <= x < vi && 0 <= y < tv.len() && 0 <= z < matrix_artifacts(vs@[x]@, y, datetime@, tag@).len()
                    ==> map@.dom().contains(#[trigger] matrix_artifacts(vs@[x]@, y, datetime@, tag@)[z].0)
                    && map@[matrix_artifacts(vs@[x]@, y, datetime@, tag@)[z].0] == matrix_artifacts(
                    vs@[x]@,
                    y,
                    datetime@,
                    tag@,
                )[z].1,
        decreases vs@.len() - vi,
    {
        let version = &vs[vi];
        assert(versions.contains(version@)) by {
            assert(vs@[vi as int] == *version);
        }
        let mut ti: usize = 0;
        while ti < table.len()
            invariant
                vi < vs@.len(),
                *version == vs@[vi as int],
                versions.contains(version@),
                ti <= tv.len(),
                tv == triples_view(table@),
                tv == spec_release_triples(),
                matrix_specifiers_valid(),
                pep440_version_valid(version@),
                forall|v: Seq<char>| versions.contains(v) ==> no_dash(v),
                forall|k: Seq<char>|
                    #[trigger] map@.dom().contains(k) ==> is_wanted(versions, datetime@, tag@, k, map@[k]),
                forall|x: int, y: int, z: int|
                    (0 <= x < vi || (x == vi && 0 <= y < ti)) && 0 <= y < tv.len() && 0 <= z < matrix_artifacts(
                        vs@[x]@,
                        y,
                        datetime@,
                        tag@,
                    ).len() ==> map@.dom().contains(#[trigger] matrix_artifacts(vs@[x]@, y, datetime@, tag@)[z].0)
                        && map@[matrix_artifacts(vs@[x]@, y, datetime@, tag@)[z].0] == matrix_artifacts(
                        vs@[x]@,
                        y,
                        datetime@,
                        tag@,
                    )[z].1,
            decreases tv.len() - ti,
        {
            let entry = &table[ti];
            assert(tv[ti as int] == (entry.0@, entry.1@));
            assert(entry.1@.requirements_valid());
            let pairs = triple_artifact_pairs(version.as_str(), entry.0.as_str(), &entry.1, datetime, tag);
            let ghost pv = pairs_view(pairs@);
            assert(pv == matrix_artifacts(version@, ti as int, datetime@, tag@));
            let ghost before = map@;
            insert_pairs(&mut map, &pairs);
            assert forall|j: int| 0 <= j < pv.len() implies is_wanted(versions, datetime@, tag@, pv[j].0, pv[j].1) by {
                assert(matrix_artifacts(version@, ti as int, datetime@, tag@)[j] == (pv[j].0, pv[j].1));
            }
            assert forall|k: Seq<char>|
                #[trigger] map@.dom().contains(k) implies is_wanted(versions, datetime@, tag@, k, map@[k]) by {
                if !(before.dom().contains(k) && map@[k] == before[k]) {
                    let j = choose|j: int| 0 <= j < pairs@.len() && pairs_view(pairs@)[j] == (k, map@[k]);
                }
            }
            assert forall|x: int, y: int, z: int|
                (0 <= x < vi || (x == vi && 0 <= y < ti + 1)) && 0 <= y < tv.len() && 0 <= z < matrix_artifacts(
                    vs@[x]@,
                    y,
                    datetime@,
                    tag@,
                ).len() implies map@.dom().contains(#[trigger] matrix_artifacts(vs@[x]@, y, datetime@, tag@)[z].0)
                    && map@[matrix_artifacts(vs@[x]@, y, datetime@, tag@)[z].0] == matrix_artifacts(
                    vs@[x]@,
                    y,
                    datetime@,
                    tag@,
                )[z].1 by {
                let p = matrix_artifacts(vs@[x]@, y, datetime@, tag@)[z];
                assert(string_set(vs@).contains(vs@[x]@));
                assert(is_wanted(versions, datetime@, tag@, p.0, p.1));
                if x == vi && y == ti {
                    assert(pv[z] == p);
                    assert(map@.dom().contains(p.0));
                } else {
                    assert(before.dom().contains(p.0));
                }
                assert(map@.dom().contains(p.0));
                lemma_wanted_functional(versions, datetime@, tag@, p.0, p.1, map@[p.0]);
            }
            ti = ti + 1;
        }
        vi = vi + 1;
    }
    assert forall|k: Seq<char>|
        #[trigger] map@.dom().contains(k) <==> exists|n: Seq<char>| is_wanted(versions, datetime@, tag@, k, n) by {
        if exists|n: Seq<char>| is_wanted(versions, datetime@, tag@, k, n) {
            let n = choose|n: Seq<char>| is_wanted(versions, datetime@, tag@, k, n);
            let (v, i, j) = choose|v: Seq<char>, i: int, j: int|
                #![trigger versions.contains(v), matrix_artifacts(v, i, datetime@, tag@)[j]]
                versions.contains(v) && 0 <= i < spec_release_triples().len() && 0 <= j < matrix_artifacts(
                    v,
                    i,
                    datetime@,
                    tag@,
                ).len() && matrix_artifacts(v, i, datetime@, tag@)[j] == (k, n);
            assert(string_set(vs@).contains(v));
            let x = choose|x: int| 0 <= x < vs@.len() && (#[trigger] vs@[x])@ == v;
            assert(map@.dom().contains(matrix_artifacts(vs@[x]@, i, datetime@, tag@)[j].0));
        }
    }
    assert forall|k: Seq<char>| #[trigger] map@.dom().contains(k) implies map@[k] == wanted_map(
        fd,
        datetime@,
        tag@,
    )[k] by {
        let n = choose|n: Seq<char>| is_wanted(versions, datetime@, tag@, k, n);
        lemma_wanted_functional(versions, datetime@, tag@, k, map@[k], n);
    }
    assert(map@ =~= wanted_map(fd, datetime@, tag@));
    Ok(map)
}

} // verus!
