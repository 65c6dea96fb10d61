//! The release matrix: for each target triple, the build suffixes that a
//! release carries, and those it carries only for some Python versions.

use vstd::prelude::*;
use crate::pep440::{
    pep440_contains, pep440_specifier_valid, pep440_version_valid, specifier_contains, specifier_is_valid,
    version_is_valid,
};

verus! {

/// Additional build suffixes released only for Python versions that satisfy
/// a PEP 440 specifier (free-threaded builds, for instance, from 3.13 on).
pub struct ConditionalSuffixes {
    /// The PEP 440 specifier, such as `>=3.13`, that a Python version must satisfy.
    pub python_version_requirement: String,
    /// Build suffixes to release.
    pub suffixes: Vec<String>,
}

/// Describes a release for a given target triple.
pub struct TripleRelease {
    /// Build suffixes to release.
    pub suffixes: Vec<String>,
    /// Build suffix to use for the `install_only` artifact.
    pub install_only_suffix: String,
    /// Build suffix to use for the freethreaded `install_only` artifact.
    pub freethreaded_install_only_suffix: String,
    /// PEP 440 specifier that the Python version must satisfy for this triple
    /// to be released at all.
    pub python_version_requirement: Option<String>,
    /// Additional build suffixes conditional on the Python version.
    pub conditional_suffixes: Vec<ConditionalSuffixes>,
}

/// The mathematical content of a `ConditionalSuffixes`.
pub struct ConditionalSuffixesView {
    pub python_version_requirement: Seq<char>,
    pub suffixes: Seq<Seq<char>>,
}

/// The mathematical content of a `TripleRelease`.
pub struct TripleReleaseView {
    pub suffixes: Seq<Seq<char>>,
    pub install_only_suffix: Seq<char>,
    pub freethreaded_install_only_suffix: Seq<char>,
    pub python_version_requirement: Option<Seq<char>>,
    pub conditional_suffixes: Seq<ConditionalSuffixesView>,
}

pub open spec fn opt_string_view(o: Option<String>) -> Option<Seq<char>> {
    match o {
        Some(s) => Some(s@),
        None => None,
    }
}

pub open spec fn opt_str_view(o: Option<&str>) -> Option<Seq<char>> {
    match o {
        Some(s) => Some(s@),
        None => None,
    }
}

impl View for ConditionalSuffixes {
    type V = ConditionalSuffixesView;

    open spec fn view(&self) -> ConditionalSuffixesView {
        ConditionalSuffixesView {
            python_version_requirement: self.python_version_requirement@,
            suffixes: self.suffixes.deep_view(),
        }
    }
}

impl View for TripleRelease {
    type V = TripleReleaseView;

    open spec fn view(&self) -> TripleReleaseView {
        TripleReleaseView {
            suffixes: self.suffixes.deep_view(),
            install_only_suffix: self.install_only_suffix@,
            freethreaded_install_only_suffix: self.freethreaded_install_only_suffix@,
            python_version_requirement: opt_string_view(self.python_version_requirement),
            conditional_suffixes: self.conditional_suffixes@.map_values(|c: ConditionalSuffixes| c@),
        }
    }
}

/// A conditional group applies to a Python version that satisfies its
/// specifier, and to every version where no version is given.
pub open spec fn conditional_applies(c: ConditionalSuffixesView, version: Option<Seq<char>>) -> bool {
    match version {
        None => true,
        Some(v) => pep440_contains(c.python_version_requirement, v),
    }
}

/// The suffixes of the groups in `cs` that apply to `version`, group by group.
pub open spec fn applicable_conditional_suffixes(
    cs: Seq<ConditionalSuffixesView>,
    version: Option<Seq<char>>,
) -> Seq<Seq<char>>
    decreases cs.len(),
{
    if cs.len() == 0 {
        Seq::empty()
    } else {
        applicable_conditional_suffixes(cs.drop_last(), version) + if conditional_applies(
            cs.last(),
            version,
        ) {
            cs.last().suffixes
        } else {
            Seq::empty()
        }
    }
}

impl TripleReleaseView {
    /// Every specifier of the triple is one that PEP 440 parsing accepts.
    pub open spec fn requirements_valid(self) -> bool {
        &&& (self.python_version_requirement matches Some(r) ==> pep440_specifier_valid(r))
        &&& forall|i: int|
            0 <= i < self.conditional_suffixes.len() ==> pep440_specifier_valid(
                #[trigger] self.conditional_suffixes[i].python_version_requirement,
            )
    }

    /// The build suffixes released for `version`: the unconditional ones,
    /// then those of every conditional group that applies.
    pub open spec fn suffixes_for(self, version: Option<Seq<char>>) -> Seq<Seq<char>> {
        self.suffixes + applicable_conditional_suffixes(self.conditional_suffixes, version)
    }
}

/// Appends copies of `src` to `out`.
pub fn extend_strings(out: &mut Vec<String>, src: &Vec<String>)
    ensures
        final(out).deep_view() == old(out).deep_view() + src.deep_view(),
{
    let ghost start = out.deep_view();
    let mut i: usize = 0;
    while i < src.len()
        invariant
            i <= src@.len(),
            out.deep_view() == start + src.deep_view().take(i as int),
        decreases src@.len() - i,
    {
        let ghost prev = out.deep_view();
        let c = src[i].clone();
        out.push(c);
        assert(out.deep_view() =~= prev.push(src@[i as int]@));
        assert(src.deep_view().take(i + 1) =~= src.deep_view().take(i as int).push(src@[i as int]@));
        assert(out.deep_view() =~= start + src.deep_view().take(i + 1));
        i = i + 1;
    }
    assert(src.deep_view().take(src@.len() as int) =~= src.deep_view());
}

impl TripleRelease {
    /// Whether every specifier of this triple parses as PEP 440.
    pub fn requirements_valid(&self) -> (ok: bool)
        ensures
            ok == self@.requirements_valid(),
    {
        if let Some(r) = &self.python_version_requirement {
            if !specifier_is_valid(r.as_str()) {
                return false;
            }
        }
        let mut i: usize = 0;
        while i < self.conditional_suffixes.len()
            invariant
                i <= self@.conditional_suffixes.len(),
                self@.python_version_requirement matches Some(r) ==> pep440_specifier_valid(r),
                forall|j: int|
                    0 <= j < i ==> pep440_specifier_valid(
                        #[trigger] self@.conditional_suffixes[j].python_version_requirement,
                    ),
            decreases self@.conditional_suffixes.len() - i,
        {
            if !specifier_is_valid(self.conditional_suffixes[i].python_version_requirement.as_str()) {
                assert(!pep440_specifier_valid(
                    self@.conditional_suffixes[i as int].python_version_requirement,
                ));
                return false;
            }
            i = i + 1;
        }
        true
    }

    /// The build suffixes to release for the given Python version (or for every
    /// version, where none is given): the unconditional suffixes first, then
    /// those of each conditional group whose specifier the version satisfies.
    pub fn suffixes(&self, python_version: Option<&str>) -> (r: Vec<String>)
        requires
            self@.requirements_valid(),
            python_version matches Some(v) ==> pep440_version_valid(v@),
        ensures
            r.deep_view() == self@.suffixes_for(opt_str_view(python_version)),
    {
        let ghost version = opt_str_view(python_version);
        let ghost cs = self@.conditional_suffixes;
        let mut out: Vec<String> = Vec::new();
        extend_strings(&mut out, &self.suffixes);
        assert(out.deep_view() =~= self@.suffixes);
        let mut i: usize = 0;
        assert(cs.take(0) =~= Seq::<ConditionalSuffixesView>::empty());
        while i < self.conditional_suffixes.len()
            invariant
                i <= cs.len(),
                cs == self@.conditional_suffixes,
                version == opt_str_view(python_version),
                self@.requirements_valid(),
                python_version matches Some(v) ==> pep440_version_valid(v@),
                out.deep_view() == self@.suffixes + applicable_conditional_suffixes(
                    cs.take(i as int),
                    version,
                ),
            decreases cs.len() - i,
        {
            let conditional = &self.conditional_suffixes[i];
            assert(cs[i as int] == conditional@);
            let applies = match python_version {
                None => true,
                Some(v) => {
                    assert(pep440_specifier_valid(cs[i as int].python_version_requirement));
                    specifier_contains(conditional.python_version_requirement.as_str(), v)
                },
            };
            let ghost before = out.deep_view();
            if applies {
                extend_strings(&mut out, &conditional.suffixes);
            }
            assert(cs.take(i + 1).drop_last() =~= cs.take(i as int));
            assert(cs.take(i + 1).last() == cs[i as int]);
            assert(out.deep_view() =~= self@.suffixes + applicable_conditional_suffixes(
                cs.take(i + 1),
                version,
            ));
            i = i + 1;
        }
        assert(cs.take(cs.len() as int) =~= cs);
        out
    }

    /// `suffixes` for any input: first checks that every specifier of the
    /// triple and the given version parse as PEP 440, and gives `None` where
    /// one does not.
    pub fn checked_suffixes(&self, python_version: Option<&str>) -> (r: Option<Vec<String>>)
        ensures
            r is Some <==> (self@.requirements_valid() && (python_version matches Some(v) ==> pep440_version_valid(
                v@,
            ))),
            r matches Some(v) ==> v.deep_view() == self@.suffixes_for(opt_str_view(python_version)),
    {
        if !self.requirements_valid() {
            return None;
        }
        if let Some(v) = python_version {
            if !version_is_valid(v) {
                return None;
            }
        }
        Some(self.suffixes(python_version))
    }
}


/// Each suffix that the groups release for a particular version is also
/// released where no version is given.
proof fn lemma_applicable_within_all(cs: Seq<ConditionalSuffixesView>, v: Seq<char>)
    ensures
        forall|i: int|
            0 <= i < applicable_conditional_suffixes(cs, Some(v)).len() ==> applicable_conditional_suffixes(
                cs,
                None,
            ).contains(#[trigger] applicable_conditional_suffixes(cs, Some(v))[i]),
    decreases cs.len(),
{
    if cs.len() > 0 {
        let init = cs.drop_last();
        lemma_applicable_within_all(init, v);
        let a = applicable_conditional_suffixes(init, Some(v));
        let b = applicable_conditional_suffixes(init, None);
        let sv = applicable_conditional_suffixes(cs, Some(v));
        let sn = applicable_conditional_suffixes(cs, None);
        assert(sn == b + cs.last().suffixes);
        assert forall|i: int| 0 <= i < sv.len() implies sn.contains(#[trigger] sv[i]) by {
            if i < a.len() {
                assert(sv[i] == a[i]);
                assert(b.contains(a[i]));
                let j = choose|j: int| 0 <= j < b.len() && b[j] == a[i];
                assert(sn[j] == b[j]);
            } else {
                assert(sv[i] == cs.last().suffixes[i - a.len()]);
                assert(sn[b.len() + i - a.len()] == sv[i]);
            }
        }
    }
}

/// Whatever a triple releases for one Python version, it releases where no
/// version is given: a version can only narrow the set of build suffixes.
pub proof fn lemma_version_suffixes_within_all(t: TripleReleaseView, v: Seq<char>)
    ensures
        forall|i: int|
            0 <= i < t.suffixes_for(Some(v)).len() ==> t.suffixes_for(None).contains(
                #[trigger] t.suffixes_for(Some(v))[i],
            ),
{
    lemma_applicable_within_all(t.conditional_suffixes, v);
    let sv = t.suffixes_for(Some(v));
    let sn = t.suffixes_for(None);
    let a = applicable_conditional_suffixes(t.conditional_suffixes, Some(v));
    let b = applicable_conditional_suffixes(t.conditional_suffixes, None);
    assert forall|i: int| 0 <= i < sv.len() implies sn.contains(#[trigger] sv[i]) by {
        if i < t.suffixes.len() {
            assert(sn[i] == sv[i]);
        } else {
            assert(sv[i] == a[i - t.suffixes.len()]);
            assert(b.contains(a[i - t.suffixes.len()]));
            let j = choose|j: int| 0 <= j < b.len() && b[j] == a[i - t.suffixes.len()];
            assert(sn[t.suffixes.len() + j] == b[j]);
        }
    }
}

/// `f` picks, in increasing positions of `b`, the elements of `a` in order.
pub open spec fn is_selection<A>(a: Seq<A>, b: Seq<A>, f: spec_fn(int) -> int) -> bool {
    &&& forall|i: int| 0 <= i < a.len() ==> 0 <= #[trigger] f(i) < b.len() && b[f(i)] == a[i]
    &&& forall|i: int, j: int| 0 <= i < j < a.len() ==> #[trigger] f(i) < #[trigger] f(j)
}

/// `a` is `b` with some elements left out, the rest in their order.
pub open spec fn is_subsequence<A>(a: Seq<A>, b: Seq<A>) -> bool {
    exists|f: spec_fn(int) -> int| is_selection(a, b, f)
}

/// What the groups release for a version is what they release for every
/// version, with some suffixes left out.
proof fn lemma_applicable_subsequence(cs: Seq<ConditionalSuffixesView>, v: Seq<char>)
    ensures
        is_subsequence(applicable_conditional_suffixes(cs, Some(v)), applicable_conditional_suffixes(cs, None)),
    decreases cs.len(),
{
    let sv = applicable_conditional_suffixes(cs, Some(v));
    let sn = applicable_conditional_suffixes(cs, None);
    if cs.len() == 0 {
        let f = |i: int| i;
        assert(is_selection(sv, sn, f));
    } else {
        let init = cs.drop_last();
        lemma_applicable_subsequence(init, v);
        let a = applicable_conditional_suffixes(init, Some(v));
        let b = applicable_conditional_suffixes(init, None);
        let g = choose|g: spec_fn(int) -> int| is_selection(a, b, g);
        let tail = cs.last().suffixes;
        assert(sn == b + tail);
        if conditional_applies(cs.last(), Some(v)) {
            assert(sv == a + tail);
            let f = |i: int| if i < a.len() { g(i) } else { b.len() + (i - a.len()) };
            assert forall|i: int| 0 <= i < sv.len() implies 0 <= #[trigger] f(i) < sn.len() && sn[f(i)] == sv[i] by {
                if i < a.len() {
                    assert(sv[i] == a[i]);
                    assert(sn[g(i)] == b[g(i)]);
                } else {
                    assert(sv[i] == tail[i - a.len()]);
                }
            }
            assert forall|i: int, j: int| 0 <= i < j < sv.len() implies #[trigger] f(i) < #[trigger] f(j) by {
                if j < a.len() {
                    assert(g(i) < g(j));
                } else if i < a.len() {
                    assert(g(i) < b.len());
                }
            }
            assert(is_selection(sv, sn, f));
        } else {
            assert(sv == a + Seq::<Seq<char>>::empty());
            assert(sv =~= a);
            assert forall|i: int| 0 <= i < sv.len() implies 0 <= #[trigger] g(i) < sn.len() && sn[g(i)] == sv[i] by {
                assert(sn[g(i)] == b[g(i)]);
            }
            assert(is_selection(sv, sn, g));
        }
    }
}

/// The build suffixes a triple releases for one Python version are those it
/// releases where no version is given, with some left out and the rest in
/// the same order.
pub proof fn lemma_version_suffixes_subsequence(t: TripleReleaseView, v: Seq<char>)
    ensures
        is_subsequence(t.suffixes_for(Some(v)), t.suffixes_for(None)),
{
    lemma_applicable_subsequence(t.conditional_suffixes, v);
    let a = applicable_conditional_suffixes(t.conditional_suffixes, Some(v));
    let b = applicable_conditional_suffixes(t.conditional_suffixes, None);
    let g = choose|g: spec_fn(int) -> int| is_selection(a, b, g);
    let n = t.suffixes.len() as int;
    let sv = t.suffixes_for(Some(v));
    let sn = t.suffixes_for(None);
    let f = |i: int| if i < n { i } else { n + g(i - n) };
    assert forall|i: int| 0 <= i < sv.len() implies 0 <= #[trigger] f(i) < sn.len() && sn[f(i)] == sv[i] by {
        if i >= n {
            assert(sv[i] == a[i - n]);
            assert(sn[n + g(i - n)] == b[g(i - n)]);
        }
    }
    assert forall|i: int, j: int| 0 <= i < j < sv.len() implies #[trigger] f(i) < #[trigger] f(j) by {
        if i >= n {
            assert(g(i - n) < g(j - n));
        } else if j >= n {
            assert(0 <= g(j - n));
        }
    }
    assert(is_selection(sv, sn, f));
}

} // verus!
