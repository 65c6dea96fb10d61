//! Which entries of a full build archive go into the install-only archive.
//! Paths are the raw bytes that the archive records.

use vstd::prelude::*;
use vstd::utf8::encode_utf8;
use crate::text::str_equal;
use crate::text::{replace_all, replace_str};

verus! {

/// The bytes of an ASCII text.
pub open spec fn ascii(s: Seq<char>) -> Seq<u8> {
    s.map_values(|c: char| c as u8)
}

/// `p` begins with `prefix`.
pub open spec fn bytes_start_with(p: Seq<u8>, prefix: Seq<u8>) -> bool {
    prefix.len() <= p.len() && p.take(prefix.len() as int) == prefix
}

/// `p` ends with `suffix`.
pub open spec fn bytes_end_with(p: Seq<u8>, suffix: Seq<u8>) -> bool {
    suffix.len() <= p.len() && p.skip(p.len() - suffix.len()) == suffix
}

/// `sub` occurs in `p` as a contiguous run.
pub open spec fn bytes_have_infix(p: Seq<u8>, sub: Seq<u8>) -> bool {
    exists|k: int| 0 <= k && k + sub.len() <= p.len() && #[trigger] p.subrange(k, k + sub.len()) == sub
}

/// Extension modules that install-only archives leave out.
pub open spec fn install_only_drop_extensions() -> Seq<Seq<char>> {
    seq![
        "_ctypes_test"@,
        "_testbuffer"@,
        "_testcapi"@,
        "_testexternalinspection"@,
        "_testimportmultiple"@,
        "_testinternalcapi"@,
        "_testlimitedcapi"@,
        "_testmultiphase"@,
        "_testsinglephase"@,
    ]
}

/// The archive path under which a test package of the standard library lives.
pub open spec fn test_package_prefix(stdlib_path: Seq<char>, package: Seq<char>) -> Seq<u8> {
    encode_utf8("python/"@ + stdlib_path + "/"@ + replace_all(package, "."@, "/"@) + "/"@)
}

/// The archive path of a shared library listed in the build metadata.
pub open spec fn shared_library_path(rel: Seq<char>) -> Seq<u8> {
    encode_utf8("python/"@ + rel)
}

/// `p` is the archive path of the shared library `lib`, where there is one.
pub open spec fn shared_library_is(lib: Option<Seq<char>>, p: Seq<u8>) -> bool {
    match lib {
        Some(rel) => p == shared_library_path(rel),
        None => false,
    }
}

/// The shared library of some build variant of one of the first `n` extension
/// modules that install-only archives leave out lies at archive path `p`.
pub open spec fn dropped_upto(extensions: Seq<(Seq<char>, Seq<Option<Seq<char>>>)>, n: int, p: Seq<u8>) -> bool {
    exists|x: int, k: int|
        0 <= x < n && install_only_drop_extensions().contains(extensions[x].0) && 0 <= k < extensions[x].1.len()
            && #[trigger] shared_library_is(extensions[x].1[k], p)
}

/// The archive paths of the shared libraries of the extension modules that
/// install-only archives leave out. `extensions` pairs each module's name with
/// the shared library (if any) of each of its build variants.
pub open spec fn dropped_paths(extensions: Seq<(Seq<char>, Seq<Option<Seq<char>>>)>) -> Set<Seq<u8>> {
    Set::new(|p: Seq<u8>| dropped_upto(extensions, extensions.len() as int, p))
}

/// One of the first `n` libraries lies at archive path `p`.
pub open spec fn libs_upto(libs: Seq<Option<Seq<char>>>, n: int, p: Seq<u8>) -> bool {
    exists|m: int| 0 <= m < n && #[trigger] shared_library_is(libs[m], p)
}

/// Some vector of `v` holds exactly `p`.
pub open spec fn in_vecs(v: Seq<Vec<u8>>, p: Seq<u8>) -> bool {
    exists|i: int| 0 <= i < v.len() && (#[trigger] v[i])@ == p
}

/// An entry stays in the install-only archive where it lies under
/// `python/install/`, is not a static libpython (`/libpython` in the path and
/// ending in `.a`), is not under a standard-library test package, and is not
/// the shared library of a left-out extension module.
pub open spec fn install_only_keeps(
    path: Seq<u8>,
    test_prefixes: Seq<Seq<u8>>,
    dropped: Set<Seq<u8>>,
) -> bool {
    &&& bytes_start_with(path, ascii("python/install/"@))
    &&& !(bytes_have_infix(path, ascii("/libpython"@)) && bytes_end_with(path, ascii(".a"@)))
    &&& forall|i: int| 0 <= i < test_prefixes.len() ==> !bytes_start_with(path, #[trigger] test_prefixes[i])
    &&& !dropped.contains(path)
}

pub open spec fn extensions_view(extensions: Seq<(String, Vec<Option<String>>)>) -> Seq<(Seq<char>, Seq<Option<Seq<char>>>)> {
    extensions.map_values(
        |e: (String, Vec<Option<String>>)|
            (e.0@, e.1@.map_values(|o: Option<String>| crate::triples::opt_string_view(o))),
    )
}

/// The bytes of an ASCII literal.
pub(crate) fn ascii_bytes(s: &str) -> (r: &[u8])
    requires
        s.is_ascii(),
    ensures
        r@ == ascii(s@),
{
    broadcast use vstd::string::is_ascii_spec_bytes;

    let b = s.as_bytes();
    assert(b@ =~= ascii(s@));
    b
}

/// Whether `p` begins with `prefix`.
fn starts_with_bytes(p: &[u8], prefix: &[u8]) -> (r: bool)
    ensures
        r == bytes_start_with(p@, prefix@),
{
    if prefix.len() > p.len() {
        return false;
    }
    let mut i: usize = 0;
    while i < prefix.len()
        invariant
            prefix@.len() <= p@.len(),
            i <= prefix@.len(),
            forall|j: int| 0 <= j < i ==> p@[j] == prefix@[j],
        decreases prefix@.len() - i,
    {
        if p[i] != prefix[i] {
            assert(p@.take(prefix@.len() as int)[i as int] != prefix@[i as int]);
            return false;
        }
        i = i + 1;
    }
    assert(p@.take(prefix@.len() as int) =~= prefix@);
    true
}

/// Whether `p` ends with `suffix`.
fn ends_with_bytes(p: &[u8], suffix: &[u8]) -> (r: bool)
    ensures
        r == bytes_end_with(p@, suffix@),
{
    if suffix.len() > p.len() {
        return false;
    }
    let off = p.len() - suffix.len();
    let mut i: usize = 0;
    while i < suffix.len()
        invariant
            suffix@.len() <= p@.len(),
            off == p@.len() - suffix@.len(),
            i <= suffix@.len(),
            forall|j: int| 0 <= j < i ==> p@[off + j] == suffix@[j],
        decreases suffix@.len() - i,
    {
        assert(off + i < p.len());
        if p[off + i] != suffix[i] {
            assert(p@.skip(off as int)[i as int] != suffix@[i as int]);
            return false;
        }
        i = i + 1;
    }
    assert(p@.skip(off as int) =~= suffix@);
    true
}

/// Whether `sub` occurs in `p`.
fn contains_bytes(p: &[u8], sub: &[u8]) -> (r: bool)
    ensures
        r == bytes_have_infix(p@, sub@),
{
    if sub.len() > p.len() {
        return false;
    }
    let mut k: usize = 0;
    while k <= p.len() - sub.len()
        invariant
            sub@.len() <= p@.len(),
            k <= p@.len() - sub@.len() + 1,
            forall|m: int| 0 <= m < k ==> #[trigger] p@.subrange(m, m + sub@.len()) != sub@,
        decreases p@.len() + 1 - k,
    {
        let mut j: usize = 0;
        let mut same = true;
        while j < sub.len()
            invariant
                k + sub@.len() <= p@.len(),
                j <= sub@.len(),
                same == (forall|t: int| 0 <= t < j ==> p@[k + t] == sub@[t]),
            decreases sub@.len() - j,
        {
            assert(k + j < p.len());
            if p[k + j] != sub[j] {
                same = false;
            }
            j = j + 1;
        }
        if same {
            assert(p@.subrange(k as int, k + sub@.len()) =~= sub@);
            return true;
        }
        let ghost t = choose|t: int| !(0 <= t < sub@.len() ==> p@[k + t] == sub@[t]);
        assert(p@.subrange(k as int, k + sub@.len())[t] != sub@[t]);
        k = k + 1;
    }
    assert forall|m: int| 0 <= m && m + sub@.len() <= p@.len() implies
        #[trigger] p@.subrange(m, m + sub@.len()) != sub@ by {}
    false
}

/// Whether `name` is one of the extension modules that install-only archives
/// leave out.
fn is_dropped_extension(name: &str) -> (r: bool)
    ensures
        r == install_only_drop_extensions().contains(name@),
{
    let list = [
        "_ctypes_test",
        "_testbuffer",
        "_testcapi",
        "_testexternalinspection",
        "_testimportmultiple",
        "_testinternalcapi",
        "_testlimitedcapi",
        "_testmultiphase",
        "_testsinglephase",
    ];
    let ghost spec_list = install_only_drop_extensions();
    assert(list@.map_values(|s: &str| s@) =~= spec_list);
    let mut i: usize = 0;
    while i < 9
        invariant
            i <= 9,
            list@.len() == 9,
            list@.map_values(|s: &str| s@) == spec_list,
            spec_list == install_only_drop_extensions(),
            forall|j: int| 0 <= j < i ==> spec_list[j] != name@,
        decreases 9 - i,
    {
        assert(spec_list[i as int] == list@[i as int]@);
        if str_equal(list[i], name) {
            assert(spec_list[i as int] == name@);
            return true;
        }
        i = i + 1;
    }
    false
}

/// The entry filter of the install-only conversion, built once from the
/// build metadata.
pub struct InstallOnlyFilter {
    test_prefixes: Vec<Vec<u8>>,
    dropped: Vec<Vec<u8>>,
}

impl InstallOnlyFilter {
    /// The archive paths under which the standard library's test packages live.
    pub closed spec fn spec_test_prefixes(&self) -> Seq<Seq<u8>> {
        self.test_prefixes@.map_values(|v: Vec<u8>| v@)
    }

    /// The archive paths of the left-out shared libraries.
    pub closed spec fn spec_dropped(&self) -> Set<Seq<u8>> {
        Set::new(|p: Seq<u8>| in_vecs(self.dropped@, p))
    }

    /// Builds the filter from the build metadata: the standard library's path
    /// inside the install tree, the dotted names of its test packages, and each
    /// extension module with the shared libraries of its build variants.
    pub fn new(
        stdlib_path: &str,
        test_packages: &Vec<String>,
        extensions: &Vec<(String, Vec<Option<String>>)>,
    ) -> (f: InstallOnlyFilter)
        ensures
            f.spec_test_prefixes() == test_packages.deep_view().map_values(
                |p: Seq<char>| test_package_prefix(stdlib_path@, p),
            ),
            f.spec_dropped() == dropped_paths(extensions_view(extensions@)),
    {
        let mut test_prefixes: Vec<Vec<u8>> = Vec::new();
        let ghost tv = test_packages.deep_view();
        let ghost pf = |p: Seq<char>| test_package_prefix(stdlib_path@, p);
        let mut i: usize = 0;
        while i < test_packages.len()
            invariant
                i <= tv.len(),
                tv == test_packages.deep_view(),
                pf == (|p: Seq<char>| test_package_prefix(stdlib_path@, p)),
                test_prefixes@.map_values(|v: Vec<u8>| v@) == tv.take(i as int).map_values(pf),
            decreases tv.len() - i,
        {
            let mut s = String::from_str("python/");
            s.append(stdlib_path);
            s.append("/");
            let dotted = replace_str(test_packages[i].as_str(), ".", "/");
            s.append(dotted.as_str());
            s.append("/");
            let bytes = slice_to_bytes(s.as_str().as_bytes());
            assert(bytes@ == pf(tv[i as int]));
            let ghost prev = test_prefixes@.map_values(|v: Vec<u8>| v@);
            test_prefixes.push(bytes);
            assert(test_prefixes@.map_values(|v: Vec<u8>| v@) =~= prev.push(pf(tv[i as int])));
            assert(tv.take(i + 1) =~= tv.take(i as int).push(tv[i as int]));
            assert(test_prefixes@.map_values(|v: Vec<u8>| v@) =~= tv.take(i + 1).map_values(pf));
            i = i + 1;
        }
        assert(tv.take(tv.len() as int) =~= tv);
        let ghost ev = extensions_view(extensions@);
        let mut dropped: Vec<Vec<u8>> = Vec::new();
        let mut e: usize = 0;
        while e < extensions.len()
            invariant
                e <= extensions@.len(),
                ev == extensions_view(extensions@),
                forall|p: Seq<u8>| #[trigger] in_vecs(dropped@, p) <==> dropped_upto(ev, e as int, p),
            decreases extensions@.len() - e,
        {
            let ghost before = dropped@;
            let entry = &extensions[e];
            let ghost libs = ev[e as int].1;
            assert(ev[e as int].0 == entry.0@);
            assert(libs == entry.1@.map_values(|o: Option<String>| crate::triples::opt_string_view(o)));
            let dropped_ext = is_dropped_extension(entry.0.as_str());
            if dropped_ext {
                let mut k: usize = 0;
                while k < entry.1.len()
                    invariant
                        k <= entry.1@.len(),
                        libs == entry.1@.map_values(|o: Option<String>| crate::triples::opt_string_view(o)),
                        forall|p: Seq<u8>|
                            #[trigger] in_vecs(dropped@, p) <==> (in_vecs(before, p) || libs_upto(libs, k as int, p)),
                    decreases entry.1@.len() - k,
                {
                    let ghost prev = dropped@;
                    if let Some(rel) = &entry.1[k] {
                        let mut s = String::from_str("python/");
                        s.append(rel.as_str());
                        let bytes = slice_to_bytes(s.as_str().as_bytes());
                        assert(libs[k as int] == Some(rel@));
                        dropped.push(bytes);
                        assert forall|p: Seq<u8>|
                            #[trigger] in_vecs(dropped@, p) <==> (in_vecs(before, p) || libs_upto(libs, k + 1, p)) by {
                            if in_vecs(dropped@, p) {
                                let i = choose|i: int| 0 <= i < dropped@.len() && (#[trigger] dropped@[i])@ == p;
                                if i < prev.len() {
                                    assert(prev[i] == dropped@[i]);
                                    assert(in_vecs(prev, p));
                                    if libs_upto(libs, k as int, p) {
                                        let m = choose|m: int| 0 <= m < k && #[trigger] shared_library_is(libs[m], p);
                                        assert(shared_library_is(libs[m], p));
                                    }
                                } else {
                                    assert(shared_library_is(libs[k as int], p));
                                }
                            }
                            if libs_upto(libs, k + 1, p) {
                                let m = choose|m: int| 0 <= m < k + 1 && #[trigger] shared_library_is(libs[m], p);
                                if m == k {
                                    assert(dropped@[prev.len() as int]@ == p);
                                } else {
                                    assert(libs_upto(libs, k as int, p));
                                    assert(in_vecs(prev, p));
                                    let i = choose|i: int| 0 <= i < prev.len() && (#[trigger] prev[i])@ == p;
                                    assert(dropped@[i] == prev[i]);
                                }
                            }
                            if in_vecs(before, p) {
                                assert(in_vecs(prev, p));
                                let i = choose|i: int| 0 <= i < prev.len() && (#[trigger] prev[i])@ == p;
                                assert(dropped@[i] == prev[i]);
                            }
                        }
                    } else {
                        assert(libs[k as int] == None::<Seq<char>>);
                        assert forall|p: Seq<u8>|
                            #[trigger] in_vecs(dropped@, p) <==> (in_vecs(before, p) || libs_upto(libs, k + 1, p)) by {
                            if libs_upto(libs, k + 1, p) {
                                let m = choose|m: int| 0 <= m < k + 1 && #[trigger] shared_library_is(libs[m], p);
                                assert(m != k);
                                assert(libs_upto(libs, k as int, p));
                            }
                            if libs_upto(libs, k as int, p) {
                                let m = choose|m: int| 0 <= m < k && #[trigger] shared_library_is(libs[m], p);
                                assert(shared_library_is(libs[m], p));
                            }
                        }
                    }
                    k = k + 1;
                }
            }
            assert forall|p: Seq<u8>| #[trigger] in_vecs(dropped@, p) <==> dropped_upto(ev, e + 1, p) by {
                if dropped_upto(ev, e + 1, p) {
                    let (x, k) = choose|x: int, k: int|
                        0 <= x < e + 1 && install_only_drop_extensions().contains(ev[x].0) && 0 <= k < ev[x].1.len()
                            && #[trigger] shared_library_is(ev[x].1[k], p);
                    if x < e {
                        assert(dropped_upto(ev, e as int, p));
                        assert(in_vecs(before, p));
                    } else {
                        assert(libs_upto(libs, libs.len() as int, p));
                    }
                }
                if in_vecs(dropped@, p) {
                    if in_vecs(before, p) {
                        assert(dropped_upto(ev, e as int, p));
                        let (x, k) = choose|x: int, k: int|
                            0 <= x < e && install_only_drop_extensions().contains(ev[x].0) && 0 <= k < ev[x].1.len()
                                && #[trigger] shared_library_is(ev[x].1[k], p);
                        assert(shared_library_is(ev[x].1[k], p));
                    } else {
                        assert(dropped_ext);
                        assert(libs_upto(libs, libs.len() as int, p));
                        let m = choose|m: int| 0 <= m < libs.len() && #[trigger] shared_library_is(libs[m], p);
                        assert(shared_library_is(ev[e as int].1[m], p));
                    }
                }
            }
            e = e + 1;
        }
        let f = InstallOnlyFilter { test_prefixes, dropped };
        assert(f.spec_dropped() =~= dropped_paths(ev));
        f
    }

    /// Whether the entry with this path stays in the install-only archive.
    pub fn keeps(&self, path: &[u8]) -> (r: bool)
        ensures
            r == install_only_keeps(path@, self.spec_test_prefixes(), self.spec_dropped()),
    {
        let install = "python/install/";
        let libpython = "/libpython";
        let static_lib = ".a";
        proof {
            reveal_strlit("python/install/");
            reveal_strlit("/libpython");
            reveal_strlit(".a");
        }
        if !starts_with_bytes(path, ascii_bytes(install)) {
            return false;
        }
        if contains_bytes(path, ascii_bytes(libpython)) && ends_with_bytes(path, ascii_bytes(static_lib)) {
            return false;
        }
        let ghost tp = self.spec_test_prefixes();
        let mut i: usize = 0;
        while i < self.test_prefixes.len()
            invariant
                i <= self.test_prefixes@.len(),
                tp == self.spec_test_prefixes(),
                forall|j: int| 0 <= j < i ==> !bytes_start_with(path@, #[trigger] tp[j]),
            decreases self.test_prefixes@.len() - i,
        {
            assert(tp[i as int] == self.test_prefixes@[i as int]@);
            if starts_with_bytes(path, self.test_prefixes[i].as_slice()) {
                return false;
            }
            i = i + 1;
        }
        let mut d: usize = 0;
        while d < self.dropped.len()
            invariant
                d <= self.dropped@.len(),
                forall|j: int| 0 <= j < d ==> (#[trigger] self.dropped@[j])@ != path@,
            decreases self.dropped@.len() - d,
        {
            if bytes_equal(self.dropped[d].as_slice(), path) {
                return false;
            }
            d = d + 1;
        }
        true
    }
}

/// Whether an archive entry is the build metadata, `python/PYTHON.json`,
/// which a full build archive must hold as its first entry.
pub fn is_build_metadata(path: &[u8]) -> (r: bool)
    ensures
        r == (path@ == ascii("python/PYTHON.json"@)),
{
    let name = "python/PYTHON.json";
    proof {
        reveal_strlit("python/PYTHON.json");
    }
    bytes_equal(path, ascii_bytes(name))
}

/// The path that a kept entry takes in the install-only archive: its
/// `python/install/` prefix becomes `python/`.
pub fn install_only_entry_path(path: &[u8]) -> (r: Vec<u8>)
    requires
        bytes_start_with(path@, ascii("python/install/"@)),
    ensures
        r@ == ascii("python/"@) + path@.skip(15),
{
    let top = "python/";
    proof {
        reveal_strlit("python/");
        reveal_strlit("python/install/");
    }
    let mut r = slice_to_bytes(ascii_bytes(top));
    let mut i: usize = 15;
    while i < path.len()
        invariant
            15 <= i <= path@.len(),
            r@ == ascii("python/"@) + path@.subrange(15, i as int),
        decreases path@.len() - i,
    {
        r.push(path[i]);
        assert(r@ =~= ascii("python/"@) + path@.subrange(15, i + 1));
        i = i + 1;
    }
    assert(path@.subrange(15, path@.len() as int) =~= path@.skip(15));
    r
}

/// A copy of the bytes.
pub(crate) fn slice_to_bytes(b: &[u8]) -> (v: Vec<u8>)
    ensures
        v@ == b@,
{
    let mut v: Vec<u8> = Vec::new();
    let mut i: usize = 0;
    while i < b.len()
        invariant
            i <= b@.len(),
            v@ == b@.take(i as int),
        decreases b@.len() - i,
    {
        v.push(b[i]);
        assert(v@ =~= b@.take(i + 1));
        i = i + 1;
    }
    assert(b@.take(b@.len() as int) =~= b@);
    v
}

/// Whether two byte strings are equal.
pub(crate) fn bytes_equal(a: &[u8], b: &[u8]) -> (r: bool)
    ensures
        r == (a@ == b@),
{
    if a.len() != b.len() {
        return false;
    }
    let mut i: usize = 0;
    while i < a.len()
        invariant
            a@.len() == b@.len(),
            i <= a@.len(),
            forall|j: int| 0 <= j < i ==> a@[j] == b@[j],
        decreases a@.len() - i,
    {
        if a[i] != b[i] {
            return false;
        }
        i = i + 1;
    }
    assert(a@ =~= b@);
    true
}

/// The extension modules whose shared libraries install-only archives leave
/// out are exactly `_ctypes_test`, `_testbuffer`, `_testcapi`,
/// `_testexternalinspection`, `_testimportmultiple`, `_testinternalcapi`,
/// `_testlimitedcapi`, `_testmultiphase` and `_testsinglephase`.
pub proof fn lemma_dropped_extension_names(name: Seq<char>)
    ensures
        install_only_drop_extensions().contains(name) <==> (name == "_ctypes_test"@
            || name == "_testbuffer"@
            || name == "_testcapi"@
            || name == "_testexternalinspection"@
            || name == "_testimportmultiple"@
            || name == "_testinternalcapi"@
            || name == "_testlimitedcapi"@
            || name == "_testmultiphase"@
            || name == "_testsinglephase"@),
{
    assert(install_only_drop_extensions()[0] == "_ctypes_test"@);
    assert(install_only_drop_extensions()[1] == "_testbuffer"@);
    assert(install_only_drop_extensions()[2] == "_testcapi"@);
    assert(install_only_drop_extensions()[3] == "_testexternalinspection"@);
    assert(install_only_drop_extensions()[4] == "_testimportmultiple"@);
    assert(install_only_drop_extensions()[5] == "_testinternalcapi"@);
    assert(install_only_drop_extensions()[6] == "_testlimitedcapi"@);
    assert(install_only_drop_extensions()[7] == "_testmultiphase"@);
    assert(install_only_drop_extensions()[8] == "_testsinglephase"@);
    if install_only_drop_extensions().contains(name) {
        let i = choose|i: int| 0 <= i < install_only_drop_extensions().len() && install_only_drop_extensions()[i] == name;
        assert(i == 0 || i == 1 || i == 2 || i == 3 || i == 4 || i == 5 || i == 6 || i == 7 || i == 8);
    }
    if name == "_ctypes_test"@
            || name == "_testbuffer"@
            || name == "_testcapi"@
            || name == "_testexternalinspection"@
            || name == "_testimportmultiple"@
            || name == "_testinternalcapi"@
            || name == "_testlimitedcapi"@
            || name == "_testmultiphase"@
            || name == "_testsinglephase"@ {
        if name == "_ctypes_test"@ { assert(install_only_drop_extensions()[0] == name); }
        else if name == "_testbuffer"@ { assert(install_only_drop_extensions()[1] == name); }
        else if name == "_testcapi"@ { assert(install_only_drop_extensions()[2] == name); }
        else if name == "_testexternalinspection"@ { assert(install_only_drop_extensions()[3] == name); }
        else if name == "_testimportmultiple"@ { assert(install_only_drop_extensions()[4] == name); }
        else if name == "_testinternalcapi"@ { assert(install_only_drop_extensions()[5] == name); }
        else if name == "_testlimitedcapi"@ { assert(install_only_drop_extensions()[6] == name); }
        else if name == "_testmultiphase"@ { assert(install_only_drop_extensions()[7] == name); }
        else { assert(install_only_drop_extensions()[8] == name); }
    }
}

/// The install-only filter (whose dropped set `InstallOnlyFilter::new` makes
/// from the build metadata's extensions) leaves out exactly the shared
/// libraries of the build variants of those nine extension modules: a path is
/// dropped where, and only where, some variant of one of them has its shared
/// library there.
pub proof fn lemma_dropped_paths_are_test_extensions(
    extensions: Seq<(Seq<char>, Seq<Option<Seq<char>>>)>,
    p: Seq<u8>,
)
    ensures
        dropped_paths(extensions).contains(p) <==> exists|x: int, k: int|
            0 <= x < extensions.len() && (extensions[x].0 == "_ctypes_test"@
                    || extensions[x].0 == "_testbuffer"@
                    || extensions[x].0 == "_testcapi"@
                    || extensions[x].0 == "_testexternalinspection"@
                    || extensions[x].0 == "_testimportmultiple"@
                    || extensions[x].0 == "_testinternalcapi"@
                    || extensions[x].0 == "_testlimitedcapi"@
                    || extensions[x].0 == "_testmultiphase"@
                    || extensions[x].0 == "_testsinglephase"@) && 0 <= k < extensions[x].1.len()
                && #[trigger] shared_library_is(extensions[x].1[k], p),
{
    if dropped_paths(extensions).contains(p) {
        let (x, k) = choose|x: int, k: int|
            0 <= x < extensions.len() && install_only_drop_extensions().contains(extensions[x].0) && 0 <= k
                < extensions[x].1.len() && #[trigger] shared_library_is(extensions[x].1[k], p);
        lemma_dropped_extension_names(extensions[x].0);
    }
    if exists|x: int, k: int|
        0 <= x < extensions.len() && (extensions[x].0 == "_ctypes_test"@
                    || extensions[x].0 == "_testbuffer"@
                    || extensions[x].0 == "_testcapi"@
                    || extensions[x].0 == "_testexternalinspection"@
                    || extensions[x].0 == "_testimportmultiple"@
                    || extensions[x].0 == "_testinternalcapi"@
                    || extensions[x].0 == "_testlimitedcapi"@
                    || extensions[x].0 == "_testmultiphase"@
                    || extensions[x].0 == "_testsinglephase"@) && 0 <= k < extensions[x].1.len()
            && #[trigger] shared_library_is(extensions[x].1[k], p) {
        let (x, k) = choose|x: int, k: int|
            0 <= x < extensions.len() && (extensions[x].0 == "_ctypes_test"@
                    || extensions[x].0 == "_testbuffer"@
                    || extensions[x].0 == "_testcapi"@
                    || extensions[x].0 == "_testexternalinspection"@
                    || extensions[x].0 == "_testimportmultiple"@
                    || extensions[x].0 == "_testinternalcapi"@
                    || extensions[x].0 == "_testlimitedcapi"@
                    || extensions[x].0 == "_testmultiphase"@
                    || extensions[x].0 == "_testsinglephase"@) && 0 <= k < extensions[x].1.len()
                && #[trigger] shared_library_is(extensions[x].1[k], p);
        lemma_dropped_extension_names(extensions[x].0);
        assert(dropped_upto(extensions, extensions.len() as int, p));
    }
}

/// A shared library that the filter has dropped is never kept, wherever it lies.
pub proof fn lemma_dropped_never_kept(path: Seq<u8>, test_prefixes: Seq<Seq<u8>>, dropped: Set<Seq<u8>>)
    requires
        dropped.contains(path),
    ensures
        !install_only_keeps(path, test_prefixes, dropped),
{
}

/// The shared library of any build variant of `_ctypes_test`, `_testbuffer`,
/// `_testcapi`, `_testexternalinspection`, `_testimportmultiple`,
/// `_testinternalcapi`, `_testlimitedcapi`, `_testmultiphase` or
/// `_testsinglephase` is left out of the install-only archive.
pub proof fn lemma_test_extension_library_not_kept(
    extensions: Seq<(Seq<char>, Seq<Option<Seq<char>>>)>,
    x: int,
    k: int,
    rel: Seq<char>,
    test_prefixes: Seq<Seq<u8>>,
)
    requires
        0 <= x < extensions.len(),
        extensions[x].0 == "_ctypes_test"@
            || extensions[x].0 == "_testbuffer"@
            || extensions[x].0 == "_testcapi"@
            || extensions[x].0 == "_testexternalinspection"@
            || extensions[x].0 == "_testimportmultiple"@
            || extensions[x].0 == "_testinternalcapi"@
            || extensions[x].0 == "_testlimitedcapi"@
            || extensions[x].0 == "_testmultiphase"@
            || extensions[x].0 == "_testsinglephase"@,
        0 <= k < extensions[x].1.len(),
        extensions[x].1[k] == Some(rel),
    ensures
        !install_only_keeps(shared_library_path(rel), test_prefixes, dropped_paths(extensions)),
{
    let p = shared_library_path(rel);
    assert(shared_library_is(extensions[x].1[k], p));
    lemma_dropped_paths_are_test_extensions(extensions, p);
}

/// What the install-only archive keeps of a full build archive: nothing
/// outside `python/install/`; no static libpython (a path holding
/// `/libpython` and ending in `.a`); nothing under a test package; no dropped
/// shared library; and everything else under `python/install/`.
pub proof fn lemma_install_only_keeps_cases(path: Seq<u8>, test_prefixes: Seq<Seq<u8>>, dropped: Set<Seq<u8>>)
    ensures
        install_only_keeps(path, test_prefixes, dropped) ==> path.len() >= 15 && path.take(15) == ascii(
            "python/install/"@,
        ),
        (exists|k: int| 0 <= k && k + 10 <= path.len() && #[trigger] path.subrange(k, k + 10) == ascii("/libpython"@))
            && path.len() >= 2 && path.skip(path.len() - 2) == ascii(".a"@) ==> !install_only_keeps(
            path,
            test_prefixes,
            dropped,
        ),
        forall|i: int|
            0 <= i < test_prefixes.len() && test_prefixes[i].len() <= path.len() && path.take(
                test_prefixes[i].len() as int,
            ) == #[trigger] test_prefixes[i] ==> !install_only_keeps(path, test_prefixes, dropped),
        dropped.contains(path) ==> !install_only_keeps(path, test_prefixes, dropped),
        ({
            &&& path.len() >= 15
            &&& path.take(15) == ascii("python/install/"@)
            &&& !((exists|k: int|
                0 <= k && k + 10 <= path.len() && #[trigger] path.subrange(k, k + 10) == ascii("/libpython"@))
                && path.len() >= 2 && path.skip(path.len() - 2) == ascii(".a"@))
            &&& forall|i: int|
                0 <= i < test_prefixes.len() ==> !(test_prefixes[i].len() <= path.len() && path.take(
                    test_prefixes[i].len() as int,
                ) == #[trigger] test_prefixes[i])
            &&& !dropped.contains(path)
        }) ==> install_only_keeps(path, test_prefixes, dropped),
{
    reveal_strlit("python/install/");
    reveal_strlit("/libpython");
    reveal_strlit(".a");
    assert(ascii("python/install/"@).len() == 15);
    assert(ascii("/libpython"@).len() == 10);
    assert(ascii(".a"@).len() == 2);
}

/// A test package's files lie under `python/{stdlib}/{package}/`, with the
/// dots of a dotted package name (`idlelib.idle_test`) turned into `/`.
pub proof fn lemma_test_package_prefix(stdlib_path: Seq<char>, package: Seq<char>)
    ensures
        test_package_prefix(stdlib_path, package) == encode_utf8(
            "python/"@ + stdlib_path + "/"@ + package.map_values(|x: char| if x == '.' { '/' } else { x }) + "/"@,
        ),
{
    reveal_strlit(".");
    reveal_strlit("/");
    assert("."@ =~= seq!['.']);
    assert("/"@ =~= seq!['/']);
    crate::text::lemma_replace_char(package, '.', '/');
}

} // verus!
