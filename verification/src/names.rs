//! Names of derived archives: the install-only archive made from a full
//! `.tar.zst` build, and the stripped archive made from an install-only one.

use vstd::prelude::*;
use crate::text::{
    contains_infix, find_last, has_infix, is_last_index, lacks_char, last_index_of, lemma_lacks_char,
    lemma_no_infix_join, lemma_no_infix_missing_char, lemma_replace_only_at_end, lemma_zst_only_at_end,
    replace_all, replace_str, str_chars,
};
use crate::wanted::{artifact_key, no_dash};

verus! {

/// The position of the last `-` in `s` and of the last `-` before it (-1 where
/// there is none): the bounds of the second-to-last `-`-separated field.
pub open spec fn flavor_bounds(s: Seq<char>) -> (int, int) {
    let i = last_index_of(s, '-');
    (last_index_of(s.take(i), '-'), i)
}

/// `s` with its second-to-last `-`-separated field replaced by `field`.
pub open spec fn with_flavor(s: Seq<char>, field: Seq<char>) -> Seq<char> {
    let (j, i) = flavor_bounds(s);
    s.take(j + 1) + field + s.skip(i)
}

/// The second-to-last `-`-separated field of `s`.
pub open spec fn flavor_of(s: Seq<char>) -> Seq<char> {
    let (j, i) = flavor_bounds(s);
    s.subrange(j + 1, i)
}

/// The install-only archive name for a full archive name: the build flavor
/// (second-to-last field) becomes `install_only`, or `freethreaded-install_only`
/// for a free-threaded flavor, and `.tar.zst` becomes `.tar.gz`.
pub open spec fn install_only_name(s: Seq<char>) -> Seq<char> {
    let field = if has_infix(flavor_of(s), "freethreaded"@) {
        "freethreaded-install_only"@
    } else {
        "install_only"@
    };
    replace_all(with_flavor(s, field), ".tar.zst"@, ".tar.gz"@)
}

/// The stripped archive name for an install-only archive name: the
/// second-to-last field becomes `install_only_stripped`.
pub open spec fn install_only_stripped_name(s: Seq<char>) -> Seq<char> {
    with_flavor(s, "install_only_stripped"@)
}

/// Where `i` is the position of the last `c`, `last_index_of` gives it.
proof fn lemma_last_index_is(s: Seq<char>, c: char, i: int)
    requires
        is_last_index(s, c, i),
    ensures
        last_index_of(s, c) == i,
{
    let j = last_index_of(s, c);
    assert(is_last_index(s, c, j));
    if j < i {
        assert(s[i] == c);
    }
    if i < j {
        assert(s[j] == c);
    }
}

/// In `pre-field-rest`, where neither `field` nor `rest` holds a `-`, the
/// second-to-last field is `field`, and replacing it keeps `pre` and `rest`.
pub proof fn lemma_flavor_split(pre: Seq<char>, field: Seq<char>, rest: Seq<char>, other: Seq<char>)
    requires
        forall|j: int| 0 <= j < field.len() ==> field[j] != '-',
        forall|j: int| 0 <= j < rest.len() ==> rest[j] != '-',
    ensures
        flavor_bounds(pre + seq!['-'] + field + seq!['-'] + rest) == (
            pre.len() as int,
            (pre.len() + 1 + field.len()) as int,
        ),
        flavor_of(pre + seq!['-'] + field + seq!['-'] + rest) == field,
        with_flavor(pre + seq!['-'] + field + seq!['-'] + rest, other) == pre + seq!['-'] + other + seq!['-']
            + rest,
{
    let name = pre + seq!['-'] + field + seq!['-'] + rest;
    let i: int = (pre.len() + 1 + field.len()) as int;
    assert(name[i] == '-');
    assert forall|m: int| i < m < name.len() implies name[m] != '-' by {
        assert(name[m] == rest[m - i - 1]);
    }
    lemma_last_index_is(name, '-', i);
    let head = name.take(i);
    assert(head =~= pre + seq!['-'] + field);
    let j = pre.len() as int;
    assert(head[j] == '-');
    assert forall|m: int| j < m < head.len() implies head[m] != '-' by {
        assert(head[m] == field[m - j - 1]);
    }
    lemma_last_index_is(head, '-', j);
    assert(name.subrange(j + 1, i) =~= field);
    assert(name.take(j + 1) =~= pre + seq!['-']);
    assert(name.skip(i) =~= seq!['-'] + rest);
    assert(with_flavor(name, other) =~= pre + seq!['-'] + other + seq!['-'] + rest);
}

/// The middle of the artifact name of an install-only archive of triple `t`,
/// and of its free-threaded counterpart.
pub open spec fn install_only_middle(t: Seq<char>, freethreaded: bool) -> Seq<char> {
    t + if freethreaded {
        "-freethreaded-install_only"@
    } else {
        "-install_only"@
    }
}

/// The middle of the artifact name of a stripped install-only archive.
pub open spec fn install_only_stripped_middle(t: Seq<char>, freethreaded: bool) -> Seq<char> {
    t + if freethreaded {
        "-freethreaded-install_only_stripped"@
    } else {
        "-install_only_stripped"@
    }
}

/// Renaming the full archive of build suffix `s` gives the artifact name of
/// the install-only archive of the same Python version, triple and build
/// datetime (its free-threaded form where `s` names a free-threaded build).
/// This holds where `s` and the datetime hold no `-` (so that `s` is the
/// second-to-last field) and no `.tar.zst` occurs in the version, the triple or
/// the datetime (so that only the extension is replaced).
pub proof fn lemma_install_only_name_of_full(v: Seq<char>, t: Seq<char>, s: Seq<char>, datetime: Seq<char>)
    requires
        no_dash(s),
        no_dash(datetime),
        !has_infix(v, ".tar.zst"@),
        !has_infix(t, ".tar.zst"@),
        !has_infix(datetime, ".tar.zst"@),
    ensures
        install_only_name(artifact_key(v, t + "-"@ + s, datetime, true)) == artifact_key(
            v,
            install_only_middle(t, has_infix(s, "freethreaded"@)),
            datetime,
            false,
        ),
{
    reveal_strlit("cpython-");
    reveal_strlit("cpython");
    reveal_strlit("-");
    reveal_strlit(".tar.zst");
    reveal_strlit(".tar.gz");
    reveal_strlit("freethreaded-install_only");
    reveal_strlit("install_only");
    reveal_strlit("-freethreaded-install_only");
    reveal_strlit("-install_only");
    reveal_with_fuel(lacks_char, 26);
    let zst = ".tar.zst"@;
    let ft = has_infix(s, "freethreaded"@);
    let field = if ft {
        "freethreaded-install_only"@
    } else {
        "install_only"@
    };
    let key = artifact_key(v, t + "-"@ + s, datetime, true);
    let pre = "cpython-"@ + v + "-"@ + t;
    let rest = datetime + zst;
    assert(lacks_char(zst, '-'));
    lemma_lacks_char(zst, '-');
    assert forall|j: int| 0 <= j < rest.len() implies rest[j] != '-' by {
        if j >= datetime.len() {
            assert(rest[j] == zst[j - datetime.len()]);
        }
    }
    assert(key =~= pre + seq!['-'] + s + seq!['-'] + rest);
    lemma_flavor_split(pre, s, rest, field);
    let p = pre + seq!['-'] + field + seq!['-'] + datetime;
    assert(with_flavor(key, field) =~= p + zst);
    assert(lacks_char(field, '.'));
    lemma_lacks_char(field, '.');
    lemma_no_infix_missing_char(field, zst, 0);
    assert(!has_infix("cpython"@, zst));
    lemma_no_infix_join("cpython"@, '-', v, zst);
    let a = "cpython"@ + seq!['-'] + v;
    lemma_no_infix_join(a, '-', t, zst);
    let b = a + seq!['-'] + t;
    lemma_no_infix_join(b, '-', field, zst);
    let c = b + seq!['-'] + field;
    lemma_no_infix_join(c, '-', datetime, zst);
    assert(p =~= c + seq!['-'] + datetime);
    lemma_zst_only_at_end(p);
    lemma_replace_only_at_end(p, zst, ".tar.gz"@);
    assert(install_only_name(key) == p + ".tar.gz"@);
    assert(p + ".tar.gz"@ =~= artifact_key(v, install_only_middle(t, ft), datetime, false));
}

/// Renaming an install-only archive gives the artifact name of the stripped
/// install-only archive of the same Python version, triple and build
/// datetime, where the datetime holds no `-`.
pub proof fn lemma_install_only_stripped_name_of(v: Seq<char>, t: Seq<char>, freethreaded: bool, datetime: Seq<char>)
    requires
        no_dash(datetime),
    ensures
        install_only_stripped_name(artifact_key(v, install_only_middle(t, freethreaded), datetime, false))
            == artifact_key(v, install_only_stripped_middle(t, freethreaded), datetime, false),
{
    reveal_strlit("cpython-");
    reveal_strlit("-");
    reveal_strlit(".tar.gz");
    reveal_strlit("install_only");
    reveal_strlit("install_only_stripped");
    reveal_strlit("-freethreaded-install_only");
    reveal_strlit("-install_only");
    reveal_strlit("-freethreaded-install_only_stripped");
    reveal_strlit("-install_only_stripped");
    reveal_strlit("-freethreaded");
    reveal_with_fuel(lacks_char, 13);
    let gz = ".tar.gz"@;
    let key = artifact_key(v, install_only_middle(t, freethreaded), datetime, false);
    let pre = "cpython-"@ + v + "-"@ + t + if freethreaded {
        "-freethreaded"@
    } else {
        Seq::empty()
    };
    let rest = datetime + gz;
    assert(lacks_char(gz, '-'));
    lemma_lacks_char(gz, '-');
    assert forall|j: int| 0 <= j < rest.len() implies rest[j] != '-' by {
        if j >= datetime.len() {
            assert(rest[j] == gz[j - datetime.len()]);
        }
    }
    assert(lacks_char("install_only"@, '-'));
    lemma_lacks_char("install_only"@, '-');
    assert(key =~= pre + seq!['-'] + "install_only"@ + seq!['-'] + rest);
    lemma_flavor_split(pre, "install_only"@, rest, "install_only_stripped"@);
    assert(install_only_stripped_name(key) =~= artifact_key(
        v,
        install_only_stripped_middle(t, freethreaded),
        datetime,
        false,
    ));
}

/// The characters `0..end` of `s`.
fn prefix_chars(s: &Vec<char>, end: usize) -> (r: Vec<char>)
    requires
        end <= s@.len(),
    ensures
        r@ == s@.take(end as int),
{
    let mut r: Vec<char> = Vec::new();
    let mut k: usize = 0;
    while k < end
        invariant
            k <= end <= s@.len(),
            r@ == s@.take(k as int),
        decreases end - k,
    {
        r.push(s[k]);
        assert(r@ =~= s@.take(k + 1));
        k = k + 1;
    }
    r
}

/// The bounds of the second-to-last field of a name with at least one `-`.
fn find_flavor(chars: &Vec<char>) -> (r: (usize, usize, bool))
    requires
        last_index_of(chars@, '-') >= 0,
    ensures
        r.1 == flavor_bounds(chars@).1,
        r.2 ==> r.0 == flavor_bounds(chars@).0,
        !r.2 ==> flavor_bounds(chars@).0 == -1 && r.0 == 0,
        r.2 ==> r.0 < r.1,
        r.1 < chars@.len(),
{
    let i = match find_last(chars, '-') {
        Some(i) => i,
        None => 0,
    };
    let before = prefix_chars(chars, i);
    match find_last(&before, '-') {
        Some(j) => (j, i, true),
        None => (0, i, false),
    }
}

/// The name of the install-only archive made from a full archive.
pub fn install_only_filename(filename: &str) -> (r: String)
    requires
        last_index_of(filename@, '-') >= 0,
    ensures
        r@ == install_only_name(filename@),
{
    let chars = str_chars(filename);
    let (j, i, has_j) = find_flavor(&chars);
    let start = if has_j { j + 1 } else { 0 };
    let flavor = prefix_chars(&chars, i);
    let mut field: Vec<char> = Vec::new();
    let mut k: usize = start;
    while k < i
        invariant
            start <= k <= i,
            i < chars@.len(),
            flavor@ == chars@.take(i as int),
            field@ == chars@.subrange(start as int, k as int),
        decreases i - k,
    {
        field.push(flavor[k]);
        assert(field@ =~= chars@.subrange(start as int, k + 1));
        k = k + 1;
    }
    assert(field@ =~= flavor_of(filename@));
    let marker = str_chars("freethreaded");
    let mut out = String::from_str(filename.substring_char(0, start));
    if contains_infix(&field, &marker) {
        out.append("freethreaded-install_only");
    } else {
        out.append("install_only");
    }
    out.append(filename.substring_char(i, chars.len()));
    assert(filename@.skip(i as int) =~= filename@.subrange(i as int, chars@.len() as int));
    assert(filename@.take(start as int) =~= filename@.subrange(0, start as int));
    replace_str(out.as_str(), ".tar.zst", ".tar.gz")
}

/// The name of the stripped archive made from an install-only archive, such
/// as `cpython-3.12.4-x86_64_v3-unknown-linux-gnu-install_only_stripped-20240722T0909.tar.gz`
/// for `cpython-3.12.4-x86_64_v3-unknown-linux-gnu-install_only-20240722T0909.tar.gz`.
pub fn install_only_stripped_filename(filename: &str) -> (r: String)
    requires
        last_index_of(filename@, '-') >= 0,
    ensures
        r@ == install_only_stripped_name(filename@),
{
    let chars = str_chars(filename);
    let (j, i, has_j) = find_flavor(&chars);
    let start = if has_j { j + 1 } else { 0 };
    let mut out = String::from_str(filename.substring_char(0, start));
    out.append("install_only_stripped");
    out.append(filename.substring_char(i, chars.len()));
    assert(filename@.skip(i as int) =~= filename@.subrange(i as int, chars@.len() as int));
    assert(filename@.take(start as int) =~= filename@.subrange(0, start as int));
    out
}

} // verus!
