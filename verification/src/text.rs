//! Character-sequence helpers: searching, infixes and replacement, each
//! stated over `Seq<char>` and implemented over the characters of a `str`.

use vstd::prelude::*;

verus! {

/// `i` is the position of the first `c` in `s`.
pub open spec fn is_first_index(s: Seq<char>, c: char, i: int) -> bool {
    &&& 0 <= i < s.len()
    &&& s[i] == c
    &&& forall|j: int| 0 <= j < i ==> s[j] != c
}

/// `i` is the position of the last `c` in `s`.
pub open spec fn is_last_index(s: Seq<char>, c: char, i: int) -> bool {
    &&& 0 <= i < s.len()
    &&& s[i] == c
    &&& forall|j: int| i < j < s.len() ==> s[j] != c
}

/// The position of the first `c` in `s`, or -1 where `s` holds none.
pub open spec fn first_index_of(s: Seq<char>, c: char) -> int {
    if exists|i: int| is_first_index(s, c, i) {
        choose|i: int| is_first_index(s, c, i)
    } else {
        -1
    }
}

/// The position of the last `c` in `s`, or -1 where `s` holds none.
pub open spec fn last_index_of(s: Seq<char>, c: char) -> int {
    if exists|i: int| is_last_index(s, c, i) {
        choose|i: int| is_last_index(s, c, i)
    } else {
        -1
    }
}

/// `sub` occurs in `s` as a contiguous run.
pub open spec fn has_infix(s: Seq<char>, sub: Seq<char>) -> bool {
    exists|k: int| 0 <= k && k + sub.len() <= s.len() && #[trigger] s.subrange(k, k + sub.len()) == sub
}

/// `s` with every occurrence of `from` replaced by `to`, scanning left to right
/// and never overlapping, as `str::replace` does for a non-empty `from`. An
/// empty `from` leaves `s` as it is (`str::replace` would insert `to` between
/// all characters).
pub open spec fn replace_all(s: Seq<char>, from: Seq<char>, to: Seq<char>) -> Seq<char>
    decreases s.len(),
{
    if from.len() == 0 || s.len() < from.len() {
        s
    } else if s.take(from.len() as int) == from {
        to + replace_all(s.skip(from.len() as int), from, to)
    } else {
        seq![s[0]] + replace_all(s.skip(1), from, to)
    }
}

/// The characters of `s`, in order.
pub fn str_chars(s: &str) -> (r: Vec<char>)
    ensures
        r@ == s@,
{
    let mut out: Vec<char> = Vec::new();
    for c in it: s.chars()
        invariant
            out@ == it.seq().take(it.index() as int),
            it.seq() == s@,
    {
        out.push(c);
    }
    out
}

/// Compares two strings.
pub fn str_equal(a: &str, b: &str) -> (r: bool)
    ensures
        r == (a@ == b@),
{
    let ac = str_chars(a);
    let bc = str_chars(b);
    if ac.len() != bc.len() {
        return false;
    }
    let mut i: usize = 0;
    while i < ac.len()
        invariant
            ac@ == a@,
            bc@ == b@,
            ac@.len() == bc@.len(),
            i <= ac@.len(),
            forall|j: int| 0 <= j < i ==> ac@[j] == bc@[j],
        decreases ac@.len() - i,
    {
        if ac[i] != bc[i] {
            return false;
        }
        i = i + 1;
    }
    assert(a@ =~= b@);
    true
}

/// The position of the first `c` in `s`.
pub fn find_first(s: &Vec<char>, c: char) -> (r: Option<usize>)
    ensures
        match r {
            Some(i) => is_first_index(s@, c, i as int) && first_index_of(s@, c) == i,
            None => first_index_of(s@, c) == -1 && forall|j: int| 0 <= j < s@.len() ==> s@[j] != c,
        },
{
    let mut i: usize = 0;
    while i < s.len()
        invariant
            i <= s@.len(),
            forall|j: int| 0 <= j < i ==> s@[j] != c,
        decreases s@.len() - i,
    {
        if s[i] == c {
            assert(is_first_index(s@, c, i as int));
            return Some(i);
        }
        i = i + 1;
    }
    None
}

/// The position of the last `c` in `s`.
pub fn find_last(s: &Vec<char>, c: char) -> (r: Option<usize>)
    ensures
        match r {
            Some(i) => is_last_index(s@, c, i as int) && last_index_of(s@, c) == i,
            None => last_index_of(s@, c) == -1 && forall|j: int| 0 <= j < s@.len() ==> s@[j] != c,
        },
{
    let mut i: usize = s.len();
    while i > 0
        invariant
            i <= s@.len(),
            forall|j: int| i <= j < s@.len() ==> s@[j] != c,
        decreases i,
    {
        if s[i - 1] == c {
            assert(is_last_index(s@, c, i - 1));
            return Some(i - 1);
        }
        i = i - 1;
    }
    None
}

/// Whether `sub` occurs in `s`.
pub fn contains_infix(s: &Vec<char>, sub: &Vec<char>) -> (r: bool)
    ensures
        r == has_infix(s@, sub@),
{
    if sub.len() > s.len() {
        assert forall|k: int| 0 <= k && k + sub@.len() <= s@.len() implies
            #[trigger] s@.subrange(k, k + sub@.len()) != sub@ by {}
        return false;
    }
    let mut k: usize = 0;
    while k <= s.len() - sub.len()
        invariant
            sub@.len() <= s@.len(),
            k <= s@.len() - sub@.len() + 1,
            forall|m: int| 0 <= m < k ==> #[trigger] s@.subrange(m, m + sub@.len()) != sub@,
        decreases s@.len() + 1 - k,
    {
        let mut j: usize = 0;
        let mut same = true;
        while j < sub.len()
            invariant
                k + sub@.len() <= s@.len(),
                j <= sub@.len(),
                same == (forall|t: int| 0 <= t < j ==> s@[k + t] == sub@[t]),
            decreases sub@.len() - j,
        {
            assert(k + j < s.len());
            if s[k + j] != sub[j] {
                same = false;
            }
            j = j + 1;
        }
        if same {
            assert(s@.subrange(k as int, k + sub@.len()) =~= sub@);
            return true;
        }
        assert(s@.subrange(k as int, k + sub@.len())[0] == s@[k as int]);
        assert(!(forall|t: int| 0 <= t < sub@.len() ==> s@[k + t] == sub@[t]));
        let ghost t = choose|t: int| !(0 <= t < sub@.len() ==> s@[k + t] == sub@[t]);
        assert(s@.subrange(k as int, k + sub@.len())[t] != sub@[t]);
        k = k + 1;
    }
    assert forall|m: int| 0 <= m && m + sub@.len() <= s@.len() implies
        #[trigger] s@.subrange(m, m + sub@.len()) != sub@ by {}
    false
}

/// Whether `s[at..]` begins with `pat`.
fn matches_at(s: &Vec<char>, at: usize, pat: &Vec<char>) -> (r: bool)
    requires
        at + pat@.len() <= s@.len(),
    ensures
        r == (s@.subrange(at as int, at + pat@.len()) == pat@),
{
    let mut j: usize = 0;
    while j < pat.len()
        invariant
            at + pat@.len() <= s@.len(),
            j <= pat@.len(),
            forall|t: int| 0 <= t < j ==> s@[at + t] == pat@[t],
        decreases pat@.len() - j,
    {
        assert(at + j < s.len());
        if s[at + j] != pat[j] {
            assert(s@.subrange(at as int, at + pat@.len())[j as int] != pat@[j as int]);
            return false;
        }
        j = j + 1;
    }
    assert(s@.subrange(at as int, at + pat@.len()) =~= pat@);
    true
}

/// `s` with every occurrence of `from` replaced by `to`.
pub fn replace_str(s: &str, from: &str, to: &str) -> (r: String)
    ensures
        r@ == replace_all(s@, from@, to@),
{
    let sc = str_chars(s);
    let fc = str_chars(from);
    let mut out = String::new();
    if fc.len() == 0 {
        out.append(s);
        return out;
    }
    let n = sc.len();
    let mut i: usize = 0;
    assert(s@.skip(0) =~= s@);
    while i < n
        invariant
            sc@ == s@,
            fc@ == from@,
            n == s@.len(),
            fc@.len() > 0,
            i <= n,
            replace_all(s@, from@, to@) == out@ + replace_all(s@.skip(i as int), from@, to@),
        decreases n - i,
    {
        let ghost rest = s@.skip(i as int);
        if fc.len() <= n - i && matches_at(&sc, i, &fc) {
            assert(rest.take(from@.len() as int) =~= s@.subrange(i as int, i + from@.len()));
            assert(rest.skip(from@.len() as int) =~= s@.skip(i + from@.len()));
            out.append(to);
            i = i + fc.len();
        } else {
            if fc.len() <= n - i {
                assert(rest.take(from@.len() as int) =~= s@.subrange(i as int, i + from@.len()));
            }
            assert(rest.skip(1) =~= s@.skip(i + 1));
            let piece = s.substring_char(i, i + 1);
            assert(piece@ =~= seq![rest[0]]);
            out.append(piece);
            i = i + 1;
        }
    }
    assert(s@.skip(n as int).len() == 0);
    out
}

} // verus!

verus! {

/// Where `c` occurs in `s` at all, a first occurrence exists.
pub proof fn lemma_first_index_exists(s: Seq<char>, c: char, i: int)
    requires
        0 <= i < s.len(),
        s[i] == c,
    ensures
        exists|f: int| is_first_index(s, c, f),
        0 <= first_index_of(s, c) <= i,
        is_first_index(s, c, first_index_of(s, c)),
    decreases i,
{
    if exists|j: int| 0 <= j < i && s[j] == c {
        let j = choose|j: int| 0 <= j < i && s[j] == c;
        lemma_first_index_exists(s, c, j);
    } else {
        assert(is_first_index(s, c, i));
    }
    let f = first_index_of(s, c);
    assert(is_first_index(s, c, f));
    if f > i {
        assert(s[i] != c);
    }
}

/// `first_index_of` is -1 exactly where `c` does not occur.
pub proof fn lemma_first_index_absent(s: Seq<char>, c: char)
    ensures
        first_index_of(s, c) == -1 <==> forall|j: int| 0 <= j < s.len() ==> s[j] != c,
        first_index_of(s, c) != -1 ==> is_first_index(s, c, first_index_of(s, c)),
{
    if exists|j: int| 0 <= j < s.len() && s[j] == c {
        let j = choose|j: int| 0 <= j < s.len() && s[j] == c;
        lemma_first_index_exists(s, c, j);
    }
}


/// `a` sorts before `b`: character by character, by code point, a proper
/// prefix first. This is the order of `str` (whose bytes, UTF-8, sort as the
/// code points they encode).
pub open spec fn chars_lt(a: Seq<char>, b: Seq<char>) -> bool
    decreases a.len(),
{
    if a.len() == 0 {
        b.len() > 0
    } else if b.len() == 0 {
        false
    } else if a[0] != b[0] {
        (a[0] as int) < (b[0] as int)
    } else {
        chars_lt(a.skip(1), b.skip(1))
    }
}

/// Nothing sorts before itself, and of two different texts one sorts first.
pub proof fn lemma_chars_lt_total(a: Seq<char>, b: Seq<char>)
    ensures
        !chars_lt(a, a),
        a != b ==> (chars_lt(a, b) || chars_lt(b, a)),
        !(chars_lt(a, b) && chars_lt(b, a)),
    decreases a.len(),
{
    if a.len() > 0 {
        lemma_chars_lt_total(a.skip(1), a.skip(1));
    }
    if a.len() > 0 && b.len() > 0 {
        lemma_chars_lt_total(a.skip(1), b.skip(1));
        if a != b && a[0] == b[0] {
            if a.skip(1) == b.skip(1) {
                assert(a =~= seq![a[0]] + a.skip(1));
                assert(b =~= seq![b[0]] + b.skip(1));
            }
        }
    }
    if a.len() == 0 && b.len() == 0 {
        assert(a =~= b);
    }
}

/// The order is transitive.
pub proof fn lemma_chars_lt_transitive(a: Seq<char>, b: Seq<char>, c: Seq<char>)
    requires
        chars_lt(a, b),
        chars_lt(b, c),
    ensures
        chars_lt(a, c),
    decreases a.len(),
{
    if a.len() > 0 && b.len() > 0 && c.len() > 0 && a[0] == b[0] && b[0] == c[0] {
        lemma_chars_lt_transitive(a.skip(1), b.skip(1), c.skip(1));
    }
}

/// Whether `a` sorts before `b`.
pub fn str_lt(a: &str, b: &str) -> (r: bool)
    ensures
        r == chars_lt(a@, b@),
{
    let ac = str_chars(a);
    let bc = str_chars(b);
    let mut i: usize = 0;
    assert(a@.skip(0) =~= a@);
    assert(b@.skip(0) =~= b@);
    while i < ac.len() && i < bc.len()
        invariant
            ac@ == a@,
            bc@ == b@,
            i <= ac@.len(),
            i <= bc@.len(),
            chars_lt(a@, b@) == chars_lt(a@.skip(i as int), b@.skip(i as int)),
        decreases ac@.len() - i,
    {
        let x = ac[i];
        let y = bc[i];
        assert(a@.skip(i as int)[0] == x);
        assert(b@.skip(i as int)[0] == y);
        if x != y {
            return x < y;
        }
        assert(a@.skip(i as int).skip(1) =~= a@.skip(i + 1));
        assert(b@.skip(i as int).skip(1) =~= b@.skip(i + 1));
        i = i + 1;
    }
    i < bc.len()
}

/// Replacing one character by another changes exactly the positions that
/// hold it, and nothing else.
pub proof fn lemma_replace_char(s: Seq<char>, c: char, d: char)
    ensures
        replace_all(s, seq![c], seq![d]) == s.map_values(|x: char| if x == c { d } else { x }),
    decreases s.len(),
{
    let r = replace_all(s, seq![c], seq![d]);
    let m = s.map_values(|x: char| if x == c { d } else { x });
    if s.len() == 0 {
        assert(r =~= m);
    } else {
        lemma_replace_char(s.skip(1), c, d);
        let rest = s.skip(1).map_values(|x: char| if x == c { d } else { x });
        if s.take(1) == seq![c] {
            assert(s[0] == s.take(1)[0]);
            assert(r == seq![d] + replace_all(s.skip(1), seq![c], seq![d]));
        } else {
            if s[0] == c {
                assert(s.take(1) =~= seq![c]);
            }
            assert(r == seq![s[0]] + replace_all(s.skip(1), seq![c], seq![d]));
        }
        assert(r =~= m);
    }
}

/// `c` does not occur in `s`, checked one character at a time.
pub open spec fn lacks_char(s: Seq<char>, c: char) -> bool
    decreases s.len(),
{
    s.len() == 0 || (s[0] != c && lacks_char(s.skip(1), c))
}

/// `lacks_char` says that no position of `s` holds `c`.
pub proof fn lemma_lacks_char(s: Seq<char>, c: char)
    requires
        lacks_char(s, c),
    ensures
        forall|j: int| 0 <= j < s.len() ==> s[j] != c,
    decreases s.len(),
{
    if s.len() > 0 {
        lemma_lacks_char(s.skip(1), c);
        assert forall|j: int| 0 <= j < s.len() implies s[j] != c by {
            if j > 0 {
                assert(s[j] == s.skip(1)[j - 1]);
            }
        }
    }
}

/// A text that lacks one of the characters of `f` does not hold `f`.
pub proof fn lemma_no_infix_missing_char(s: Seq<char>, f: Seq<char>, i: int)
    requires
        0 <= i < f.len(),
        forall|j: int| 0 <= j < s.len() ==> s[j] != f[i],
    ensures
        !has_infix(s, f),
{
    assert forall|k: int| 0 <= k && k + f.len() <= s.len() implies #[trigger] s.subrange(k, k + f.len()) != f by {
        assert(s.subrange(k, k + f.len())[i] == s[k + i]);
    }
}

/// Joining two texts with a character that `f` lacks makes no new
/// occurrence of `f`.
pub proof fn lemma_no_infix_join(x: Seq<char>, c: char, y: Seq<char>, f: Seq<char>)
    requires
        f.len() > 0,
        forall|j: int| 0 <= j < f.len() ==> f[j] != c,
        !has_infix(x, f),
        !has_infix(y, f),
    ensures
        !has_infix(x + seq![c] + y, f),
{
    let s = x + seq![c] + y;
    assert forall|k: int| 0 <= k && k + f.len() <= s.len() implies #[trigger] s.subrange(k, k + f.len()) != f by {
        let w = s.subrange(k, k + f.len());
        if k + f.len() <= x.len() {
            assert(w =~= x.subrange(k, k + f.len()));
        } else if k > x.len() {
            let k2 = k - x.len() - 1;
            assert(w =~= y.subrange(k2, k2 + f.len()));
        } else {
            assert(w[x.len() - k] == c);
        }
    }
}

/// Where `f` occurs in `p + f` only at its end, replacing `f` gives `p + t`.
pub proof fn lemma_replace_only_at_end(p: Seq<char>, f: Seq<char>, t: Seq<char>)
    requires
        f.len() > 0,
        forall|k: int| 0 <= k < p.len() ==> #[trigger] (p + f).subrange(k, k + f.len()) != f,
    ensures
        replace_all(p + f, f, t) == p + t,
    decreases p.len(),
{
    let s = p + f;
    if p.len() == 0 {
        assert(s =~= f);
        assert(s.take(f.len() as int) =~= f);
        assert(s.skip(f.len() as int).len() == 0);
        assert(replace_all(s.skip(f.len() as int), f, t) == s.skip(f.len() as int));
        assert(replace_all(s, f, t) =~= p + t);
    } else {
        assert(s.take(f.len() as int) =~= s.subrange(0, f.len() as int));
        let q = p.skip(1);
        assert(s.skip(1) =~= q + f);
        assert forall|k: int| 0 <= k < q.len() implies #[trigger] (q + f).subrange(k, k + f.len()) != f by {
            assert((q + f).subrange(k, k + f.len()) =~= s.subrange(k + 1, k + 1 + f.len()));
        }
        lemma_replace_only_at_end(q, f, t);
        let k0: int = 0;
        assert((p + f).subrange(k0, k0 + f.len()) != f);
        assert(replace_all(s, f, t) == seq![s[0]] + replace_all(s.skip(1), f, t));
        assert(replace_all(s, f, t) =~= p + t);
    }
}

/// `.tar.zst` overlaps itself nowhere, so where a text does not hold it,
/// appending it makes only the one occurrence at the end.
pub proof fn lemma_zst_only_at_end(p: Seq<char>)
    requires
        !has_infix(p, ".tar.zst"@),
    ensures
        forall|k: int| 0 <= k < p.len() ==> #[trigger] (p + ".tar.zst"@).subrange(k, k + 8) != ".tar.zst"@,
{
    reveal_strlit(".tar.zst");
    let f = ".tar.zst"@;
    assert forall|k: int| 0 <= k < p.len() implies #[trigger] (p + f).subrange(k, k + 8) != f by {
        let w = (p + f).subrange(k, k + 8);
        if k + 8 <= p.len() {
            assert(w =~= p.subrange(k, k + 8));
        } else {
            let l = p.len() - k;
            assert(w[l] == f[0]);
            assert(l == 1 || l == 2 || l == 3 || l == 4 || l == 5 || l == 6 || l == 7);
            if w == f {
                assert(f[l] == f[0]);
                assert(l == 4);
                assert(w[5] == f[1]);
                assert(f[5] != f[1]);
            }
        }
    }
}

/// The decimal digit of a value below 10.
pub open spec fn decimal_digit(d: int) -> char {
    "0123456789"@[d]
}

/// The decimal notation of `n`, without leading zeros, as `{}` formats it.
pub open spec fn decimal(n: nat) -> Seq<char>
    decreases n,
{
    if n < 10 {
        seq![decimal_digit(n as int)]
    } else {
        decimal(n / 10) + seq![decimal_digit((n % 10) as int)]
    }
}

/// Appends the decimal notation of `n`.
fn push_decimal(s: &mut String, n: u64)
    ensures
        final(s)@ == old(s)@ + decimal(n as nat),
    decreases n,
{
    if n >= 10 {
        push_decimal(s, n / 10);
    }
    let d = (n % 10) as usize;
    let digits = "0123456789";
    proof {
        reveal_strlit("0123456789");
    }
    let digit = digits.substring_char(d, d + 1);
    assert(digit@ =~= seq![decimal_digit(d as int)]);
    s.append(digit);
    assert(s@ =~= old(s)@ + decimal(n as nat));
}

/// The decimal notation of `n`.
pub fn decimal_string(n: u64) -> (s: String)
    ensures
        s@ == decimal(n as nat),
{
    let mut s = String::new();
    push_decimal(&mut s, n);
    assert(s@ =~= decimal(n as nat));
    s
}

} // verus!
