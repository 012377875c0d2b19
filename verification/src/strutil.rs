//! Character-level helpers shared by the codec: conversions between
//! `String` and `Vec<char>`, splitting, trimming, prefix tests, and
//! decimal parsing and formatting.
use vstd::prelude::*;

verus! {

/// Relies on String::push: appends the given character to the end of the string.
#[verifier::external_body]
pub fn push_char(s: &mut String, c: char)
    ensures
        final(s)@ == old(s)@.push(c),
{
    s.push(c);
}

/// The characters of a string, in order, as a vector.
pub fn str_to_chars(s: &str) -> (r: Vec<char>)
    ensures
        r@ == s@,
{
    let n = s.unicode_len();
    let mut r: Vec<char> = Vec::new();
    let mut i: usize = 0;
    while i < n
        invariant
            n == s@.len(),
            i <= n,
            r@ == s@.take(i as int),
        decreases n - i,
    {
        r.push(s.get_char(i));
        proof {
            assert(s@.take(i + 1 as int) =~= s@.take(i as int).push(s@[i as int]));
        }
        i += 1;
    }
    proof {
        assert(s@.take(n as int) =~= s@);
    }
    r
}

/// The string holding exactly the given characters, in order.
pub fn chars_to_string(v: &Vec<char>) -> (r: String)
    ensures
        r@ == v@,
{
    let mut s = String::new();
    let mut i: usize = 0;
    while i < v.len()
        invariant
            i <= v.len(),
            s@ == v@.take(i as int),
        decreases v.len() - i,
    {
        push_char(&mut s, v[i]);
        proof {
            assert(v@.take(i + 1 as int) =~= v@.take(i as int).push(v@[i as int]));
        }
        i += 1;
    }
    proof {
        assert(v@.take(v@.len() as int) =~= v@);
    }
    s
}

/// A copy of the characters in the index range `[from, to)`.
pub fn sub_chars(v: &Vec<char>, from: usize, to: usize) -> (r: Vec<char>)
    requires
        from <= to <= v@.len(),
    ensures
        r@ == v@.subrange(from as int, to as int),
{
    let mut r: Vec<char> = Vec::new();
    let mut i: usize = from;
    while i < to
        invariant
            from <= i <= to <= v@.len(),
            r@ == v@.subrange(from as int, i as int),
        decreases to - i,
    {
        r.push(v[i]);
        proof {
            assert(v@.subrange(from as int, i + 1 as int) =~= v@.subrange(
                from as int,
                i as int,
            ).push(v@[i as int]));
        }
        i += 1;
    }
    r
}

/// `s` begins with the characters of `p`.
pub open spec fn spec_starts_with(s: Seq<char>, p: Seq<char>) -> bool {
    p.len() <= s.len() && s.subrange(0, p.len() as int) == p
}

/// Whether the characters start with the given prefix.
pub fn chars_start_with(v: &Vec<char>, p: &str) -> (r: bool)
    ensures
        r == spec_starts_with(v@, p@),
{
    let pn = p.unicode_len();
    if pn > v.len() {
        return false;
    }
    let mut i: usize = 0;
    while i < pn
        invariant
            pn == p@.len(),
            pn <= v@.len(),
            i <= pn,
            forall|j: int| 0 <= j < i ==> v@[j] == p@[j],
        decreases pn - i,
    {
        if v[i] != p.get_char(i) {
            proof {
                if spec_starts_with(v@, p@) {
                    assert(v@.subrange(0, p@.len() as int)[i as int] == p@[i as int]);
                }
            }
            return false;
        }
        i += 1;
    }
    proof {
        assert(v@.subrange(0, p@.len() as int) =~= p@);
    }
    true
}

/// Whether the characters equal the given string exactly.
pub fn chars_eq_str(v: &Vec<char>, p: &str) -> (r: bool)
    ensures
        r == (v@ == p@),
{
    let pn = p.unicode_len();
    if pn != v.len() {
        return false;
    }
    let mut i: usize = 0;
    while i < pn
        invariant
            pn == p@.len(),
            pn == v@.len(),
            i <= pn,
            forall|j: int| 0 <= j < i ==> v@[j] == p@[j],
        decreases pn - i,
    {
        if v[i] != p.get_char(i) {
            return false;
        }
        i += 1;
    }
    proof {
        assert(v@ =~= p@);
    }
    true
}

/// Index of the first occurrence of `c` in `v`, if any.
pub fn find_char(v: &Vec<char>, c: char) -> (r: Option<usize>)
    ensures
        match r {
            Some(i) => i < v@.len() && v@[i as int] == c && forall|j: int|
                0 <= j < i ==> v@[j] != c,
            None => forall|j: int| 0 <= j < v@.len() ==> v@[j] != c,
        },
{
    let mut i: usize = 0;
    while i < v.len()
        invariant
            i <= v@.len(),
            forall|j: int| 0 <= j < i ==> v@[j] != c,
        decreases v.len() - i,
    {
        if v[i] == c {
            return Some(i);
        }
        i += 1;
    }
    None
}

/// Index of the first occurrence of `c` in `s`, if any.
pub open spec fn spec_find_idx(s: Seq<char>, c: char) -> Option<int>
    decreases s.len(),
{
    if s.len() == 0 {
        None
    } else if s[0] == c {
        Some(0)
    } else {
        match spec_find_idx(s.drop_first(), c) {
            Some(i) => Some(i + 1),
            None => None,
        }
    }
}

pub proof fn lemma_find_idx_is(s: Seq<char>, c: char, i: int)
    requires
        0 <= i < s.len(),
        s[i] == c,
        forall|j: int| 0 <= j < i ==> s[j] != c,
    ensures
        spec_find_idx(s, c) == Some(i),
    decreases i,
{
    if i > 0 {
        lemma_find_idx_is(s.drop_first(), c, i - 1);
    }
}

pub proof fn lemma_find_idx_none(s: Seq<char>, c: char)
    requires
        forall|j: int| 0 <= j < s.len() ==> s[j] != c,
    ensures
        spec_find_idx(s, c) is None,
    decreases s.len(),
{
    if s.len() > 0 {
        lemma_find_idx_none(s.drop_first(), c);
    }
}

/// Splitting a character sequence on a separator, as `str::split` does:
/// every occurrence of the separator ends a piece, and the result always
/// holds at least one piece.
pub open spec fn spec_split(s: Seq<char>, sep: char) -> Seq<Seq<char>>
    decreases s.len(),
{
    if s.len() == 0 {
        seq![Seq::<char>::empty()]
    } else if s[0] == sep {
        seq![Seq::<char>::empty()] + spec_split(s.drop_first(), sep)
    } else {
        let rest = spec_split(s.drop_first(), sep);
        seq![seq![s[0]] + rest[0]] + rest.drop_first()
    }
}

pub proof fn lemma_split_len(s: Seq<char>, sep: char)
    ensures
        spec_split(s, sep).len() >= 1,
    decreases s.len(),
{
    if s.len() != 0 {
        lemma_split_len(s.drop_first(), sep);
    }
}

/// Split the characters on the separator.
pub fn split_chars(v: &Vec<char>, sep: char) -> (r: Vec<Vec<char>>)
    ensures
        r.deep_view() == spec_split(v@, sep),
        r@.len() >= 1,
{
    let ghost full = spec_split(v@, sep);
    let mut out: Vec<Vec<char>> = Vec::new();
    let mut cur: Vec<char> = Vec::new();
    let mut i: usize = 0;
    proof {
        lemma_split_len(v@, sep);
        assert(v@.skip(0) =~= v@);
        assert(full =~~= out.deep_view() + seq![cur@ + full[0]] + full.drop_first());
    }
    while i < v.len()
        invariant
            i <= v@.len(),
            spec_split(v@.skip(i as int), sep).len() >= 1,
            full == spec_split(v@, sep),
            full == out.deep_view() + seq![cur@ + spec_split(v@.skip(i as int), sep)[0]]
                + spec_split(v@.skip(i as int), sep).drop_first(),
        decreases v.len() - i,
    {
        let ghost rest = spec_split(v@.skip(i as int), sep);
        let ghost rest2 = spec_split(v@.skip(i + 1 as int), sep);
        proof {
            assert(v@.skip(i as int).drop_first() =~= v@.skip(i + 1 as int));
            assert(v@.skip(i as int)[0] == v@[i as int]);
            lemma_split_len(v@.skip(i + 1 as int), sep);
        }
        if v[i] == sep {
            let ghost old_out = out.deep_view();
            let ghost old_cur = cur@;
            let finished = cur;
            cur = Vec::new();
            out.push(finished);
            proof {
                assert(rest == seq![Seq::<char>::empty()] + rest2);
                assert(rest[0] =~= Seq::<char>::empty());
                assert(old_cur + rest[0] =~= old_cur);
                assert(rest.drop_first() =~= rest2);
                assert(out.deep_view() =~~= old_out.push(old_cur));
                assert(full =~~= out.deep_view() + seq![cur@ + rest2[0]] + rest2.drop_first());
            }
        } else {
            let ghost old_cur = cur@;
            let c = v[i];
            cur.push(c);
            proof {
                assert(rest == seq![seq![v@[i as int]] + rest2[0]] + rest2.drop_first());
                assert(rest[0] == seq![v@[i as int]] + rest2[0]);
                assert(rest.drop_first() =~= rest2.drop_first());
                assert(cur@ + rest2[0] =~= old_cur + rest[0]);
                assert(full =~~= out.deep_view() + seq![cur@ + rest2[0]] + rest2.drop_first());
            }
        }
        i += 1;
    }
    let ghost old_out = out.deep_view();
    let ghost old_cur = cur@;
    proof {
        assert(v@.skip(v@.len() as int) =~= Seq::<char>::empty());
        assert(spec_split(v@.skip(v@.len() as int), sep) == seq![Seq::<char>::empty()]);
        assert(old_cur + spec_split(v@.skip(v@.len() as int), sep)[0] =~= old_cur);
    }
    out.push(cur);
    proof {
        assert(out.deep_view() =~~= old_out.push(old_cur));
        assert(full =~~= out.deep_view());
        lemma_split_len(v@, sep);
        assert(out.deep_view().len() == out@.len());
    }
    out
}

/// `s` holds `pat` as a contiguous substring.
pub open spec fn spec_contains(s: Seq<char>, pat: Seq<char>) -> bool {
    exists|i: int| 0 <= i <= s.len() - pat.len() && #[trigger] s.subrange(i, i + pat.len()) == pat
}

fn match_at(hay: &Vec<char>, at: usize, needle: &str) -> (r: bool)
    requires
        at + needle@.len() <= hay@.len(),
    ensures
        r == (hay@.subrange(at as int, at + needle@.len()) == needle@),
{
    let m = needle.unicode_len();
    let hn = hay.len();
    let mut j: usize = 0;
    while j < m
        invariant
            m == needle@.len(),
            hn == hay@.len(),
            at + m <= hn,
            j <= m,
            forall|u: int| 0 <= u < j ==> hay@[at + u] == needle@[u],
        decreases m - j,
    {
        if hay[at + j] != needle.get_char(j) {
            proof {
                if hay@.subrange(at as int, at + needle@.len()) == needle@ {
                    assert(hay@.subrange(at as int, at + needle@.len())[j as int] == needle@[
                        j as int]);
                }
            }
            return false;
        }
        j += 1;
    }
    proof {
        assert(hay@.subrange(at as int, at + needle@.len()) =~= needle@);
    }
    true
}

/// Whether the characters hold the given string as a substring.
pub fn contains_chars(hay: &Vec<char>, needle: &str) -> (r: bool)
    ensures
        r == spec_contains(hay@, needle@),
{
    let n = hay.len();
    let m = needle.unicode_len();
    if m > n {
        return false;
    }
    if m == 0 {
        proof {
            assert(hay@.subrange(0, 0 + needle@.len() as int) =~= needle@);
            assert(spec_contains(hay@, needle@));
        }
        return true;
    }
    let mut i: usize = 0;
    while i <= n - m
        invariant
            n == hay@.len(),
            m == needle@.len(),
            1 <= m <= n,
            i <= n - m + 1,
            forall|t: int| 0 <= t < i ==> #[trigger] hay@.subrange(t, t + m) != needle@,
        decreases n - i,
    {
        if match_at(hay, i, needle) {
            return true;
        }
        i += 1;
    }
    false
}

/// Index of the first occurrence of `pat` as a substring of `s`, if
/// any, as `str::find` gives it.
pub open spec fn spec_find_str(s: Seq<char>, pat: Seq<char>) -> Option<int>
    decreases s.len(),
{
    if s.len() < pat.len() {
        None
    } else if s.subrange(0, pat.len() as int) == pat {
        Some(0)
    } else if s.len() == 0 {
        None
    } else {
        match spec_find_str(s.drop_first(), pat) {
            Some(i) => Some(i + 1),
            None => None,
        }
    }
}

pub proof fn lemma_find_str_is(s: Seq<char>, pat: Seq<char>, i: int)
    requires
        0 <= i,
        i + pat.len() <= s.len(),
        s.subrange(i, i + pat.len()) == pat,
        forall|t: int| 0 <= t < i ==> #[trigger] s.subrange(t, t + pat.len()) != pat,
    ensures
        spec_find_str(s, pat) == Some(i),
    decreases i,
{
    if i == 0 {
    } else {
        assert(s.len() > 0);
        assert(s.subrange(0, pat.len() as int) =~= s.subrange(0, 0 + pat.len() as int));
        assert(s.subrange(0, pat.len() as int) != pat);
        let d = s.drop_first();
        assert forall|t: int| 0 <= t < i - 1 implies #[trigger] d.subrange(t, t + pat.len())
            != pat by {
            assert(d.subrange(t, t + pat.len()) =~= s.subrange(t + 1, t + 1 + pat.len()));
        }
        assert(d.subrange(i - 1, i - 1 + pat.len()) =~= s.subrange(i, i + pat.len()));
        lemma_find_str_is(d, pat, i - 1);
    }
}

pub proof fn lemma_find_str_none(s: Seq<char>, pat: Seq<char>)
    requires
        forall|t: int|
            0 <= t <= s.len() - pat.len() ==> #[trigger] s.subrange(t, t + pat.len()) != pat,
    ensures
        spec_find_str(s, pat) is None,
    decreases s.len(),
{
    if s.len() < pat.len() {
    } else if s.len() == 0 {
        assert(s.subrange(0, pat.len() as int) =~= s.subrange(0, 0 + pat.len() as int));
        assert(s.subrange(0, pat.len() as int) =~= pat);
    } else {
        assert(s.subrange(0, pat.len() as int) =~= s.subrange(0, 0 + pat.len() as int));
        assert(s.subrange(0, pat.len() as int) != pat);
        let d = s.drop_first();
        assert forall|t: int| 0 <= t <= d.len() - pat.len() implies #[trigger] d.subrange(
            t,
            t + pat.len(),
        ) != pat by {
            assert(d.subrange(t, t + pat.len()) =~= s.subrange(t + 1, t + 1 + pat.len()));
        }
        lemma_find_str_none(d, pat);
        assert(spec_find_str(d, pat) is None);
        assert(spec_find_str(s, pat) is None);
    }
}

/// A successful find points at a real occurrence.
pub proof fn lemma_find_str_bounds(s: Seq<char>, pat: Seq<char>)
    ensures
        match spec_find_str(s, pat) {
            Some(i) => 0 <= i && i + pat.len() <= s.len() && s.subrange(i, i + pat.len()) == pat,
            None => true,
        },
    decreases s.len(),
{
    if s.len() < pat.len() {
    } else if s.subrange(0, pat.len() as int) == pat {
        assert(s.subrange(0, pat.len() as int) =~= s.subrange(0, 0 + pat.len() as int));
    } else if s.len() == 0 {
    } else {
        let d = s.drop_first();
        lemma_find_str_bounds(d, pat);
        if spec_find_str(d, pat) is Some {
            let i = spec_find_str(d, pat)->Some_0;
            assert(d.subrange(i, i + pat.len()) =~= s.subrange(i + 1, i + 1 + pat.len()));
        }
    }
}

/// A substring occurring anywhere means the find succeeds.
pub proof fn lemma_find_str_some_of_match(s: Seq<char>, pat: Seq<char>, p: int)
    requires
        0 <= p,
        p + pat.len() <= s.len(),
        s.subrange(p, p + pat.len()) == pat,
    ensures
        spec_find_str(s, pat) is Some,
    decreases p,
{
    if s.subrange(0, pat.len() as int) == pat {
    } else {
        assert(p > 0);
        assert(s.len() > 0);
        let d = s.drop_first();
        assert(d.subrange(p - 1, p - 1 + pat.len()) =~= s.subrange(p, p + pat.len()));
        lemma_find_str_some_of_match(d, pat, p - 1);
    }
}

/// Index of the first occurrence of `needle` in the characters, if any.
pub fn find_str(hay: &Vec<char>, needle: &str) -> (r: Option<usize>)
    ensures
        match r {
            Some(i) => spec_find_str(hay@, needle@) == Some(i as int),
            None => spec_find_str(hay@, needle@) is None,
        },
{
    let n = hay.len();
    let m = needle.unicode_len();
    if m > n {
        proof {
            lemma_find_str_none(hay@, needle@);
        }
        return None;
    }
    if m == 0 {
        proof {
            assert(hay@.subrange(0, 0 + needle@.len() as int) =~= needle@);
        }
        return Some(0);
    }
    let mut i: usize = 0;
    while i <= n - m
        invariant
            n == hay@.len(),
            m == needle@.len(),
            1 <= m <= n,
            i <= n - m + 1,
            forall|t: int| 0 <= t < i ==> #[trigger] hay@.subrange(t, t + m) != needle@,
        decreases n - i,
    {
        if match_at(hay, i, needle) {
            proof {
                lemma_find_str_is(hay@, needle@, i as int);
            }
            return Some(i);
        }
        i += 1;
    }
    proof {
        lemma_find_str_none(hay@, needle@);
    }
    None
}

/// ASCII whitespace as the protocol uses it.
pub open spec fn spec_is_ws(c: char) -> bool {
    c == ' ' || c == '\t' || c == '\r' || c == '\n'
}

/// The sequence with leading whitespace removed.
pub open spec fn spec_trim_start(s: Seq<char>) -> Seq<char>
    decreases s.len(),
{
    if s.len() > 0 && spec_is_ws(s[0]) {
        spec_trim_start(s.drop_first())
    } else {
        s
    }
}

/// The sequence with trailing whitespace removed.
pub open spec fn spec_trim_end(s: Seq<char>) -> Seq<char>
    decreases s.len(),
{
    if s.len() > 0 && spec_is_ws(s.last()) {
        spec_trim_end(s.drop_last())
    } else {
        s
    }
}

/// The sequence with whitespace removed from both ends.
pub open spec fn spec_trim(s: Seq<char>) -> Seq<char> {
    spec_trim_end(spec_trim_start(s))
}

proof fn lemma_trim_start_skip(s: Seq<char>, k: int)
    requires
        0 <= k <= s.len(),
        forall|j: int| 0 <= j < k ==> spec_is_ws(s[j]),
        k == s.len() || !spec_is_ws(s[k]),
    ensures
        spec_trim_start(s) == s.skip(k),
    decreases k,
{
    if k == 0 {
        assert(s.skip(0) =~= s);
    } else {
        lemma_trim_start_skip(s.drop_first(), k - 1);
        assert(s.drop_first().skip(k - 1) =~= s.skip(k));
    }
}

proof fn lemma_trim_end_take(s: Seq<char>, k: int)
    requires
        0 <= k <= s.len(),
        forall|j: int| k <= j < s.len() ==> spec_is_ws(s[j]),
        k == 0 || !spec_is_ws(s[k - 1]),
    ensures
        spec_trim_end(s) == s.take(k),
    decreases s.len() - k,
{
    if k == s.len() {
        assert(s.take(k) =~= s);
    } else {
        lemma_trim_end_take(s.drop_last(), k);
        assert(s.drop_last().take(k) =~= s.take(k));
    }
}

/// Removing leading whitespace leaves a suffix.
proof fn lemma_trim_start_is_skip(s: Seq<char>)
    ensures
        exists|a: int| 0 <= a <= s.len() && spec_trim_start(s) == #[trigger] s.skip(a),
    decreases s.len(),
{
    if s.len() > 0 && spec_is_ws(s[0]) {
        let d = s.drop_first();
        lemma_trim_start_is_skip(d);
        let a = choose|a: int| 0 <= a <= d.len() && spec_trim_start(d) == #[trigger] d.skip(a);
        assert(d.skip(a) =~= s.skip(a + 1));
        assert(spec_trim_start(s) == s.skip(a + 1));
    } else {
        assert(s.skip(0) =~= s);
    }
}

/// Removing trailing whitespace leaves a prefix.
proof fn lemma_trim_end_is_take(s: Seq<char>)
    ensures
        exists|b: int| 0 <= b <= s.len() && spec_trim_end(s) == #[trigger] s.take(b),
    decreases s.len(),
{
    if s.len() > 0 && spec_is_ws(s.last()) {
        let d = s.drop_last();
        lemma_trim_end_is_take(d);
        let b = choose|b: int| 0 <= b <= d.len() && spec_trim_end(d) == #[trigger] d.take(b);
        assert(d.take(b) =~= s.take(b));
        assert(spec_trim_end(s) == s.take(b));
    } else {
        assert(s.take(s.len() as int) =~= s);
    }
}

/// A pattern that starts the trimmed form of `s` occurs in `s` itself.
pub proof fn lemma_trim_starts_with_find(s: Seq<char>, pat: Seq<char>)
    requires
        spec_starts_with(spec_trim(s), pat),
    ensures
        spec_find_str(s, pat) is Some,
{
    lemma_trim_start_is_skip(s);
    let a = choose|a: int| 0 <= a <= s.len() && spec_trim_start(s) == #[trigger] s.skip(a);
    let u = s.skip(a);
    lemma_trim_end_is_take(u);
    let b = choose|b: int| 0 <= b <= u.len() && spec_trim_end(u) == #[trigger] u.take(b);
    assert(spec_trim(s) == u.take(b));
    assert(pat.len() <= b);
    assert(s.subrange(a, a + pat.len()) =~= u.take(b).subrange(0, pat.len() as int));
    lemma_find_str_some_of_match(s, pat, a);
}

fn is_ws(c: char) -> (r: bool)
    ensures
        r == spec_is_ws(c),
{
    c == ' ' || c == '\t' || c == '\r' || c == '\n'
}

/// A copy of the characters with whitespace removed from both ends,
/// as `str::trim` removes it.
pub fn trim_chars(v: &Vec<char>) -> (r: Vec<char>)
    ensures
        r@ == spec_trim(v@),
{
    let n = v.len();
    let mut a: usize = 0;
    while a < n && is_ws(v[a])
        invariant
            n == v@.len(),
            a <= n,
            forall|j: int| 0 <= j < a ==> spec_is_ws(v@[j]),
        decreases n - a,
    {
        a += 1;
    }
    proof {
        lemma_trim_start_skip(v@, a as int);
    }
    let mut b: usize = n;
    while b > a && is_ws(v[b - 1])
        invariant
            n == v@.len(),
            a <= b <= n,
            forall|j: int| b <= j < n ==> spec_is_ws(v@[j]),
        decreases b,
    {
        b -= 1;
    }
    proof {
        let t = v@.skip(a as int);
        lemma_trim_end_take(t, b - a);
        assert(t.take(b - a) =~= v@.subrange(a as int, b as int));
    }
    sub_chars(v, a, b)
}

/// A decimal digit.
pub open spec fn spec_is_digit(c: char) -> bool {
    48 <= c as u32 && c as u32 <= 57
}

/// The numeric value of one decimal digit.
pub open spec fn spec_digit_val(c: char) -> int {
    c as u32 - 48
}

pub open spec fn spec_all_digits(s: Seq<char>) -> bool {
    forall|i: int| 0 <= i < s.len() ==> spec_is_digit(s[i])
}

/// The value of a sequence of decimal digits, most significant first.
pub open spec fn spec_digits_val(s: Seq<char>) -> int
    decreases s.len(),
{
    if s.len() == 0 {
        0
    } else {
        spec_digits_val(s.drop_last()) * 10 + spec_digit_val(s.last())
    }
}

proof fn lemma_digits_val_nonneg(s: Seq<char>)
    requires
        spec_all_digits(s),
    ensures
        spec_digits_val(s) >= 0,
    decreases s.len(),
{
    if s.len() > 0 {
        lemma_digits_val_nonneg(s.drop_last());
    }
}

/// Appending digits never lowers the value.
proof fn lemma_digits_val_prefix(s: Seq<char>, k: int)
    requires
        spec_all_digits(s),
        0 <= k <= s.len(),
    ensures
        spec_digits_val(s) >= spec_digits_val(s.take(k)),
    decreases s.len() - k,
{
    if k < s.len() {
        lemma_digits_val_prefix(s, k + 1);
        let p = s.take(k + 1);
        assert(p.drop_last() =~= s.take(k));
        lemma_digits_val_nonneg(s.take(k));
        assert(spec_digits_val(p) == spec_digits_val(s.take(k)) * 10 + spec_digit_val(p.last()));
        assert(spec_digits_val(s.take(k)) * 10 >= spec_digits_val(s.take(k))) by (nonlinear_arith)
            requires spec_digits_val(s.take(k)) >= 0;
    } else {
        assert(s.take(k) =~= s);
    }
}

/// Parse the digits of `v` from index `from` on, rejecting values above
/// `limit`: the accumulator core shared by the integer parsers.
fn parse_digits_u64(v: &Vec<char>, from: usize, limit: u64) -> (r: Option<u64>)
    requires
        from <= v@.len(),
    ensures
        ({
            let d = v@.skip(from as int);
            match r {
                Some(x) => d.len() > 0 && spec_all_digits(d) && x == spec_digits_val(d) && x
                    <= limit,
                None => d.len() == 0 || !spec_all_digits(d) || spec_digits_val(d) > limit,
            }
        }),
{
    let ghost d = v@.skip(from as int);
    let n = v.len();
    if from == n {
        return None;
    }
    let mut acc: u64 = 0;
    let mut i: usize = from;
    while i < n
        invariant
            from <= i <= n,
            n == v@.len(),
            d == v@.skip(from as int),
            forall|j: int| 0 <= j < i - from ==> spec_is_digit(d[j]),
            acc == spec_digits_val(d.take(i - from)),
            acc <= limit,
        decreases n - i,
    {
        let c = v[i];
        let u = c as u32;
        if u < 48 || u > 57 {
            proof {
                assert(d[i - from] == v@[i as int]);
            }
            return None;
        }
        let dv = (u - 48) as u64;
        let ghost prefix = d.take(i - from);
        let ghost prefix2 = d.take(i + 1 - from);
        proof {
            assert(prefix2.drop_last() =~= prefix);
            assert(prefix2.last() == v@[i as int]);
            assert(spec_digits_val(prefix2) == acc * 10 + dv);
        }
        if acc > limit / 10 || (acc == limit / 10 && dv > limit % 10) {
            proof {
                assert(acc * 10 + dv > limit) by (nonlinear_arith)
                    requires
                        dv <= 9,
                        acc > limit / 10 || (acc == limit / 10 && dv > limit % 10),
                        limit == (limit / 10) * 10 + (limit % 10),
                        0 <= limit % 10 < 10,
                        acc >= 0;
                if spec_all_digits(d) {
                    lemma_digits_val_prefix(d, i + 1 - from);
                }
            }
            return None;
        }
        proof {
            assert(acc * 10 + dv <= limit) by (nonlinear_arith)
                requires
                    dv <= 9,
                    !(acc > limit / 10),
                    !(acc == limit / 10 && dv > limit % 10),
                    limit == (limit / 10) * 10 + (limit % 10),
                    0 <= limit % 10 < 10,
                    acc >= 0;
        }
        acc = acc * 10 + dv;
        i += 1;
    }
    proof {
        assert(d.take(n - from) =~= d);
    }
    Some(acc)
}

/// Parsing a signed decimal string: an optional sign, then at least one
/// digit, with the value within `[lo, hi]`; anything else is rejected,
/// as `from_str` for the signed integer types rejects it.
pub open spec fn spec_parse_int(s: Seq<char>, lo: int, hi: int) -> Option<int> {
    if s.len() > 0 && s[0] == '-' {
        let t = s.drop_first();
        if t.len() > 0 && spec_all_digits(t) && -spec_digits_val(t) >= lo {
            Some(-spec_digits_val(t))
        } else {
            None
        }
    } else {
        let t = if s.len() > 0 && s[0] == '+' {
            s.drop_first()
        } else {
            s
        };
        if t.len() > 0 && spec_all_digits(t) && spec_digits_val(t) <= hi {
            Some(spec_digits_val(t))
        } else {
            None
        }
    }
}

/// Parsing an unsigned decimal string: no minus sign, an optional plus,
/// then at least one digit, with the value at most `hi`.
pub open spec fn spec_parse_uint(s: Seq<char>, hi: int) -> Option<int> {
    if s.len() > 0 && s[0] == '-' {
        None
    } else {
        spec_parse_int(s, 0, hi)
    }
}

/// The value `i64::from_str` would parse from these characters, if any.
pub fn parse_i64_chars(v: &Vec<char>) -> (r: Option<i64>)
    ensures
        match r {
            Some(x) => spec_parse_int(v@, -9223372036854775808, 9223372036854775807) == Some(
                x as int,
            ),
            None => spec_parse_int(v@, -9223372036854775808, 9223372036854775807) is None,
        },
{
    if v.len() > 0 && v[0] == '-' {
        proof {
            assert(v@.drop_first() =~= v@.skip(1));
        }
        match parse_digits_u64(v, 1, 9223372036854775808u64) {
            Some(m) => {
                proof {
                    lemma_digits_val_nonneg(v@.skip(1));
                }
                if m == 9223372036854775808u64 {
                    Some(i64::MIN)
                } else {
                    Some(-(m as i64))
                }
            },
            None => None,
        }
    } else {
        let from: usize = if v.len() > 0 && v[0] == '+' {
            1
        } else {
            0
        };
        proof {
            if from == 1 {
                assert(v@.drop_first() =~= v@.skip(1));
            } else {
                assert(v@ =~= v@.skip(0));
            }
        }
        match parse_digits_u64(v, from, 9223372036854775807u64) {
            Some(m) => Some(m as i64),
            None => None,
        }
    }
}

/// The value `i32::from_str` would parse from these characters, if any.
pub fn parse_i32_chars(v: &Vec<char>) -> (r: Option<i32>)
    ensures
        match r {
            Some(x) => spec_parse_int(v@, -2147483648, 2147483647) == Some(x as int),
            None => spec_parse_int(v@, -2147483648, 2147483647) is None,
        },
{
    if v.len() > 0 && v[0] == '-' {
        proof {
            assert(v@.drop_first() =~= v@.skip(1));
        }
        match parse_digits_u64(v, 1, 2147483648u64) {
            Some(m) => {
                proof {
                    lemma_digits_val_nonneg(v@.skip(1));
                }
                if m == 2147483648u64 {
                    Some(i32::MIN)
                } else {
                    Some(-(m as i32))
                }
            },
            None => None,
        }
    } else {
        let from: usize = if v.len() > 0 && v[0] == '+' {
            1
        } else {
            0
        };
        proof {
            if from == 1 {
                assert(v@.drop_first() =~= v@.skip(1));
            } else {
                assert(v@ =~= v@.skip(0));
            }
        }
        match parse_digits_u64(v, from, 2147483647u64) {
            Some(m) => Some(m as i32),
            None => None,
        }
    }
}

/// The value `u16::from_str` would parse from these characters, if any.
pub fn parse_u16_chars(v: &Vec<char>) -> (r: Option<u16>)
    ensures
        match r {
            Some(x) => spec_parse_uint(v@, 65535) == Some(x as int),
            None => spec_parse_uint(v@, 65535) is None,
        },
{
    if v.len() > 0 && v[0] == '-' {
        return None;
    }
    let from: usize = if v.len() > 0 && v[0] == '+' {
        1
    } else {
        0
    };
    proof {
        if from == 1 {
            assert(v@.drop_first() =~= v@.skip(1));
        } else {
            assert(v@ =~= v@.skip(0));
        }
    }
    match parse_digits_u64(v, from, 65535u64) {
        Some(m) => Some(m as u16),
        None => None,
    }
}

/// The character of one decimal digit.
pub open spec fn spec_digit_char(d: int) -> char {
    ((48 + d) as u8) as char
}

/// The decimal digits of a nonnegative number, most significant first,
/// without a sign and without leading zeros.
pub open spec fn spec_u64_chars(n: int) -> Seq<char>
    decreases n,
{
    if n < 10 {
        seq![spec_digit_char(n)]
    } else {
        spec_u64_chars(n / 10).push(spec_digit_char(n % 10))
    }
}

/// The decimal form of a signed number: a minus sign for negatives,
/// then the digits.
pub open spec fn spec_i64_chars(v: int) -> Seq<char> {
    if v < 0 {
        seq!['-'] + spec_u64_chars(-v)
    } else {
        spec_u64_chars(v)
    }
}

/// The decimal digits of `n`.
pub fn fmt_u64(n: u64) -> (r: Vec<char>)
    ensures
        r@ == spec_u64_chars(n as int),
{
    let mut rev: Vec<char> = Vec::new();
    let mut m: u64 = n;
    if n == 0 {
        let mut out: Vec<char> = Vec::new();
        out.push('0');
        proof {
            assert(spec_u64_chars(0) =~= seq![spec_digit_char(0)]);
            assert(spec_digit_char(0) == '0');
            assert(out@ =~= spec_u64_chars(0));
        }
        return out;
    }
    while m > 0
        invariant
            m == n || rev@.len() > 0,
            m > 0 ==> spec_u64_chars(n as int) == spec_u64_chars(m as int) + rev@.reverse(),
            m == 0 ==> spec_u64_chars(n as int) == rev@.reverse(),
        decreases m,
    {
        let ghost old_rev = rev@;
        let d = (m % 10) as u8;
        let c = (48 + d) as char;
        rev.push(c);
        proof {
            assert(c == spec_digit_char((m % 10) as int));
            assert(rev@.reverse() =~= seq![c] + old_rev.reverse());
        }
        let m2 = m / 10;
        proof {
            if m >= 10 {
                assert(spec_u64_chars(m as int) == spec_u64_chars(m as int / 10).push(
                    spec_digit_char(m as int % 10),
                ));
                assert(m as int / 10 == m2 as int);
                assert(spec_u64_chars(m2 as int).push(c) + old_rev.reverse() =~= spec_u64_chars(
                    m2 as int,
                ) + (seq![c] + old_rev.reverse()));
            } else {
                assert(spec_u64_chars(m as int) =~= seq![c]);
                assert(m2 == 0);
                assert(seq![c] + old_rev.reverse() =~= rev@.reverse());
            }
        }
        m = m2;
    }
    let mut out: Vec<char> = Vec::new();
    let mut i: usize = rev.len();
    while i > 0
        invariant
            i <= rev@.len(),
            out@.len() == rev@.len() - i,
            forall|j: int| 0 <= j < out@.len() ==> out@[j] == rev@[rev@.len() - 1 - j],
        decreases i,
    {
        i -= 1;
        out.push(rev[i]);
    }
    proof {
        assert(out@ =~= rev@.reverse());
    }
    out
}

/// The decimal form of `x`, as `i64`'s `Display` writes it.
pub fn fmt_i64(x: i64) -> (r: Vec<char>)
    ensures
        r@ == spec_i64_chars(x as int),
{
    if x >= 0 {
        fmt_u64(x as u64)
    } else {
        let mag: u64 = (-(x as i128)) as u64;
        proof {
            assert(mag as int == -(x as int));
        }
        let mut out: Vec<char> = Vec::new();
        out.push('-');
        let mut digits = fmt_u64(mag);
        out.append(&mut digits);
        proof {
            assert(out@ =~= seq!['-'] + spec_u64_chars(mag as int));
        }
        out
    }
}

/// The decimal form of `x` as a string.
pub fn fmt_i64_string(x: i64) -> (r: String)
    ensures
        r@ == spec_i64_chars(x as int),
{
    let v = fmt_i64(x);
    chars_to_string(&v)
}

} // verus!
