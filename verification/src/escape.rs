//! Escaped-string encoding for command parameters: backslash, space and
//! forward slash are written as `\\`, `\s` and `\/`; decoding reverses
//! the sequences. Escaping works per character, so the backslashes it
//! inserts are never escaped again.
use crate::strutil::push_char;
use crate::strutil::str_to_chars;
use vstd::prelude::*;

verus! {

/// How one character is written inside a command parameter.
pub open spec fn spec_escape_char(c: char) -> Seq<char> {
    if c == '\\' {
        seq!['\\', '\\']
    } else if c == ' ' {
        seq!['\\', 's']
    } else if c == '/' {
        seq!['\\', '/']
    } else {
        seq![c]
    }
}

/// The escaped form of a whole string.
pub open spec fn spec_escape(s: Seq<char>) -> Seq<char>
    decreases s.len(),
{
    if s.len() == 0 {
        Seq::empty()
    } else {
        spec_escape_char(s[0]) + spec_escape(s.drop_first())
    }
}

/// The decoded form of an escaped string: a backslash followed by
/// another character stands for that character, with `\s` standing for a
/// space; everything else stands for itself.
pub open spec fn spec_unescape(s: Seq<char>) -> Seq<char>
    decreases s.len(),
{
    if s.len() == 0 {
        Seq::empty()
    } else if s[0] == '\\' && s.len() >= 2 {
        let c = if s[1] == 's' {
            ' '
        } else {
            s[1]
        };
        seq![c] + spec_unescape(s.skip(2))
    } else {
        seq![s[0]] + spec_unescape(s.drop_first())
    }
}

pub proof fn lemma_escape_append(a: Seq<char>, b: Seq<char>)
    ensures
        spec_escape(a + b) == spec_escape(a) + spec_escape(b),
    decreases a.len(),
{
    if a.len() == 0 {
        assert(a + b =~= b);
        assert(spec_escape(a) + spec_escape(b) =~= spec_escape(b));
    } else {
        lemma_escape_append(a.drop_first(), b);
        assert((a + b).drop_first() =~= a.drop_first() + b);
        assert((a + b)[0] == a[0]);
        assert(spec_escape_char(a[0]) + (spec_escape(a.drop_first()) + spec_escape(b))
            =~= (spec_escape_char(a[0]) + spec_escape(a.drop_first())) + spec_escape(b));
    }
}

/// A single-character replacement, as `str::replace` performs it for a
/// one-character pattern: every occurrence becomes the replacement text.
pub open spec fn spec_replace_char(s: Seq<char>, from: char, to: Seq<char>) -> Seq<char>
    decreases s.len(),
{
    if s.len() == 0 {
        Seq::empty()
    } else if s[0] == from {
        to + spec_replace_char(s.drop_first(), from, to)
    } else {
        seq![s[0]] + spec_replace_char(s.drop_first(), from, to)
    }
}

proof fn lemma_replace_append(a: Seq<char>, b: Seq<char>, from: char, to: Seq<char>)
    ensures
        spec_replace_char(a + b, from, to) == spec_replace_char(a, from, to) + spec_replace_char(
            b,
            from,
            to,
        ),
    decreases a.len(),
{
    if a.len() == 0 {
        assert(a + b =~= b);
        assert(spec_replace_char(a, from, to) + spec_replace_char(b, from, to)
            =~= spec_replace_char(b, from, to));
    } else {
        lemma_replace_append(a.drop_first(), b, from, to);
        assert((a + b).drop_first() =~= a.drop_first() + b);
        assert((a + b)[0] == a[0]);
        let ra = spec_replace_char(a.drop_first(), from, to);
        let rb = spec_replace_char(b, from, to);
        if a[0] == from {
            assert(to + (ra + rb) =~= (to + ra) + rb);
        } else {
            assert(seq![a[0]] + (ra + rb) =~= (seq![a[0]] + ra) + rb);
        }
    }
}

proof fn lemma_replace_absent(a: Seq<char>, from: char, to: Seq<char>)
    requires
        forall|i: int| 0 <= i < a.len() ==> a[i] != from,
    ensures
        spec_replace_char(a, from, to) == a,
    decreases a.len(),
{
    if a.len() > 0 {
        lemma_replace_absent(a.drop_first(), from, to);
        assert(seq![a[0]] + a.drop_first() =~= a);
    }
}

/// Escaping equals the three single-character replacements applied in
/// order — backslash into `\\` first, then space into `\s`, then slash
/// into `\/` — because the backslashes the first replacement inserts
/// are neither spaces nor slashes and so are never replaced again.
pub proof fn lemma_escape_is_replace_chain(s: Seq<char>)
    ensures
        spec_escape(s) == spec_replace_char(
            spec_replace_char(spec_replace_char(s, '\\', "\\\\"@), ' ', "\\s"@),
            '/',
            "\\/"@,
        ),
    decreases s.len(),
{
    reveal_strlit("\\\\");
    reveal_strlit("\\s");
    reveal_strlit("\\/");
    let p1: Seq<char> = "\\\\"@;
    let p2: Seq<char> = "\\s"@;
    let p3: Seq<char> = "\\/"@;
    if s.len() == 0 {
    } else {
        lemma_escape_is_replace_chain(s.drop_first());
        let c = s[0];
        let t = s.drop_first();
        let r1t = spec_replace_char(t, '\\', p1);
        let e1c: Seq<char> = if c == '\\' {
            p1
        } else {
            seq![c]
        };
        assert(spec_replace_char(s, '\\', p1) == e1c + r1t);
        lemma_replace_append(e1c, r1t, ' ', p2);
        let e2c = spec_replace_char(e1c, ' ', p2);
        lemma_replace_append(e2c, spec_replace_char(r1t, ' ', p2), '/', p3);
        let e3c = spec_replace_char(e2c, '/', p3);
        if c == '\\' {
            assert(e1c =~= seq!['\\', '\\']);
            lemma_replace_absent(e1c, ' ', p2);
            lemma_replace_absent(e1c, '/', p3);
            assert(e3c =~= spec_escape_char(c));
        } else if c == ' ' {
            assert(e1c.drop_first() =~= Seq::<char>::empty());
            assert(spec_replace_char(Seq::<char>::empty(), ' ', p2) == Seq::<char>::empty());
            assert(e2c =~= p2 + Seq::<char>::empty());
            assert(e2c =~= seq!['\\', 's']);
            lemma_replace_absent(e2c, '/', p3);
            assert(e3c =~= spec_escape_char(c));
        } else if c == '/' {
            assert(e1c.drop_first() =~= Seq::<char>::empty());
            assert(spec_replace_char(Seq::<char>::empty(), ' ', p2) == Seq::<char>::empty());
            assert(e2c =~= seq![c] + Seq::<char>::empty());
            assert(e2c.drop_first() =~= Seq::<char>::empty());
            assert(spec_replace_char(Seq::<char>::empty(), '/', p3) == Seq::<char>::empty());
            assert(e3c =~= p3 + Seq::<char>::empty());
            assert(e3c =~= spec_escape_char(c));
        } else {
            lemma_replace_absent(e1c, ' ', p2);
            lemma_replace_absent(e1c, '/', p3);
            assert(e3c =~= spec_escape_char(c));
        }
        assert(spec_escape(s) =~= e3c + spec_escape(t));
    }
}

/// Decoding inverts encoding: escaping first doubles backslashes, so
/// the backslashes inserted for spaces and slashes are never themselves
/// re-escaped, and every character round-trips.
pub proof fn lemma_unescape_escape(s: Seq<char>)
    ensures
        spec_unescape(spec_escape(s)) == s,
    decreases s.len(),
{
    if s.len() == 0 {
    } else {
        lemma_unescape_escape(s.drop_first());
        let c = s[0];
        let e = spec_escape(s.drop_first());
        let ec = spec_escape_char(c);
        assert(spec_escape(s) == ec + e);
        if c == '\\' || c == ' ' || c == '/' {
            assert((ec + e)[0] == '\\');
            assert((ec + e)[1] == ec[1]);
            assert((ec + e).skip(2) =~= e);
            assert(seq![c] + s.drop_first() =~= s);
        } else {
            assert((ec + e)[0] == c);
            assert((ec + e).drop_first() =~= e);
            assert(seq![c] + s.drop_first() =~= s);
        }
    }
}

/// The escaped form of `s`, for embedding in a command line.
pub fn escape(s: &str) -> (r: String)
    ensures
        r@ == spec_escape(s@),
{
    let v = str_to_chars(s);
    let n = v.len();
    let mut out = String::new();
    let mut i: usize = 0;
    while i < n
        invariant
            n == v@.len(),
            v@ == s@,
            i <= n,
            out@ == spec_escape(v@.take(i as int)),
        decreases n - i,
    {
        let ghost old_out = out@;
        let c = v[i];
        if c == '\\' {
            push_char(&mut out, '\\');
            push_char(&mut out, '\\');
        } else if c == ' ' {
            push_char(&mut out, '\\');
            push_char(&mut out, 's');
        } else if c == '/' {
            push_char(&mut out, '\\');
            push_char(&mut out, '/');
        } else {
            push_char(&mut out, c);
        }
        proof {
            lemma_escape_append(v@.take(i as int), seq![c]);
            assert(v@.take(i + 1 as int) =~= v@.take(i as int) + seq![c]);
            assert(seq![c].drop_first() =~= Seq::<char>::empty());
            assert(spec_escape(Seq::<char>::empty()) == Seq::<char>::empty());
            assert(spec_escape(seq![c]) =~= spec_escape_char(c));
            assert(out@ =~= old_out + spec_escape_char(c));
        }
        i += 1;
    }
    proof {
        assert(v@.take(n as int) =~= v@);
    }
    out
}

/// The decoded form of `s`, reversing the escape sequences.
pub fn unescape(s: &str) -> (r: String)
    ensures
        r@ == spec_unescape(s@),
{
    let v = str_to_chars(s);
    let u = unescape_chars(&v);
    crate::strutil::chars_to_string(&u)
}

/// The decoded characters of an escaped value.
pub fn unescape_chars(v: &Vec<char>) -> (r: Vec<char>)
    ensures
        r@ == spec_unescape(v@),
{
    let n = v.len();
    let mut out: Vec<char> = Vec::new();
    let mut i: usize = 0;
    proof {
        assert(v@.skip(0) =~= v@);
        assert(out@ + spec_unescape(v@) =~= spec_unescape(v@));
    }
    while i < n
        invariant
            n == v@.len(),
            i <= n,
            spec_unescape(v@) == out@ + spec_unescape(v@.skip(i as int)),
        decreases n - i,
    {
        let ghost old_out = out@;
        let ghost tail = v@.skip(i as int);
        let c = v[i];
        if c == '\\' && i + 1 < n {
            let next = v[i + 1];
            let dec = if next == 's' {
                ' '
            } else {
                next
            };
            out.push(dec);
            proof {
                assert(tail[0] == '\\');
                assert(tail[1] == next);
                assert(tail.skip(2) =~= v@.skip(i + 2 as int));
                assert(spec_unescape(tail) == seq![dec] + spec_unescape(v@.skip(i + 2 as int)));
                assert(old_out + (seq![dec] + spec_unescape(v@.skip(i + 2 as int))) =~= out@
                    + spec_unescape(v@.skip(i + 2 as int)));
            }
            i += 2;
        } else {
            out.push(c);
            proof {
                assert(tail[0] == c);
                assert(tail.len() < 2 || tail[0] != '\\');
                assert(tail.drop_first() =~= v@.skip(i + 1 as int));
                assert(spec_unescape(tail) == seq![c] + spec_unescape(v@.skip(i + 1 as int)));
                assert(old_out + (seq![c] + spec_unescape(v@.skip(i + 1 as int))) =~= out@
                    + spec_unescape(v@.skip(i + 1 as int)));
            }
            i += 1;
        }
    }
    proof {
        assert(v@.skip(n as int) =~= Seq::<char>::empty());
        assert(out@ + Seq::<char>::empty() =~= out@);
    }
    out
}

} // verus!
