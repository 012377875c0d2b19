//! Reply decoding: a reply is zero or more data lines followed by one
//! terminal status line `error id=<int> msg=<text>`. The first data
//! line may hold several records separated by `|`.
use crate::datastructures::spec_status_of_line;
use crate::datastructures::FromQueryString;
use crate::datastructures::QueryError;
use crate::datastructures::QueryResult;
use crate::datastructures::QueryStatus;
use crate::strutil::chars_start_with;
use crate::strutil::chars_to_string;
use crate::strutil::lemma_split_len;
use crate::strutil::lemma_trim_starts_with_find;
use crate::strutil::spec_split;
use crate::strutil::spec_starts_with;
use crate::strutil::spec_trim;
use crate::strutil::split_chars;
use crate::strutil::str_to_chars;
use crate::strutil::sub_chars;
use crate::strutil::trim_chars;
use vstd::prelude::*;

verus! {

/// A carriage return left by splitting `\r\n` on `\n`.
pub open spec fn spec_strip_cr(s: Seq<char>) -> Seq<char> {
    if s.len() > 0 && s.last() == '\r' {
        s.drop_last()
    } else {
        s
    }
}

/// The lines of a reply, as `str::lines` yields them: split on `\n`,
/// a `\r` before each `\n` removed, and no empty final line after a
/// terminating newline.
pub open spec fn spec_lines(s: Seq<char>) -> Seq<Seq<char>> {
    let parts = spec_split(s, '\n');
    let full = parts.take(parts.len() - 1).map_values(|p: Seq<char>| spec_strip_cr(p));
    if parts.last().len() == 0 {
        full
    } else {
        full + seq![parts.last()]
    }
}

fn strip_cr(v: &Vec<char>) -> (r: Vec<char>)
    ensures
        r@ == spec_strip_cr(v@),
{
    let n = v.len();
    if n > 0 && v[n - 1] == '\r' {
        let r = sub_chars(v, 0, n - 1);
        proof {
            assert(r@ =~= v@.drop_last());
        }
        r
    } else {
        sub_chars(v, 0, n)
    }
}

/// The lines of a reply.
pub fn lines_of(v: &Vec<char>) -> (r: Vec<Vec<char>>)
    ensures
        r.deep_view() == spec_lines(v@),
{
    let parts = split_chars(v, '\n');
    let ghost pd = parts.deep_view();
    let n = parts.len();
    proof {
        lemma_split_len(v@, '\n');
    }
    let mut out: Vec<Vec<char>> = Vec::new();
    let mut k: usize = 0;
    while k < n - 1
        invariant
            n == parts@.len(),
            n >= 1,
            pd == parts.deep_view(),
            pd.len() == n,
            k <= n - 1,
            out.deep_view().len() == k,
            forall|j: int| 0 <= j < k ==> out.deep_view()[j] == spec_strip_cr(pd[j]),
        decreases n - 1 - k,
    {
        let ghost old_out = out.deep_view();
        proof {
            assert(pd[k as int] =~= parts@[k as int]@);
        }
        let stripped = strip_cr(&parts[k]);
        out.push(stripped);
        proof {
            assert(out.deep_view() =~~= old_out.push(spec_strip_cr(pd[k as int])));
        }
        k += 1;
    }
    let last = &parts[n - 1];
    proof {
        assert(pd[n - 1] =~= parts@[n - 1 as int]@);
        assert(pd.last() == pd[n - 1]);
    }
    if last.len() > 0 {
        let ghost old_out = out.deep_view();
        let copy = sub_chars(last, 0, last.len());
        proof {
            assert(copy@ =~= pd.last());
        }
        out.push(copy);
        proof {
            assert(out.deep_view() =~~= old_out.push(pd.last()));
        }
    }
    proof {
        let full = pd.take(pd.len() - 1).map_values(|p: Seq<char>| spec_strip_cr(p));
        if pd.last().len() == 0 {
            assert(out.deep_view() =~~= full);
        } else {
            assert(out.deep_view() =~~= full + seq![pd.last()]);
        }
    }
    out
}

/// A line carrying the reply's terminal status, after trimming.
pub open spec fn spec_is_status_line(line: Seq<char>) -> bool {
    spec_starts_with(spec_trim(line), "error "@)
}

/// The first status line of a reply, if any.
pub open spec fn spec_find_status(lines: Seq<Seq<char>>) -> Option<Seq<char>>
    decreases lines.len(),
{
    if lines.len() == 0 {
        None
    } else if spec_is_status_line(lines[0]) {
        Some(lines[0])
    } else {
        spec_find_status(lines.drop_first())
    }
}

/// The first line that is not a status line: the reply's data line, if
/// any. The check is on the raw line, without trimming.
pub open spec fn spec_find_data(lines: Seq<Seq<char>>) -> Option<Seq<char>>
    decreases lines.len(),
{
    if lines.len() == 0 {
        None
    } else if !spec_starts_with(lines[0], "error "@) {
        Some(lines[0])
    } else {
        spec_find_data(lines.drop_first())
    }
}

/// Scan a reply for its status line and interpret it: a reply without
/// one is an error of its own; a status with `id == 0` passes the whole
/// content through; any other id is the request's terminal outcome.
pub fn decode_status(content: String) -> (r: QueryResult<String>)
    ensures
        ({
            let lines = spec_lines(content@);
            match spec_find_status(lines) {
                None => r is Err && r->Err_0@.code == -4 && r->Err_0@.message
                    == "Status line not found"@,
                Some(line) => match spec_status_of_line(line) {
                    None => r is Err && r->Err_0@.code == -6 && r->Err_0@.message
                        == "Parse status line error"@,
                    Some(st) => if st.id == 0 {
                        r is Ok && r->Ok_0@ == content@
                    } else {
                        r is Err && r->Err_0@.code == st.id && r->Err_0@.message == st.msg
                    },
                },
            }
        }),
{
    let chars = str_to_chars(content.as_str());
    let lines = lines_of(&chars);
    let ghost ls = lines.deep_view();
    let n = lines.len();
    let mut k: usize = 0;
    proof {
        assert(ls.skip(0) =~= ls);
    }
    while k < n
        invariant
            n == lines@.len(),
            ls == lines.deep_view(),
            ls.len() == n,
            ls == spec_lines(content@),
            k <= n,
            spec_find_status(ls) == spec_find_status(ls.skip(k as int)),
        decreases n - k,
    {
        let line = &lines[k];
        proof {
            assert(ls[k as int] =~= line@);
            assert(ls.skip(k as int)[0] == ls[k as int]);
            assert(ls.skip(k as int).drop_first() =~= ls.skip(k + 1 as int));
        }
        let t = trim_chars(line);
        if chars_start_with(&t, "error ") {
            proof {
                lemma_trim_starts_with_find(line@, "error "@);
            }
            let line_str = chars_to_string(line);
            match QueryStatus::try_from_line(line_str.as_str()) {
                Ok(status) => {
                    return status.into_result(content);
                },
                Err(e) => {
                    return Err(e);
                },
            }
        }
        k += 1;
    }
    proof {
        assert(ls.skip(n as int) =~= Seq::<Seq<char>>::empty());
    }
    Err(QueryError::status_not_found())
}

/// The views of the elements of a sequence.
pub open spec fn views_of<T: View>(s: Seq<T>) -> Seq<T::V> {
    Seq::new(s.len(), |i: int| s[i]@)
}

/// All segments of a data line parsed as records of `T`, in order, or
/// nothing if any segment is rejected.
pub open spec fn spec_parse_segments<T: FromQueryString>(segs: Seq<Seq<char>>) -> Option<
    Seq<T::V>,
>
    decreases segs.len(),
{
    if segs.len() == 0 {
        Some(Seq::empty())
    } else {
        match T::spec_from_query(segs[0]) {
            Some(v) => match spec_parse_segments::<T>(segs.drop_first()) {
                Some(rest) => Some(seq![v] + rest),
                None => None,
            },
            None => None,
        }
    }
}

pub proof fn lemma_parse_segments<T: FromQueryString>(segs: Seq<Seq<char>>)
    ensures
        spec_parse_segments::<T>(segs) is Some <==> (forall|j: int|
            0 <= j < segs.len() ==> T::spec_from_query(segs[j]) is Some),
        spec_parse_segments::<T>(segs) is Some ==> spec_parse_segments::<T>(segs)->Some_0
            == Seq::new(segs.len(), |j: int| T::spec_from_query(segs[j])->Some_0),
    decreases segs.len(),
{
    if segs.len() == 0 {
        if spec_parse_segments::<T>(segs) is Some {
            assert(spec_parse_segments::<T>(segs)->Some_0 =~= Seq::new(
                segs.len(),
                |j: int| T::spec_from_query(segs[j])->Some_0,
            ));
        }
    } else {
        let rest = segs.drop_first();
        lemma_parse_segments::<T>(rest);
        assert(forall|j: int| 0 <= j < rest.len() ==> rest[j] == segs[j + 1]);
        if T::spec_from_query(segs[0]) is Some && spec_parse_segments::<T>(rest) is Some {
            assert(forall|j: int|
                1 <= j < segs.len() ==> T::spec_from_query(#[trigger] segs[j]) is Some) by {
                assert(forall|j: int|
                    1 <= j < segs.len() ==> #[trigger] segs[j] == rest[j - 1]);
            }
            assert(spec_parse_segments::<T>(segs)->Some_0 =~= Seq::new(
                segs.len(),
                |j: int| T::spec_from_query(segs[j])->Some_0,
            ));
        } else if T::spec_from_query(segs[0]) is Some {
            let j = choose|j: int|
                0 <= j < rest.len() && !(T::spec_from_query(rest[j]) is Some);
            assert(segs[j + 1] == rest[j]);
        }
    }
}

/// Parse every `|`-separated segment of one data line: exactly one
/// record per segment, in order.
fn parse_rows<T: FromQueryString>(line: &Vec<char>) -> (r: Result<Vec<T>, QueryError>)
    ensures
        ({
            let segs = spec_split(line@, '|');
            match r {
                Ok(vs) => {
                    &&& spec_parse_segments::<T>(segs) == Some(views_of(vs@))
                    &&& vs@.len() == segs.len()
                    &&& forall|j: int|
                        0 <= j < segs.len() ==> T::spec_from_query(segs[j]) == Some(vs@[j]@)
                },
                Err(e) => {
                    &&& spec_parse_segments::<T>(segs) is None
                    &&& e@.code == -6
                    &&& exists|k: int|
                        {
                            &&& 0 <= k < segs.len()
                            &&& #[trigger] T::spec_from_query(segs[k]) is None
                            &&& forall|j: int| 0 <= j < k ==> T::spec_from_query(segs[j]) is Some
                            &&& e@.message == "Got parser error, original => "@ + segs[k]
                        }
                },
            }
        }),
{
    let segs = split_chars(line, '|');
    let ghost sd = segs.deep_view();
    let n = segs.len();
    let mut out: Vec<T> = Vec::new();
    let mut k: usize = 0;
    while k < n
        invariant
            n == segs@.len(),
            sd == segs.deep_view(),
            sd.len() == n,
            sd == spec_split(line@, '|'),
            k <= n,
            out@.len() == k,
            forall|j: int| 0 <= j < k ==> T::spec_from_query(sd[j]) == Some(out@[j]@),
        decreases n - k,
    {
        proof {
            assert(sd[k as int] =~= segs@[k as int]@);
        }
        let seg_str = chars_to_string(&segs[k]);
        match T::from_query(seg_str.as_str()) {
            Ok(v) => {
                out.push(v);
            },
            Err(e) => {
                proof {
                    lemma_parse_segments::<T>(sd);
                }
                return Err(e);
            },
        }
        k += 1;
    }
    proof {
        lemma_parse_segments::<T>(sd);
        assert(views_of(out@) =~= Seq::new(sd.len(), |j: int| T::spec_from_query(sd[j])->Some_0));
    }
    Ok(out)
}

/// Decode a reply into its rows: the status must be success; the first
/// non-status line, when present, holds one record per `|`-separated
/// segment, in order. A reply whose status is success but which has no
/// data line at all decodes to `None`, which is distinct from a data
/// line holding records.
#[verifier::loop_isolation(false)]
pub fn decode_status_with_result<T: FromQueryString>(data: String) -> (r: QueryResult<
    Option<Vec<T>>,
>)
    ensures
        ({
            let lines = spec_lines(data@);
            match spec_find_status(lines) {
                None => r is Err && r->Err_0@.code == -4 && r->Err_0@.message
                    == "Status line not found"@,
                Some(line) => match spec_status_of_line(line) {
                    None => r is Err && r->Err_0@.code == -6 && r->Err_0@.message
                        == "Parse status line error"@,
                    Some(st) => if st.id != 0 {
                        r is Err && r->Err_0@.code == st.id && r->Err_0@.message == st.msg
                    } else {
                        match spec_find_data(lines) {
                            None => r is Ok && r->Ok_0 is None,
                            Some(d) => match spec_parse_segments::<T>(spec_split(d, '|')) {
                                Some(vs) => {
                                    &&& r is Ok
                                    &&& r->Ok_0 is Some
                                    &&& views_of(r->Ok_0->Some_0@) == vs
                                    &&& r->Ok_0->Some_0@.len() == spec_split(d, '|').len()
                                    &&& forall|j: int|
                                        0 <= j < spec_split(d, '|').len()
                                            ==> T::spec_from_query(#[trigger] spec_split(d, '|')[j])
                                            == Some(r->Ok_0->Some_0@[j]@)
                                },
                                None => {
                                    &&& r is Err
                                    &&& r->Err_0@.code == -6
                                    &&& exists|k: int|
                                        {
                                            &&& 0 <= k < spec_split(d, '|').len()
                                            &&& #[trigger] T::spec_from_query(
                                                spec_split(d, '|')[k],
                                            ) is None
                                            &&& forall|j: int|
                                                0 <= j < k ==> T::spec_from_query(
                                                    spec_split(d, '|')[j],
                                                ) is Some
                                            &&& r->Err_0@.message
                                                == "Got parser error, original => "@ + spec_split(
                                                d,
                                                '|',
                                            )[k]
                                        }
                                },
                            },
                        }
                    },
                },
            }
        }),
{
    let ghost orig = data@;
    let content = match decode_status(data) {
        Ok(c) => c,
        Err(e) => {
            return Err(e);
        },
    };
    let chars = str_to_chars(content.as_str());
    let lines = lines_of(&chars);
    let ghost ls = lines.deep_view();
    let n = lines.len();
    let mut k: usize = 0;
    proof {
        assert(ls.skip(0) =~= ls);
    }
    while k < n
        invariant
            n == lines@.len(),
            ls == lines.deep_view(),
            ls.len() == n,
            ls == spec_lines(orig),
            k <= n,
            spec_find_data(ls) == spec_find_data(ls.skip(k as int)),
            spec_find_status(ls) is Some,
            spec_status_of_line(spec_find_status(ls)->Some_0) is Some,
            spec_status_of_line(spec_find_status(ls)->Some_0)->Some_0.id == 0,
        decreases n - k,
    {
        let line = &lines[k];
        proof {
            assert(ls[k as int] =~= line@);
            assert(ls.skip(k as int)[0] == ls[k as int]);
            assert(ls.skip(k as int).drop_first() =~= ls.skip(k + 1 as int));
        }
        if !chars_start_with(line, "error ") {
            proof {
                assert(!spec_starts_with(ls[k as int], "error "@));
                assert(spec_find_data(ls.skip(k as int)) == Some(ls[k as int]));
                assert(spec_find_data(ls) == Some(line@));
            }
            match parse_rows::<T>(line) {
                Ok(vs) => {
                    return Ok(Some(vs));
                },
                Err(e) => {
                    return Err(e);
                },
            }
        }
        k += 1;
    }
    proof {
        assert(ls.skip(n as int) =~= Seq::<Seq<char>>::empty());
    }
    Ok(None)
}

/// Whether an accumulated read buffer already holds a line that starts
/// with the terminal marker `error id=`: the read loop stops here.
pub fn has_terminal_line(buf: &str) -> (r: bool)
    ensures
        r == exists|i: int|
            0 <= i < spec_lines(buf@).len() && spec_starts_with(
                #[trigger] spec_lines(buf@)[i],
                "error id="@,
            ),
{
    let chars = str_to_chars(buf);
    let lines = lines_of(&chars);
    let ghost ls = lines.deep_view();
    let n = lines.len();
    let mut k: usize = 0;
    while k < n
        invariant
            n == lines@.len(),
            ls == lines.deep_view(),
            ls.len() == n,
            ls == spec_lines(buf@),
            k <= n,
            forall|j: int| 0 <= j < k ==> !spec_starts_with(#[trigger] ls[j], "error id="@),
        decreases n - k,
    {
        proof {
            assert(ls[k as int] =~= lines@[k as int]@);
        }
        if chars_start_with(&lines[k], "error id=") {
            return true;
        }
        k += 1;
    }
    false
}

/// As `has_terminal_line`, but each line is trimmed first, as the
/// gathering read after a write checks it.
pub fn has_terminal_line_trimmed(buf: &str) -> (r: bool)
    ensures
        r == exists|i: int|
            0 <= i < spec_lines(buf@).len() && spec_starts_with(
                spec_trim(#[trigger] spec_lines(buf@)[i]),
                "error id="@,
            ),
{
    let chars = str_to_chars(buf);
    let lines = lines_of(&chars);
    let ghost ls = lines.deep_view();
    let n = lines.len();
    let mut k: usize = 0;
    while k < n
        invariant
            n == lines@.len(),
            ls == lines.deep_view(),
            ls.len() == n,
            ls == spec_lines(buf@),
            k <= n,
            forall|j: int|
                0 <= j < k ==> !spec_starts_with(spec_trim(#[trigger] ls[j]), "error id="@),
        decreases n - k,
    {
        proof {
            assert(ls[k as int] =~= lines@[k as int]@);
        }
        let t = trim_chars(&lines[k]);
        if chars_start_with(&t, "error id=") {
            return true;
        }
        k += 1;
    }
    false
}

} // verus!
