//! The protocol client's pure half: one payload builder and one reply
//! decoder per admin command, and the cross-referencing rules built on
//! them. The transport (one write, then one gathered read per request)
//! stays outside; everything here is a function of the bytes handed in.
use crate::codec::decode_status;
use crate::codec::decode_status_with_result;
use crate::codec::spec_find_data;
use crate::codec::spec_find_status;
use crate::codec::spec_lines;
use crate::codec::spec_parse_segments;
use crate::codec::views_of;
use crate::datastructures::spec_debug_str;
use crate::datastructures::spec_status_of_line;
use crate::datastructures::Channel;
use crate::datastructures::ChannelView;
use crate::datastructures::Client;
use crate::datastructures::ClientEdit;
use crate::datastructures::ClientVariable;
use crate::datastructures::ClientView;
use crate::datastructures::FromQueryString;
use crate::datastructures::QueryError;
use crate::datastructures::QueryResult;
use crate::escape::escape;
use crate::escape::spec_escape;
use crate::strutil::chars_eq_str;
use crate::strutil::fmt_i64_string;
use crate::strutil::lemma_split_len;
use crate::strutil::str_to_chars;
use crate::strutil::spec_i64_chars;
use crate::strutil::spec_split;
use vstd::prelude::*;

verus! {

/// A payload that ends in the protocol terminator, as every command
/// line must before it is written.
pub open spec fn spec_terminated(s: Seq<char>) -> bool {
    s.len() >= 2 && s[s.len() - 2] == '\n' && s[s.len() - 1] == '\r'
}

/// The authentication command. The key is escaped like any other
/// untrusted parameter.
pub fn login_payload(key: &str) -> (r: String)
    ensures
        r@ == "auth apikey="@ + spec_escape(key@) + "\n\r"@,
        spec_terminated(r@),
{
    let mut out = String::from_str("auth apikey=");
    let e = escape(key);
    out.append(e.as_str());
    out.append("\n\r");
    proof {
        reveal_strlit("\n\r");
    }
    out
}

/// The identity query.
pub fn who_am_i_payload() -> (r: String)
    ensures
        r@ == "whoami\n\r"@,
        spec_terminated(r@),
{
    proof {
        reveal_strlit("whoami\n\r");
    }
    String::from_str("whoami\n\r")
}

/// The client list query.
pub fn client_list_payload() -> (r: String)
    ensures
        r@ == "clientlist\n\r"@,
        spec_terminated(r@),
{
    proof {
        reveal_strlit("clientlist\n\r");
    }
    String::from_str("clientlist\n\r")
}

/// The channel list query.
pub fn channel_list_payload() -> (r: String)
    ensures
        r@ == "channellist\n\r"@,
        spec_terminated(r@),
{
    proof {
        reveal_strlit("channellist\n\r");
    }
    String::from_str("channellist\n\r")
}

/// The parting command.
pub fn logout_payload() -> (r: String)
    ensures
        r@ == "quit\n\r"@,
        spec_terminated(r@),
{
    proof {
        reveal_strlit("quit\n\r");
    }
    String::from_str("quit\n\r")
}

/// The connection-info query.
pub fn server_connect_info_payload() -> (r: String)
    ensures
        r@ == "serverconnectinfo\n\r"@,
        spec_terminated(r@),
{
    proof {
        reveal_strlit("serverconnectinfo\n\r");
    }
    String::from_str("serverconnectinfo\n\r")
}

/// The command setting a channel's password; the password is escaped.
pub fn set_channel_password_payload(cid: i64, password: &str) -> (r: String)
    ensures
        r@ == "channeledit cid="@ + spec_i64_chars(cid as int) + " channel_password="@
            + spec_escape(password@) + "\n\r"@,
        spec_terminated(r@),
{
    let mut out = String::from_str("channeledit cid=");
    let c = fmt_i64_string(cid);
    out.append(c.as_str());
    out.append(" channel_password=");
    let e = escape(password);
    out.append(e.as_str());
    out.append("\n\r");
    proof {
        reveal_strlit("\n\r");
    }
    out
}

/// The command moving the own client into a channel.
pub fn switch_channel_payload(channel_id: i64, client_id: i64) -> (r: String)
    ensures
        r@ == "clientmove cid="@ + spec_i64_chars(channel_id as int) + " clid="@ + spec_i64_chars(
            client_id as int,
        ) + "\n\r"@,
        spec_terminated(r@),
{
    let mut out = String::from_str("clientmove cid=");
    let c = fmt_i64_string(channel_id);
    out.append(c.as_str());
    out.append(" clid=");
    let l = fmt_i64_string(client_id);
    out.append(l.as_str());
    out.append("\n\r");
    proof {
        reveal_strlit("\n\r");
    }
    out
}

/// The command writing a client's description; the text is escaped.
pub fn update_description_payload(edit: &ClientEdit) -> (r: String)
    ensures
        r@ == "clientdbedit cldbid="@ + spec_i64_chars(edit@.client_database_id)
            + " client_description="@ + spec_escape(edit@.description) + "\n\r"@,
        spec_terminated(r@),
{
    let mut out = String::from_str("clientdbedit cldbid=");
    let c = fmt_i64_string(edit.client_database_id());
    out.append(c.as_str());
    out.append(" client_description=");
    let e = escape(edit.description());
    out.append(e.as_str());
    out.append("\n\r");
    proof {
        reveal_strlit("\n\r");
    }
    out
}

/// The query for a client's description.
pub fn query_description_payload(client_id: i64) -> (r: String)
    ensures
        r@ == "clientvariable clid="@ + spec_i64_chars(client_id as int)
            + " client_description\n\r"@,
        spec_terminated(r@),
{
    let mut out = String::from_str("clientvariable clid=");
    let c = fmt_i64_string(client_id);
    out.append(c.as_str());
    out.append(" client_description\n\r");
    proof {
        reveal_strlit(" client_description\n\r");
    }
    out
}

/// Decode a reply to a command that returns no rows: only the status
/// matters.
pub fn decode_basic(data: String) -> (r: QueryResult<()>)
    ensures
        ({
            let lines = spec_lines(data@);
            match spec_find_status(lines) {
                None => r is Err && r->Err_0@.code == -4,
                Some(line) => match spec_status_of_line(line) {
                    None => r is Err && r->Err_0@.code == -6,
                    Some(st) => if st.id == 0 {
                        r is Ok
                    } else {
                        r is Err && r->Err_0@.code == st.id && r->Err_0@.message == st.msg
                    },
                },
            }
        }),
{
    match decode_status(data) {
        Ok(_) => Ok(()),
        Err(e) => Err(e),
    }
}

/// Decode a reply that must carry rows: a success status without a
/// data line is itself the failure `result_not_found`.
pub fn decode_rows_required<T: FromQueryString>(data: String, payload: &str) -> (r: QueryResult<
    Vec<T>,
>)
    ensures
        ({
            let lines = spec_lines(data@);
            match spec_find_status(lines) {
                None => r is Err && r->Err_0@.code == -4,
                Some(line) => match spec_status_of_line(line) {
                    None => r is Err && r->Err_0@.code == -6,
                    Some(st) => if st.id != 0 {
                        r is Err && r->Err_0@.code == st.id && r->Err_0@.message == st.msg
                    } else {
                        match spec_find_data(lines) {
                            None => r is Err && r->Err_0@.code == -7 && r->Err_0@.message
                                == "Result not found: "@ + spec_debug_str(payload@),
                            Some(d) => match spec_parse_segments::<T>(spec_split(d, '|')) {
                                Some(vs) => {
                                    &&& r is Ok
                                    &&& views_of(r->Ok_0@) == vs
                                    &&& r->Ok_0@.len() == spec_split(d, '|').len()
                                    &&& r->Ok_0@.len() >= 1
                                    &&& forall|j: int|
                                        0 <= j < spec_split(d, '|').len()
                                            ==> T::spec_from_query(#[trigger] spec_split(d, '|')[j])
                                            == Some(r->Ok_0@[j]@)
                                },
                                None => r is Err && r->Err_0@.code == -6,
                            },
                        }
                    },
                },
            }
        }),
{
    let ghost orig = data@;
    match decode_status_with_result::<T>(data) {
        Ok(Some(v)) => {
            proof {
                lemma_split_len(spec_find_data(spec_lines(orig))->Some_0, '|');
            }
            Ok(v)
        },
        Ok(None) => Err(QueryError::result_not_found(payload)),
        Err(e) => Err(e),
    }
}

/// Decode a reply expected to carry exactly the requesting client's own
/// record: the first row of a required result.
pub fn decode_first_row<T: FromQueryString>(data: String, payload: &str) -> (r: QueryResult<T>)
    ensures
        ({
            let lines = spec_lines(data@);
            match spec_find_status(lines) {
                None => r is Err && r->Err_0@.code == -4,
                Some(line) => match spec_status_of_line(line) {
                    None => r is Err && r->Err_0@.code == -6,
                    Some(st) => if st.id != 0 {
                        r is Err && r->Err_0@.code == st.id && r->Err_0@.message == st.msg
                    } else {
                        match spec_find_data(lines) {
                            None => r is Err && r->Err_0@.code == -7 && r->Err_0@.message
                                == "Result not found: "@ + spec_debug_str(payload@),
                            Some(d) => match spec_parse_segments::<T>(spec_split(d, '|')) {
                                Some(vs) => r is Ok && T::spec_from_query(spec_split(d, '|')[0])
                                    == Some(r->Ok_0@),
                                None => r is Err && r->Err_0@.code == -6,
                            },
                        }
                    },
                },
            }
        }),
{
    match decode_rows_required::<T>(data, payload) {
        Ok(mut v) => {
            let first = v.remove(0);
            Ok(first)
        },
        Err(e) => Err(e),
    }
}

/// Decode a description-query reply: the reply may legitimately carry
/// no data line, which this operation reports as its own query failure.
pub fn decode_client_variable(data: String) -> (r: QueryResult<ClientVariable>)
    ensures
        ({
            let lines = spec_lines(data@);
            match spec_find_status(lines) {
                None => r is Err && r->Err_0@.code == -4,
                Some(line) => match spec_status_of_line(line) {
                    None => r is Err && r->Err_0@.code == -6,
                    Some(st) => if st.id != 0 {
                        r is Err && r->Err_0@.code == st.id && r->Err_0@.message == st.msg
                    } else {
                        match spec_find_data(lines) {
                            None => r is Err && r->Err_0@.code == -8 && r->Err_0@.message
                                == "Query client error: "@ + spec_debug_str("str"@),
                            Some(d) => match spec_parse_segments::<ClientVariable>(
                                spec_split(d, '|'),
                            ) {
                                Some(vs) => r is Ok && ClientVariable::spec_from_query(
                                    spec_split(d, '|')[0],
                                ) == Some(r->Ok_0@),
                                None => r is Err && r->Err_0@.code == -6,
                            },
                        }
                    },
                },
            }
        }),
{
    let ghost orig = data@;
    match decode_status_with_result::<ClientVariable>(data) {
        Ok(Some(mut v)) => {
            proof {
                lemma_split_len(spec_find_data(spec_lines(orig))->Some_0, '|');
            }
            let first = v.remove(0);
            Ok(first)
        },
        Ok(None) => Err(QueryError::query_error("str")),
        Err(e) => Err(e),
    }
}

/// A failed decode is retried once, and only for the parse-error kind:
/// it absorbs the narrow race where an unrelated pushed line interleaves
/// with the expected reply.
pub fn should_retry(e: &QueryError) -> (r: bool)
    ensures
        r == (e@.code == -6),
{
    e.code() == -6
}

/// The persistent database id the client list gives the own connection:
/// the last record whose connection id matches wins, and 0 stands for
/// no match at all.
pub open spec fn spec_resolve_database_id(cs: Seq<ClientView>, client_id: int) -> int
    decreases cs.len(),
{
    if cs.len() == 0 {
        0
    } else if cs.last().client_id == client_id {
        cs.last().client_database_id
    } else {
        spec_resolve_database_id(cs.drop_last(), client_id)
    }
}

/// Cross-reference the own connection id against the client list to
/// find the own persistent database id; an id of 0 means the list gave
/// no usable match and is reported as `database_id_error`.
pub fn resolve_database_id(clients: &Vec<Client>, client_id: i64) -> (r: QueryResult<i64>)
    ensures
        ({
            let d = spec_resolve_database_id(views_of(clients@), client_id as int);
            if d == 0 {
                r is Err && r->Err_0@.code == -3 && r->Err_0@.message
                    == "Can't get self database_id"@
            } else {
                r is Ok && r->Ok_0 as int == d
            }
        }),
{
    let ghost cs = views_of(clients@);
    let n = clients.len();
    let mut database_id: i64 = 0;
    let mut k: usize = 0;
    proof {
        assert(cs.take(0) =~= Seq::<ClientView>::empty());
    }
    while k < n
        invariant
            n == clients@.len(),
            cs == views_of(clients@),
            cs.len() == n,
            k <= n,
            database_id as int == spec_resolve_database_id(cs.take(k as int), client_id as int),
        decreases n - k,
    {
        let ghost pre = cs.take(k as int);
        let ghost post = cs.take(k + 1 as int);
        proof {
            assert(post.last() == cs[k as int]);
            assert(post.drop_last() =~= pre);
        }
        if clients[k].client_id() == client_id {
            database_id = clients[k].client_database_id();
        }
        k += 1;
    }
    proof {
        assert(cs.take(n as int) =~= cs);
    }
    if database_id == 0 {
        return Err(QueryError::database_id_error());
    }
    Ok(database_id)
}

/// Resolving the own database id is a function of the client list and
/// the own connection id alone: absent any change of external state,
/// asking again gives the same answer.
pub proof fn lemma_resolve_database_id_idempotent(
    first: Seq<ClientView>,
    second: Seq<ClientView>,
    client_id: int,
)
    requires
        first == second,
    ensures
        spec_resolve_database_id(first, client_id) == spec_resolve_database_id(second, client_id),
{
}

/// How many client records carry the given persistent database id.
pub open spec fn spec_count_database_id(cs: Seq<ClientView>, database_id: int) -> int
    decreases cs.len(),
{
    if cs.len() == 0 {
        0
    } else {
        (if cs.last().client_database_id == database_id {
            1int
        } else {
            0int
        }) + spec_count_database_id(cs.drop_last(), database_id)
    }
}

/// Whether a second live session shares the resolved persistent id:
/// true exactly when two or more client records carry it.
pub fn check_self_duplicate(clients: &Vec<Client>, database_id: i64) -> (r: bool)
    ensures
        r == (spec_count_database_id(views_of(clients@), database_id as int) >= 2),
{
    let ghost cs = views_of(clients@);
    let n = clients.len();
    let mut count: u64 = 0;
    let mut k: usize = 0;
    proof {
        assert(cs.take(0) =~= Seq::<ClientView>::empty());
    }
    while k < n
        invariant
            n == clients@.len(),
            cs == views_of(clients@),
            cs.len() == n,
            k <= n,
            count as int == spec_count_database_id(cs.take(k as int), database_id as int),
            count <= k,
        decreases n - k,
    {
        let ghost pre = cs.take(k as int);
        let ghost post = cs.take(k + 1 as int);
        proof {
            assert(post.last() == cs[k as int]);
            assert(post.drop_last() =~= pre);
        }
        if clients[k].client_database_id() == database_id {
            count += 1;
        }
        k += 1;
    }
    proof {
        assert(cs.take(n as int) =~= cs);
    }
    count >= 2
}

/// The id of the first channel whose name matches exactly, if any.
pub open spec fn spec_find_channel(cs: Seq<ChannelView>, name: Seq<char>) -> Option<int>
    decreases cs.len(),
{
    if cs.len() == 0 {
        None
    } else if cs[0].channel_name == name {
        Some(cs[0].cid)
    } else {
        spec_find_channel(cs.drop_first(), name)
    }
}

/// Resolve a destination channel by exact name, first match wins; a
/// name the list does not hold is `channel_not_found`.
pub fn find_channel_id(channels: &Vec<Channel>, name: &str) -> (r: QueryResult<i64>)
    ensures
        ({
            match spec_find_channel(views_of(channels@), name@) {
                Some(cid) => r is Ok && r->Ok_0 as int == cid,
                None => r is Err && r->Err_0@.code == -2 && r->Err_0@.message
                    == "Channel not found: "@ + name@,
            }
        }),
{
    let ghost cs = views_of(channels@);
    let n = channels.len();
    let mut k: usize = 0;
    proof {
        assert(cs.skip(0) =~= cs);
    }
    while k < n
        invariant
            n == channels@.len(),
            cs == views_of(channels@),
            cs.len() == n,
            k <= n,
            spec_find_channel(cs, name@) == spec_find_channel(cs.skip(k as int), name@),
        decreases n - k,
    {
        proof {
            assert(cs.skip(k as int)[0] == cs[k as int]);
            assert(cs.skip(k as int).drop_first() =~= cs.skip(k + 1 as int));
        }
        let chan_name = str_to_chars(channels[k].channel_name());
        if chars_eq_str(&chan_name, name) {
            return Ok(channels[k].cid());
        }
        k += 1;
    }
    proof {
        assert(cs.skip(n as int) =~= Seq::<ChannelView>::empty());
    }
    Err(QueryError::channel_not_found(name))
}

} // verus!
