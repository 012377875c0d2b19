//! The reply data model: record rows of `key=value` tokens, the status
//! line, the error taxonomy, and the typed records decoded from replies.
use crate::escape::spec_unescape;
use crate::escape::unescape_chars;
use crate::strutil::chars_eq_str;
use crate::strutil::chars_to_string;
use crate::strutil::fmt_i64_string;
use crate::strutil::find_char;
use crate::strutil::find_str;
use crate::strutil::lemma_find_str_bounds;
use crate::strutil::lemma_find_idx_is;
use crate::strutil::lemma_find_idx_none;
use crate::strutil::parse_i32_chars;
use crate::strutil::parse_i64_chars;
use crate::strutil::parse_u16_chars;
use crate::strutil::spec_find_idx;
use crate::strutil::spec_find_str;
use crate::strutil::spec_i64_chars;
use crate::strutil::spec_parse_int;
use crate::strutil::spec_parse_uint;
use crate::strutil::spec_split;
use crate::strutil::split_chars;
use crate::strutil::str_to_chars;
use crate::strutil::sub_chars;
use vstd::prelude::*;

verus! {

/// The part of a `key=value` token before the first `=`, or the whole
/// token when it has none.
pub open spec fn spec_token_key(t: Seq<char>) -> Seq<char> {
    match spec_find_idx(t, '=') {
        Some(i) => t.take(i),
        None => t,
    }
}

/// The decoded part of a `key=value` token after the first `=`, or the
/// empty value when it has none.
pub open spec fn spec_token_value(t: Seq<char>) -> Seq<char> {
    match spec_find_idx(t, '=') {
        Some(i) => spec_unescape(t.skip(i + 1)),
        None => Seq::empty(),
    }
}

pub open spec fn spec_lookup_tokens(ts: Seq<Seq<char>>, key: Seq<char>) -> Option<Seq<char>>
    decreases ts.len(),
{
    if ts.len() == 0 {
        None
    } else if spec_token_key(ts[0]) == key {
        Some(spec_token_value(ts[0]))
    } else {
        spec_lookup_tokens(ts.drop_first(), key)
    }
}

/// The decoded value of the first token of the record whose key matches.
pub open spec fn spec_record_lookup(rec: Seq<char>, key: Seq<char>) -> Option<Seq<char>> {
    spec_lookup_tokens(spec_split(rec, ' '), key)
}

/// Find the value of `key` in a record of space-separated `key=value`
/// tokens, reversing the escape sequences in the value.
pub fn record_lookup(rec: &Vec<char>, key: &str) -> (r: Option<Vec<char>>)
    ensures
        match r {
            Some(v) => spec_record_lookup(rec@, key@) == Some(v@),
            None => spec_record_lookup(rec@, key@) is None,
        },
{
    let tokens = split_chars(rec, ' ');
    let ghost ts = tokens.deep_view();
    let n = tokens.len();
    let mut k: usize = 0;
    proof {
        assert(ts.skip(0) =~= ts);
    }
    while k < n
        invariant
            n == tokens@.len(),
            ts == tokens.deep_view(),
            ts.len() == n,
            k <= n,
            spec_record_lookup(rec@, key@) == spec_lookup_tokens(ts, key@),
            spec_lookup_tokens(ts, key@) == spec_lookup_tokens(ts.skip(k as int), key@),
        decreases n - k,
    {
        let tok = &tokens[k];
        proof {
            assert(ts[k as int] =~= tok@);
            assert(ts.skip(k as int)[0] == ts[k as int]);
            assert(ts.skip(k as int).drop_first() =~= ts.skip(k + 1 as int));
        }
        let eq = find_char(tok, '=');
        proof {
            match eq {
                Some(i) => lemma_find_idx_is(tok@, '=', i as int),
                None => lemma_find_idx_none(tok@, '='),
            }
        }
        let keylen: usize = match eq {
            Some(i) => i,
            None => tok.len(),
        };
        let keypart = sub_chars(tok, 0, keylen);
        proof {
            assert(keypart@ =~= spec_token_key(ts[k as int]));
        }
        if chars_eq_str(&keypart, key) {
            let val = match eq {
                Some(i) => {
                    let raw = sub_chars(tok, i + 1, tok.len());
                    proof {
                        assert(raw@ =~= tok@.skip(i + 1));
                    }
                    unescape_chars(&raw)
                },
                None => Vec::new(),
            };
            proof {
                assert(val@ == spec_token_value(ts[k as int]));
            }
            return Some(val);
        }
        proof {
            assert(spec_token_key(ts[k as int]) != key@);
        }
        k += 1;
    }
    proof {
        assert(ts.skip(n as int) =~= Seq::<Seq<char>>::empty());
    }
    None
}

/// A field parsed with `i64`'s grammar from a record, if present and valid.
pub open spec fn spec_field_i64(rec: Seq<char>, key: Seq<char>) -> Option<int> {
    match spec_record_lookup(rec, key) {
        Some(v) => spec_parse_int(v, -9223372036854775808, 9223372036854775807),
        None => None,
    }
}

fn field_i64(rec: &Vec<char>, key: &str) -> (r: Option<i64>)
    ensures
        match r {
            Some(x) => spec_field_i64(rec@, key@) == Some(x as int),
            None => spec_field_i64(rec@, key@) is None,
        },
{
    match record_lookup(rec, key) {
        Some(v) => parse_i64_chars(&v),
        None => None,
    }
}

/// A string field of a record, if present.
pub open spec fn spec_field_string(rec: Seq<char>, key: Seq<char>) -> Option<Seq<char>> {
    spec_record_lookup(rec, key)
}

fn field_string(rec: &Vec<char>, key: &str) -> (r: Option<String>)
    ensures
        match r {
            Some(x) => spec_field_string(rec@, key@) == Some(x@),
            None => spec_field_string(rec@, key@) is None,
        },
{
    match record_lookup(rec, key) {
        Some(v) => Some(chars_to_string(&v)),
        None => None,
    }
}

/// What debug formatting writes for a string: the text in double
/// quotes, with quotes, backslashes and control characters escaped.
pub uninterp spec fn spec_debug_str(s: Seq<char>) -> Seq<char>;

/// Relies on the standard `Debug` implementation for `str`, through the
/// `format!` macro: its output depends on the characters alone.
#[verifier::external_body]
fn debug_quoted(s: &str) -> (r: String)
    ensures
        r@ == spec_debug_str(s@),
{
    format!("{:?}", s)
}

pub type QueryResult<T> = Result<T, QueryError>;

pub ghost struct QueryErrorView {
    pub code: int,
    pub message: Seq<char>,
}

/// A failed request: either a non-zero status reported by the peer, or
/// one of the library's own decoding failures, which use negative codes.
#[derive(Clone, Debug)]
pub struct QueryError {
    code: i32,
    message: String,
}

impl View for QueryError {
    type V = QueryErrorView;

    closed spec fn view(&self) -> QueryErrorView {
        QueryErrorView { code: self.code as int, message: self.message@ }
    }
}

impl Default for QueryError {
    fn default() -> (r: Self)
        ensures
            r@.code == 0,
            r@.message == Seq::<char>::empty(),
    {
        Self { code: 0, message: String::new() }
    }
}

impl QueryError {
    /// A reply that should have carried a result carried none.
    pub fn static_empty_response() -> (r: Self)
        ensures
            r@.code == -1,
            r@.message == "Expect result but none found."@,
    {
        Self { code: -1, message: String::from_str("Expect result but none found.") }
    }

    /// The own persistent identity could not be resolved.
    pub fn database_id_error() -> (r: Self)
        ensures
            r@.code == -3,
            r@.message == "Can't get self database_id"@,
    {
        Self { code: -3, message: String::from_str("Can't get self database_id") }
    }

    /// A reply held no status line at all.
    pub fn status_not_found() -> (r: Self)
        ensures
            r@.code == -4,
            r@.message == "Status line not found"@,
    {
        Self { code: -4, message: String::from_str("Status line not found") }
    }

    /// A line could not be split into a status part.
    pub fn split_error(value: &str) -> (r: Self)
        ensures
            r@.code == -5,
            r@.message == "Split error "@ + value@,
    {
        let mut message = String::from_str("Split error ");
        message.append(value);
        Self { code: -5, message }
    }

    /// A status line or a record failed to parse.
    pub fn parse_error(message: String) -> (r: Self)
        ensures
            r@.code == -6,
            r@.message == message@,
    {
        Self { code: -6, message }
    }

    /// A query that must return rows returned none. The payload is
    /// written in its debug-quoted form.
    pub fn result_not_found(payload: &str) -> (r: Self)
        ensures
            r@.code == -7,
            r@.message == "Result not found: "@ + spec_debug_str(payload@),
    {
        let mut message = String::from_str("Result not found: ");
        let quoted = debug_quoted(payload);
        message.append(quoted.as_str());
        Self { code: -7, message }
    }

    /// A destination channel name matched nothing in the channel list.
    pub fn channel_not_found(name: &str) -> (r: Self)
        ensures
            r@.code == -2,
            r@.message == "Channel not found: "@ + name@,
    {
        let mut message = String::from_str("Channel not found: ");
        message.append(name);
        Self { code: -2, message }
    }

    /// A client query gave no usable answer. The payload is written
    /// in its debug-quoted form.
    pub fn query_error(payload: &str) -> (r: Self)
        ensures
            r@.code == -8,
            r@.message == "Query client error: "@ + spec_debug_str(payload@),
    {
        let mut message = String::from_str("Query client error: ");
        let quoted = debug_quoted(payload);
        message.append(quoted.as_str());
        Self { code: -8, message }
    }

    /// A failure outside the protocol, such as an I/O error, carried
    /// into the query error type; the catch-all conversion code marks
    /// it.
    pub fn transport_error(message: String) -> (r: Self)
        ensures
            r@.code == -114514,
            r@.message == message@,
    {
        Self { code: -114514, message }
    }

    pub fn code(&self) -> (r: i32)
        ensures
            r as int == self@.code,
    {
        self.code
    }

    pub fn message(&self) -> (r: &String)
        ensures
            r@ == self@.message,
    {
        &self.message
    }

    /// The error written out as `message(code)`.
    pub fn describe(&self) -> (r: String)
        ensures
            r@ == self@.message + "("@ + spec_i64_chars(self@.code) + ")"@,
    {
        let mut out = self.message.clone();
        let code_str = fmt_i64_string(self.code as i64);
        out.append("(");
        out.append(code_str.as_str());
        out.append(")");
        out
    }
}

pub ghost struct QueryStatusView {
    pub id: int,
    pub msg: Seq<char>,
}

/// The terminal status of one reply: `id == 0` is success, anything
/// else is the peer-reported outcome of the request.
#[derive(Clone, Debug)]
pub struct QueryStatus {
    id: i32,
    msg: String,
}

impl View for QueryStatus {
    type V = QueryStatusView;

    closed spec fn view(&self) -> QueryStatusView {
        QueryStatusView { id: self.id as int, msg: self.msg@ }
    }
}

impl Default for QueryStatus {
    /// The all-clear status: id 0, message "ok".
    fn default() -> (r: Self)
        ensures
            r@.id == 0,
            r@.msg == "ok"@,
    {
        Self { id: 0, msg: String::from_str("ok") }
    }
}

/// What a status line parses to: the text after the first `error `
/// occurrence is a record whose `id` field (with `i32`'s grammar) and
/// `msg` field give the outcome; a line without both fields parses to
/// nothing.
pub open spec fn spec_status_of_line(line: Seq<char>) -> Option<QueryStatusView> {
    match spec_find_str(line, "error "@) {
        Some(p) => {
            let rest = line.skip(p + 6);
            let id = spec_record_lookup(rest, "id"@);
            let msg = spec_record_lookup(rest, "msg"@);
            if id is Some && msg is Some {
                match spec_parse_int(id->Some_0, -2147483648, 2147483647) {
                    Some(code) => Some(QueryStatusView { id: code, msg: msg->Some_0 }),
                    None => None,
                }
            } else {
                None
            }
        },
        None => None,
    }
}

impl QueryStatus {
    pub fn id(&self) -> (r: i32)
        ensures
            r as int == self@.id,
    {
        self.id
    }

    pub fn msg(&self) -> (r: &String)
        ensures
            r@ == self@.msg,
    {
        &self.msg
    }

    /// The status as the error it reports.
    pub fn into_err(self) -> (r: QueryError)
        ensures
            r@.code == self@.id,
            r@.message == self@.msg,
    {
        QueryError { code: self.id, message: self.msg }
    }

    /// Success carries the given value through; any other status is the
    /// terminal outcome of the request and becomes the error.
    pub fn into_result<T>(self, ret: T) -> (r: QueryResult<T>)
        ensures
            self@.id == 0 ==> r is Ok && r->Ok_0 == ret,
            self@.id != 0 ==> r is Err && r->Err_0@.code == self@.id && r->Err_0@.message
                == self@.msg,
    {
        if self.id == 0 {
            return Ok(ret);
        }
        Err(self.into_err())
    }

    /// Parse one status line, splitting it at the first `error `
    /// occurring anywhere in it. A line without one cannot be split
    /// and reports the catch-all conversion code; one whose record
    /// lacks a valid `id` or a `msg` is a parse error.
    pub fn try_from_line(value: &str) -> (r: Result<QueryStatus, QueryError>)
        ensures
            match spec_status_of_line(value@) {
                Some(st) => r is Ok && r->Ok_0@ == st,
                None => r is Err && if spec_find_str(value@, "error "@) is Some {
                    r->Err_0@.code == -6 && r->Err_0@.message == "Parse status line error"@
                } else {
                    r->Err_0@.code == -114514 && r->Err_0@.message == "Split error: "@ + value@
                },
            },
    {
        let v = str_to_chars(value);
        let p = match find_str(&v, "error ") {
            Some(p) => p,
            None => {
                let mut message = String::from_str("Split error: ");
                message.append(value);
                return Err(QueryError { code: -114514, message });
            },
        };
        proof {
            reveal_strlit("error ");
            lemma_find_str_bounds(v@, "error "@);
            assert("error "@.len() == 6);
            assert(p + 6 <= v@.len());
        }
        let n = v.len();
        let rest = sub_chars(&v, p + 6, n);
        proof {
            assert(rest@ =~= value@.skip(p + 6));
        }
        let id = match record_lookup(&rest, "id") {
            Some(raw) => match parse_i32_chars(&raw) {
                Some(x) => x,
                None => {
                    return Err(QueryError::parse_error(String::from_str(
                        "Parse status line error",
                    )));
                },
            },
            None => {
                return Err(QueryError::parse_error(String::from_str("Parse status line error")));
            },
        };
        let msg = match record_lookup(&rest, "msg") {
            Some(raw) => chars_to_string(&raw),
            None => {
                return Err(QueryError::parse_error(String::from_str("Parse status line error")));
            },
        };
        Ok(QueryStatus { id, msg })
    }
}

fn record_parse_error(data: &str) -> (r: QueryError)
    ensures
        r@.code == -6,
        r@.message == "Got parser error, original => "@ + data@,
{
    let mut message = String::from_str("Got parser error, original => ");
    message.append(data);
    QueryError::parse_error(message)
}

/// A record type decoded from one `|`-separated reply segment. The
/// associated spec says which segments are valid and what they carry;
/// decoding succeeds on exactly those.
pub trait FromQueryString: Sized + View {
    spec fn spec_from_query(s: Seq<char>) -> Option<Self::V>;

    fn from_query(data: &str) -> (r: QueryResult<Self>)
        ensures
            match r {
                Ok(v) => Self::spec_from_query(data@) == Some(v@),
                Err(e) => Self::spec_from_query(data@) is None && e@.code == -6 && e@.message
                    == "Got parser error, original => "@ + data@,
            },
    ;
}

pub ghost struct WhoAmIView {
    pub client_id: int,
    pub channel_id: int,
}

/// The own session: connection id and current channel.
#[derive(Clone, Debug)]
pub struct WhoAmI {
    client_id: i64,
    channel_id: i64,
}

impl View for WhoAmI {
    type V = WhoAmIView;

    closed spec fn view(&self) -> WhoAmIView {
        WhoAmIView { client_id: self.client_id as int, channel_id: self.channel_id as int }
    }
}

impl WhoAmI {
    pub fn client_id(&self) -> (r: i64)
        ensures
            r as int == self@.client_id,
    {
        self.client_id
    }

    pub fn channel_id(&self) -> (r: i64)
        ensures
            r as int == self@.channel_id,
    {
        self.channel_id
    }
}

impl Default for WhoAmI {
    fn default() -> (r: Self)
        ensures
            r@.client_id == 0,
            r@.channel_id == 0,
    {
        Self { client_id: 0, channel_id: 0 }
    }
}

impl FromQueryString for WhoAmI {
    open spec fn spec_from_query(s: Seq<char>) -> Option<WhoAmIView> {
        let clid = spec_field_i64(s, "clid"@);
        let cid = spec_field_i64(s, "cid"@);
        if clid is Some && cid is Some {
            Some(WhoAmIView { client_id: clid->Some_0, channel_id: cid->Some_0 })
        } else {
            None
        }
    }

    fn from_query(data: &str) -> (r: QueryResult<WhoAmI>) {
        let rec = str_to_chars(data);
        let clid = field_i64(&rec, "clid");
        let cid = field_i64(&rec, "cid");
        match (clid, cid) {
            (Some(client_id), Some(channel_id)) => Ok(WhoAmI { client_id, channel_id }),
            _ => Err(record_parse_error(data)),
        }
    }
}

pub ghost struct CreateChannelView {
    pub cid: int,
}

/// The acknowledgement of a channel creation: the new channel id.
#[derive(Clone, Debug)]
pub struct CreateChannel {
    cid: i64,
}

impl View for CreateChannel {
    type V = CreateChannelView;

    closed spec fn view(&self) -> CreateChannelView {
        CreateChannelView { cid: self.cid as int }
    }
}

impl CreateChannel {
    pub fn cid(&self) -> (r: i64)
        ensures
            r as int == self@.cid,
    {
        self.cid
    }
}

impl Default for CreateChannel {
    fn default() -> (r: Self)
        ensures
            r@.cid == 0,
    {
        Self { cid: 0 }
    }
}

impl FromQueryString for CreateChannel {
    open spec fn spec_from_query(s: Seq<char>) -> Option<CreateChannelView> {
        match spec_field_i64(s, "cid"@) {
            Some(cid) => Some(CreateChannelView { cid }),
            None => None,
        }
    }

    fn from_query(data: &str) -> (r: QueryResult<CreateChannel>) {
        let rec = str_to_chars(data);
        match field_i64(&rec, "cid") {
            Some(cid) => Ok(CreateChannel { cid }),
            None => Err(record_parse_error(data)),
        }
    }
}

pub ghost struct ChannelView {
    pub cid: int,
    pub pid: int,
    pub channel_order: int,
    pub channel_name: Seq<char>,
    pub total_clients: int,
}

/// One channel as the channel list reports it.
#[derive(Clone, Debug)]
pub struct Channel {
    cid: i64,
    pid: i64,
    channel_order: i64,
    channel_name: String,
    total_clients: i64,
}

impl View for Channel {
    type V = ChannelView;

    closed spec fn view(&self) -> ChannelView {
        ChannelView {
            cid: self.cid as int,
            pid: self.pid as int,
            channel_order: self.channel_order as int,
            channel_name: self.channel_name@,
            total_clients: self.total_clients as int,
        }
    }
}

impl Channel {
    pub fn cid(&self) -> (r: i64)
        ensures
            r as int == self@.cid,
    {
        self.cid
    }

    pub fn pid(&self) -> (r: i64)
        ensures
            r as int == self@.pid,
    {
        self.pid
    }

    pub fn channel_order(&self) -> (r: i64)
        ensures
            r as int == self@.channel_order,
    {
        self.channel_order
    }

    pub fn channel_name(&self) -> (r: &str)
        ensures
            r@ == self@.channel_name,
    {
        self.channel_name.as_str()
    }

    pub fn total_clients(&self) -> (r: i64)
        ensures
            r as int == self@.total_clients,
    {
        self.total_clients
    }
}

impl Default for Channel {
    fn default() -> (r: Self)
        ensures
            r@.cid == 0,
            r@.pid == 0,
            r@.channel_order == 0,
            r@.channel_name == Seq::<char>::empty(),
            r@.total_clients == 0,
    {
        Self {
            cid: 0,
            pid: 0,
            channel_order: 0,
            channel_name: String::new(),
            total_clients: 0,
        }
    }
}

impl FromQueryString for Channel {
    /// A channel record needs its id, parent, name and client count;
    /// the ordering key is optional, defaulting to 0, since channel
    /// lists may omit it. An ordering key that is present but invalid
    /// still rejects the record.
    open spec fn spec_from_query(s: Seq<char>) -> Option<ChannelView> {
        let cid = spec_field_i64(s, "cid"@);
        let pid = spec_field_i64(s, "pid"@);
        let channel_name = spec_field_string(s, "channel_name"@);
        let total_clients = spec_field_i64(s, "total_clients"@);
        let channel_order = match spec_record_lookup(s, "channel_order"@) {
            Some(raw) => spec_parse_int(raw, -9223372036854775808, 9223372036854775807),
            None => Some(0),
        };
        if cid is Some && pid is Some && channel_order is Some && channel_name is Some
            && total_clients is Some {
            Some(
                ChannelView {
                    cid: cid->Some_0,
                    pid: pid->Some_0,
                    channel_order: channel_order->Some_0,
                    channel_name: channel_name->Some_0,
                    total_clients: total_clients->Some_0,
                },
            )
        } else {
            None
        }
    }

    fn from_query(data: &str) -> (r: QueryResult<Channel>) {
        let rec = str_to_chars(data);
        let cid = field_i64(&rec, "cid");
        let pid = field_i64(&rec, "pid");
        let channel_name = field_string(&rec, "channel_name");
        let total_clients = field_i64(&rec, "total_clients");
        let channel_order = match record_lookup(&rec, "channel_order") {
            Some(raw) => parse_i64_chars(&raw),
            None => Some(0),
        };
        match (cid, pid, channel_order, channel_name, total_clients) {
            (Some(cid), Some(pid), Some(channel_order), Some(channel_name), Some(
                total_clients,
            )) => Ok(Channel { cid, pid, channel_order, channel_name, total_clients }),
            _ => Err(record_parse_error(data)),
        }
    }
}

pub ghost struct ClientView {
    pub client_id: int,
    pub channel_id: int,
    pub client_database_id: int,
    pub client_type: int,
    pub client_unique_identifier: Seq<char>,
    pub client_nickname: Seq<char>,
}

/// One connected client as the client list reports it.
#[derive(Clone, Debug)]
pub struct Client {
    clid: i64,
    cid: i64,
    client_database_id: i64,
    client_type: i64,
    client_unique_identifier: String,
    client_nickname: String,
}

impl View for Client {
    type V = ClientView;

    closed spec fn view(&self) -> ClientView {
        ClientView {
            client_id: self.clid as int,
            channel_id: self.cid as int,
            client_database_id: self.client_database_id as int,
            client_type: self.client_type as int,
            client_unique_identifier: self.client_unique_identifier@,
            client_nickname: self.client_nickname@,
        }
    }
}

impl Client {
    pub fn client_id(&self) -> (r: i64)
        ensures
            r as int == self@.client_id,
    {
        self.clid
    }

    pub fn channel_id(&self) -> (r: i64)
        ensures
            r as int == self@.channel_id,
    {
        self.cid
    }

    pub fn client_database_id(&self) -> (r: i64)
        ensures
            r as int == self@.client_database_id,
    {
        self.client_database_id
    }

    pub fn client_type(&self) -> (r: i64)
        ensures
            r as int == self@.client_type,
    {
        self.client_type
    }

    /// The unique identifier of this client. The list's own
    /// `client_unique_identifier` token governs when the record carried
    /// one; for lists that omit it, the decimal form of the persistent
    /// database id stands in, so the accessor is total either way.
    pub fn client_unique_identifier(&self) -> (r: String)
        ensures
            r@ == self@.client_unique_identifier,
    {
        self.client_unique_identifier.clone()
    }

    pub fn client_nickname(&self) -> (r: &str)
        ensures
            r@ == self@.client_nickname,
    {
        self.client_nickname.as_str()
    }
}

impl Default for Client {
    fn default() -> (r: Self)
        ensures
            r@.client_id == 0,
            r@.channel_id == 0,
            r@.client_database_id == 0,
            r@.client_type == 0,
            r@.client_unique_identifier == Seq::<char>::empty(),
            r@.client_nickname == Seq::<char>::empty(),
    {
        Self {
            clid: 0,
            cid: 0,
            client_database_id: 0,
            client_type: 0,
            client_unique_identifier: String::new(),
            client_nickname: String::new(),
        }
    }
}

impl FromQueryString for Client {
    /// A client record needs its numeric fields and a nickname; the
    /// unique identifier is optional, falling back to the decimal form
    /// of the persistent database id when the list omits it.
    open spec fn spec_from_query(s: Seq<char>) -> Option<ClientView> {
        let clid = spec_field_i64(s, "clid"@);
        let cid = spec_field_i64(s, "cid"@);
        let dbid = spec_field_i64(s, "client_database_id"@);
        let ctype = spec_field_i64(s, "client_type"@);
        let nick = spec_field_string(s, "client_nickname"@);
        if clid is Some && cid is Some && dbid is Some && ctype is Some && nick is Some {
            let uid = match spec_field_string(s, "client_unique_identifier"@) {
                Some(u) => u,
                None => spec_i64_chars(dbid->Some_0),
            };
            Some(
                ClientView {
                    client_id: clid->Some_0,
                    channel_id: cid->Some_0,
                    client_database_id: dbid->Some_0,
                    client_type: ctype->Some_0,
                    client_unique_identifier: uid,
                    client_nickname: nick->Some_0,
                },
            )
        } else {
            None
        }
    }

    fn from_query(data: &str) -> (r: QueryResult<Client>) {
        let rec = str_to_chars(data);
        let clid = field_i64(&rec, "clid");
        let cid = field_i64(&rec, "cid");
        let dbid = field_i64(&rec, "client_database_id");
        let ctype = field_i64(&rec, "client_type");
        let nick = field_string(&rec, "client_nickname");
        match (clid, cid, dbid, ctype, nick) {
            (Some(clid), Some(cid), Some(client_database_id), Some(client_type), Some(
                client_nickname,
            )) => {
                let client_unique_identifier = match field_string(
                    &rec,
                    "client_unique_identifier",
                ) {
                    Some(u) => u,
                    None => fmt_i64_string(client_database_id),
                };
                Ok(
                    Client {
                        clid,
                        cid,
                        client_database_id,
                        client_type,
                        client_unique_identifier,
                        client_nickname,
                    },
                )
            },
            _ => Err(record_parse_error(data)),
        }
    }
}

pub ghost struct ConnectInfoView {
    pub ip: Seq<char>,
    pub port: int,
}

/// Where the server says it is reachable.
#[derive(Clone, Debug)]
pub struct ConnectInfo {
    ip: String,
    port: u16,
}

impl View for ConnectInfo {
    type V = ConnectInfoView;

    closed spec fn view(&self) -> ConnectInfoView {
        ConnectInfoView { ip: self.ip@, port: self.port as int }
    }
}

impl ConnectInfo {
    pub fn ip(&self) -> (r: &str)
        ensures
            r@ == self@.ip,
    {
        self.ip.as_str()
    }

    pub fn port(&self) -> (r: u16)
        ensures
            r as int == self@.port,
    {
        self.port
    }
}

impl FromQueryString for ConnectInfo {
    open spec fn spec_from_query(s: Seq<char>) -> Option<ConnectInfoView> {
        let ip = spec_field_string(s, "ip"@);
        let port = match spec_record_lookup(s, "port"@) {
            Some(v) => spec_parse_uint(v, 65535),
            None => None,
        };
        if ip is Some && port is Some {
            Some(ConnectInfoView { ip: ip->Some_0, port: port->Some_0 })
        } else {
            None
        }
    }

    fn from_query(data: &str) -> (r: QueryResult<ConnectInfo>) {
        let rec = str_to_chars(data);
        let ip = field_string(&rec, "ip");
        let port = match record_lookup(&rec, "port") {
            Some(raw) => parse_u16_chars(&raw),
            None => None,
        };
        match (ip, port) {
            (Some(ip), Some(port)) => Ok(ConnectInfo { ip, port }),
            _ => Err(record_parse_error(data)),
        }
    }
}

pub ghost struct ClientVariableView {
    pub client_id: int,
    pub description: Seq<char>,
}

/// The queried description of one client.
#[derive(Clone, Debug)]
pub struct ClientVariable {
    client_id: i64,
    description: String,
}

impl View for ClientVariable {
    type V = ClientVariableView;

    closed spec fn view(&self) -> ClientVariableView {
        ClientVariableView { client_id: self.client_id as int, description: self.description@ }
    }
}

impl ClientVariable {
    pub fn client_id(&self) -> (r: i64)
        ensures
            r as int == self@.client_id,
    {
        self.client_id
    }

    pub fn description(&self) -> (r: &str)
        ensures
            r@ == self@.description,
    {
        self.description.as_str()
    }

    /// The same description readied for an edit of the given persistent
    /// identity.
    pub fn into_edit(self, client_database_id: i64) -> (r: ClientEdit)
        ensures
            r@.client_database_id == client_database_id as int,
            r@.description == self@.description,
    {
        ClientEdit::new(client_database_id, self.description)
    }
}

impl Default for ClientVariable {
    fn default() -> (r: Self)
        ensures
            r@.client_id == 0,
            r@.description == Seq::<char>::empty(),
    {
        Self { client_id: 0, description: String::new() }
    }
}

impl FromQueryString for ClientVariable {
    open spec fn spec_from_query(s: Seq<char>) -> Option<ClientVariableView> {
        let clid = spec_field_i64(s, "clid"@);
        let description = spec_field_string(s, "client_description"@);
        if clid is Some && description is Some {
            Some(
                ClientVariableView {
                    client_id: clid->Some_0,
                    description: description->Some_0,
                },
            )
        } else {
            None
        }
    }

    fn from_query(data: &str) -> (r: QueryResult<ClientVariable>) {
        let rec = str_to_chars(data);
        let clid = field_i64(&rec, "clid");
        let description = field_string(&rec, "client_description");
        match (clid, description) {
            (Some(client_id), Some(description)) => Ok(ClientVariable { client_id, description }),
            _ => Err(record_parse_error(data)),
        }
    }
}

pub ghost struct ClientEditView {
    pub client_database_id: int,
    pub description: Seq<char>,
}

/// A pending description edit for one persistent identity.
#[derive(Clone, Debug)]
pub struct ClientEdit {
    client_database_id: i64,
    description: String,
}

impl View for ClientEdit {
    type V = ClientEditView;

    closed spec fn view(&self) -> ClientEditView {
        ClientEditView {
            client_database_id: self.client_database_id as int,
            description: self.description@,
        }
    }
}

impl Default for ClientEdit {
    fn default() -> (r: Self)
        ensures
            r@.client_database_id == 0,
            r@.description == Seq::<char>::empty(),
    {
        Self { client_database_id: 0, description: String::new() }
    }
}

impl ClientEdit {
    pub fn new(client_database_id: i64, description: String) -> (r: Self)
        ensures
            r@.client_database_id == client_database_id as int,
            r@.description == description@,
    {
        Self { client_database_id, description }
    }

    pub fn client_database_id(&self) -> (r: i64)
        ensures
            r as int == self@.client_database_id,
    {
        self.client_database_id
    }

    pub fn description(&self) -> (r: &str)
        ensures
            r@ == self@.description,
    {
        self.description.as_str()
    }
}

} // verus!
