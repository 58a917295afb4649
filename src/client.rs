//! What generated client functions share at run time: the client settings,
//! the per-tag client groups, and the building of request URLs (escaped
//! path values, and a query string that leaves out optional values that
//! are not set).

use vstd::prelude::*;
use vstd::string::*;
use crate::text::{chars_of, dec, push_chars, push_str, string_of};

verus! {

/// The settings of a connection to an API.
pub struct Client {
    /// The base URL that request paths are appended to.
    pub host: String,
    /// The bearer token sent with each request.
    pub token: String,
}

impl Client {
    /// A client for `host`, authenticated by `token`.
    pub fn new(host: String, token: String) -> (r: Client)
        ensures
            r.host == host,
            r.token == token,
    {
        Client { host, token }
    }
}

/// The account custom fields operations.
pub struct AccountCustomFields {
    pub client: Client,
}

impl AccountCustomFields {
    /// The operations, sent through `client`.
    pub fn new(client: Client) -> (r: AccountCustomFields)
        ensures
            r.client == client,
    {
        AccountCustomFields { client }
    }
}

/// The IM chat operations.
pub struct ImChat {
    pub client: Client,
}

impl ImChat {
    /// The operations, sent through `client`.
    pub fn new(client: Client) -> (r: ImChat)
        ensures
            r.client == client,
    {
        ImChat { client }
    }
}

/// The phone operations.
pub struct Phone {
    pub client: Client,
}

impl Phone {
    /// The operations, sent through `client`.
    pub fn new(client: Client) -> (r: Phone)
        ensures
            r.client == client,
    {
        Phone { client }
    }
}

/// Characters that stand for themselves in a path segment.
pub open spec fn unreserved(c: char) -> bool {
    ('a' <= c && c <= 'z') || ('A' <= c && c <= 'Z') || ('0' <= c && c <= '9') || c == '-' || c == '.' || c == '_' || c == '~'
}

/// The UTF-8 encoding of a code point.
pub open spec fn utf8(n: nat) -> Seq<nat> {
    if n < 0x80 {
        seq![n]
    } else if n < 0x800 {
        seq![0xC0 + n / 64, 0x80 + n % 64]
    } else if n < 0x10000 {
        seq![0xE0 + n / 4096, 0x80 + (n / 64) % 64, 0x80 + n % 64]
    } else {
        seq![0xF0 + n / 262144, 0x80 + (n / 4096) % 64, 0x80 + (n / 64) % 64, 0x80 + n % 64]
    }
}

/// The upper-case hexadecimal digit for `d`.
pub open spec fn hex_digit(d: nat) -> char {
    if d < 10 {
        crate::text::digit(d)
    } else if d == 10 { 'A' } else if d == 11 { 'B' } else if d == 12 { 'C' }
    else if d == 13 { 'D' } else if d == 14 { 'E' } else { 'F' }
}

/// `%XX` for each byte.
pub open spec fn pct_bytes(bs: Seq<nat>) -> Seq<char>
    decreases bs.len(),
{
    if bs.len() == 0 {
        Seq::empty()
    } else {
        pct_bytes(bs.drop_last()) + seq!['%', hex_digit(bs.last() / 16), hex_digit(bs.last() % 16)]
    }
}

/// A path value with every character but the unreserved ones
/// percent-encoded, byte by byte of its UTF-8 form.
pub open spec fn encoded(s: Seq<char>) -> Seq<char>
    decreases s.len(),
{
    if s.len() == 0 {
        Seq::empty()
    } else {
        encoded(s.drop_last()) + if unreserved(s.last()) {
            seq![s.last()]
        } else {
            pct_bytes(utf8(s.last() as nat))
        }
    }
}

fn hex_char(d: u32) -> (r: char)
    requires
        d < 16,
    ensures
        r == hex_digit(d as nat),
{
    if d == 0 { '0' } else if d == 1 { '1' } else if d == 2 { '2' } else if d == 3 { '3' }
    else if d == 4 { '4' } else if d == 5 { '5' } else if d == 6 { '6' } else if d == 7 { '7' }
    else if d == 8 { '8' } else if d == 9 { '9' } else if d == 10 { 'A' } else if d == 11 { 'B' }
    else if d == 12 { 'C' } else if d == 13 { 'D' } else if d == 14 { 'E' } else { 'F' }
}

/// Appends `%XX` for each byte.
fn push_pct(out: &mut Vec<char>, bs: &Vec<u32>)
    requires
        forall|i: int| 0 <= i < bs@.len() ==> bs@[i] < 256,
    ensures
        final(out)@ == old(out)@ + pct_bytes(bs@.map_values(|b: u32| b as nat)),
{
    let ghost nb = bs@.map_values(|b: u32| b as nat);
    let mut i: usize = 0;
    while i < bs.len()
        invariant
            nb == bs@.map_values(|b: u32| b as nat),
            forall|j: int| 0 <= j < bs@.len() ==> bs@[j] < 256,
            i <= bs@.len(),
            out@ == old(out)@ + pct_bytes(nb.take(i as int)),
        decreases bs@.len() - i,
    {
        assert(nb.take(i + 1).drop_last() =~= nb.take(i as int));
        let b = bs[i];
        out.push('%');
        out.push(hex_char(b / 16));
        out.push(hex_char(b % 16));
        i += 1;
        assert(out@ =~= old(out)@ + pct_bytes(nb.take(i as int)));
    }
    assert(nb.take(bs@.len() as int) =~= nb);
}

/// The UTF-8 bytes of a character.
fn utf8_bytes(c: char) -> (r: Vec<u32>)
    ensures
        r@.map_values(|b: u32| b as nat) == utf8(c as nat),
        forall|i: int| 0 <= i < r@.len() ==> r@[i] < 256,
{
    let n = c as u32;
    let mut r: Vec<u32> = Vec::new();
    if n < 0x80 {
        r.push(n);
    } else if n < 0x800 {
        r.push(0xC0 + n / 64);
        r.push(0x80 + n % 64);
    } else if n < 0x10000 {
        r.push(0xE0 + n / 4096);
        r.push(0x80 + (n / 64) % 64);
        r.push(0x80 + n % 64);
    } else {
        assert(n <= 0x10FFFF);
        r.push(0xF0 + n / 262144);
        r.push(0x80 + (n / 4096) % 64);
        r.push(0x80 + (n / 64) % 64);
        r.push(0x80 + n % 64);
    }
    assert(r@.map_values(|b: u32| b as nat) =~= utf8(c as nat));
    r
}

/// Escapes a value for use as a path segment (see [`encoded`]).
pub fn encode_path(s: &str) -> (r: String)
    ensures
        r@ == encoded(s@),
{
    let v = chars_of(s);
    let mut out: Vec<char> = Vec::new();
    let mut i: usize = 0;
    while i < v.len()
        invariant
            v@ == s@,
            i <= v@.len(),
            out@ == encoded(v@.take(i as int)),
        decreases v@.len() - i,
    {
        assert(v@.take(i + 1).drop_last() =~= v@.take(i as int));
        let c = v[i];
        if ('a' <= c && c <= 'z') || ('A' <= c && c <= 'Z') || ('0' <= c && c <= '9') || c == '-' || c == '.' || c == '_' || c == '~' {
            out.push(c);
        } else {
            let bs = utf8_bytes(c);
            push_pct(&mut out, &bs);
        }
        i += 1;
        assert(out@ =~= encoded(v@.take(i as int)));
    }
    assert(v@.take(v@.len() as int) =~= v@);
    string_of(&out)
}

/// The value of one query parameter.
pub enum QueryValue {
    /// Sent unless empty.
    Text(String),
    /// Sent when positive.
    Number(i64),
    /// Sent when true.
    Flag(bool),
    /// Always sent, as it stands.
    Always(String),
}

/// One query parameter.
pub struct QueryArg {
    pub name: String,
    pub value: QueryValue,
}

/// Whether a query value is sent.
pub open spec fn is_sent(v: QueryValue) -> bool {
    match v {
        QueryValue::Text(s) => s@.len() > 0,
        QueryValue::Number(n) => n > 0,
        QueryValue::Flag(b) => b,
        QueryValue::Always(_) => true,
    }
}

/// The text of a sent query value.
pub open spec fn value_text(v: QueryValue) -> Seq<char> {
    match v {
        QueryValue::Text(s) => s@,
        QueryValue::Number(n) => dec(n as nat),
        QueryValue::Flag(_) => "true"@,
        QueryValue::Always(s) => s@,
    }
}

/// The `name=value` pairs of the sent values, in order, joined by `&`.
pub open spec fn query_text(args: Seq<QueryArg>) -> Seq<char>
    decreases args.len(),
{
    if args.len() == 0 {
        Seq::empty()
    } else {
        let q = query_text(args.drop_last());
        let a = args.last();
        if !is_sent(a.value) {
            q
        } else if q.len() == 0 {
            a.name@ + "="@ + value_text(a.value)
        } else {
            q + "&"@ + a.name@ + "="@ + value_text(a.value)
        }
    }
}

/// The query string of `args`: the sent values as `name=value` pairs, in
/// order, joined by `&`; an optional value that is not set is left out.
pub fn query_string(args: &Vec<QueryArg>) -> (r: String)
    ensures
        r@ == query_text(args@),
{
    let mut out: Vec<char> = Vec::new();
    let mut i: usize = 0;
    while i < args.len()
        invariant
            i <= args@.len(),
            out@ == query_text(args@.take(i as int)),
        decreases args@.len() - i,
    {
        assert(args@.take(i + 1).drop_last() =~= args@.take(i as int));
        let a = &args[i];
        let sent = match &a.value {
            QueryValue::Text(s) => s.unicode_len() > 0,
            QueryValue::Number(n) => *n > 0,
            QueryValue::Flag(b) => *b,
            QueryValue::Always(_) => true,
        };
        if sent {
            if out.len() > 0 {
                push_str(&mut out, "&");
            }
            push_str(&mut out, a.name.as_str());
            push_str(&mut out, "=");
            match &a.value {
                QueryValue::Text(s) => push_str(&mut out, s.as_str()),
                QueryValue::Number(n) => {
                    let d = crate::text::decimal(*n as u64);
                    push_chars(&mut out, &d);
                },
                QueryValue::Flag(_) => push_str(&mut out, "true"),
                QueryValue::Always(s) => push_str(&mut out, s.as_str()),
            }
        }
        i += 1;
        assert(out@ =~= query_text(args@.take(i as int)));
    }
    assert(args@.take(args@.len() as int) =~= args@);
    string_of(&out)
}

} // verus!
