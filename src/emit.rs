//! Rendering a synthesized function as text: its documentation block, the
//! call that performs the request, and the function itself.

use vstd::prelude::*;
use crate::model::{fault, ErrorKind, Fault, GenError, Operation, Verb};
use crate::params::{ParamDescriptor, ParamInfo};
use crate::registry::{TypeSpace, TypeView};
use crate::response::BodyKind;
use crate::text::{chars_of, is_text, opt_string, push_chars, push_str};

verus! {

/// Whether a character has the Unicode White_Space property, which is what
/// `str::trim` removes.
pub open spec fn is_white(c: char) -> bool {
    ('\u{9}' <= c && c <= '\u{d}') || c == ' ' || c == '\u{85}' || c == '\u{a0}' || c == '\u{1680}'
        || ('\u{2000}' <= c && c <= '\u{200a}') || c == '\u{2028}' || c == '\u{2029}'
        || c == '\u{202f}' || c == '\u{205f}' || c == '\u{3000}'
}

/// `s` without leading white space.
pub open spec fn trim_start_white(s: Seq<char>) -> Seq<char>
    decreases s.len(),
{
    if s.len() > 0 && is_white(s[0]) {
        trim_start_white(s.drop_first())
    } else {
        s
    }
}

/// `s` without trailing white space.
pub open spec fn trim_end_white(s: Seq<char>) -> Seq<char>
    decreases s.len(),
{
    if s.len() > 0 && is_white(s.last()) {
        trim_end_white(s.drop_last())
    } else {
        s
    }
}

/// `s` without leading and trailing white space.
pub open spec fn trim_of(s: Seq<char>) -> Seq<char> {
    trim_end_white(trim_start_white(s))
}

/// Whether a character is white space.
fn white(c: char) -> (r: bool)
    ensures
        r == is_white(c),
{
    ('\u{9}' <= c && c <= '\u{d}') || c == ' ' || c == '\u{85}' || c == '\u{a0}' || c == '\u{1680}'
        || ('\u{2000}' <= c && c <= '\u{200a}') || c == '\u{2028}' || c == '\u{2029}'
        || c == '\u{202f}' || c == '\u{205f}' || c == '\u{3000}'
}

/// `s` without leading and trailing white space.
fn trim_ws(s: &Vec<char>) -> (r: Vec<char>)
    ensures
        r@ == trim_of(s@),
{
    let mut k: usize = 0;
    assert(s@.skip(0) =~= s@);
    while k < s.len() && white(s[k])
        invariant
            k <= s@.len(),
            trim_start_white(s@) == trim_start_white(s@.skip(k as int)),
        decreases s@.len() - k,
    {
        assert(s@.skip(k as int).drop_first() =~= s@.skip(k + 1));
        k += 1;
    }
    assert(trim_start_white(s@) == s@.skip(k as int));
    let mut n = s.len();
    assert(s@.subrange(k as int, n as int) =~= s@.skip(k as int));
    while n > k && white(s[n - 1])
        invariant
            k <= n <= s@.len(),
            trim_of(s@) == trim_end_white(s@.subrange(k as int, n as int)),
        decreases n,
    {
        assert(s@.subrange(k as int, n as int).drop_last() =~= s@.subrange(k as int, n - 1));
        n -= 1;
    }
    let mut r: Vec<char> = Vec::new();
    let mut i: usize = k;
    while i < n
        invariant
            k <= i <= n,
            n <= s@.len(),
            r@ == s@.subrange(k as int, i as int),
        decreases n - i,
    {
        r.push(s[i]);
        i += 1;
        assert(r@ =~= s@.subrange(k as int, i as int));
    }
    r
}

/// `s` without trailing `.` characters.
pub open spec fn trim_end_dots(s: Seq<char>) -> Seq<char>
    decreases s.len(),
{
    if s.len() > 0 && s.last() == '.' {
        trim_end_dots(s.drop_last())
    } else {
        s
    }
}

/// `s` without leading `*` characters.
pub open spec fn trim_start_stars(s: Seq<char>) -> Seq<char>
    decreases s.len(),
{
    if s.len() > 0 && s[0] == '*' {
        trim_start_stars(s.drop_first())
    } else {
        s
    }
}

/// `s` with each line break replaced by `rep`.
pub open spec fn replace_nl(s: Seq<char>, rep: Seq<char>) -> Seq<char>
    decreases s.len(),
{
    if s.len() == 0 {
        s
    } else {
        replace_nl(s.drop_last(), rep) + if s.last() == '\n' { rep } else { seq![s.last()] }
    }
}

/// `s` without every leading copy of `p`.
pub open spec fn strip_all(s: Seq<char>, p: Seq<char>) -> Seq<char>
    decreases s.len(),
{
    if p.len() > 0 && p.len() <= s.len() && s.take(p.len() as int) == p {
        strip_all(s.skip(p.len() as int), p)
    } else {
        s
    }
}

/// The texts of `parts` with `sep` between them.
pub open spec fn join(parts: Seq<Seq<char>>, sep: Seq<char>) -> Seq<char>
    decreases parts.len(),
{
    if parts.len() == 0 {
        Seq::empty()
    } else if parts.len() == 1 {
        parts[0]
    } else {
        join(parts.drop_last(), sep) + sep + parts.last()
    }
}

/// The method name in upper case.
pub open spec fn verb_upper(v: Verb) -> Seq<char> {
    match v {
        Verb::Get => "GET"@,
        Verb::Put => "PUT"@,
        Verb::Post => "POST"@,
        Verb::Delete => "DELETE"@,
        Verb::Options => "OPTIONS"@,
        Verb::Head => "HEAD"@,
        Verb::Patch => "PATCH"@,
        Verb::Trace => "TRACE"@,
    }
}

/// The method name in lower case.
pub open spec fn verb_lower(v: Verb) -> Seq<char> {
    match v {
        Verb::Get => "get"@,
        Verb::Put => "put"@,
        Verb::Post => "post"@,
        Verb::Delete => "delete"@,
        Verb::Options => "options"@,
        Verb::Head => "head"@,
        Verb::Patch => "patch"@,
        Verb::Trace => "trace"@,
    }
}

/// The exception table: operations that fetch their own access token and so
/// must call themselves without the usual authentication.
pub open spec fn is_token_fetch(oid: Seq<char>) -> bool {
    oid == "apps_create_installation_access_token"@
}

/// The call that sends a token-fetch request.
pub open spec fn token_fetch_call() -> Seq<char> {
    "self.client.post_media(\n            &url,\n            Some(reqwest::Body::from(serde_json::to_vec(body).unwrap())),\n            crate::utils::MediaType::Json,\n            crate::auth::AuthenticationConstraint::JWT,\n        ).await"@
}

/// The body argument of a request call.
pub open spec fn body_arg(kind: BodyKind) -> Seq<char> {
    match kind {
        BodyKind::Json => "Some(reqwest::Body::from(serde_json::to_vec(body).unwrap()))"@,
        BodyKind::Raw => "Some(body.into())"@,
        BodyKind::Absent => "None"@,
    }
}

/// Whether a method sends a body.
pub open spec fn sends_body(v: Verb) -> bool {
    v == Verb::Post || v == Verb::Patch || v == Verb::Put || v == Verb::Delete
}

/// The call that performs the request: a fetch without body for `GET`, the
/// method with its body for `POST`, `PATCH`, `PUT` and `DELETE`, the
/// token-fetch call for the one exception; other methods are an error.
pub open spec fn inner_spec(oid: Seq<char>, v: Verb, kind: BodyKind) -> Result<Seq<char>, Fault> {
    if v == Verb::Get {
        Ok("self.client.get(&url).await"@)
    } else if sends_body(v) && !is_token_fetch(oid) {
        Ok("self.client."@ + verb_lower(v) + "(&url, "@ + body_arg(kind) + ").await"@)
    } else if !is_token_fetch(oid) {
        Err((ErrorKind::MissingAuthenticationContext, oid))
    } else {
        Ok(token_fetch_call())
    }
}

/// The documentation of a type, empty for an identifier out of range.
pub open spec fn schema_docs(ents: Seq<TypeView>, id: int) -> Seq<char> {
    if 0 <= id < ents.len() {
        ents[id].docs
    } else {
        Seq::empty()
    }
}

/// The description that follows a parameter bullet: its own description
/// where longer than its schema, else the schema's, else nothing.
pub open spec fn param_note(d: Option<Seq<char>>, sd: Seq<char>) -> Seq<char> {
    if d is Some && d->Some_0.len() > 0 && d->Some_0.len() > sd.len() {
        " -- "@ + replace_nl(trim_end_dots(d->Some_0), "\n*   "@) + "."@
    } else if sd.len() > 0 {
        " -- "@ + trim_of(trim_end_dots(trim_start_stars(sd))) + "."@
    } else {
        Seq::empty()
    }
}

/// One parameter bullet line.
pub open spec fn param_line(pi: ParamInfo, ents: Seq<TypeView>) -> Seq<char> {
    "* * `"@ + pi.ident + ": "@ + pi.typ + "`"@ + param_note(pi.description, schema_docs(ents, pi.id)) + "\n"@
}

/// The bullet lines of all parameters.
pub open spec fn param_lines(infos: Seq<ParamInfo>, ents: Seq<TypeView>) -> Seq<char>
    decreases infos.len(),
{
    if infos.len() == 0 {
        Seq::empty()
    } else {
        param_lines(infos.drop_last(), ents) + param_line(infos.last(), ents)
    }
}

/// The documentation block of a function: summary, method and path,
/// description, external link, and a bullet per parameter.
pub open spec fn docs_spec(op: Operation, v: Verb, path: Seq<char>, infos: Seq<ParamInfo>, ents: Seq<TypeView>) -> Seq<char> {
    docs_head(op, v, path, infos.len() > 0) + param_lines(infos, ents) + "*"@ + "/"@
}

/// The summary lines, if any.
pub open spec fn summary_part(op: Operation) -> Seq<char> {
    match op.summary {
        Some(t) => "* "@ + trim_end_dots(t@) + ".\n"@ + "*\n"@,
        None => Seq::empty(),
    }
}

/// The line naming the method and path.
pub open spec fn method_part(v: Verb, path: Seq<char>) -> Seq<char> {
    "* This function performs a `"@ + verb_upper(v) + "` to the `"@ + path + "` endpoint.\n"@
}

/// The description lines, if any.
pub open spec fn description_part(op: Operation) -> Seq<char> {
    match op.description {
        Some(d) => "*\n"@ + "* "@ + replace_nl(d@, "\n* "@) + "\n"@,
        None => Seq::empty(),
    }
}

/// The external link lines, if any.
pub open spec fn link_part(op: Operation) -> Seq<char> {
    match op.external_docs {
        Some(u) => "*\n"@ + "* FROM: <"@ + u@ + ">\n"@,
        None => Seq::empty(),
    }
}

/// The heading of the parameter bullets, if there are parameters.
pub open spec fn params_heading(any_params: bool) -> Seq<char> {
    if any_params {
        "*\n"@ + "* **Parameters:**\n"@ + "*\n"@
    } else {
        Seq::empty()
    }
}

/// The documentation block up to the parameter bullets.
pub open spec fn docs_head(op: Operation, v: Verb, path: Seq<char>, any_params: bool) -> Seq<char> {
    "/"@ + "**\n"@ + summary_part(op) + method_part(v, path) + description_part(op) + link_part(op) + params_heading(any_params)
}

/// One function parameter declaration.
pub open spec fn param_decl(pi: ParamInfo) -> Seq<char> {
    pi.ident + ": "@ + pi.typ + ","@
}

/// The declarations of all parameters.
pub open spec fn param_decls(infos: Seq<ParamInfo>) -> Seq<Seq<char>> {
    infos.map_values(|pi: ParamInfo| param_decl(pi))
}

/// The name of an operation function: the operation id without its tag
/// prefix and the underscores after it.
pub open spec fn fn_name(oid: Seq<char>, tag: Seq<char>) -> Seq<char> {
    strip_all(strip_all(oid, tag), "_"@)
}

/// The documentation, attribute and opening line of a function.
pub open spec fn fn_head(docs: Seq<char>, oid: Seq<char>, name: Seq<char>, bounds: Seq<Seq<char>>) -> Seq<char> {
    docs + "\n"@
    + if is_token_fetch(oid) { "#[async_recursion::async_recursion]\n"@ } else { Seq::empty() }
    + if bounds.len() == 0 {
        "pub async fn "@ + name + "(\n"@
    } else {
        "pub async fn "@ + name + "<"@ + join(bounds, ", "@) + ">(\n"@
    }
}

/// The parameter lines of a function.
pub open spec fn fn_args(decls: Seq<Seq<char>>, body_param: Option<Seq<char>>) -> Seq<char> {
    "&self,\n"@
    + if decls.len() > 0 { join(decls, " "@) + "\n"@ } else { Seq::empty() }
    + match body_param { Some(bp) => "body: "@ + bp + "\n"@, None => Seq::empty() }
}

/// The result type and body of a function.
pub open spec fn fn_tail(rt: Seq<char>, template: Seq<char>, inner: Seq<char>) -> Seq<char> {
    ") -> Result<"@ + rt + "> {\n"@ + template + "\n"@ + inner + "\n"@ + "}\n"@ + "\n"@
}

/// The text of one function, each line ended by a line break.
pub open spec fn fn_text(
    docs: Seq<char>,
    oid: Seq<char>,
    name: Seq<char>,
    bounds: Seq<Seq<char>>,
    decls: Seq<Seq<char>>,
    body_param: Option<Seq<char>>,
    rt: Seq<char>,
    template: Seq<char>,
    inner: Seq<char>,
) -> Seq<char> {
    fn_head(docs, oid, name, bounds) + fn_args(decls, body_param) + fn_tail(rt, template, inner)
}

/// `s` without trailing `.` characters.
fn trim_dots(s: &Vec<char>) -> (r: Vec<char>)
    ensures
        r@ == trim_end_dots(s@),
{
    let mut n = s.len();
    assert(s@.take(n as int) =~= s@);
    while n > 0 && s[n - 1] == '.'
        invariant
            n <= s@.len(),
            trim_end_dots(s@) == trim_end_dots(s@.take(n as int)),
        decreases n,
    {
        assert(s@.take(n as int).drop_last() =~= s@.take(n - 1));
        n -= 1;
    }
    let mut r: Vec<char> = Vec::new();
    let mut i: usize = 0;
    while i < n
        invariant
            n <= s@.len(),
            i <= n,
            r@ == s@.take(i as int),
        decreases n - i,
    {
        r.push(s[i]);
        i += 1;
        assert(r@ =~= s@.take(i as int));
    }
    r
}

/// `s` without leading `*` characters.
fn trim_stars(s: &Vec<char>) -> (r: Vec<char>)
    ensures
        r@ == trim_start_stars(s@),
{
    let mut k: usize = 0;
    assert(s@.skip(0) =~= s@);
    while k < s.len() && s[k] == '*'
        invariant
            k <= s@.len(),
            trim_start_stars(s@) == trim_start_stars(s@.skip(k as int)),
        decreases s@.len() - k,
    {
        assert(s@.skip(k as int).drop_first() =~= s@.skip(k + 1));
        k += 1;
    }
    let mut r: Vec<char> = Vec::new();
    let mut i: usize = k;
    while i < s.len()
        invariant
            k <= i <= s@.len(),
            r@ == s@.subrange(k as int, i as int),
        decreases s@.len() - i,
    {
        r.push(s[i]);
        i += 1;
        assert(r@ =~= s@.subrange(k as int, i as int));
    }
    assert(r@ =~= s@.skip(k as int));
    r
}

/// Appends `s` with each line break replaced by `rep`.
fn push_replacing(out: &mut Vec<char>, s: &Vec<char>, rep: &str)
    ensures
        final(out)@ == old(out)@ + replace_nl(s@, rep@),
{
    let mut i: usize = 0;
    while i < s.len()
        invariant
            i <= s@.len(),
            out@ == old(out)@ + replace_nl(s@.take(i as int), rep@),
        decreases s@.len() - i,
    {
        assert(s@.take(i + 1).drop_last() =~= s@.take(i as int));
        if s[i] == '\n' {
            push_str(out, rep);
        } else {
            out.push(s[i]);
        }
        i += 1;
        assert(out@ =~= old(out)@ + replace_nl(s@.take(i as int), rep@));
    }
    assert(s@.take(s@.len() as int) =~= s@);
}

/// `s` without every leading copy of `p`.
pub(crate) fn strip_repeated(s: &Vec<char>, p: &Vec<char>) -> (r: Vec<char>)
    ensures
        r@ == strip_all(s@, p@),
{
    let mut k: usize = 0;
    let mut done = false;
    assert(s@.skip(0) =~= s@);
    while !done
        invariant
            k <= s@.len(),
            strip_all(s@, p@) == strip_all(s@.skip(k as int), p@),
            done ==> strip_all(s@, p@) == s@.skip(k as int),
        decreases s@.len() - k + if done { 0int } else { 1int },
    {
        let rest = s.len() - k;
        if p.len() == 0 || p.len() > rest {
            done = true;
            continue;
        }
        let mut j: usize = 0;
        let mut same = true;
        while j < p.len()
            invariant
                k <= s.len(),
                p.len() <= s.len() - k,
                j <= p@.len(),
                same == (forall|m: int| 0 <= m < j ==> s@[k + m] == p@[m]),
            decreases p@.len() - j,
        {
            if s[k + j] != p[j] {
                same = false;
            }
            j += 1;
        }
        let ghost t = s@.skip(k as int);
        if same {
            assert(t.take(p@.len() as int) =~= p@);
            assert(t.skip(p@.len() as int) =~= s@.skip(k + p@.len()));
            k += p.len();
        } else {
            assert(t.take(p@.len() as int) != p@) by {
                let m = choose|m: int| 0 <= m < p@.len() && s@[k + m] != p@[m];
                assert(t.take(p@.len() as int)[m] == s@[k + m]);
            }
            done = true;
        }
    }
    let mut r: Vec<char> = Vec::new();
    let mut i: usize = k;
    while i < s.len()
        invariant
            k <= i <= s@.len(),
            r@ == s@.subrange(k as int, i as int),
        decreases s@.len() - i,
    {
        r.push(s[i]);
        i += 1;
        assert(r@ =~= s@.subrange(k as int, i as int));
    }
    assert(r@ =~= s@.skip(k as int));
    r
}

/// Appends the texts of `parts` with `sep` between them.
pub(crate) fn push_joined(out: &mut Vec<char>, parts: &Vec<Vec<char>>, sep: &str)
    ensures
        final(out)@ == old(out)@ + join(crate::text::views(parts@), sep@),
{
    let ghost ps = crate::text::views(parts@);
    let mut i: usize = 0;
    while i < parts.len()
        invariant
            ps == crate::text::views(parts@),
            i <= parts@.len(),
            out@ == old(out)@ + join(ps.take(i as int), sep@),
        decreases parts@.len() - i,
    {
        assert(ps.take(i + 1).drop_last() =~= ps.take(i as int));
        if i > 0 {
            push_str(out, sep);
        }
        push_chars(out, &parts[i]);
        i += 1;
        assert(out@ =~= old(out)@ + join(ps.take(i as int), sep@));
    }
    assert(ps.take(parts@.len() as int) =~= ps);
}

/// The method name in upper or lower case.
fn verb_text(v: Verb, upper: bool) -> (r: Vec<char>)
    ensures
        r@ == if upper { verb_upper(v) } else { verb_lower(v) },
{
    match v {
        Verb::Get => chars_of(if upper { "GET" } else { "get" }),
        Verb::Put => chars_of(if upper { "PUT" } else { "put" }),
        Verb::Post => chars_of(if upper { "POST" } else { "post" }),
        Verb::Delete => chars_of(if upper { "DELETE" } else { "delete" }),
        Verb::Options => chars_of(if upper { "OPTIONS" } else { "options" }),
        Verb::Head => chars_of(if upper { "HEAD" } else { "head" }),
        Verb::Patch => chars_of(if upper { "PATCH" } else { "patch" }),
        Verb::Trace => chars_of(if upper { "TRACE" } else { "trace" }),
    }
}

impl Verb {
    /// The method name in upper case, as in `GET`.
    pub fn name_upper(&self) -> (r: String)
        ensures
            r@ == verb_upper(*self),
    {
        crate::text::string_of(&verb_text(*self, true))
    }
}

/// Whether an operation is in the token-fetch exception table.
pub fn token_fetch(oid: &Vec<char>) -> (r: bool)
    ensures
        r == is_token_fetch(oid@),
{
    is_text(oid, "apps_create_installation_access_token")
}

/// The call that performs the request (see [`inner_spec`]).
pub fn get_fn_inner(oid: &Vec<char>, v: Verb, kind: BodyKind) -> (r: Result<Vec<char>, GenError>)
    ensures
        r matches Ok(t) ==> inner_spec(oid@, v, kind) == Ok::<_, Fault>(t@),
        r matches Err(f) ==> inner_spec(oid@, v, kind) == Err::<Seq<char>, _>(f@),
{
    if v == Verb::Get {
        return Ok(chars_of("self.client.get(&url).await"));
    }
    let special = token_fetch(oid);
    if (v == Verb::Post || v == Verb::Patch || v == Verb::Put || v == Verb::Delete) && !special {
        let mut r = chars_of("self.client.");
        push_chars(&mut r, &verb_text(v, false));
        push_str(&mut r, "(&url, ");
        match kind {
            BodyKind::Json => push_str(&mut r, "Some(reqwest::Body::from(serde_json::to_vec(body).unwrap()))"),
            BodyKind::Raw => push_str(&mut r, "Some(body.into())"),
            BodyKind::Absent => push_str(&mut r, "None"),
        }
        push_str(&mut r, ").await");
        return Ok(r);
    }
    if !special {
        return Err(fault(ErrorKind::MissingAuthenticationContext, oid));
    }
    Ok(chars_of("self.client.post_media(\n            &url,\n            Some(reqwest::Body::from(serde_json::to_vec(body).unwrap())),\n            crate::utils::MediaType::Json,\n            crate::auth::AuthenticationConstraint::JWT,\n        ).await"))
}

/// The description after one parameter bullet.
fn note_text(d: &Option<String>, sd: &Vec<char>) -> (r: Vec<char>)
    ensures
        r@ == param_note(opt_string(*d), sd@),
{
    let dv: Option<Vec<char>> = match d {
        Some(s) => Some(chars_of(s.as_str())),
        None => None,
    };
    let mut r: Vec<char> = Vec::new();
    match &dv {
        Some(x) if x.len() > 0 && x.len() > sd.len() => {
            push_str(&mut r, " -- ");
            let t = trim_dots(x);
            push_replacing(&mut r, &t, "\n*   ");
            push_str(&mut r, ".");
            return r;
        },
        _ => {},
    }
    if sd.len() > 0 {
        push_str(&mut r, " -- ");
        let t = trim_ws(&trim_dots(&trim_stars(sd)));
        push_chars(&mut r, &t);
        push_str(&mut r, ".");
    }
    assert(r@ =~= param_note(opt_string(*d), sd@));
    r
}

/// The documentation block up to the parameter bullets.
fn docs_header(op: &Operation, v: Verb, path: &Vec<char>, any_params: bool) -> (r: Vec<char>)
    ensures
        r@ == docs_head(*op, v, path@, any_params),
{
    let mut out = chars_of("/");
    push_str(&mut out, "**\n");
    let ghost opened = out@;
    if let Some(s) = &op.summary {
        push_str(&mut out, "* ");
        push_chars(&mut out, &trim_dots(&chars_of(s.as_str())));
        push_str(&mut out, ".\n");
        push_str(&mut out, "*\n");
    }
    assert(out@ =~= opened + summary_part(*op));
    let ghost summed = out@;
    push_str(&mut out, "* This function performs a `");
    push_chars(&mut out, &verb_text(v, true));
    push_str(&mut out, "` to the `");
    push_chars(&mut out, path);
    push_str(&mut out, "` endpoint.\n");
    assert(out@ =~= summed + method_part(v, path@));
    let ghost headed = out@;
    if let Some(d) = &op.description {
        push_str(&mut out, "*\n");
        push_str(&mut out, "* ");
        push_replacing(&mut out, &chars_of(d.as_str()), "\n* ");
        push_str(&mut out, "\n");
    }
    assert(out@ =~= headed + description_part(*op));
    let ghost described = out@;
    if let Some(u) = &op.external_docs {
        push_str(&mut out, "*\n");
        push_str(&mut out, "* FROM: <");
        push_str(&mut out, u.as_str());
        push_str(&mut out, ">\n");
    }
    assert(out@ =~= described + link_part(*op));
    let ghost linked = out@;
    if any_params {
        push_str(&mut out, "*\n");
        push_str(&mut out, "* **Parameters:**\n");
        push_str(&mut out, "*\n");
    }
    assert(out@ =~= linked + params_heading(any_params));
    assert(out@ =~= docs_head(*op, v, path@, any_params));
    out
}

/// The documentation block of a function (see [`docs_spec`]).
pub fn get_fn_docs(op: &Operation, v: Verb, path: &Vec<char>, descs: &Vec<ParamDescriptor>, ts: &TypeSpace) -> (r: Vec<char>)
    ensures
        r@ == docs_spec(*op, v, path@, descs@.map_values(|d: ParamDescriptor| d@), ts@),
{
    let ghost infos = descs@.map_values(|d: ParamDescriptor| d@);
    let mut out = docs_header(op, v, path, descs.len() > 0);
    let ghost listed = out@;
    let mut i: usize = 0;
    while i < descs.len()
        invariant
            infos == descs@.map_values(|d: ParamDescriptor| d@),
            i <= descs@.len(),
            out@ == listed + param_lines(infos.take(i as int), ts@),
        decreases descs@.len() - i,
    {
        assert(infos.take(i + 1).drop_last() =~= infos.take(i as int));
        assert(infos.take(i + 1).last() == descs@[i as int]@);
        let d = &descs[i];
        let sd: Vec<char> = if d.type_id.index < ts.len() {
            chars_of(ts.render_docs(d.type_id).as_str())
        } else {
            Vec::new()
        };
        push_str(&mut out, "* * `");
        push_str(&mut out, d.ident.as_str());
        push_str(&mut out, ": ");
        push_str(&mut out, d.type_text.as_str());
        push_str(&mut out, "`");
        push_chars(&mut out, &note_text(&d.description, &sd));
        push_str(&mut out, "\n");
        i += 1;
        assert(out@ =~= listed + param_lines(infos.take(i as int), ts@));
    }
    assert(infos.take(descs@.len() as int) =~= infos);
    push_str(&mut out, "*");
    push_str(&mut out, "/");
    out
}

} // verus!
