//! Choosing the response type of an operation by content-type precedence,
//! and the request-body strategy.

use vstd::prelude::*;
use crate::model::{fault, well_formed, Document, ErrorKind, Fault, GenError, MediaType, Operation};
use crate::registry::{select_spec, TypeSpace, TypeView};
use crate::text::{chars_of, is_text, push_chars, push_str};

verus! {

/// The first media type at or after `k` of content type `ct`.
pub open spec fn find_media(content: Seq<MediaType>, ct: Seq<char>, k: int) -> Option<int>
    decreases content.len() - k,
{
    if k < 0 || k >= content.len() {
        None
    } else if content[k].content_type@ == ct {
        Some(k)
    } else {
        find_media(content, ct, k + 1)
    }
}

/// Content types whose schema is used as it stands, without a name.
pub open spec fn is_plain_content(ct: Seq<char>) -> bool {
    ct == "text/plain"@ || ct == "text/html"@ || ct == "application/octocat-stream"@ || ct == "*/*"@
}

/// The owned rendering of node `s` resolved under `pref` (anonymous where
/// `None`).
pub open spec fn resolve_owned(ents: Seq<TypeView>, doc: Document, pref: Option<Seq<char>>, s: int) -> (Seq<TypeView>, Result<Seq<char>, Fault>) {
    let (e1, r) = select_spec(ents, doc, pref, s, false, Seq::empty());
    match r {
        Ok(id) => (e1, Ok(e1[id].owned)),
        Err(f) => (e1, Err(f)),
    }
}

/// The preferred name of an operation's response type.
pub open spec fn response_name(oid: Seq<char>) -> Seq<char> {
    oid + " response"@
}

/// The response type of an operation, first rule that applies:
/// no content on the first response gives `()`; JSON content with a schema
/// gives a type named after the operation; else the first content entry, if
/// plain text, HTML, the vendor octet stream or a wildcard, gives the
/// anonymous type of its schema, and if SCIM JSON, a named type. Encoding
/// metadata on JSON content is refused; anything else is unrepresentable.
pub open spec fn response_spec(ents: Seq<TypeView>, doc: Document, oid: Seq<char>, op: Operation) -> (Seq<TypeView>, Result<Seq<char>, Fault>) {
    if op.responses@.len() == 0 {
        (ents, Err((ErrorKind::UnrepresentableResponse, oid)))
    } else {
        let content = op.responses@[0].content@;
        if content.len() == 0 {
            (ents, Ok("()"@))
        } else {
            let json = find_media(content, "application/json"@, 0);
            if json is Some && content[json->Some_0].has_encoding {
                (ents, Err((ErrorKind::UnsupportedQuerySemantics, "application/json"@)))
            } else if json is Some && content[json->Some_0].schema is Some {
                resolve_owned(ents, doc, Some(response_name(oid)), content[json->Some_0].schema->Some_0 as int)
            } else {
                let first = content[0];
                let ct = first.content_type@;
                if is_plain_content(ct) {
                    match first.schema {
                        Some(s) => resolve_owned(ents, doc, None, s as int),
                        None => (ents, Err((ErrorKind::UnrepresentableResponse, oid))),
                    }
                } else if ct == "application/scim+json"@ {
                    if first.has_encoding {
                        (ents, Err((ErrorKind::UnsupportedQuerySemantics, ct)))
                    } else {
                        match first.schema {
                            Some(s) => resolve_owned(ents, doc, Some(response_name(oid)), s as int),
                            None => (ents, Err((ErrorKind::UnrepresentableResponse, oid))),
                        }
                    }
                } else {
                    (ents, Err((ErrorKind::UnrepresentableResponse, oid)))
                }
            }
        }
    }
}

/// How a request body is sent.
#[derive(Clone, Copy, Debug, PartialEq, Eq, Structural)]
pub enum BodyKind {
    /// No body.
    Absent,
    /// Serialized as JSON.
    Json,
    /// Converted into a byte payload.
    Raw,
}

/// The request-body strategy, as text.
pub ghost struct BodyView {
    pub bounds: Seq<Seq<char>>,
    pub param: Option<Seq<char>>,
    pub kind: BodyKind,
}

/// The preferred name of an operation's request type.
pub open spec fn request_name(oid: Seq<char>) -> Seq<char> {
    oid + " request"@
}

/// No body.
pub open spec fn no_body() -> BodyView {
    BodyView { bounds: Seq::empty(), param: None, kind: BodyKind::Absent }
}

/// The request-body strategy: binary content takes any byte body; JSON
/// content a reference to a request type named after the operation, sent
/// serialized; other content a value of its schema's type convertible to a
/// byte payload, written as a generic where that type is `String`.
pub open spec fn body_spec(ents: Seq<TypeView>, doc: Document, oid: Seq<char>, op: Operation) -> (Seq<TypeView>, Result<BodyView, Fault>) {
    match op.request_body {
        None => (ents, Ok(no_body())),
        Some(b) => if b.content@.len() == 0 {
            (ents, Ok(no_body()))
        } else {
            let first = b.content@[0];
            if first.content_type@ == "application/octet-stream"@ {
                (ents, Ok(BodyView { bounds: seq!["B: Into<reqwest::Body>"@], param: Some("B"@), kind: BodyKind::Raw }))
            } else if first.content_type@ == "application/json"@ {
                match first.schema {
                    Some(s) => {
                        let (e1, r) = resolve_owned(ents, doc, Some(request_name(oid)), s as int);
                        match r {
                            Ok(rt) => (e1, Ok(BodyView { bounds: Seq::empty(), param: Some("&"@ + rt), kind: BodyKind::Json })),
                            Err(f) => (e1, Err(f)),
                        }
                    },
                    None => (ents, Ok(no_body())),
                }
            } else {
                match first.schema {
                    Some(s) => {
                        let (e1, r) = resolve_owned(ents, doc, None, s as int);
                        match r {
                            Ok(rt) => (e1, Ok(BodyView {
                                bounds: seq!["T: Into<reqwest::Body>"@],
                                param: Some(if rt == "String"@ { "T"@ } else { rt }),
                                kind: BodyKind::Raw,
                            })),
                            Err(f) => (e1, Err(f)),
                        }
                    },
                    None => (ents, Ok(no_body())),
                }
            }
        },
    }
}

/// The request-body strategy of an operation.
pub struct BodyPlan {
    /// Generic bounds the function needs.
    pub bounds: Vec<Vec<char>>,
    /// The type of the `body` parameter, if any.
    pub param: Option<Vec<char>>,
    pub kind: BodyKind,
}

impl View for BodyPlan {
    type V = BodyView;

    open spec fn view(&self) -> BodyView {
        BodyView {
            bounds: crate::text::views(self.bounds@),
            param: match self.param {
                Some(p) => Some(p@),
                None => None,
            },
            kind: self.kind,
        }
    }
}

/// The first media type of content type `ct`.
fn find_content(content: &Vec<MediaType>, ct: &str) -> (r: Option<usize>)
    ensures
        r matches Some(k) ==> find_media(content@, ct@, 0) == Some(k as int) && k < content@.len(),
        r is None ==> find_media(content@, ct@, 0) is None,
{
    let mut k: usize = 0;
    while k < content.len()
        invariant
            k <= content@.len(),
            find_media(content@, ct@, 0) == find_media(content@, ct@, k as int),
        decreases content@.len() - k,
    {
        let c = chars_of(content[k].content_type.as_str());
        if is_text(&c, ct) {
            return Some(k);
        }
        k += 1;
    }
    None
}

/// The owned rendering of node `s` resolved under `pref`.
fn resolve(ts: &mut TypeSpace, doc: &Document, pref: &Option<Vec<char>>, s: usize) -> (r: Result<Vec<char>, GenError>)
    requires
        well_formed(*doc),
    ensures
        ({
            let (e, x) = resolve_owned(old(ts)@, *doc, crate::text::opt_chars(*pref), s as int);
            &&& final(ts)@ == e
            &&& r matches Ok(t) ==> x == Ok::<_, Fault>(t@)
            &&& r matches Err(f) ==> x == Err::<Seq<char>, _>(f@)
        }),
{
    let id = ts.select_chars(doc, pref, s, false, &Vec::new());
    match id {
        Ok(id) => Ok(ts.render_chars(id, false)),
        Err(e) => Err(e),
    }
}

/// `oid` followed by `suffix`.
fn suffixed(oid: &Vec<char>, suffix: &str) -> (r: Vec<char>)
    ensures
        r@ == oid@ + suffix@,
{
    let mut r: Vec<char> = Vec::new();
    push_chars(&mut r, oid);
    push_str(&mut r, suffix);
    assert(r@ =~= oid@ + suffix@);
    r
}

/// The response type of operation `op` (see [`response_spec`]).
pub fn get_response_type(oid: &Vec<char>, ts: &mut TypeSpace, doc: &Document, op: &Operation) -> (r: Result<Vec<char>, GenError>)
    requires
        well_formed(*doc),
    ensures
        ({
            let (e, x) = response_spec(old(ts)@, *doc, oid@, *op);
            &&& final(ts)@ == e
            &&& r matches Ok(t) ==> x == Ok::<_, Fault>(t@)
            &&& r matches Err(f) ==> x == Err::<Seq<char>, _>(f@)
        }),
{
    if op.responses.len() == 0 {
        return Err(fault(ErrorKind::UnrepresentableResponse, oid));
    }
    let content = &op.responses[0].content;
    if content.len() == 0 {
        return Ok(chars_of("()"));
    }
    let json = find_content(content, "application/json");
    if let Some(j) = json {
        if content[j].has_encoding {
            return Err(fault(ErrorKind::UnsupportedQuerySemantics, &chars_of("application/json")));
        }
        if let Some(s) = content[j].schema {
            return resolve(ts, doc, &Some(suffixed(oid, " response")), s);
        }
    }
    let first = &content[0];
    let ct = chars_of(first.content_type.as_str());
    if is_text(&ct, "text/plain") || is_text(&ct, "text/html") || is_text(&ct, "application/octocat-stream") || is_text(&ct, "*/*") {
        match first.schema {
            Some(s) => resolve(ts, doc, &None, s),
            None => Err(fault(ErrorKind::UnrepresentableResponse, oid)),
        }
    } else if is_text(&ct, "application/scim+json") {
        if first.has_encoding {
            return Err(fault(ErrorKind::UnsupportedQuerySemantics, &ct));
        }
        match first.schema {
            Some(s) => resolve(ts, doc, &Some(suffixed(oid, " response")), s),
            None => Err(fault(ErrorKind::UnrepresentableResponse, oid)),
        }
    } else {
        Err(fault(ErrorKind::UnrepresentableResponse, oid))
    }
}

/// A plan with no body.
fn absent() -> (r: BodyPlan)
    ensures
        r@ == no_body(),
{
    let r = BodyPlan { bounds: Vec::new(), param: None, kind: BodyKind::Absent };
    assert(r@.bounds =~= Seq::<Seq<char>>::empty());
    r
}

/// A single bound.
fn one_bound(b: &str) -> (r: Vec<Vec<char>>)
    ensures
        crate::text::views(r@) == seq![b@],
{
    let mut r: Vec<Vec<char>> = Vec::new();
    r.push(chars_of(b));
    assert(crate::text::views(r@) =~= seq![b@]);
    r
}

/// The request-body strategy of operation `op` (see [`body_spec`]).
pub fn get_body_plan(oid: &Vec<char>, ts: &mut TypeSpace, doc: &Document, op: &Operation) -> (r: Result<BodyPlan, GenError>)
    requires
        well_formed(*doc),
    ensures
        ({
            let (e, x) = body_spec(old(ts)@, *doc, oid@, *op);
            &&& final(ts)@ == e
            &&& r matches Ok(p) ==> x == Ok::<_, Fault>(p@)
            &&& r matches Err(f) ==> x == Err::<BodyView, _>(f@)
        }),
{
    let b = match &op.request_body {
        None => {
            return Ok(absent());
        },
        Some(b) => b,
    };
    if b.content.len() == 0 {
        return Ok(absent());
    }
    let first = &b.content[0];
    let ct = chars_of(first.content_type.as_str());
    if is_text(&ct, "application/octet-stream") {
        Ok(BodyPlan { bounds: one_bound("B: Into<reqwest::Body>"), param: Some(chars_of("B")), kind: BodyKind::Raw })
    } else if is_text(&ct, "application/json") {
        match first.schema {
            Some(s) => match resolve(ts, doc, &Some(suffixed(oid, " request")), s) {
                Ok(rt) => {
                    let mut p = chars_of("&");
                    push_chars(&mut p, &rt);
                    let r = BodyPlan { bounds: Vec::new(), param: Some(p), kind: BodyKind::Json };
                    assert(r@.bounds =~= Seq::<Seq<char>>::empty());
                    Ok(r)
                },
                Err(e) => Err(e),
            },
            None => Ok(absent()),
        }
    } else {
        match first.schema {
            Some(s) => match resolve(ts, doc, &None, s) {
                Ok(rt) => {
                    let p = if is_text(&rt, "String") { chars_of("T") } else { rt };
                    Ok(BodyPlan { bounds: one_bound("T: Into<reqwest::Body>"), param: Some(p), kind: BodyKind::Raw })
                },
                Err(e) => Err(e),
            },
            None => Ok(absent()),
        }
    }
}

} // verus!
