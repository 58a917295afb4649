//! The operation synthesizer: visits every path and method, and appends
//! each operation's generated function to the group of its tag.

use vstd::prelude::*;
use crate::emit::{docs_spec, fn_name, fn_text, get_fn_docs, get_fn_inner, inner_spec, param_decl, param_decls, token_fetch};
use crate::model::{fault, op_of, well_formed, Document, ErrorKind, Fault, GenError, Operation, PathItem, Verb};
use crate::params::{get_fn_params, params_spec, query_bindings, query_table, ParamDescriptor};
use crate::registry::{TypeSpace, TypeView};
use crate::response::{body_spec, get_body_plan, get_response_type, response_spec};
use crate::table::{insert_sorted, lookup, sorted, Table};
use crate::template::{compiled, parse, parse_path};
use crate::naming::{snake_case, snake_of};
use crate::text::{chars_of, push_chars, push_str, string_of};

verus! {

/// Tag groups as text: each tag with its functions' text.
pub type Groups = Seq<(Seq<char>, Seq<char>)>;

/// The text already gathered under `tag`.
pub open spec fn existing(groups: Groups, tag: Seq<char>) -> Seq<char> {
    match lookup(groups, tag) {
        Some(t) => t,
        None => Seq::empty(),
    }
}

/// A synthesized function, as text: the group it belongs to, the operation
/// id it came from, and the parts that the renderer lays out.
pub ghost struct FnView {
    pub tag: Seq<char>,
    pub oid: Seq<char>,
    pub name: Seq<char>,
    pub docs: Seq<char>,
    pub bounds: Seq<Seq<char>>,
    pub params: Seq<Seq<char>>,
    pub body_param: Option<Seq<char>>,
    pub response_type: Seq<char>,
    pub url: Seq<char>,
    pub call: Seq<char>,
}

/// The registry and function descriptor after synthesizing one operation:
/// exactly one tag is required; the body strategy, parameters and response
/// type are resolved in that order; the path is compiled with the query
/// bindings; and the request call is chosen by method and body.
pub open spec fn describe_spec(ents: Seq<TypeView>, doc: Document, path: Seq<char>, v: Verb, op: Operation) -> (Seq<TypeView>, Result<FnView, Fault>) {
    let oid = snake_of(op.operation_id@);
    if op.tags@.len() != 1 {
        (ents, Err((ErrorKind::TagCardinality, oid)))
    } else {
        let tag = snake_of(op.tags@[0]@);
        let (e1, rb) = body_spec(ents, doc, oid, op);
        match rb {
            Err(f) => (e1, Err(f)),
            Ok(body) => {
                let (e2, rp) = params_spec(e1, doc, op.parameters@);
                match rp {
                    Err(f) => (e2, Err(f)),
                    Ok(infos) => {
                        let (e3, rr) = response_spec(e2, doc, oid, op);
                        match rr {
                            Err(f) => (e3, Err(f)),
                            Ok(rt) => match parse_path(path) {
                                None => (e3, Err((ErrorKind::MalformedTemplate, path))),
                                Some(segs) => match inner_spec(oid, v, body.kind) {
                                    Err(f) => (e3, Err(f)),
                                    Ok(call) => (e3, Ok(FnView {
                                        tag,
                                        oid,
                                        name: fn_name(oid, tag),
                                        docs: docs_spec(op, v, path, infos, e3),
                                        bounds: body.bounds,
                                        params: param_decls(infos),
                                        body_param: body.param,
                                        response_type: rt,
                                        url: compiled(segs, query_table(infos)),
                                        call,
                                    })),
                                },
                            },
                        }
                    },
                }
            },
        }
    }
}

/// The text of a synthesized function.
pub open spec fn render_spec(f: FnView) -> Seq<char> {
    fn_text(f.docs, f.oid, f.name, f.bounds, f.params, f.body_param, f.response_type, f.url, f.call)
}

/// The registry and tag groups after synthesizing one operation: its
/// function's text is appended to its tag's group.
pub open spec fn op_spec(ents: Seq<TypeView>, groups: Groups, doc: Document, path: Seq<char>, v: Verb, op: Operation) -> (Seq<TypeView>, Result<Groups, Fault>) {
    let (e, r) = describe_spec(ents, doc, path, v, op);
    match r {
        Err(f) => (e, Err(f)),
        Ok(d) => (e, Ok(insert_sorted(groups, d.tag, existing(groups, d.tag) + render_spec(d)))),
    }
}

/// The methods in the order they are visited.
pub open spec fn verb_at(k: int) -> Verb {
    if k == 0 { Verb::Get } else if k == 1 { Verb::Put } else if k == 2 { Verb::Post }
    else if k == 3 { Verb::Delete } else if k == 4 { Verb::Options } else if k == 5 { Verb::Head }
    else if k == 6 { Verb::Patch } else { Verb::Trace }
}

/// The registry and tag groups after the first `m` methods of a path.
pub open spec fn item_spec(ents: Seq<TypeView>, groups: Groups, doc: Document, item: PathItem, m: int) -> (Seq<TypeView>, Result<Groups, Fault>)
    decreases m,
{
    if m <= 0 {
        (ents, Ok(groups))
    } else {
        let (e, r) = item_spec(ents, groups, doc, item, m - 1);
        match r {
            Err(f) => (e, Err(f)),
            Ok(g) => match op_of(item, verb_at(m - 1)) {
                None => (e, Ok(g)),
                Some(op) => op_spec(e, g, doc, item.path@, verb_at(m - 1), op),
            },
        }
    }
}

/// The registry and tag groups after the first `n` paths.
pub open spec fn paths_spec(ents: Seq<TypeView>, doc: Document, n: int) -> (Seq<TypeView>, Result<Groups, Fault>)
    decreases n,
{
    if n <= 0 {
        (ents, Ok(Seq::empty()))
    } else {
        let (e, r) = paths_spec(ents, doc, n - 1);
        match r {
            Err(f) => (e, Err(f)),
            Ok(g) => item_spec(e, g, doc, doc.paths@[n - 1], 8),
        }
    }
}

/// The registry and tag groups after a whole document: paths in order, and
/// in each the methods GET, PUT, POST, DELETE, OPTIONS, HEAD, PATCH, TRACE.
pub open spec fn generate_spec(ents: Seq<TypeView>, doc: Document) -> (Seq<TypeView>, Result<Groups, Fault>) {
    paths_spec(ents, doc, doc.paths@.len() as int)
}

/// Where a generation run stopped: the error, and the path, method and
/// operation id of the operation that raised it.
#[derive(Clone, Debug, PartialEq, Eq)]
pub struct RunError {
    pub error: GenError,
    pub path: String,
    pub verb: Verb,
    pub operation_id: String,
}

/// `f` names the operation at which a run of `doc` stops: all paths before
/// its path generate, and its path fails at its operation for `f.verb`.
pub open spec fn failed_at(ents: Seq<TypeView>, doc: Document, f: RunError) -> bool {
    exists|k: int|
        0 <= k < doc.paths@.len()
        && #[trigger] doc.paths@[k].path@ == f.path@
        && paths_spec(ents, doc, k).1 is Ok
        && paths_spec(ents, doc, k + 1).1 is Err
        && (op_of(doc.paths@[k], f.verb) matches Some(op) && op.operation_id@ == f.operation_id@)
}

/// The generated functions of one tag.
#[derive(Clone, Debug, PartialEq, Eq)]
pub struct TagGroup {
    pub tag: String,
    pub text: String,
}

/// Tag groups as text.
pub open spec fn groups_view(v: Seq<TagGroup>) -> Groups {
    v.map_values(|g: TagGroup| (g.tag@, g.text@))
}

/// A table of texts, as text.
pub open spec fn texts(s: Seq<(Seq<char>, Vec<char>)>) -> Groups {
    s.map_values(|p: (Seq<char>, Vec<char>)| (p.0, p.1@))
}

proof fn lemma_texts_insert(s: Seq<(Seq<char>, Vec<char>)>, k: Seq<char>, v: Vec<char>)
    ensures
        texts(insert_sorted(s, k, v)) == insert_sorted(texts(s), k, v@),
    decreases s.len(),
{
    let b = texts(s);
    if s.len() == 0 {
        assert(texts(insert_sorted(s, k, v)) =~= insert_sorted(b, k, v@));
    } else {
        assert(b[0] == (s[0].0, s[0].1@));
        assert(texts(s.drop_first()) =~= b.drop_first());
        lemma_texts_insert(s.drop_first(), k, v);
        assert(texts(insert_sorted(s, k, v)) =~= insert_sorted(b, k, v@));
    }
}

proof fn lemma_texts_lookup(s: Seq<(Seq<char>, Vec<char>)>, k: Seq<char>)
    ensures
        lookup(texts(s), k) == match lookup(s, k) {
            Some(v) => Some(v@),
            None => None::<Seq<char>>,
        },
    decreases s.len(),
{
    if s.len() > 0 {
        assert(texts(s.drop_first()) =~= texts(s).drop_first());
        lemma_texts_lookup(s.drop_first(), k);
    }
}

/// The function declarations of classified parameters.
fn decl_texts(descs: &Vec<ParamDescriptor>) -> (r: Vec<Vec<char>>)
    ensures
        crate::text::views(r@) == param_decls(descs@.map_values(|d: ParamDescriptor| d@)),
{
    let ghost infos = descs@.map_values(|d: ParamDescriptor| d@);
    let mut r: Vec<Vec<char>> = Vec::new();
    let mut i: usize = 0;
    while i < descs.len()
        invariant
            infos == descs@.map_values(|d: ParamDescriptor| d@),
            i <= descs@.len(),
            crate::text::views(r@) == param_decls(infos.take(i as int)),
        decreases descs@.len() - i,
    {
        let d = &descs[i];
        let mut t = chars_of(d.ident.as_str());
        push_str(&mut t, ": ");
        push_str(&mut t, d.type_text.as_str());
        push_str(&mut t, ",");
        assert(t@ =~= param_decl(d@));
        let ghost before = crate::text::views(r@);
        r.push(t);
        assert(infos.take(i + 1) =~= infos.take(i as int).push(d@));
        assert(param_decls(infos.take(i + 1)) =~= param_decls(infos.take(i as int)).push(param_decl(d@)));
        assert(crate::text::views(r@) =~= before.push(t@));
        i += 1;
    }
    assert(infos.take(descs@.len() as int) =~= infos);
    r
}

/// The documentation, attribute and opening line of a function.
fn render_head(docs: &Vec<char>, oid: &Vec<char>, name: &Vec<char>, bounds: &Vec<Vec<char>>) -> (r: Vec<char>)
    ensures
        r@ == crate::emit::fn_head(docs@, oid@, name@, crate::text::views(bounds@)),
{
    let mut out: Vec<char> = Vec::new();
    push_chars(&mut out, docs);
    push_str(&mut out, "\n");
    if token_fetch(oid) {
        push_str(&mut out, "#[async_recursion::async_recursion]\n");
    }
    push_str(&mut out, "pub async fn ");
    push_chars(&mut out, name);
    if bounds.len() > 0 {
        push_str(&mut out, "<");
        crate::emit::push_joined(&mut out, bounds, ", ");
        push_str(&mut out, ">(\n");
    } else {
        push_str(&mut out, "(\n");
    }
    assert(out@ =~= crate::emit::fn_head(docs@, oid@, name@, crate::text::views(bounds@)));
    out
}

/// The parameter lines of a function.
fn render_args(decls: &Vec<Vec<char>>, body_param: &Option<Vec<char>>) -> (r: Vec<char>)
    ensures
        r@ == crate::emit::fn_args(crate::text::views(decls@), crate::text::opt_chars(*body_param)),
{
    let mut out: Vec<char> = Vec::new();
    push_str(&mut out, "&self,\n");
    if decls.len() > 0 {
        crate::emit::push_joined(&mut out, decls, " ");
        push_str(&mut out, "\n");
    }
    if let Some(bp) = body_param {
        push_str(&mut out, "body: ");
        push_chars(&mut out, bp);
        push_str(&mut out, "\n");
    }
    assert(out@ =~= crate::emit::fn_args(crate::text::views(decls@), crate::text::opt_chars(*body_param)));
    out
}

/// The result type and body of a function.
fn render_tail(rt: &Vec<char>, template: &Vec<char>, inner: &Vec<char>) -> (r: Vec<char>)
    ensures
        r@ == crate::emit::fn_tail(rt@, template@, inner@),
{
    let mut out: Vec<char> = Vec::new();
    push_str(&mut out, ") -> Result<");
    push_chars(&mut out, rt);
    push_str(&mut out, "> {\n");
    push_chars(&mut out, template);
    push_str(&mut out, "\n");
    push_chars(&mut out, inner);
    push_str(&mut out, "\n");
    push_str(&mut out, "}\n");
    push_str(&mut out, "\n");
    assert(out@ =~= crate::emit::fn_tail(rt@, template@, inner@));
    out
}

/// Copies a character vector.
fn copy_text(v: &Vec<char>) -> (r: Vec<char>)
    ensures
        r@ == v@,
{
    let mut r: Vec<char> = Vec::new();
    push_chars(&mut r, v);
    assert(r@ =~= v@);
    r
}

/// A synthesized function: the group it belongs to, the operation id it
/// came from, and the parts that [`render_function`] lays out.
pub struct FnDescriptor {
    pub tag: String,
    pub operation_id: String,
    pub name: String,
    pub docs: String,
    /// Generic bounds.
    pub bounds: Vec<String>,
    /// Parameter declarations, each ending in a comma.
    pub params: Vec<String>,
    /// The type of the `body` parameter, if any.
    pub body_param: Option<String>,
    pub response_type: String,
    /// The code that builds the request URL.
    pub url: String,
    /// The code that performs the request.
    pub call: String,
}

/// The texts of a sequence of strings.
pub open spec fn strs(v: Seq<String>) -> Seq<Seq<char>> {
    v.map_values(|x: String| x@)
}

impl View for FnDescriptor {
    type V = FnView;

    open spec fn view(&self) -> FnView {
        FnView {
            tag: self.tag@,
            oid: self.operation_id@,
            name: self.name@,
            docs: self.docs@,
            bounds: strs(self.bounds@),
            params: strs(self.params@),
            body_param: crate::text::opt_string(self.body_param),
            response_type: self.response_type@,
            url: self.url@,
            call: self.call@,
        }
    }
}

/// Strings of character vectors.
fn to_strings(v: &Vec<Vec<char>>) -> (r: Vec<String>)
    ensures
        strs(r@) == crate::text::views(v@),
{
    let mut r: Vec<String> = Vec::new();
    let mut i: usize = 0;
    while i < v.len()
        invariant
            i <= v@.len(),
            strs(r@) == crate::text::views(v@.take(i as int)),
        decreases v@.len() - i,
    {
        let ghost before = strs(r@);
        r.push(string_of(&v[i]));
        assert(strs(r@) =~= before.push(v@[i as int]@));
        assert(crate::text::views(v@.take(i + 1)) =~= crate::text::views(v@.take(i as int)).push(v@[i as int]@));
        i += 1;
    }
    assert(v@.take(v@.len() as int) =~= v@);
    r
}

/// Character vectors of strings.
fn to_chars(v: &Vec<String>) -> (r: Vec<Vec<char>>)
    ensures
        crate::text::views(r@) == strs(v@),
{
    let mut r: Vec<Vec<char>> = Vec::new();
    let mut i: usize = 0;
    while i < v.len()
        invariant
            i <= v@.len(),
            crate::text::views(r@) == strs(v@.take(i as int)),
        decreases v@.len() - i,
    {
        let ghost before = crate::text::views(r@);
        r.push(chars_of(v[i].as_str()));
        assert(crate::text::views(r@) =~= before.push(v@[i as int]@));
        assert(strs(v@.take(i + 1)) =~= strs(v@.take(i as int)).push(v@[i as int]@));
        i += 1;
    }
    assert(v@.take(v@.len() as int) =~= v@);
    r
}

/// Synthesizes the function of one operation (see [`describe_spec`]).
pub fn describe_operation(
    ts: &mut TypeSpace,
    doc: &Document,
    path: &str,
    v: Verb,
    op: &Operation,
) -> (r: Result<FnDescriptor, GenError>)
    requires
        well_formed(*doc),
    ensures
        ({
            let (e, s) = describe_spec(old(ts)@, *doc, path@, v, *op);
            &&& final(ts)@ == e
            &&& r matches Ok(d) ==> s == Ok::<_, Fault>(d@)
            &&& r matches Err(f) ==> s == Err::<FnView, _>(f@)
        }),
{
    let oid = snake_case(&chars_of(op.operation_id.as_str()));
    if op.tags.len() != 1 {
        return Err(fault(ErrorKind::TagCardinality, &oid));
    }
    let tag = snake_case(&chars_of(op.tags[0].as_str()));
    let body = match get_body_plan(&oid, ts, doc, op) {
        Ok(b) => b,
        Err(e) => {
            return Err(e);
        },
    };
    let descs = match get_fn_params(ts, doc, &op.parameters) {
        Ok(d) => d,
        Err(e) => {
            return Err(e);
        },
    };
    let rt = match get_response_type(&oid, ts, doc, op) {
        Ok(t) => t,
        Err(e) => {
            return Err(e);
        },
    };
    let tmpl = match parse(path) {
        Ok(t) => t,
        Err(e) => {
            return Err(e);
        },
    };
    let q = query_bindings(&descs);
    let url = tmpl.compile(&q);
    let call = match get_fn_inner(&oid, v, body.kind) {
        Ok(t) => t,
        Err(e) => {
            return Err(e);
        },
    };
    let path_chars = chars_of(path);
    let docs = get_fn_docs(op, v, &path_chars, &descs, ts);
    let name = crate::emit::strip_repeated(&crate::emit::strip_repeated(&oid, &tag), &chars_of("_"));
    let decls = decl_texts(&descs);
    let body_param = match &body.param {
        Some(p) => Some(string_of(p)),
        None => None,
    };
    Ok(FnDescriptor {
        tag: string_of(&tag),
        operation_id: string_of(&oid),
        name: string_of(&name),
        docs: string_of(&docs),
        bounds: to_strings(&body.bounds),
        params: to_strings(&decls),
        body_param,
        response_type: string_of(&rt),
        url,
        call: string_of(&call),
    })
}

/// Lays out a synthesized function as text, each line ended by a line
/// break: documentation, the recursion attribute for the token-fetch
/// exception, the signature, the URL code and the request call.
pub fn render_function(d: &FnDescriptor) -> (r: String)
    ensures
        r@ == render_spec(d@),
{
    let r = render_chars(d);
    string_of(&r)
}

/// Lays out a synthesized function, as characters.
fn render_chars(d: &FnDescriptor) -> (r: Vec<char>)
    ensures
        r@ == render_spec(d@),
{
    let bp: Option<Vec<char>> = match &d.body_param {
        Some(p) => Some(chars_of(p.as_str())),
        None => None,
    };
    let mut text = render_head(&chars_of(d.docs.as_str()), &chars_of(d.operation_id.as_str()), &chars_of(d.name.as_str()), &to_chars(&d.bounds));
    push_chars(&mut text, &render_args(&to_chars(&d.params), &bp));
    push_chars(&mut text, &render_tail(&chars_of(d.response_type.as_str()), &chars_of(d.url.as_str()), &chars_of(d.call.as_str())));
    text
}

/// Synthesizes one operation and appends its function to its tag's group
/// (see [`op_spec`]).
fn gen_op(
    ts: &mut TypeSpace,
    groups: &mut Table<Vec<char>>,
    doc: &Document,
    path: &str,
    v: Verb,
    op: &Operation,
) -> (r: Result<(), GenError>)
    requires
        well_formed(*doc),
    ensures
        ({
            let (e, s) = op_spec(old(ts)@, texts(old(groups)@), *doc, path@, v, *op);
            &&& final(ts)@ == e
            &&& r is Ok ==> s == Ok::<_, Fault>(texts(final(groups)@))
            &&& r matches Err(f) ==> s == Err::<Groups, _>(f@)
        }),
        sorted(old(groups)@) ==> sorted(final(groups)@),
{
    let d = match describe_operation(ts, doc, path, v, op) {
        Ok(d) => d,
        Err(e) => {
            return Err(e);
        },
    };
    let text = render_chars(&d);
    let tag = chars_of(d.tag.as_str());
    let ghost before = groups@;
    let mut all = match groups.get(&tag) {
        Some(t) => copy_text(t),
        None => Vec::new(),
    };
    proof {
        lemma_texts_lookup(before, tag@);
    }
    assert(all@ == existing(texts(before), tag@));
    push_chars(&mut all, &text);
    groups.insert(tag, all);
    proof {
        lemma_texts_insert(before, tag@, all);
    }
    Ok(())
}

/// The method visited at position `k`.
fn verb_of(k: usize) -> (r: Verb)
    ensures
        r == verb_at(k as int),
{
    if k == 0 { Verb::Get } else if k == 1 { Verb::Put } else if k == 2 { Verb::Post }
    else if k == 3 { Verb::Delete } else if k == 4 { Verb::Options } else if k == 5 { Verb::Head }
    else if k == 6 { Verb::Patch } else { Verb::Trace }
}

/// Once a path fails, later methods change nothing.
proof fn lemma_item_err(ents: Seq<TypeView>, groups: Groups, doc: Document, item: PathItem, j: int, m: int)
    requires
        0 <= j <= m,
        item_spec(ents, groups, doc, item, j).1 is Err,
    ensures
        item_spec(ents, groups, doc, item, m) == item_spec(ents, groups, doc, item, j),
    decreases m - j,
{
    if m > j {
        lemma_item_err(ents, groups, doc, item, j, m - 1);
    }
}

/// Once a run fails, later paths change nothing.
proof fn lemma_paths_err(ents: Seq<TypeView>, doc: Document, j: int, m: int)
    requires
        0 <= j <= m,
        paths_spec(ents, doc, j).1 is Err,
    ensures
        paths_spec(ents, doc, m) == paths_spec(ents, doc, j),
    decreases m - j,
{
    if m > j {
        lemma_paths_err(ents, doc, j, m - 1);
    }
}

/// Generates a function for each operation of `doc` and groups them by tag,
/// in tag order (see [`generate_spec`]). The first error ends the run.
pub fn generate_files(doc: &Document, ts: &mut TypeSpace) -> (r: Result<Vec<TagGroup>, RunError>)
    requires
        well_formed(*doc),
    ensures
        ({
            let (e, s) = generate_spec(old(ts)@, *doc);
            &&& final(ts)@ == e
            &&& r matches Ok(v) ==> s == Ok::<_, Fault>(groups_view(v@))
            &&& r matches Err(f) ==> s == Err::<Groups, _>(f.error@)
        }),
        r matches Err(f) ==> failed_at(old(ts)@, *doc, f),
        r matches Ok(v) ==> sorted(groups_view(v@)),
        r matches Ok(v) ==> sorted(groups_view(v@)),
{
    let mut groups: Table<Vec<char>> = Table::new();
    assert(texts(groups@) =~= Seq::<(Seq<char>, Seq<char>)>::empty());
    let mut k: usize = 0;
    while k < doc.paths.len()
        invariant
            well_formed(*doc),
            k <= doc.paths@.len(),
            paths_spec(old(ts)@, *doc, k as int) == (ts@, Ok::<_, Fault>(texts(groups@))),
            sorted(groups@),
        decreases doc.paths@.len() - k,
    {
        let item = &doc.paths[k];
        let path = item.path.as_str();
        let ghost start_ts = ts@;
        let ghost start_groups = texts(groups@);
        let mut m: usize = 0;
        while m < 8
            invariant
                well_formed(*doc),
                k < doc.paths@.len(),
                *item == doc.paths@[k as int],
                path@ == item.path@,
                m <= 8,
                item_spec(start_ts, start_groups, *doc, *item, m as int) == (ts@, Ok::<_, Fault>(texts(groups@))),
                paths_spec(old(ts)@, *doc, k as int) == (start_ts, Ok::<_, Fault>(start_groups)),
                sorted(groups@),
            decreases 8 - m,
        {
            let v = verb_of(m);
            match item.operation(v) {
                Some(op) => {
                    let res = gen_op(ts, &mut groups, doc, path, v, op);
                    if let Err(e) = res {
                        proof {
                            lemma_item_err(start_ts, start_groups, *doc, *item, m + 1, 8);
                            lemma_paths_err(old(ts)@, *doc, k + 1, doc.paths@.len() as int);
                        }
                        let f = RunError {
                            error: e,
                            path: string_of(&chars_of(path)),
                            verb: v,
                            operation_id: string_of(&chars_of(op.operation_id.as_str())),
                        };
                        assert(doc.paths@[k as int].path@ == f.path@ && paths_spec(old(ts)@, *doc, k as int).1 is Ok
                            && paths_spec(old(ts)@, *doc, k + 1).1 is Err);
                        return Err(f);
                    }
                },
                None => {},
            }
            m += 1;
        }
        k += 1;
    }
    let mut out: Vec<TagGroup> = Vec::new();
    let mut i: usize = 0;
    while i < groups.entries.len()
        invariant
            i <= groups@.len(),
            groups_view(out@) == texts(groups@).take(i as int),
        decreases groups@.len() - i,
    {
        let e = &groups.entries[i];
        let g = TagGroup { tag: string_of(&e.key), text: string_of(&e.value) };
        let ghost before = groups_view(out@);
        out.push(g);
        assert(texts(groups@)[i as int] == (e.key@, e.value@));
        assert(groups_view(out@) =~= before.push((g.tag@, g.text@)));
        assert(groups_view(out@) =~= texts(groups@).take(i + 1));
        i += 1;
    }
    assert(texts(groups@).take(groups@.len() as int) =~= texts(groups@));
    assert(sorted(groups_view(out@))) by {
        assert forall|a: int, b: int| 0 <= a < b < groups_view(out@).len() implies crate::table::lex_lt(#[trigger] groups_view(out@)[a].0, #[trigger] groups_view(out@)[b].0) by {
            assert(groups_view(out@)[a].0 == groups@[a].0);
            assert(groups_view(out@)[b].0 == groups@[b].0);
        }
    }
    Ok(out)
}

} // verus!
