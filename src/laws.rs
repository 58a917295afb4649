//! Properties of whole generation runs, proved from the specifications of
//! the passes.

use vstd::prelude::*;
use crate::emit::{param_decl, param_line};
use crate::model::{Document, ErrorKind, Operation, Verb};
use crate::naming::{is_reserved, snake_of};
use crate::params::{classify_spec, query_table, ParamInfo};
use crate::registry::TypeView;
use crate::synth::{generate_spec, item_spec, op_spec, paths_spec, verb_at, Groups};
use crate::model::{op_of, PathItem};
use crate::table::{insert_sorted, lemma_insert_sorted, lookup, sorted};
use crate::model::{ParamRef, Shape};
use crate::params::{params_spec, resolve_param};
use crate::registry::{render_node, select_spec};
use crate::response::{body_spec, find_media, request_name, response_name};

verus! {

/// Generation is a function of the document and the registry it starts
/// from: two runs on one document from registries alike yield identical tag
/// groups and registries.
pub proof fn law_deterministic(doc: Document, first: Seq<TypeView>, second: Seq<TypeView>)
    requires
        first == second,
    ensures
        generate_spec(first, doc) == generate_spec(second, doc),
{
}

/// An operation without exactly one tag stops generation with a tag
/// cardinality error naming the operation.
pub proof fn law_tag_cardinality(ents: Seq<TypeView>, groups: Groups, doc: Document, path: Seq<char>, v: Verb, op: Operation)
    requires
        op.tags@.len() != 1,
    ensures
        op_spec(ents, groups, doc, path, v, op).1 == Err::<Groups, _>((ErrorKind::TagCardinality, snake_of(op.operation_id@))),
{
}

/// An absent operation, or one with exactly one tag.
pub open spec fn single_tag(o: Option<Operation>) -> bool {
    o matches Some(op) ==> op.tags@.len() == 1
}

proof fn lemma_item_ok(ents: Seq<TypeView>, groups: Groups, doc: Document, item: PathItem, m: int)
    requires
        item_spec(ents, groups, doc, item, m).1 is Ok,
    ensures
        forall|j: int| 0 <= j < m ==> #[trigger] single_tag(op_of(item, verb_at(j))),
    decreases m,
{
    if m > 0 {
        let (e, r) = item_spec(ents, groups, doc, item, m - 1);
        lemma_item_ok(ents, groups, doc, item, m - 1);
        if let Some(op) = op_of(item, verb_at(m - 1)) {
            if op.tags@.len() != 1 {
                law_tag_cardinality(e, r->Ok_0, doc, item.path@, verb_at(m - 1), op);
            }
        }
    }
}

proof fn lemma_paths_ok(ents: Seq<TypeView>, doc: Document, n: int)
    requires
        0 <= n <= doc.paths@.len(),
        paths_spec(ents, doc, n).1 is Ok,
    ensures
        forall|k: int, j: int| 0 <= k < n && 0 <= j < 8 ==> #[trigger] single_tag(op_of(doc.paths@[k], verb_at(j))),
    decreases n,
{
    if n > 0 {
        lemma_paths_ok(ents, doc, n - 1);
        let (e, r) = paths_spec(ents, doc, n - 1);
        lemma_item_ok(e, r->Ok_0, doc, doc.paths@[n - 1], 8);
    }
}

/// A whole run generates only if every operation of the document has
/// exactly one tag: one operation with none, or with two or more, makes the
/// run fail.
pub proof fn law_run_needs_single_tags(ents: Seq<TypeView>, doc: Document)
    requires
        generate_spec(ents, doc).1 is Ok,
    ensures
        forall|k: int, j: int| 0 <= k < doc.paths@.len() && 0 <= j < 8 ==> #[trigger] single_tag(op_of(doc.paths@[k], verb_at(j))),
{
    lemma_paths_ok(ents, doc, doc.paths@.len() as int);
}

/// Resolving a schema fails only on a dangling reference.
pub proof fn lemma_select_fault(ents: Seq<TypeView>, doc: Document, pref: Option<Seq<char>>, i: int, nullable: bool, hint: Seq<char>)
    ensures
        select_spec(ents, doc, pref, i, nullable, hint).1 matches Err(f) ==> f.0 == ErrorKind::DanglingSchemaReference,
    decreases i, 1int,
{
    lemma_render_fault(ents, doc, pref, i, hint);
}

/// Rendering a schema fails only on a dangling reference.
pub proof fn lemma_render_fault(ents: Seq<TypeView>, doc: Document, pref: Option<Seq<char>>, i: int, hint: Seq<char>)
    ensures
        render_node(ents, doc, pref, i, hint).1 matches Err(f) ==> f.0 == ErrorKind::DanglingSchemaReference,
    decreases i, 0int,
{
    if 0 <= i < doc.nodes@.len() {
        if let Shape::List { item } = doc.nodes@[i].shape {
            if 0 <= item < i {
                lemma_select_fault(ents, doc, None, item as int, false, hint);
            }
        }
    }
}

/// Classifying parameters never fails for want of a tag.
pub proof fn lemma_params_fault(ents: Seq<TypeView>, doc: Document, pars: Seq<ParamRef>)
    ensures
        params_spec(ents, doc, pars).1 matches Err(f) ==> f.0 != ErrorKind::TagCardinality,
    decreases pars.len(),
{
    if pars.len() > 0 {
        lemma_params_fault(ents, doc, pars.drop_last());
        let e1 = params_spec(ents, doc, pars.drop_last()).0;
        if let Ok((d, hint)) = resolve_param(doc, pars.last()) {
            lemma_select_fault(e1, doc, None, d.schema as int, false, hint);
        }
    }
}

/// An operation with exactly one tag never fails for want of a tag: it
/// either generates or stops on another error.
pub proof fn law_single_tag_accepted(ents: Seq<TypeView>, groups: Groups, doc: Document, path: Seq<char>, v: Verb, op: Operation)
    requires
        op.tags@.len() == 1,
    ensures
        op_spec(ents, groups, doc, path, v, op).1 matches Err(f) ==> f.0 != ErrorKind::TagCardinality,
{
    let oid = snake_of(op.operation_id@);
    let (e1, rb) = body_spec(ents, doc, oid, op);
    if let Some(b) = op.request_body {
        if b.content@.len() > 0 {
            if let Some(s) = b.content@[0].schema {
                lemma_select_fault(ents, doc, Some(request_name(oid)), s as int, false, Seq::empty());
                lemma_select_fault(ents, doc, None, s as int, false, Seq::empty());
            }
        }
    }
    let (e2, rp) = params_spec(e1, doc, op.parameters@);
    lemma_params_fault(e1, doc, op.parameters@);
    if op.responses@.len() > 0 {
        let content = op.responses@[0].content@;
        let json = find_media(content, "application/json"@, 0);
        if json is Some && content[json->Some_0].schema is Some {
            lemma_select_fault(e2, doc, Some(response_name(oid)), content[json->Some_0].schema->Some_0 as int, false, Seq::empty());
        }
        if content.len() > 0 {
            if let Some(s) = content[0].schema {
                lemma_select_fault(e2, doc, None, s as int, false, Seq::empty());
                lemma_select_fault(e2, doc, Some(response_name(oid)), s as int, false, Seq::empty());
            }
        }
    }
}

/// The value just bound to a key is the one found under it.
pub proof fn lemma_lookup_inserted<V>(s: Seq<(Seq<char>, V)>, k: Seq<char>, v: V)
    ensures
        lookup(insert_sorted(s, k, v), k) == Some(v),
    decreases s.len(),
{
    if s.len() > 0 && s[0].0 != k && !crate::table::lex_lt(k, s[0].0) {
        lemma_lookup_inserted(s.drop_first(), k, v);
        assert(insert_sorted(s, k, v).drop_first() =~= insert_sorted(s.drop_first(), k, v));
    }
}

/// An operation with exactly one tag that generates puts its function in
/// the group of that tag.
pub proof fn law_single_tag_grouped(ents: Seq<TypeView>, groups: Groups, doc: Document, path: Seq<char>, v: Verb, op: Operation)
    requires
        op.tags@.len() == 1,
        op_spec(ents, groups, doc, path, v, op).1 is Ok,
    ensures
        lookup(op_spec(ents, groups, doc, path, v, op).1->Ok_0, snake_of(op.tags@[0]@)) is Some,
{
    let tag = snake_of(op.tags@[0]@);
    let r = op_spec(ents, groups, doc, path, v, op).1->Ok_0;
    let t = choose|t: Seq<char>| r == insert_sorted(groups, tag, t);
    lemma_lookup_inserted(groups, tag, t);
}

/// The query binding table lists its parameters in lexicographic order of
/// name, whatever their order of declaration.
pub proof fn law_query_order(infos: Seq<ParamInfo>)
    ensures
        sorted(query_table(infos)),
    decreases infos.len(),
{
    if infos.len() > 0 {
        law_query_order(infos.drop_last());
        if let Some(b) = infos.last().binding {
            lemma_insert_sorted(query_table(infos.drop_last()), infos.last().key, b);
        }
    }
}

/// A parameter named by a reserved word appears with a trailing `_` alike in
/// its identifier, its declaration, its documentation bullet and its query
/// binding; the query string still sends it under its own name.
pub proof fn law_reserved_escaping(ents: Seq<TypeView>, doc: Document, par: ParamRef, later: Seq<TypeView>)
    requires
        classify_spec(ents, doc, par).1 is Ok,
        is_reserved(classify_spec(ents, doc, par).1->Ok_0.key),
    ensures
        ({
            let pi = classify_spec(ents, doc, par).1->Ok_0;
            let id = pi.key + "_"@;
            &&& pi.ident == id
            &&& param_decl(pi) == id + ": "@ + pi.typ + ","@
            &&& param_line(pi, later).take(5 + id.len() as int) == "* * `"@ + id
            &&& (pi.binding matches Some(b) ==> b.var == id && b.expr == id)
        }),
{
    let pi = classify_spec(ents, doc, par).1->Ok_0;
    let id = pi.key + "_"@;
    let line = param_line(pi, later);
    let head = "* * `"@ + id;
    assert(line =~= head + (": "@ + pi.typ + "`"@ + crate::emit::param_note(pi.description, crate::emit::schema_docs(later, pi.id)) + "\n"@));
    reveal_strlit("* * `");
    assert(head.len() == 5 + id.len() as int);
    assert(line.take(5 + id.len() as int) =~= head);
}

} // verus!
