//! The parameter classifier: resolves each operation parameter, gives it a
//! type through the registry and an escaped identifier, and builds the
//! query binding table.

use vstd::prelude::*;
use crate::model::{fault, well_formed, Document, ErrorKind, Fault, GenError, Location, ParamData, ParamRef, SharedParam};
use crate::naming::{escape, escaped, is_reserved, snake_case, snake_of};
use crate::registry::{select_spec, TypeId, TypeSpace, TypeView};
use crate::table::{insert_sorted, sorted, Table};
use crate::template::{bindings, BindingView, Presence, QueryBinding};
use crate::text::{chars_of, is_text, opt_string, push_chars, push_str, same_chars, string_of, strip_prefix, after_prefix};

verus! {

/// The prefix of a reference into the shared parameter table.
pub open spec fn param_ref_prefix() -> Seq<char> {
    "#/components/parameters/"@
}

/// The first shared parameter at or after `k` named `n`.
pub open spec fn find_shared(ps: Seq<SharedParam>, n: Seq<char>, k: int) -> Option<int>
    decreases ps.len() - k,
{
    if k < 0 || k >= ps.len() {
        None
    } else if ps[k].name@ == n {
        Some(k)
    } else {
        find_shared(ps, n, k + 1)
    }
}

/// A parameter's definition and naming hint: an inline one as it stands, a
/// reference by the shared parameter it names (the hint is that name).
pub open spec fn resolve_param(doc: Document, par: ParamRef) -> Result<(ParamData, Seq<char>), Fault> {
    match par {
        ParamRef::Inline(d) => Ok((d, Seq::empty())),
        ParamRef::Named(r) => match after_prefix(r@, param_ref_prefix()) {
            Some(n) => match find_shared(doc.parameters@, n, 0) {
                Some(k) => Ok((doc.parameters@[k].param, n)),
                None => Err((ErrorKind::UnknownParameterReference, r@)),
            },
            None => Err((ErrorKind::UnknownParameterReference, r@)),
        },
    }
}

/// The separator between the values of a string-list query parameter. The
/// description format leaves it open; joining by a space is a policy of
/// this generator, not a consequence of the description.
pub open spec fn list_separator() -> Seq<char> {
    " "@
}

/// The separator between the values of a string-list query parameter (see
/// [`list_separator`]).
pub fn list_separator_text() -> (r: &'static str)
    ensures
        r@ == list_separator(),
{
    " "
}

/// The expression that renders a query value, by its type.
pub open spec fn expr_for(nam: Seq<char>, typ: Seq<char>) -> Seq<char> {
    if is_reserved(nam) {
        nam + "_"@
    } else if typ == "DateTime<Utc>"@ {
        nam + ".to_rfc3339()"@
    } else if typ == "i64"@ || typ == "bool"@ {
        "format!(\"{}\", "@ + nam + ")"@
    } else if typ == "&str"@ {
        nam + ".to_string()"@
    } else if typ == "&[String]"@ {
        nam + ".join(\""@ + list_separator() + "\")"@
    } else {
        nam
    }
}

/// When a query value is sent: always where required, else as its type
/// allows an empty value.
pub open spec fn presence_for(typ: Seq<char>, required: bool) -> Presence {
    if required {
        Presence::Always
    } else if typ == "&str"@ {
        Presence::NonEmpty
    } else if typ == "i64"@ {
        Presence::Positive
    } else if typ == "bool"@ {
        Presence::IsTrue
    } else {
        Presence::Always
    }
}

/// A classified parameter, as text.
pub ghost struct ParamInfo {
    pub raw: Seq<char>,
    pub key: Seq<char>,
    pub ident: Seq<char>,
    pub location: Location,
    pub id: int,
    pub typ: Seq<char>,
    pub description: Option<Seq<char>>,
    pub binding: Option<BindingView>,
}

/// Whether a parameter is bound in the query string.
pub open spec fn in_query(d: ParamData) -> bool {
    d.location == Location::Query && d.form_style
}

/// The registry and result after classifying one parameter.
pub open spec fn classify_spec(ents: Seq<TypeView>, doc: Document, par: ParamRef) -> (Seq<TypeView>, Result<ParamInfo, Fault>) {
    match resolve_param(doc, par) {
        Err(f) => (ents, Err(f)),
        Ok((d, hint)) => {
            let (e1, r) = select_spec(ents, doc, None, d.schema as int, false, hint);
            match r {
                Err(f) => (e1, Err(f)),
                Ok(id) => {
                    let nam = snake_of(d.name@);
                    let typ = e1[id].borrowed;
                    if in_query(d) && d.allow_empty_value == Some(true) {
                        (e1, Err((ErrorKind::UnsupportedQuerySemantics, d.name@)))
                    } else {
                        (e1, Ok(ParamInfo {
                            raw: d.name@,
                            key: nam,
                            ident: escaped(nam),
                            location: d.location,
                            id,
                            typ,
                            description: opt_string(d.description),
                            binding: if in_query(d) {
                                Some(BindingView { var: escaped(nam), expr: expr_for(nam, typ), presence: presence_for(typ, d.required) })
                            } else {
                                None
                            },
                        }))
                    }
                },
            }
        },
    }
}

/// The registry and result after classifying parameters in order; the
/// first error stops the run.
pub open spec fn params_spec(ents: Seq<TypeView>, doc: Document, pars: Seq<ParamRef>) -> (Seq<TypeView>, Result<Seq<ParamInfo>, Fault>)
    decreases pars.len(),
{
    if pars.len() == 0 {
        (ents, Ok(Seq::empty()))
    } else {
        let (e1, r) = params_spec(ents, doc, pars.drop_last());
        match r {
            Err(f) => (e1, Err(f)),
            Ok(infos) => {
                let (e2, r2) = classify_spec(e1, doc, pars.last());
                match r2 {
                    Err(f) => (e2, Err(f)),
                    Ok(pi) => (e2, Ok(infos.push(pi))),
                }
            },
        }
    }
}

/// The query binding table of classified parameters: each query parameter
/// under its snake-case name, a later one replacing an earlier of that name.
pub open spec fn query_table(infos: Seq<ParamInfo>) -> Seq<(Seq<char>, BindingView)>
    decreases infos.len(),
{
    if infos.len() == 0 {
        Seq::empty()
    } else {
        let q = query_table(infos.drop_last());
        match infos.last().binding {
            Some(b) => insert_sorted(q, infos.last().key, b),
            None => q,
        }
    }
}

/// A classified parameter.
pub struct ParamDescriptor {
    /// The name as declared.
    pub raw: String,
    /// The snake-case name, under which a query value is sent.
    pub key: String,
    /// The identifier of the function parameter.
    pub ident: String,
    pub location: Location,
    pub type_id: TypeId,
    /// The parameter's type, in borrowed form.
    pub type_text: String,
    pub description: Option<String>,
    /// How a query parameter is serialized.
    pub binding: Option<QueryBinding>,
}

impl View for ParamDescriptor {
    type V = ParamInfo;

    open spec fn view(&self) -> ParamInfo {
        ParamInfo {
            raw: self.raw@,
            key: self.key@,
            ident: self.ident@,
            location: self.location,
            id: self.type_id.index as int,
            typ: self.type_text@,
            description: opt_string(self.description),
            binding: match self.binding {
                Some(b) => Some(b@),
                None => None,
            },
        }
    }
}

/// Binding a key commutes with viewing the table as text.
pub proof fn lemma_bindings_insert(s: Seq<(Seq<char>, QueryBinding)>, k: Seq<char>, v: QueryBinding)
    ensures
        bindings(insert_sorted(s, k, v)) == insert_sorted(bindings(s), k, v@),
    decreases s.len(),
{
    let b = bindings(s);
    if s.len() == 0 {
        assert(bindings(insert_sorted(s, k, v)) =~= insert_sorted(b, k, v@));
    } else {
        assert(b[0] == (s[0].0, s[0].1@));
        assert(bindings(s.drop_first()) =~= b.drop_first());
        lemma_bindings_insert(s.drop_first(), k, v);
        assert(bindings(insert_sorted(s, k, v)) =~= insert_sorted(b, k, v@));
    }
}

/// Once classification fails, later parameters change nothing.
pub proof fn lemma_params_err(ents: Seq<TypeView>, doc: Document, pars: Seq<ParamRef>, j: int, m: int)
    requires
        0 <= j <= m <= pars.len(),
        params_spec(ents, doc, pars.take(j)).1 is Err,
    ensures
        params_spec(ents, doc, pars.take(m)) == params_spec(ents, doc, pars.take(j)),
    decreases m - j,
{
    if m > j {
        lemma_params_err(ents, doc, pars, j, m - 1);
        assert(pars.take(m).drop_last() =~= pars.take(m - 1));
    }
}

/// The shared parameter named `n`.
fn find_param(doc: &Document, n: &Vec<char>) -> (r: Option<usize>)
    ensures
        r matches Some(k) ==> find_shared(doc.parameters@, n@, 0) == Some(k as int) && k < doc.parameters@.len(),
        r is None ==> find_shared(doc.parameters@, n@, 0) is None,
{
    let mut k: usize = 0;
    while k < doc.parameters.len()
        invariant
            k <= doc.parameters@.len(),
            find_shared(doc.parameters@, n@, 0) == find_shared(doc.parameters@, n@, k as int),
        decreases doc.parameters@.len() - k,
    {
        let c = chars_of(doc.parameters[k].name.as_str());
        if same_chars(&c, n) {
            return Some(k);
        }
        k += 1;
    }
    None
}

/// The expression that renders a query value.
fn expr_text(nam: &Vec<char>, typ: &Vec<char>) -> (r: Vec<char>)
    ensures
        r@ == expr_for(nam@, typ@),
{
    let mut r: Vec<char> = Vec::new();
    if crate::naming::is_keyword(nam) {
        push_chars(&mut r, nam);
        push_str(&mut r, "_");
    } else if is_text(typ, "DateTime<Utc>") {
        push_chars(&mut r, nam);
        push_str(&mut r, ".to_rfc3339()");
    } else if is_text(typ, "i64") || is_text(typ, "bool") {
        push_str(&mut r, "format!(\"{}\", ");
        push_chars(&mut r, nam);
        push_str(&mut r, ")");
    } else if is_text(typ, "&str") {
        push_chars(&mut r, nam);
        push_str(&mut r, ".to_string()");
    } else if is_text(typ, "&[String]") {
        push_chars(&mut r, nam);
        push_str(&mut r, ".join(\"");
        push_str(&mut r, list_separator_text());
        push_str(&mut r, "\")");
    } else {
        push_chars(&mut r, nam);
        assert(r@ =~= nam@);
    }
    r
}

/// When a query value is sent.
fn presence_of(typ: &Vec<char>, required: bool) -> (r: Presence)
    ensures
        r == presence_for(typ@, required),
{
    if required {
        Presence::Always
    } else if is_text(typ, "&str") {
        Presence::NonEmpty
    } else if is_text(typ, "i64") {
        Presence::Positive
    } else if is_text(typ, "bool") {
        Presence::IsTrue
    } else {
        Presence::Always
    }
}

/// Classifies one parameter: resolves a reference in the shared table
/// (unknown ones are an error), types it through the registry, escapes its
/// identifier, and for a form-style query parameter chooses how its value is
/// serialized (allow-empty-value ones are refused).
pub fn classify(ts: &mut TypeSpace, doc: &Document, par: &ParamRef) -> (r: Result<ParamDescriptor, GenError>)
    requires
        well_formed(*doc),
    ensures
        ({
            let (e, s) = classify_spec(old(ts)@, *doc, *par);
            &&& final(ts)@ == e
            &&& r matches Ok(d) ==> s == Ok::<_, Fault>(d@)
            &&& r matches Err(f) ==> s == Err::<ParamInfo, _>(f@)
        }),
{
    let (d, hint): (&ParamData, Vec<char>) = match par {
        ParamRef::Inline(d) => (d, Vec::new()),
        ParamRef::Named(reference) => {
            let rv = chars_of(reference.as_str());
            match strip_prefix(&rv, "#/components/parameters/") {
                Some(n) => match find_param(doc, &n) {
                    Some(k) => (&doc.parameters[k].param, n),
                    None => {
                        return Err(fault(ErrorKind::UnknownParameterReference, &rv));
                    },
                },
                None => {
                    return Err(fault(ErrorKind::UnknownParameterReference, &rv));
                },
            }
        },
    };
    assert(resolve_param(*doc, *par) == Ok::<_, Fault>((*d, hint@)));
    let none: Option<Vec<char>> = None;
    let id = match ts.select_chars(doc, &none, d.schema, false, &hint) {
        Ok(id) => id,
        Err(e) => {
            return Err(e);
        },
    };
    let raw = chars_of(d.name.as_str());
    let nam = snake_case(&raw);
    let typ = ts.render_chars(id, true);
    let query = d.location == Location::Query && d.form_style;
    if query {
        if let Some(true) = d.allow_empty_value {
            return Err(fault(ErrorKind::UnsupportedQuerySemantics, &raw));
        }
    }
    let ident = escape(&nam);
    let binding = if query {
        let e = expr_text(&nam, &typ);
        Some(QueryBinding { var: string_of(&ident), expr: string_of(&e), presence: presence_of(&typ, d.required) })
    } else {
        None
    };
    let desc = match &d.description {
        Some(s) => Some(string_of(&chars_of(s.as_str()))),
        None => None,
    };
    Ok(ParamDescriptor {
        raw: string_of(&raw),
        key: string_of(&nam),
        ident: string_of(&ident),
        location: d.location,
        type_id: id,
        type_text: string_of(&typ),
        description: desc,
        binding,
    })
}

/// Classifies the parameters of an operation in order.
pub fn get_fn_params(ts: &mut TypeSpace, doc: &Document, pars: &Vec<ParamRef>) -> (r: Result<Vec<ParamDescriptor>, GenError>)
    requires
        well_formed(*doc),
    ensures
        ({
            let (e, s) = params_spec(old(ts)@, *doc, pars@);
            &&& final(ts)@ == e
            &&& r matches Ok(v) ==> s == Ok::<_, Fault>(v@.map_values(|d: ParamDescriptor| d@))
            &&& r matches Err(f) ==> s == Err::<Seq<ParamInfo>, _>(f@)
        }),
{
    let mut out: Vec<ParamDescriptor> = Vec::new();
    let mut k: usize = 0;
    assert(pars@.take(0) =~= Seq::<ParamRef>::empty());
    assert(out@.map_values(|d: ParamDescriptor| d@) =~= Seq::<ParamInfo>::empty());
    while k < pars.len()
        invariant
            well_formed(*doc),
            k <= pars@.len(),
            ({
                let (e, s) = params_spec(old(ts)@, *doc, pars@.take(k as int));
                &&& ts@ == e
                &&& s == Ok::<_, Fault>(out@.map_values(|d: ParamDescriptor| d@))
            }),
        decreases pars@.len() - k,
    {
        assert(pars@.take(k + 1).drop_last() =~= pars@.take(k as int));
        let d = classify(ts, doc, &pars[k]);
        match d {
            Ok(d) => {
                let ghost before = out@;
                out.push(d);
                assert(out@.map_values(|d: ParamDescriptor| d@) =~= before.map_values(|d: ParamDescriptor| d@).push(d@));
            },
            Err(e) => {
                proof {
                    lemma_params_err(old(ts)@, *doc, pars@, k + 1, pars@.len() as int);
                    assert(pars@.take(pars@.len() as int) =~= pars@);
                }
                return Err(e);
            },
        }
        k += 1;
    }
    assert(pars@.take(pars@.len() as int) =~= pars@);
    Ok(out)
}

/// The query binding table of classified parameters.
pub fn query_bindings(descs: &Vec<ParamDescriptor>) -> (r: Table<QueryBinding>)
    ensures
        bindings(r@) == query_table(descs@.map_values(|d: ParamDescriptor| d@)),
        sorted(bindings(r@)),
{
    let ghost infos = descs@.map_values(|d: ParamDescriptor| d@);
    let mut t: Table<QueryBinding> = Table::new();
    let mut k: usize = 0;
    while k < descs.len()
        invariant
            infos == descs@.map_values(|d: ParamDescriptor| d@),
            k <= descs@.len(),
            bindings(t@) == query_table(infos.take(k as int)),
        decreases descs@.len() - k,
    {
        assert(infos.take(k + 1).drop_last() =~= infos.take(k as int));
        assert(infos.take(k + 1).last() == descs@[k as int]@);
        let d = &descs[k];
        match &d.binding {
            Some(b) => {
                let ghost before = t@;
                let key = chars_of(d.key.as_str());
                let v = QueryBinding {
                    var: string_of(&chars_of(b.var.as_str())),
                    expr: string_of(&chars_of(b.expr.as_str())),
                    presence: b.presence,
                };
                assert(v@ == b@);
                t.insert(key, v);
                proof {
                    lemma_bindings_insert(before, d.key@, v);
                }
            },
            None => {},
        }
        k += 1;
    }
    assert(infos.take(descs@.len() as int) =~= infos);
    proof {
        crate::laws::law_query_order(infos);
    }
    t
}

} // verus!
