//! The schema registry: resolves schema nodes to type identifiers, reuses
//! the identifier of an earlier anonymous node with the same structural key,
//! gives every preferred name a fresh identifier with a name no other type
//! holds, and renders types and their documentation.

use vstd::prelude::*;
use crate::model::{
    children_before, fault, well_formed, Combine, Component, Document, ErrorKind, Fault, GenError,
    SchemaNode, Shape,
};
use crate::naming::{pascal_case, pascal_of};
use crate::text::{
    after_prefix, chars_of, opt_chars, string_of, dec, decimal, push_chars, push_str, same_chars, strip_prefix,
};

verus! {

/// The characters of an optional text.
pub open spec fn opt_str(o: Option<&str>) -> Option<Seq<char>> {
    match o {
        Some(s) => Some(s@),
        None => None,
    }
}

/// Whether every child node comes before its parent.
pub fn is_well_formed(doc: &Document) -> (r: bool)
    ensures
        r == well_formed(*doc),
{
    let mut i: usize = 0;
    while i < doc.nodes.len()
        invariant
            i <= doc.nodes@.len(),
            forall|j: int| 0 <= j < i ==> #[trigger] children_before(doc.nodes@, j),
        decreases doc.nodes@.len() - i,
    {
        match &doc.nodes[i].shape {
            Shape::List { item } => {
                if *item >= i {
                    assert(!children_before(doc.nodes@, i as int));
                    return false;
                }
            },
            Shape::Object { fields } => {
                let mut k: usize = 0;
                while k < fields.len()
                    invariant
                        i < doc.nodes@.len(),
                        doc.nodes@[i as int].shape == (Shape::Object { fields: *fields }),
                        k <= fields@.len(),
                        forall|j: int| 0 <= j < k ==> #[trigger] fields@[j].node < i,
                    decreases fields@.len() - k,
                {
                    if fields[k].node >= i {
                        assert(!children_before(doc.nodes@, i as int)) by {
                            if let Shape::Object { fields: fs } = doc.nodes@[i as int].shape {
                                assert(fs == *fields);
                                assert(fs@[k as int].node >= i);
                            }
                        }
                        return false;
                    }
                    k += 1;
                }
            },
            Shape::Composite { combine, parts } => {
                let mut k: usize = 0;
                while k < parts.len()
                    invariant
                        i < doc.nodes@.len(),
                        doc.nodes@[i as int].shape == (Shape::Composite { combine: *combine, parts: *parts }),
                        k <= parts@.len(),
                        forall|j: int| 0 <= j < k ==> #[trigger] parts@[j] < i,
                    decreases parts@.len() - k,
                {
                    if parts[k] >= i {
                        assert(!children_before(doc.nodes@, i as int)) by {
                            if let Shape::Composite { parts: ps, .. } = doc.nodes@[i as int].shape {
                                assert(ps == *parts);
                                assert(ps@[k as int] >= i);
                            }
                        }
                        return false;
                    }
                    k += 1;
                }
            },
            _ => {},
        }
        assert(children_before(doc.nodes@, i as int));
        i += 1;
    }
    true
}

/// The prefix of a reference into the schema components.
pub open spec fn schema_ref_prefix() -> Seq<char> {
    "#/components/schemas/"@
}

/// A text with its length in front, so that a run of them reads back one way.
pub open spec fn label(t: Seq<char>) -> Seq<char> {
    dec(t.len()) + ":"@ + t
}

/// The number of fields of node `i`.
pub open spec fn width(nodes: Seq<SchemaNode>, i: int) -> nat {
    if 0 <= i < nodes.len() {
        match nodes[i].shape {
            Shape::Object { fields } => fields@.len(),
            Shape::Composite { parts, .. } => parts@.len(),
            _ => 0,
        }
    } else {
        0
    }
}

/// The structural key of node `i`: equal for nodes of the same shape, all
/// the way down, whatever their descriptions.
pub open spec fn shape_key(nodes: Seq<SchemaNode>, i: int) -> Seq<char>
    decreases i, width(nodes, i) + 1,
{
    if 0 <= i < nodes.len() {
        match nodes[i].shape {
            Shape::Text => "s"@,
            Shape::Integer => "i"@,
            Shape::Number => "n"@,
            Shape::Boolean => "b"@,
            Shape::DateTime => "t"@,
            Shape::Date => "d"@,
            Shape::List { item } => if 0 <= item < i {
                "["@ + shape_key(nodes, item as int) + "]"@
            } else {
                "?"@
            },
            Shape::Object { fields } => "{"@ + fields_key(nodes, i, fields@.len() as int) + "}"@,
            Shape::Choice { values } => "("@ + values_key(values@, values@.len() as int) + ")"@,
            Shape::Ref { target } => "r"@ + label(target@),
            Shape::Composite { combine, parts } => combine_key(combine) + parts_key(nodes, i, parts@.len() as int) + ")"@,
        }
    } else {
        "?"@
    }
}

/// The opening of a composite key, by combinator.
pub open spec fn combine_key(c: Combine) -> Seq<char> {
    match c {
        Combine::AllOf => "&("@,
        Combine::OneOf => "^("@,
        Combine::AnyOf => "|("@,
    }
}

/// The key of the first `k` parts of composite node `i`.
pub open spec fn parts_key(nodes: Seq<SchemaNode>, i: int, k: int) -> Seq<char>
    decreases i, k,
{
    if k <= 0 || !(0 <= i < nodes.len()) {
        Seq::empty()
    } else {
        match nodes[i].shape {
            Shape::Composite { parts, .. } => if k <= parts@.len() {
                let c = parts@[k - 1];
                parts_key(nodes, i, k - 1) + if 0 <= c < i {
                    label(shape_key(nodes, c as int))
                } else {
                    "?"@
                }
            } else {
                Seq::empty()
            },
            _ => Seq::empty(),
        }
    }
}

/// The key of the first `k` fields of object node `i`.
pub open spec fn fields_key(nodes: Seq<SchemaNode>, i: int, k: int) -> Seq<char>
    decreases i, k,
{
    if k <= 0 || !(0 <= i < nodes.len()) {
        Seq::empty()
    } else {
        match nodes[i].shape {
            Shape::Object { fields } => if k <= fields@.len() {
                let f = fields@[k - 1];
                fields_key(nodes, i, k - 1) + label(f.name@) + if 0 <= f.node < i {
                    shape_key(nodes, f.node as int)
                } else {
                    "?"@
                }
            } else {
                Seq::empty()
            },
            _ => Seq::empty(),
        }
    }
}

/// The key of the first `k` values of a choice.
pub open spec fn values_key(values: Seq<String>, k: int) -> Seq<char>
    decreases k,
{
    if k <= 0 || k > values.len() {
        Seq::empty()
    } else {
        values_key(values, k - 1) + label(values[k - 1]@)
    }
}

/// The key under which a resolution is cached.
pub open spec fn key_of(nodes: Seq<SchemaNode>, i: int, nullable: bool) -> Seq<char> {
    if nullable {
        "?"@ + shape_key(nodes, i)
    } else {
        shape_key(nodes, i)
    }
}

/// One registered type.
pub ghost struct TypeView {
    pub key: Seq<char>,
    pub named: bool,
    pub name: Seq<char>,
    pub owned: Seq<char>,
    pub borrowed: Seq<char>,
    pub docs: Seq<char>,
}

/// One registered type: its cache key, whether a preferred name made it,
/// its declared name (empty for built-in types and lists), its renderings
/// and its documentation.
pub struct TypeEntry {
    pub key: Vec<char>,
    pub named: bool,
    pub name: Vec<char>,
    pub owned: Vec<char>,
    pub borrowed: Vec<char>,
    pub docs: Vec<char>,
}

impl View for TypeEntry {
    type V = TypeView;

    open spec fn view(&self) -> TypeView {
        TypeView {
            key: self.key@,
            named: self.named,
            name: self.name@,
            owned: self.owned@,
            borrowed: self.borrowed@,
            docs: self.docs@,
        }
    }
}

/// A handle to a registered type.
#[derive(Clone, Copy, Debug, PartialEq, Eq, Structural)]
pub struct TypeId {
    pub index: usize,
}

/// The registry: every type resolved so far, in order of registration.
pub struct TypeSpace {
    pub entries: Vec<TypeEntry>,
}

impl View for TypeSpace {
    type V = Seq<TypeView>;

    open spec fn view(&self) -> Seq<TypeView> {
        self.entries@.map_values(|e: TypeEntry| e@)
    }
}

/// The first anonymous entry at or after `k` cached under `key`.
pub open spec fn find_anon(ents: Seq<TypeView>, key: Seq<char>, k: int) -> Option<int>
    decreases ents.len() - k,
{
    if k < 0 || k >= ents.len() {
        None
    } else if !ents[k].named && ents[k].key == key {
        Some(k)
    } else {
        find_anon(ents, key, k + 1)
    }
}

/// Whether some entry is declared under `name`.
pub open spec fn name_used(ents: Seq<TypeView>, name: Seq<char>) -> bool {
    exists|k: int| 0 <= k < ents.len() && #[trigger] ents[k].name == name
}

/// The length of the longest declared name.
pub open spec fn longest(ents: Seq<TypeView>) -> nat
    decreases ents.len(),
{
    if ents.len() == 0 {
        0
    } else {
        let m = longest(ents.drop_last());
        if ents.last().name.len() > m {
            ents.last().name.len()
        } else {
            m
        }
    }
}

/// `base` followed by more zeros than any declared name has characters:
/// a name no entry holds.
pub open spec fn padded(ents: Seq<TypeView>, base: Seq<char>) -> Seq<char> {
    base + Seq::new(longest(ents) + 1, |_i: int| '0')
}

/// The first of `base` followed by `n`, `n + 1`, ... that no entry holds,
/// trying at most `fuel` more; past that, [`padded`].
pub open spec fn pick_from(ents: Seq<TypeView>, base: Seq<char>, n: nat, fuel: nat) -> Seq<char>
    decreases fuel,
{
    let c = base + dec(n);
    if !name_used(ents, c) {
        c
    } else if fuel == 0 || n >= 0xFFFF_FFFF_FFFF_FFFF {
        padded(ents, base)
    } else {
        pick_from(ents, base, n + 1, (fuel - 1) as nat)
    }
}

/// `base` if no entry holds it, else `base` with the least number from 2 on
/// that makes it free. Among `base2` to `base(n + 2)` for `n` entries one is
/// free, so the padded fallback of [`pick_from`] is never the least.
pub open spec fn pick_name(ents: Seq<TypeView>, base: Seq<char>) -> Seq<char> {
    if !name_used(ents, base) {
        base
    } else {
        pick_from(ents, base, 2, ents.len())
    }
}

proof fn lemma_longest(ents: Seq<TypeView>, k: int)
    requires
        0 <= k < ents.len(),
    ensures
        ents[k].name.len() <= longest(ents),
    decreases ents.len(),
{
    if k < ents.len() - 1 {
        lemma_longest(ents.drop_last(), k);
        assert(ents.drop_last()[k] == ents[k]);
    }
}

proof fn lemma_padded_free(ents: Seq<TypeView>, base: Seq<char>)
    ensures
        !name_used(ents, padded(ents, base)),
{
    if name_used(ents, padded(ents, base)) {
        let k = choose|k: int| 0 <= k < ents.len() && #[trigger] ents[k].name == padded(ents, base);
        lemma_longest(ents, k);
    }
}

proof fn lemma_pick_from_free(ents: Seq<TypeView>, base: Seq<char>, n: nat, fuel: nat)
    ensures
        !name_used(ents, pick_from(ents, base, n, fuel)),
    decreases fuel,
{
    lemma_padded_free(ents, base);
    if fuel > 0 && n < 0xFFFF_FFFF_FFFF_FFFF {
        lemma_pick_from_free(ents, base, n + 1, (fuel - 1) as nat);
    }
}

/// A picked name is held by no entry.
pub proof fn lemma_pick_name_free(ents: Seq<TypeView>, base: Seq<char>)
    ensures
        !name_used(ents, pick_name(ents, base)),
{
    lemma_pick_from_free(ents, base, 2, ents.len());
}

/// The base of a declared name: the preferred name, else the hint, in
/// Pascal case; `Type` where that is empty.
pub open spec fn base_name(pref: Option<Seq<char>>, hint: Seq<char>) -> Seq<char> {
    let p = pascal_of(
        match pref {
            Some(p) => p,
            None => hint,
        },
    );
    if p.len() == 0 {
        "Type"@
    } else {
        p
    }
}

/// Whether a component is named `n`.
pub open spec fn has_component(comps: Seq<Component>, n: Seq<char>) -> bool {
    exists|k: int| 0 <= k < comps.len() && #[trigger] comps[k].name@ == n
}

/// `t` as the type of a value that may be absent, where `nullable`.
pub open spec fn wrap(t: Seq<char>, nullable: bool) -> Seq<char> {
    if nullable {
        "Option<"@ + t + ">"@
    } else {
        t
    }
}

/// The path of a type declared in the generated types module.
pub open spec fn declared(name: Seq<char>) -> Seq<char> {
    "crate::types::"@ + name
}

/// The renderings (owned, borrowed) and declared name of node `i`, before
/// the registry caches them, with the registry as it stands after resolving
/// what they depend on.
pub open spec fn render_node(
    ents: Seq<TypeView>,
    doc: Document,
    pref: Option<Seq<char>>,
    i: int,
    hint: Seq<char>,
) -> (Seq<TypeView>, Result<(Seq<char>, Seq<char>, Seq<char>), Fault>)
    decreases i, 0int,
{
    let nodes = doc.nodes@;
    if !(0 <= i < nodes.len()) {
        (ents, Err((ErrorKind::DanglingSchemaReference, Seq::empty())))
    } else {
        match nodes[i].shape {
            Shape::List { item } => {
                let (e1, r) = if 0 <= item < i {
                    select_spec(ents, doc, None, item as int, false, hint)
                } else {
                    (ents, Err((ErrorKind::DanglingSchemaReference, Seq::empty())))
                };
                match r {
                    Ok(j) => if pref is Some {
                        let nm = pick_name(e1, base_name(pref, hint));
                        (e1, Ok((declared(nm), declared(nm), nm)))
                    } else {
                        (e1, Ok(("Vec<"@ + e1[j].owned + ">"@, "&["@ + e1[j].owned + "]"@, Seq::empty())))
                    },
                    Err(f) => (e1, Err(f)),
                }
            },
            Shape::Ref { target } => match after_prefix(target@, schema_ref_prefix()) {
                Some(n) if has_component(doc.components@, n) => if pref is Some {
                    let nm = pick_name(ents, base_name(pref, hint));
                    (ents, Ok((declared(nm), declared(nm), nm)))
                } else {
                    let nm = pascal_of(n);
                    (ents, Ok((declared(nm), declared(nm), nm)))
                },
                _ => (ents, Err((ErrorKind::DanglingSchemaReference, target@))),
            },
            _ => if pref is Some || nodes[i].shape is Object || nodes[i].shape is Choice || nodes[i].shape is Composite {
                let nm = pick_name(ents, base_name(pref, hint));
                (ents, Ok((declared(nm), declared(nm), nm)))
            } else {
                match nodes[i].shape {
                    Shape::Text => (ents, Ok(("String"@, "&str"@, Seq::empty()))),
                    Shape::Integer => (ents, Ok(("i64"@, "i64"@, Seq::empty()))),
                    Shape::Number => (ents, Ok(("f64"@, "f64"@, Seq::empty()))),
                    Shape::Boolean => (ents, Ok(("bool"@, "bool"@, Seq::empty()))),
                    Shape::DateTime => (ents, Ok(("DateTime<Utc>"@, "DateTime<Utc>"@, Seq::empty()))),
                    _ => (ents, Ok(("chrono::NaiveDate"@, "chrono::NaiveDate"@, Seq::empty()))),
                }
            },
        }
    }
}

/// The registry and result after resolving node `i`: with no preferred
/// name, the first anonymous entry cached under the node's key if there is
/// one; otherwise a new entry at the end.
pub open spec fn select_spec(
    ents: Seq<TypeView>,
    doc: Document,
    pref: Option<Seq<char>>,
    i: int,
    nullable: bool,
    hint: Seq<char>,
) -> (Seq<TypeView>, Result<int, Fault>)
    decreases i, 1int,
{
    let (e1, r) = render_node(ents, doc, pref, i, hint);
    match r {
        Err(f) => (e1, Err(f)),
        Ok((o, b, nm)) => {
            let key = key_of(doc.nodes@, i, nullable);
            match find_anon(e1, key, 0) {
                Some(k) if pref is None => (e1, Ok(k)),
                _ => (
                    e1.push(
                        TypeView {
                            key,
                            named: pref is Some,
                            name: nm,
                            owned: wrap(o, nullable),
                            borrowed: wrap(b, nullable),
                            docs: doc.nodes@[i].description@,
                        },
                    ),
                    Ok(e1.len() as int),
                ),
            }
        },
    }
}

/// A found entry is anonymous, cached under the key, and at or after `k`.
pub proof fn lemma_find_anon(ents: Seq<TypeView>, key: Seq<char>, k: int)
    ensures
        find_anon(ents, key, k) matches Some(j) ==> k <= j < ents.len() && !ents[j].named && ents[j].key == key,
    decreases ents.len() - k,
{
    if 0 <= k < ents.len() && !(!ents[k].named && ents[k].key == key) {
        lemma_find_anon(ents, key, k + 1);
    }
}

/// A resolution only appends entries, and its identifier is in range.
pub proof fn lemma_select_extends(
    ents: Seq<TypeView>,
    doc: Document,
    pref: Option<Seq<char>>,
    i: int,
    nullable: bool,
    hint: Seq<char>,
)
    ensures
        ents.len() <= select_spec(ents, doc, pref, i, nullable, hint).0.len(),
        select_spec(ents, doc, pref, i, nullable, hint).0.take(ents.len() as int) == ents,
        select_spec(ents, doc, pref, i, nullable, hint).1 matches Ok(k) ==> 0 <= k < select_spec(ents, doc, pref, i, nullable, hint).0.len(),
    decreases i,
{
    let (e1, r) = render_node(ents, doc, pref, i, hint);
    lemma_render_extends(ents, doc, pref, i, hint);
    if let Ok((o, b, nm)) = r {
        let key = key_of(doc.nodes@, i, nullable);
        lemma_find_anon(e1, key, 0);
        let out = select_spec(ents, doc, pref, i, nullable, hint).0;
        assert(out.take(e1.len() as int) == e1 ==> out.take(ents.len() as int) =~= ents) by {
            if out.take(e1.len() as int) == e1 {
                assert forall|j: int| 0 <= j < ents.len() implies out[j] == ents[j] by {
                    assert(e1.take(ents.len() as int)[j] == ents[j]);
                    assert(out.take(e1.len() as int)[j] == e1[j]);
                }
            }
        }
        assert(out.take(e1.len() as int) =~= e1);
    }
}

/// Rendering a node only appends entries.
pub proof fn lemma_render_extends(
    ents: Seq<TypeView>,
    doc: Document,
    pref: Option<Seq<char>>,
    i: int,
    hint: Seq<char>,
)
    ensures
        ents.len() <= render_node(ents, doc, pref, i, hint).0.len(),
        render_node(ents, doc, pref, i, hint).0.take(ents.len() as int) == ents,
        render_node(ents, doc, pref, i, hint).1 is Ok && doc.nodes@[i].shape is List && !(pref is Some)
            ==> (doc.nodes@[i].shape->List_item as int) < i && (select_spec(ents, doc, None, doc.nodes@[i].shape->List_item as int, false, hint).1 matches Ok(j) && 0 <= j < render_node(ents, doc, pref, i, hint).0.len()),
    decreases i, 0int,
{
    assert(ents.take(ents.len() as int) =~= ents);
    if 0 <= i < doc.nodes@.len() {
        if let Shape::List { item } = doc.nodes@[i].shape {
            if 0 <= item < i {
                lemma_select_extends(ents, doc, None, item as int, false, hint);
            }
        }
    }
}

proof fn lemma_find_anon_push(s: Seq<TypeView>, x: TypeView, key: Seq<char>, k: int)
    requires
        0 <= k <= s.len(),
        find_anon(s, key, k) is None,
    ensures
        find_anon(s.push(x), key, k) == if !x.named && x.key == key { Some(s.len() as int) } else { None::<int> },
    decreases s.len() - k,
{
    if k < s.len() {
        assert(s.push(x)[k] == s[k]);
        lemma_find_anon_push(s, x, key, k + 1);
    } else {
        assert(s.push(x)[k] == x);
        assert(find_anon(s.push(x), key, k + 1) is None);
    }
}

proof fn lemma_find_anon_prefix(s: Seq<TypeView>, t: Seq<TypeView>, key: Seq<char>, k: int, j: int)
    requires
        0 <= k,
        s.len() <= t.len(),
        t.take(s.len() as int) == s,
        find_anon(s, key, k) == Some(j),
    ensures
        find_anon(t, key, k) == Some(j),
    decreases s.len() - k,
{
    assert(t.take(s.len() as int)[k] == t[k]);
    if !(!s[k].named && s[k].key == key) {
        lemma_find_anon_prefix(s, t, key, k + 1, j);
    }
}

/// An anonymous resolution leaves its identifier as the first anonymous
/// entry cached under its key.
proof fn lemma_select_found(
    ents: Seq<TypeView>,
    doc: Document,
    i: int,
    nullable: bool,
    hint: Seq<char>,
)
    ensures
        select_spec(ents, doc, None, i, nullable, hint).1 matches Ok(k)
            ==> find_anon(select_spec(ents, doc, None, i, nullable, hint).0, key_of(doc.nodes@, i, nullable), 0) == Some(k),
{
    let (e1, r) = render_node(ents, doc, None, i, hint);
    if let Ok((o, b, nm)) = r {
        let key = key_of(doc.nodes@, i, nullable);
        if find_anon(e1, key, 0) is None {
            let x = TypeView {
                key,
                named: false,
                name: nm,
                owned: wrap(o, nullable),
                borrowed: wrap(b, nullable),
                docs: doc.nodes@[i].description@,
            };
            lemma_find_anon_push(e1, x, key, 0);
        }
    }
}

/// Resolving, without preferred names, two nodes of the same structural key
/// one after the other yields one identifier.
pub proof fn law_anonymous_dedup(
    ents: Seq<TypeView>,
    doc: Document,
    a: int,
    b: int,
    nullable: bool,
    hint_a: Seq<char>,
    hint_b: Seq<char>,
)
    requires
        shape_key(doc.nodes@, a) == shape_key(doc.nodes@, b),
    ensures
        ({
            let (e1, r1) = select_spec(ents, doc, None, a, nullable, hint_a);
            let (e2, r2) = select_spec(e1, doc, None, b, nullable, hint_b);
            r1 is Ok && r2 is Ok ==> r1 == r2
        }),
{
    let (e1, r1) = select_spec(ents, doc, None, a, nullable, hint_a);
    lemma_select_found(ents, doc, a, nullable, hint_a);
    if let Ok(k) = r1 {
        let key = key_of(doc.nodes@, a, nullable);
        assert(key == key_of(doc.nodes@, b, nullable));
        let (e1b, rb) = render_node(e1, doc, None, b, hint_b);
        lemma_render_extends(e1, doc, None, b, hint_b);
        lemma_find_anon_prefix(e1, e1b, key, 0, k);
    }
}

/// A resolution with a preferred name never returns the identifier of an
/// earlier resolution: it gets a new one.
pub proof fn law_named_fresh(
    ents: Seq<TypeView>,
    doc: Document,
    a: int,
    b: int,
    pref_a: Option<Seq<char>>,
    pref_b: Seq<char>,
    null_a: bool,
    null_b: bool,
    hint_a: Seq<char>,
    hint_b: Seq<char>,
)
    ensures
        ({
            let (e1, r1) = select_spec(ents, doc, pref_a, a, null_a, hint_a);
            let (e2, r2) = select_spec(e1, doc, Some(pref_b), b, null_b, hint_b);
            r1 is Ok && r2 is Ok ==> r1 != r2
        }),
{
    let (e1, r1) = select_spec(ents, doc, pref_a, a, null_a, hint_a);
    lemma_select_extends(ents, doc, pref_a, a, null_a, hint_a);
    lemma_render_extends(e1, doc, Some(pref_b), b, hint_b);
}

/// A resolution under a preferred name declares a name that no earlier
/// entry holds, and renders as that declared type.
proof fn lemma_named_entry(ents: Seq<TypeView>, doc: Document, p: Seq<char>, i: int, nullable: bool, hint: Seq<char>)
    ensures
        ({
            let (e, r) = select_spec(ents, doc, Some(p), i, nullable, hint);
            let er = render_node(ents, doc, Some(p), i, hint).0;
            r matches Ok(k) ==> k == er.len() && e == er.push(e[k]) && !name_used(er, e[k].name)
                && e[k].owned == wrap(declared(e[k].name), nullable)
        }),
{
    let (er, rr) = render_node(ents, doc, Some(p), i, hint);
    lemma_pick_name_free(er, base_name(Some(p), hint));
    if 0 <= i < doc.nodes@.len() {
        if let Shape::List { item } = doc.nodes@[i].shape {
            if 0 <= item < i {
                let e1 = select_spec(ents, doc, None, item as int, false, hint).0;
                assert(er == e1);
            }
        }
    }
    if let Ok(_) = rr {
        let (e, r) = select_spec(ents, doc, Some(p), i, nullable, hint);
        assert(e[er.len() as int] == e.last());
        assert(e =~= er.push(e[er.len() as int]));
    }
}

/// Two resolutions under preferred names, one after the other, declare
/// different names; without the absent-value wrapping they render as
/// different types, even for structurally identical schemas.
pub proof fn law_named_distinct(
    ents: Seq<TypeView>,
    doc: Document,
    a: int,
    b: int,
    pref_a: Seq<char>,
    pref_b: Seq<char>,
    null_a: bool,
    null_b: bool,
    hint_a: Seq<char>,
    hint_b: Seq<char>,
)
    ensures
        ({
            let (e1, r1) = select_spec(ents, doc, Some(pref_a), a, null_a, hint_a);
            let (e2, r2) = select_spec(e1, doc, Some(pref_b), b, null_b, hint_b);
            r1 is Ok && r2 is Ok ==> {
                let k1 = r1->Ok_0;
                let k2 = r2->Ok_0;
                &&& e2[k1].name != e2[k2].name
                &&& (!null_a && !null_b ==> e2[k1].owned != e2[k2].owned)
            }
        }),
{
    let (e1, r1) = select_spec(ents, doc, Some(pref_a), a, null_a, hint_a);
    let (e2, r2) = select_spec(e1, doc, Some(pref_b), b, null_b, hint_b);
    lemma_select_extends(ents, doc, Some(pref_a), a, null_a, hint_a);
    lemma_named_entry(ents, doc, pref_a, a, null_a, hint_a);
    lemma_named_entry(e1, doc, pref_b, b, null_b, hint_b);
    lemma_render_extends(e1, doc, Some(pref_b), b, hint_b);
    if r1 is Ok && r2 is Ok {
        let k1 = r1->Ok_0;
        let k2 = r2->Ok_0;
        let er = render_node(e1, doc, Some(pref_b), b, hint_b).0;
        assert(er.take(e1.len() as int)[k1] == er[k1]);
        assert(e2[k1] == er[k1]);
        assert(e2[k1] == e1[k1]);
        assert(name_used(er, e2[k1].name));
        if !null_a && !null_b && e2[k1].owned == e2[k2].owned {
            let pre = "crate::types::"@;
            assert(e2[k1].owned.skip(pre.len() as int) =~= e2[k1].name);
            assert(e2[k2].owned.skip(pre.len() as int) =~= e2[k2].name);
        }
    }
}

/// The result of a resolution, by index.
pub open spec fn id_result(r: Result<TypeId, GenError>) -> Result<int, Fault> {
    match r {
        Ok(id) => Ok(id.index as int),
        Err(e) => Err(e@),
    }
}

/// `t` with its length in front.
fn push_label(out: &mut Vec<char>, t: &Vec<char>)
    ensures
        final(out)@ == old(out)@ + label(t@),
{
    let d = decimal(t.len() as u64);
    push_chars(out, &d);
    push_str(out, ":");
    push_chars(out, t);
}

/// The structural key of node `i`.
fn shape_key_of(doc: &Document, i: usize) -> (r: Vec<char>)
    requires
        well_formed(*doc),
        i < doc.nodes@.len(),
    ensures
        r@ == shape_key(doc.nodes@, i as int),
    decreases i,
{
    let ghost nodes = doc.nodes@;
    assert(children_before(nodes, i as int));
    let mut out: Vec<char> = Vec::new();
    match &doc.nodes[i].shape {
        Shape::Text => push_str(&mut out, "s"),
        Shape::Integer => push_str(&mut out, "i"),
        Shape::Number => push_str(&mut out, "n"),
        Shape::Boolean => push_str(&mut out, "b"),
        Shape::DateTime => push_str(&mut out, "t"),
        Shape::Date => push_str(&mut out, "d"),
        Shape::List { item } => {
            push_str(&mut out, "[");
            let k = shape_key_of(doc, *item);
            push_chars(&mut out, &k);
            push_str(&mut out, "]");
        },
        Shape::Object { fields } => {
            push_str(&mut out, "{");
            let ghost start = out@;
            let mut k: usize = 0;
            while k < fields.len()
                invariant
                    well_formed(*doc),
                    nodes == doc.nodes@,
                    i < nodes.len(),
                    nodes[i as int].shape == (Shape::Object { fields: *fields }),
                    children_before(nodes, i as int),
                    k <= fields@.len(),
                    out@ == start + fields_key(nodes, i as int, k as int),
                decreases fields@.len() - k,
            {
                let f = &fields[k];
                let nm = chars_of(f.name.as_str());
                push_label(&mut out, &nm);
                assert(fields@[k as int].node < i) by {
                    let sh = nodes[i as int].shape;
                    assert(sh == (Shape::Object { fields: *fields }));
                    assert(children_before(nodes, i as int));
                    if let Shape::Object { fields: fs } = sh {
                        assert(fs == *fields);
                        assert(fs@[k as int].node < i);
                    }
                }
                let sk = shape_key_of(doc, f.node);
                push_chars(&mut out, &sk);
                k += 1;
            }
            push_str(&mut out, "}");
        },
        Shape::Choice { values } => {
            push_str(&mut out, "(");
            let ghost start = out@;
            let mut k: usize = 0;
            while k < values.len()
                invariant
                    k <= values@.len(),
                    out@ == start + values_key(values@, k as int),
                decreases values@.len() - k,
            {
                let v = chars_of(values[k].as_str());
                push_label(&mut out, &v);
                k += 1;
            }
            push_str(&mut out, ")");
        },
        Shape::Ref { target } => {
            push_str(&mut out, "r");
            let t = chars_of(target.as_str());
            push_label(&mut out, &t);
        },
        Shape::Composite { combine, parts } => {
            match combine {
                Combine::AllOf => push_str(&mut out, "&("),
                Combine::OneOf => push_str(&mut out, "^("),
                Combine::AnyOf => push_str(&mut out, "|("),
            }
            let ghost start = out@;
            let mut k: usize = 0;
            while k < parts.len()
                invariant
                    well_formed(*doc),
                    nodes == doc.nodes@,
                    i < nodes.len(),
                    nodes[i as int].shape == (Shape::Composite { combine: *combine, parts: *parts }),
                    children_before(nodes, i as int),
                    k <= parts@.len(),
                    out@ == start + parts_key(nodes, i as int, k as int),
                decreases parts@.len() - k,
            {
                assert(parts@[k as int] < i) by {
                    let sh = nodes[i as int].shape;
                    if let Shape::Composite { parts: ps, .. } = sh {
                        assert(ps == *parts);
                        assert(ps@[k as int] < i);
                    }
                }
                let sk = shape_key_of(doc, parts[k]);
                push_label(&mut out, &sk);
                k += 1;
            }
            push_str(&mut out, ")");
        },
    }
    assert(out@ =~= shape_key(nodes, i as int));
    out
}

/// Copies a character vector.
fn copy(v: &Vec<char>) -> (r: Vec<char>)
    ensures
        r@ == v@,
{
    let mut r: Vec<char> = Vec::new();
    push_chars(&mut r, v);
    assert(r@ =~= v@);
    r
}

/// `t` as the type of a value that may be absent, where `nullable`.
fn wrapped(t: &Vec<char>, nullable: bool) -> (r: Vec<char>)
    ensures
        r@ == wrap(t@, nullable),
{
    let mut r: Vec<char> = Vec::new();
    if nullable {
        push_str(&mut r, "Option<");
        push_chars(&mut r, t);
        push_str(&mut r, ">");
    } else {
        push_chars(&mut r, t);
        assert(r@ =~= t@);
    }
    r
}

/// The path of a type declared in the generated types module.
fn declared_path(name: &Vec<char>) -> (r: Vec<char>)
    ensures
        r@ == declared(name@),
{
    let mut r: Vec<char> = Vec::new();
    push_str(&mut r, "crate::types::");
    push_chars(&mut r, name);
    r
}

/// Renders a fixed text.
fn lit(s: &str) -> (r: Vec<char>)
    ensures
        r@ == s@,
{
    chars_of(s)
}

impl TypeSpace {
    /// An empty registry.
    pub fn new() -> (r: TypeSpace)
        ensures
            r@ == Seq::<TypeView>::empty(),
    {
        let r = TypeSpace { entries: Vec::new() };
        assert(r@ =~= Seq::<TypeView>::empty());
        r
    }

    /// The number of registered types.
    pub fn len(&self) -> (r: usize)
        ensures
            r == self@.len(),
    {
        self.entries.len()
    }

    /// The first anonymous entry cached under `key`.
    fn find(&self, key: &Vec<char>) -> (r: Option<usize>)
        ensures
            r matches Some(k) ==> find_anon(self@, key@, 0) == Some(k as int),
            r is None ==> find_anon(self@, key@, 0) is None,
    {
        let mut k: usize = 0;
        while k < self.entries.len()
            invariant
                k <= self@.len(),
                find_anon(self@, key@, 0) == find_anon(self@, key@, k as int),
            decreases self@.len() - k,
        {
            if !self.entries[k].named && same_chars(&self.entries[k].key, key) {
                return Some(k);
            }
            k += 1;
        }
        None
    }

    /// Whether some entry is declared under `name`.
    fn is_used(&self, name: &Vec<char>) -> (r: bool)
        ensures
            r == name_used(self@, name@),
    {
        let mut k: usize = 0;
        while k < self.entries.len()
            invariant
                k <= self@.len(),
                forall|j: int| 0 <= j < k ==> #[trigger] self@[j].name != name@,
            decreases self@.len() - k,
        {
            if same_chars(&self.entries[k].name, name) {
                assert(self@[k as int].name == name@);
                return true;
            }
            k += 1;
        }
        false
    }

    /// A name that no entry holds, built from `base`.
    fn fresh_name(&self, base: &Vec<char>) -> (r: Vec<char>)
        ensures
            r@ == pick_name(self@, base@),
    {
        if !self.is_used(base) {
            return copy(base);
        }
        let ghost ents = self@;
        let mut n: u64 = 2;
        let mut fuel: usize = self.entries.len();
        loop
            invariant
                ents == self@,
                name_used(ents, base@),
                pick_from(ents, base@, 2, ents.len()) == pick_from(ents, base@, n as nat, fuel as nat),
            decreases fuel,
        {
            let mut c = copy(base);
            let d = decimal(n);
            push_chars(&mut c, &d);
            assert(c@ == base@ + dec(n as nat));
            if !self.is_used(&c) {
                return c;
            }
            if fuel == 0 || n == u64::MAX {
                return self.padded_name(base);
            }
            n += 1;
            fuel -= 1;
        }
    }

    /// [`padded`]: `base` followed by more zeros than any name has.
    fn padded_name(&self, base: &Vec<char>) -> (r: Vec<char>)
        ensures
            r@ == padded(self@, base@),
    {
        let ghost ents = self@;
        let mut m: usize = 0;
        let mut i: usize = 0;
        while i < self.entries.len()
            invariant
                ents == self@,
                i <= ents.len(),
                m as nat == longest(ents.take(i as int)),
            decreases ents.len() - i,
        {
            assert(ents.take(i + 1).drop_last() =~= ents.take(i as int));
            assert(ents.take(i + 1).last() == ents[i as int]);
            let l = self.entries[i].name.len();
            if l > m {
                m = l;
            }
            i += 1;
        }
        assert(ents.take(ents.len() as int) =~= ents);
        let mut r = copy(base);
        let ghost start = r@;
        r.push('0');
        assert(r@ =~= start + Seq::new(1, |_i: int| '0'));
        let mut k: usize = 0;
        while k < m
            invariant
                k <= m,
                m as nat == longest(ents),
                r@ == start + Seq::new(k as nat + 1, |_i: int| '0'),
            decreases m - k,
        {
            r.push('0');
            k += 1;
            assert(r@ =~= start + Seq::new(k as nat + 1, |_i: int| '0'));
        }
        r
    }

    /// The renderings and declared name of node `i`.
    fn render(
        &mut self,
        doc: &Document,
        pref: &Option<Vec<char>>,
        i: usize,
        hint: &Vec<char>,
    ) -> (r: Result<(Vec<char>, Vec<char>, Vec<char>), GenError>)
        requires
            well_formed(*doc),
            i < doc.nodes@.len(),
        ensures
            ({
                let (e, s) = render_node(old(self)@, *doc, opt_chars(*pref), i as int, hint@);
                &&& final(self)@ == e
                &&& r matches Ok(t) ==> s == Ok::<_, Fault>((t.0@, t.1@, t.2@))
                &&& r matches Err(f) ==> s == Err::<(Seq<char>, Seq<char>, Seq<char>), _>(f@)
            }),
        decreases i, 0int,
    {
        let ghost nodes = doc.nodes@;
        let ghost start = self@;
        assert(children_before(nodes, i as int));
        match &doc.nodes[i].shape {
            Shape::List { item } => {
                let none: Option<Vec<char>> = None;
                let sel = self.select_node(doc, &none, *item, false, hint);
                proof {
                    lemma_select_extends(start, *doc, None, *item as int, false, hint@);
                }
                match sel {
                    Ok(id) => {
                        if pref.is_some() {
                            let nm = self.fresh_name(&TypeSpace::base_of(pref, hint));
                            Ok((declared_path(&nm), declared_path(&nm), nm))
                        } else {
                            let ghost e1 = self@;
                            let inner = &self.entries[id.index].owned;
                            assert(inner@ == e1[id.index as int].owned);
                            let mut o = lit("Vec<");
                            push_chars(&mut o, inner);
                            push_str(&mut o, ">");
                            let mut b = lit("&[");
                            push_chars(&mut b, inner);
                            push_str(&mut b, "]");
                            Ok((o, b, Vec::new()))
                        }
                    },
                    Err(e) => Err(e),
                }
            },
            Shape::Ref { target } => {
                let t = chars_of(target.as_str());
                match strip_prefix(&t, "#/components/schemas/") {
                    Some(n) => {
                        let mut found = false;
                        let mut k: usize = 0;
                        while k < doc.components.len()
                            invariant
                                k <= doc.components@.len(),
                                found == (exists|j: int| 0 <= j < k && #[trigger] doc.components@[j].name@ == n@),
                            decreases doc.components@.len() - k,
                        {
                            let c = chars_of(doc.components[k].name.as_str());
                            if same_chars(&c, &n) {
                                found = true;
                            }
                            k += 1;
                        }
                        if !found {
                            return Err(fault(ErrorKind::DanglingSchemaReference, &t));
                        }
                        if pref.is_some() {
                            let nm = self.fresh_name(&TypeSpace::base_of(pref, hint));
                            Ok((declared_path(&nm), declared_path(&nm), nm))
                        } else {
                            let nm = pascal_case(&n);
                            Ok((declared_path(&nm), declared_path(&nm), nm))
                        }
                    },
                    None => Err(fault(ErrorKind::DanglingSchemaReference, &t)),
                }
            },
            sh => {
                let is_decl = match sh {
                    Shape::Object { .. } => true,
                    Shape::Composite { .. } => true,
                    Shape::Choice { .. } => true,
                    _ => false,
                };
                if pref.is_some() || is_decl {
                    let nm = self.fresh_name(&TypeSpace::base_of(pref, hint));
                    Ok((declared_path(&nm), declared_path(&nm), nm))
                } else {
                    match sh {
                        Shape::Text => Ok((lit("String"), lit("&str"), Vec::new())),
                        Shape::Integer => Ok((lit("i64"), lit("i64"), Vec::new())),
                        Shape::Number => Ok((lit("f64"), lit("f64"), Vec::new())),
                        Shape::Boolean => Ok((lit("bool"), lit("bool"), Vec::new())),
                        Shape::DateTime => Ok((lit("DateTime<Utc>"), lit("DateTime<Utc>"), Vec::new())),
                        _ => Ok((lit("chrono::NaiveDate"), lit("chrono::NaiveDate"), Vec::new())),
                    }
                }
            },
        }
    }

    /// Resolves node `i` (see [`select_spec`]).
    fn select_node(
        &mut self,
        doc: &Document,
        pref: &Option<Vec<char>>,
        i: usize,
        nullable: bool,
        hint: &Vec<char>,
    ) -> (r: Result<TypeId, GenError>)
        requires
            well_formed(*doc),
        ensures
            (final(self)@, id_result(r)) == select_spec(old(self)@, *doc, opt_chars(*pref), i as int, nullable, hint@),
        decreases i, 1int,
    {
        let ghost start = self@;
        if i >= doc.nodes.len() {
            return Err(fault(ErrorKind::DanglingSchemaReference, &Vec::new()));
        }
        let rendered = self.render(doc, pref, i, hint);
        match rendered {
            Err(e) => Err(e),
            Ok((o, b, nm)) => {
                let mut key: Vec<char> = Vec::new();
                if nullable {
                    push_str(&mut key, "?");
                }
                let sk = shape_key_of(doc, i);
                push_chars(&mut key, &sk);
                assert(key@ =~= key_of(doc.nodes@, i as int, nullable));
                if pref.is_none() {
                    if let Some(k) = self.find(&key) {
                        return Ok(TypeId { index: k });
                    }
                }
                let ghost e1 = self@;
                let n = self.entries.len();
                let docs = chars_of(doc.nodes[i].description.as_str());
                let entry = TypeEntry {
                    key,
                    named: pref.is_some(),
                    name: nm,
                    owned: wrapped(&o, nullable),
                    borrowed: wrapped(&b, nullable),
                    docs,
                };
                self.entries.push(entry);
                assert(self@ =~= e1.push(entry@));
                Ok(TypeId { index: n })
            },
        }
    }

    /// Resolves node `node` of `doc` to a type identifier (see
    /// [`select_spec`]): with no preferred name the identifier of an earlier
    /// anonymous node of the same structural key is reused; a preferred name
    /// always gets a new identifier. A reference that names no component is
    /// an error.
    pub fn select(
        &mut self,
        doc: &Document,
        pref: Option<&str>,
        node: usize,
        nullable: bool,
        hint: &str,
    ) -> (r: Result<TypeId, GenError>)
        requires
            well_formed(*doc),
        ensures
            (final(self)@, id_result(r)) == select_spec(old(self)@, *doc, opt_str(pref), node as int, nullable, hint@),
            r matches Ok(id) ==> id.index < final(self)@.len(),
    {
        let p: Option<Vec<char>> = match pref {
            Some(p) => Some(chars_of(p)),
            None => None,
        };
        let h = chars_of(hint);
        proof {
            lemma_select_extends(self@, *doc, opt_str(pref), node as int, nullable, hint@);
        }
        self.select_node(doc, &p, node, nullable, &h)
    }

    /// Resolves node `node` with a preferred name or hint held as characters.
    pub(crate) fn select_chars(
        &mut self,
        doc: &Document,
        pref: &Option<Vec<char>>,
        node: usize,
        nullable: bool,
        hint: &Vec<char>,
    ) -> (r: Result<TypeId, GenError>)
        requires
            well_formed(*doc),
        ensures
            (final(self)@, id_result(r)) == select_spec(old(self)@, *doc, opt_chars(*pref), node as int, nullable, hint@),
            r matches Ok(id) ==> id.index < final(self)@.len(),
    {
        proof {
            lemma_select_extends(self@, *doc, opt_chars(*pref), node as int, nullable, hint@);
        }
        self.select_node(doc, pref, node, nullable, hint)
    }

    /// The rendering of a type: borrowed (`&str`, `&[T]`) where
    /// `as_reference` asks for it and the type has such a form.
    pub fn render_type(&self, id: TypeId, as_reference: bool) -> (r: String)
        requires
            id.index < self@.len(),
        ensures
            r@ == if as_reference { self@[id.index as int].borrowed } else { self@[id.index as int].owned },
    {
        let r = self.render_chars(id, as_reference);
        string_of(&r)
    }

    /// The rendering of a type, as characters.
    pub(crate) fn render_chars(&self, id: TypeId, as_reference: bool) -> (r: Vec<char>)
        requires
            id.index < self@.len(),
        ensures
            r@ == if as_reference { self@[id.index as int].borrowed } else { self@[id.index as int].owned },
    {
        let e = &self.entries[id.index];
        if as_reference {
            copy(&e.borrowed)
        } else {
            copy(&e.owned)
        }
    }

    /// The documentation of a type: the description of the node that
    /// registered it, possibly empty.
    pub fn render_docs(&self, id: TypeId) -> (r: String)
        requires
            id.index < self@.len(),
        ensures
            r@ == self@[id.index as int].docs,
    {
        string_of(&self.entries[id.index].docs)
    }

    /// The base name, in Pascal case, for a preferred name or hint.
    fn base_of(pref: &Option<Vec<char>>, hint: &Vec<char>) -> (r: Vec<char>)
        ensures
            r@ == base_name(opt_chars(*pref), hint@),
    {
        let p = match pref {
            Some(p) => pascal_case(p),
            None => pascal_case(hint),
        };
        if p.len() == 0 {
            lit("Type")
        } else {
            p
        }
    }
}

} // verus!
