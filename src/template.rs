//! Path templates such as `/items/{itemId}`: parsing into literal and
//! placeholder segments, and compiling into the code that builds a request
//! URL, path values escaped and the query string appended.

use vstd::prelude::*;
use crate::model::GenError;
use crate::naming::{ident, ident_of};
use crate::table::{Table, Entry};
use crate::text::{chars_of, push_chars, push_str, string_of};

verus! {

/// A segment of a parsed path, as text.
pub ghost enum Seg {
    Lit(Seq<char>),
    Par(Seq<char>),
}

/// A segment of a parsed path.
#[derive(Clone, Debug, PartialEq, Eq)]
pub enum Segment {
    /// Text copied as it stands.
    Literal(String),
    /// The name inside a `{...}` placeholder.
    Param(String),
}

impl View for Segment {
    type V = Seg;

    open spec fn view(&self) -> Seg {
        match self {
            Segment::Literal(t) => Seg::Lit(t@),
            Segment::Param(n) => Seg::Par(n@),
        }
    }
}

/// A parsed path.
#[derive(Clone, Debug, PartialEq, Eq)]
pub struct Template {
    pub segments: Vec<Segment>,
}

impl View for Template {
    type V = Seq<Seg>;

    open spec fn view(&self) -> Seq<Seg> {
        self.segments@.map_values(|s: Segment| s@)
    }
}

/// Adds pending literal text, if any.
pub open spec fn flush(acc: Seq<Seg>, cur: Seq<char>) -> Seq<Seg> {
    if cur.len() == 0 {
        acc
    } else {
        acc.push(Seg::Lit(cur))
    }
}

/// The segments of `s` from position `i` on, given the text `cur` read
/// since the last brace, whether a placeholder is open, and the segments
/// `acc` already complete; `None` where the braces are malformed.
pub open spec fn scan(s: Seq<char>, i: int, cur: Seq<char>, open: bool, acc: Seq<Seg>) -> Option<Seq<Seg>>
    decreases s.len() - i,
{
    if i < 0 || i >= s.len() {
        if open {
            None
        } else {
            Some(flush(acc, cur))
        }
    } else if s[i] == '{' {
        if open {
            None
        } else {
            scan(s, i + 1, Seq::empty(), true, flush(acc, cur))
        }
    } else if s[i] == '}' {
        if !open || cur.len() == 0 {
            None
        } else {
            scan(s, i + 1, Seq::empty(), false, acc.push(Seg::Par(cur)))
        }
    } else {
        scan(s, i + 1, cur.push(s[i]), open, acc)
    }
}

/// The segments of a path: literal text between placeholders, each
/// placeholder's name; `None` for a nested, stray or unclosed brace or an
/// empty placeholder.
pub open spec fn parse_path(s: Seq<char>) -> Option<Seq<Seg>> {
    scan(s, 0, Seq::empty(), false, Seq::empty())
}

/// The text that a segment stands for.
pub open spec fn seg_text(g: Seg) -> Seq<char> {
    match g {
        Seg::Lit(t) => t,
        Seg::Par(n) => "{"@ + n + "}"@,
    }
}

/// The path text that segments spell.
pub open spec fn unparse(segs: Seq<Seg>) -> Seq<char>
    decreases segs.len(),
{
    if segs.len() == 0 {
        Seq::empty()
    } else {
        unparse(segs.drop_last()) + seg_text(segs.last())
    }
}

proof fn lemma_scan_unparse(s: Seq<char>, i: int, cur: Seq<char>, open: bool, acc: Seq<Seg>)
    requires
        0 <= i <= s.len(),
        scan(s, i, cur, open, acc) is Some,
    ensures
        unparse(scan(s, i, cur, open, acc)->Some_0) == unparse(acc) + (if open { "{"@ + cur } else { cur }) + s.skip(i),
    decreases s.len() - i,
{
    reveal_strlit("{");
    reveal_strlit("}");
    assert(unparse(flush(acc, cur)) =~= unparse(acc) + cur) by {
        if cur.len() > 0 {
            assert(acc.push(Seg::Lit(cur)).drop_last() =~= acc);
        }
    }
    if i < s.len() {
        let rest = s.skip(i + 1);
        assert(s.skip(i) =~= seq![s[i]] + rest);
        if s[i] == '{' {
            lemma_scan_unparse(s, i + 1, Seq::empty(), true, flush(acc, cur));
            assert("{"@ =~= seq!['{']);
            assert(unparse(scan(s, i, cur, open, acc)->Some_0) =~= unparse(acc) + cur + s.skip(i));
        } else if s[i] == '}' {
            let acc2 = acc.push(Seg::Par(cur));
            lemma_scan_unparse(s, i + 1, Seq::empty(), false, acc2);
            assert(acc2.drop_last() =~= acc);
            assert("}"@ =~= seq!['}']);
            assert(unparse(scan(s, i, cur, open, acc)->Some_0) =~= unparse(acc) + ("{"@ + cur) + s.skip(i));
        } else {
            lemma_scan_unparse(s, i + 1, cur.push(s[i]), open, acc);
            assert(cur.push(s[i]) =~= cur + seq![s[i]]);
            if open {
                assert(unparse(scan(s, i, cur, open, acc)->Some_0) =~= unparse(acc) + ("{"@ + cur) + s.skip(i));
            } else {
                assert(unparse(scan(s, i, cur, open, acc)->Some_0) =~= unparse(acc) + cur + s.skip(i));
            }
        }
    } else {
        assert(s.skip(i) =~= Seq::<char>::empty());
    }
}

/// A parsed path spells the path it came from: literal text as it stands,
/// each placeholder in braces.
pub proof fn law_parse_round_trip(s: Seq<char>)
    requires
        parse_path(s) is Some,
    ensures
        unparse(parse_path(s)->Some_0) == s,
{
    lemma_scan_unparse(s, 0, Seq::empty(), false, Seq::empty());
    assert(unparse(Seq::<Seg>::empty()) =~= Seq::<char>::empty());
    assert(s.skip(0) =~= s);
    assert(Seq::<char>::empty() + Seq::<char>::empty() + s =~= s);
}

/// Parses a path into segments.
pub fn parse(path: &str) -> (r: Result<Template, GenError>)
    ensures
        r matches Ok(t) ==> parse_path(path@) == Some(t@),
        r matches Err(e) ==> parse_path(path@) is None && (e matches GenError::MalformedTemplate(p) && p@ == path@),
{
    let s = chars_of(path);
    let n = s.len();
    let mut cur: Vec<char> = Vec::new();
    let mut open = false;
    let mut acc: Vec<Segment> = Vec::new();
    let mut i: usize = 0;
    assert(acc@.map_values(|g: Segment| g@) =~= Seq::<Seg>::empty());
    assert(cur@ =~= Seq::<char>::empty());
    while i < n
        invariant
            n == s@.len(),
            s@ == path@,
            i <= n,
            scan(s@, i as int, cur@, open, acc@.map_values(|g: Segment| g@)) == parse_path(s@),
        decreases n - i,
    {
        let c = s[i];
        let ghost before = acc@.map_values(|g: Segment| g@);
        if c == '{' {
            if open {
                return Err(GenError::MalformedTemplate(string_of(&s)));
            }
            if cur.len() > 0 {
                acc.push(Segment::Literal(string_of(&cur)));
            }
            assert(acc@.map_values(|g: Segment| g@) =~= flush(before, cur@));
            cur = Vec::new();
            open = true;
        } else if c == '}' {
            if !open || cur.len() == 0 {
                return Err(GenError::MalformedTemplate(string_of(&s)));
            }
            acc.push(Segment::Param(string_of(&cur)));
            assert(acc@.map_values(|g: Segment| g@) =~= before.push(Seg::Par(cur@)));
            cur = Vec::new();
            open = false;
        } else {
            cur.push(c);
        }
        assert(cur@ == Seq::<char>::empty() ==> cur@ =~= Seq::<char>::empty());
        i += 1;
    }
    if open {
        return Err(GenError::MalformedTemplate(string_of(&s)));
    }
    let ghost before = acc@.map_values(|g: Segment| g@);
    if cur.len() > 0 {
        acc.push(Segment::Literal(string_of(&cur)));
    }
    let t = Template { segments: acc };
    assert(t@ =~= flush(before, cur@));
    Ok(t)
}

/// How an optional query value is left out of a request.
#[derive(Clone, Copy, Debug, PartialEq, Eq, Structural)]
pub enum Presence {
    /// Always sent.
    Always,
    /// Sent when the string is not empty.
    NonEmpty,
    /// Sent when the number is positive.
    Positive,
    /// Sent when the flag is true.
    IsTrue,
}

/// How one query parameter is serialized.
#[derive(Clone, Debug, PartialEq, Eq)]
pub struct QueryBinding {
    /// The identifier of the function parameter that holds the value.
    pub var: String,
    /// The expression that renders the value as text.
    pub expr: String,
    /// When the pair is sent.
    pub presence: Presence,
}

/// A query binding as text.
pub ghost struct BindingView {
    pub var: Seq<char>,
    pub expr: Seq<char>,
    pub presence: Presence,
}

impl View for QueryBinding {
    type V = BindingView;

    open spec fn view(&self) -> BindingView {
        BindingView { var: self.var@, expr: self.expr@, presence: self.presence }
    }
}

/// A query binding table as text.
pub open spec fn bindings(q: Seq<(Seq<char>, QueryBinding)>) -> Seq<(Seq<char>, BindingView)> {
    q.map_values(|p: (Seq<char>, QueryBinding)| (p.0, p.1@))
}

/// The line that appends one `name=value` pair.
pub open spec fn push_line(k: Seq<char>, b: BindingView) -> Seq<char> {
    "query_args.push(format!(\""@ + k + "={}\", "@ + b.expr + "));\n"@
}

/// The code that appends one pair, guarded by its presence rule.
pub open spec fn query_piece(k: Seq<char>, b: BindingView) -> Seq<char> {
    match b.presence {
        Presence::Always => push_line(k, b),
        Presence::NonEmpty => "if !"@ + b.var + ".is_empty() {\n"@ + push_line(k, b) + "}\n"@,
        Presence::Positive => "if "@ + b.var + " > 0 {\n"@ + push_line(k, b) + "}\n"@,
        Presence::IsTrue => "if "@ + b.var + " {\n"@ + push_line(k, b) + "}\n"@,
    }
}

/// The code for every pair, in table order.
pub open spec fn query_pieces(q: Seq<(Seq<char>, BindingView)>) -> Seq<char>
    decreases q.len(),
{
    if q.len() == 0 {
        Seq::empty()
    } else {
        query_pieces(q.drop_last()) + query_piece(q.last().0, q.last().1)
    }
}

/// The code that builds the query string, empty where there is no query.
pub open spec fn query_block(q: Seq<(Seq<char>, BindingView)>) -> Seq<char> {
    if q.len() == 0 {
        Seq::empty()
    } else {
        "let mut query_args: Vec<String> = Default::default();\n"@ + query_pieces(q)
            + "let query = query_args.join(\"&\");\n"@
    }
}

/// The format text of a segment: placeholders become `{}`.
pub open spec fn fmt_piece(g: Seg) -> Seq<char> {
    match g {
        Seg::Lit(t) => t,
        Seg::Par(_) => "{}"@,
    }
}

/// The format text of the path.
pub open spec fn fmt_text(segs: Seq<Seg>) -> Seq<char>
    decreases segs.len(),
{
    if segs.len() == 0 {
        Seq::empty()
    } else {
        fmt_text(segs.drop_last()) + fmt_piece(segs.last())
    }
}

/// The escaped rendering of a placeholder's value, as a format argument.
pub open spec fn arg_piece(g: Seg) -> Seq<char> {
    match g {
        Seg::Lit(_) => Seq::empty(),
        Seg::Par(n) => ", crate::progenitor_support::encode_path(&"@ + ident_of(n) + ".to_string())"@,
    }
}

/// The format arguments of the path, one per placeholder.
pub open spec fn arg_text(segs: Seq<Seg>) -> Seq<char>
    decreases segs.len(),
{
    if segs.len() == 0 {
        Seq::empty()
    } else {
        arg_text(segs.drop_last()) + arg_piece(segs.last())
    }
}

/// Whether a path has a placeholder.
pub open spec fn has_param(segs: Seq<Seg>) -> bool {
    exists|i: int| 0 <= i < segs.len() && segs[i] is Par
}

/// The line that binds `url`.
pub open spec fn url_line(segs: Seq<Seg>, q: Seq<(Seq<char>, BindingView)>) -> Seq<char> {
    if q.len() == 0 && !has_param(segs) {
        "let url = \""@ + fmt_text(segs) + "\".to_string();"@
    } else if q.len() == 0 {
        "let url = format!(\""@ + fmt_text(segs) + "\""@ + arg_text(segs) + ");"@
    } else {
        "let url = format!(\""@ + fmt_text(segs) + "?{}\""@ + arg_text(segs) + ", query);"@
    }
}

/// The code that builds a request URL from a path and its query bindings.
pub open spec fn compiled(segs: Seq<Seg>, q: Seq<(Seq<char>, BindingView)>) -> Seq<char> {
    query_block(q) + url_line(segs, q)
}

impl Template {
    /// The code that builds the request URL: each placeholder replaced by
    /// the escaped value of its parameter, then the query pairs in table
    /// order, each sent as its presence rule says.
    pub fn compile(&self, query: &Table<QueryBinding>) -> (r: String)
        ensures
            r@ == compiled(self@, bindings(query@)),
    {
        let segs = &self.segments;
        let ghost sv = self@;
        let mut fmt: Vec<char> = Vec::new();
        let mut args: Vec<char> = Vec::new();
        let mut any_param = false;
        let mut i: usize = 0;
        while i < segs.len()
            invariant
                sv == self@,
                segs == &self.segments,
                i <= segs@.len(),
                fmt@ == fmt_text(sv.take(i as int)),
                args@ == arg_text(sv.take(i as int)),
                any_param == has_param(sv.take(i as int)),
            decreases segs@.len() - i,
        {
            assert(sv.take(i + 1).drop_last() =~= sv.take(i as int));
            match &segs[i] {
                Segment::Literal(t) => {
                    push_str(&mut fmt, t.as_str());
                    assert(has_param(sv.take(i + 1)) ==> has_param(sv.take(i as int)));
                },
                Segment::Param(n) => {
                    push_str(&mut fmt, "{}");
                    push_str(&mut args, ", crate::progenitor_support::encode_path(&");
                    let v = ident(&chars_of(n.as_str()));
                    push_chars(&mut args, &v);
                    push_str(&mut args, ".to_string())");
                    any_param = true;
                    assert(sv.take(i + 1)[i as int] is Par);
                },
            }
            assert(has_param(sv.take(i as int)) ==> has_param(sv.take(i + 1))) by {
                if has_param(sv.take(i as int)) {
                    let j = choose|j: int| 0 <= j < i && sv.take(i as int)[j] is Par;
                    assert(sv.take(i + 1)[j] is Par);
                }
            }
            i += 1;
        }
        assert(sv.take(segs@.len() as int) =~= sv);
        let mut out: Vec<char> = Vec::new();
        if query.len() > 0 {
            push_str(&mut out, "let mut query_args: Vec<String> = Default::default();\n");
            let pieces = query_code(query);
            push_chars(&mut out, &pieces);
            push_str(&mut out, "let query = query_args.join(\"&\");\n");
        }
        let ghost block = out@;
        assert(block == query_block(bindings(query@)));
        if query.len() == 0 && !any_param {
            push_str(&mut out, "let url = \"");
            push_chars(&mut out, &fmt);
            push_str(&mut out, "\".to_string();");
        } else if query.len() == 0 {
            push_str(&mut out, "let url = format!(\"");
            push_chars(&mut out, &fmt);
            push_str(&mut out, "\"");
            push_chars(&mut out, &args);
            push_str(&mut out, ");");
        } else {
            push_str(&mut out, "let url = format!(\"");
            push_chars(&mut out, &fmt);
            push_str(&mut out, "?{}\"");
            push_chars(&mut out, &args);
            push_str(&mut out, ", query);");
        }
        assert(out@ =~= compiled(sv, bindings(query@)));
        string_of(&out)
    }
}

/// The code for every query pair, in table order.
fn query_code(query: &Table<QueryBinding>) -> (r: Vec<char>)
    ensures
        r@ == query_pieces(bindings(query@)),
{
    let ghost q = bindings(query@);
    let mut out: Vec<char> = Vec::new();
    let mut i: usize = 0;
    while i < query.entries.len()
        invariant
            q == bindings(query@),
            i <= q.len(),
            out@ == query_pieces(q.take(i as int)),
        decreases q.len() - i,
    {
        assert(q.take(i + 1).drop_last() =~= q.take(i as int));
        let e: &Entry<QueryBinding> = &query.entries[i];
        let b = &e.value;
        let mut line: Vec<char> = Vec::new();
        push_str(&mut line, "query_args.push(format!(\"");
        push_chars(&mut line, &e.key);
        push_str(&mut line, "={}\", ");
        push_str(&mut line, b.expr.as_str());
        push_str(&mut line, "));\n");
        assert(line@ =~= push_line(e.key@, b@));
        assert(q[i as int] == (e.key@, b@));
        match b.presence {
            Presence::Always => {
                push_chars(&mut out, &line);
            },
            Presence::NonEmpty => {
                push_str(&mut out, "if !");
                push_str(&mut out, b.var.as_str());
                push_str(&mut out, ".is_empty() {\n");
                push_chars(&mut out, &line);
                push_str(&mut out, "}\n");
            },
            Presence::Positive => {
                push_str(&mut out, "if ");
                push_str(&mut out, b.var.as_str());
                push_str(&mut out, " > 0 {\n");
                push_chars(&mut out, &line);
                push_str(&mut out, "}\n");
            },
            Presence::IsTrue => {
                push_str(&mut out, "if ");
                push_str(&mut out, b.var.as_str());
                push_str(&mut out, " {\n");
                push_chars(&mut out, &line);
                push_str(&mut out, "}\n");
            },
        }
        assert(q.take(i + 1).last() == q[i as int]);
        assert(out@ =~= query_pieces(q.take(i as int)) + query_piece(e.key@, b@));
        i += 1;
    }
    assert(q.take(q.len() as int) =~= q);
    out
}

} // verus!
