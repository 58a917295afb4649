//! Identifier case conversion, by the inflector crate, and the escaping of
//! reserved words.

use vstd::prelude::*;
use crate::text::{is_text, push_str, string_of};

verus! {

/// What inflector's `to_snake_case` makes of a text.
pub uninterp spec fn snake_of(s: Seq<char>) -> Seq<char>;

/// What inflector's `to_pascal_case` makes of a text.
pub uninterp spec fn pascal_of(s: Seq<char>) -> Seq<char>;

/// Relies on `inflector::cases::snakecase::to_snake_case`: its result depends
/// on the characters alone, and an empty text stays empty.
#[verifier::external_body]
pub(crate) fn snake_case(s: &Vec<char>) -> (r: Vec<char>)
    ensures
        r@ == snake_of(s@),
        s@.len() == 0 ==> r@.len() == 0,
{
    let t: String = s.iter().collect();
    inflector::cases::snakecase::to_snake_case(&t).chars().collect()
}

/// Relies on `inflector::cases::pascalcase::to_pascal_case`: its result
/// depends on the characters alone, and an empty text stays empty.
#[verifier::external_body]
pub(crate) fn pascal_case(s: &Vec<char>) -> (r: Vec<char>)
    ensures
        r@ == pascal_of(s@),
        s@.len() == 0 ==> r@.len() == 0,
{
    let t: String = s.iter().collect();
    inflector::cases::pascalcase::to_pascal_case(&t).chars().collect()
}

/// The number of reserved words of the generated code's language.
pub const KEYWORD_COUNT: usize = 52;

/// The reserved words of the generated code's language: its strict,
/// reserved and edition-specific keywords.
pub open spec fn keyword(i: int) -> Seq<char> {
    if i == 0 {
        "as"@
    } else if i == 1 {
        "async"@
    } else if i == 2 {
        "await"@
    } else if i == 3 {
        "break"@
    } else if i == 4 {
        "const"@
    } else if i == 5 {
        "continue"@
    } else if i == 6 {
        "crate"@
    } else if i == 7 {
        "dyn"@
    } else if i == 8 {
        "else"@
    } else if i == 9 {
        "enum"@
    } else if i == 10 {
        "extern"@
    } else if i == 11 {
        "false"@
    } else if i == 12 {
        "fn"@
    } else if i == 13 {
        "for"@
    } else if i == 14 {
        "if"@
    } else if i == 15 {
        "impl"@
    } else if i == 16 {
        "in"@
    } else if i == 17 {
        "let"@
    } else if i == 18 {
        "loop"@
    } else if i == 19 {
        "match"@
    } else if i == 20 {
        "mod"@
    } else if i == 21 {
        "move"@
    } else if i == 22 {
        "mut"@
    } else if i == 23 {
        "pub"@
    } else if i == 24 {
        "ref"@
    } else if i == 25 {
        "return"@
    } else if i == 26 {
        "self"@
    } else if i == 27 {
        "Self"@
    } else if i == 28 {
        "static"@
    } else if i == 29 {
        "struct"@
    } else if i == 30 {
        "super"@
    } else if i == 31 {
        "trait"@
    } else if i == 32 {
        "true"@
    } else if i == 33 {
        "type"@
    } else if i == 34 {
        "unsafe"@
    } else if i == 35 {
        "use"@
    } else if i == 36 {
        "where"@
    } else if i == 37 {
        "while"@
    } else if i == 38 {
        "abstract"@
    } else if i == 39 {
        "become"@
    } else if i == 40 {
        "box"@
    } else if i == 41 {
        "do"@
    } else if i == 42 {
        "final"@
    } else if i == 43 {
        "macro"@
    } else if i == 44 {
        "override"@
    } else if i == 45 {
        "priv"@
    } else if i == 46 {
        "try"@
    } else if i == 47 {
        "typeof"@
    } else if i == 48 {
        "unsized"@
    } else if i == 49 {
        "virtual"@
    } else if i == 50 {
        "yield"@
    } else {
        "gen"@
    }
}

/// Whether a name is a reserved word of the generated code's language.
pub open spec fn is_reserved(n: Seq<char>) -> bool {
    exists|i: int| 0 <= i < KEYWORD_COUNT && #[trigger] keyword(i) == n
}

/// The reserved word at position `i`.
fn keyword_at(i: usize) -> (r: &'static str)
    requires
        i < KEYWORD_COUNT,
    ensures
        r@ == keyword(i as int),
{
    if i == 0 {
        "as"
    } else if i == 1 {
        "async"
    } else if i == 2 {
        "await"
    } else if i == 3 {
        "break"
    } else if i == 4 {
        "const"
    } else if i == 5 {
        "continue"
    } else if i == 6 {
        "crate"
    } else if i == 7 {
        "dyn"
    } else if i == 8 {
        "else"
    } else if i == 9 {
        "enum"
    } else if i == 10 {
        "extern"
    } else if i == 11 {
        "false"
    } else if i == 12 {
        "fn"
    } else if i == 13 {
        "for"
    } else if i == 14 {
        "if"
    } else if i == 15 {
        "impl"
    } else if i == 16 {
        "in"
    } else if i == 17 {
        "let"
    } else if i == 18 {
        "loop"
    } else if i == 19 {
        "match"
    } else if i == 20 {
        "mod"
    } else if i == 21 {
        "move"
    } else if i == 22 {
        "mut"
    } else if i == 23 {
        "pub"
    } else if i == 24 {
        "ref"
    } else if i == 25 {
        "return"
    } else if i == 26 {
        "self"
    } else if i == 27 {
        "Self"
    } else if i == 28 {
        "static"
    } else if i == 29 {
        "struct"
    } else if i == 30 {
        "super"
    } else if i == 31 {
        "trait"
    } else if i == 32 {
        "true"
    } else if i == 33 {
        "type"
    } else if i == 34 {
        "unsafe"
    } else if i == 35 {
        "use"
    } else if i == 36 {
        "where"
    } else if i == 37 {
        "while"
    } else if i == 38 {
        "abstract"
    } else if i == 39 {
        "become"
    } else if i == 40 {
        "box"
    } else if i == 41 {
        "do"
    } else if i == 42 {
        "final"
    } else if i == 43 {
        "macro"
    } else if i == 44 {
        "override"
    } else if i == 45 {
        "priv"
    } else if i == 46 {
        "try"
    } else if i == 47 {
        "typeof"
    } else if i == 48 {
        "unsized"
    } else if i == 49 {
        "virtual"
    } else if i == 50 {
        "yield"
    } else {
        "gen"
    }
}

/// Whether a name is a reserved word of the generated code's language.
pub fn is_keyword(n: &Vec<char>) -> (r: bool)
    ensures
        r == is_reserved(n@),
{
    let mut i: usize = 0;
    while i < KEYWORD_COUNT
        invariant
            i <= KEYWORD_COUNT,
            forall|j: int| 0 <= j < i ==> #[trigger] keyword(j) != n@,
        decreases KEYWORD_COUNT - i,
    {
        if is_text(n, keyword_at(i)) {
            return true;
        }
        i += 1;
    }
    false
}

/// A name safe to use as an identifier: reserved words get a trailing `_`.
pub open spec fn escaped(n: Seq<char>) -> Seq<char> {
    if is_reserved(n) {
        n + "_"@
    } else {
        n
    }
}

/// The identifier that stands for a raw parameter name in generated code.
pub open spec fn ident_of(raw: Seq<char>) -> Seq<char> {
    escaped(snake_of(raw))
}

/// `n` with a trailing `_` if it is a reserved word.
pub fn escape(n: &Vec<char>) -> (r: Vec<char>)
    ensures
        r@ == escaped(n@),
{
    let mut r: Vec<char> = Vec::new();
    crate::text::push_chars(&mut r, n);
    assert(r@ =~= n@);
    if is_keyword(n) {
        push_str(&mut r, "_");
    }
    r
}

/// The identifier for a raw parameter name: snake case, then escaped.
pub fn ident(raw: &Vec<char>) -> (r: Vec<char>)
    ensures
        r@ == ident_of(raw@),
{
    let s = snake_case(raw);
    escape(&s)
}

/// The identifier for a raw parameter name, as a string.
pub fn identifier(raw: &str) -> (r: String)
    ensures
        r@ == ident_of(raw@),
{
    let v = crate::text::chars_of(raw);
    let r = ident(&v);
    string_of(&r)
}

} // verus!
