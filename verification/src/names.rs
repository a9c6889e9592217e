//! Namespaced identifiers and the references that point at definitions.

use vstd::prelude::*;
use vstd::string::*;
use crate::text::same_text;

verus! {

/// Whether `s` is a namespaced identifier: it holds a dot, and the dots
/// cut it into segments none of which is empty. So it is not empty, no
/// dot stands first or last, and no two dots stand side by side.
pub open spec fn valid_nsid(s: Seq<char>) -> bool {
    &&& s.len() > 0
    &&& exists|i: int| 0 <= i < s.len() && #[trigger] s[i] == '.'
    &&& forall|i: int|
        0 <= i < s.len() && #[trigger] s[i] == '.' ==> 0 < i && i + 1 < s.len() && s[i + 1] != '.'
}

/// Whether `s` is a namespaced identifier.
pub fn is_valid_nsid(s: &str) -> (r: bool)
    ensures
        r == valid_nsid(s@),
{
    let n: usize = s.unicode_len();
    if n == 0 {
        return false;
    }
    let mut dotted = false;
    let mut i: usize = 0;
    while i < n
        invariant
            n == s@.len(),
            i <= n,
            dotted ==> exists|k: int| 0 <= k < s@.len() && #[trigger] s@[k] == '.',
            !dotted ==> forall|k: int| 0 <= k < i ==> #[trigger] s@[k] != '.',
            forall|k: int|
                0 <= k < i && #[trigger] s@[k] == '.' ==> 0 < k && k + 1 < n && s@[k + 1] != '.',
        decreases n - i,
    {
        if s.get_char(i) == '.' {
            if i == 0 || i + 1 >= n {
                return false;
            }
            if s.get_char(i + 1) == '.' {
                return false;
            }
            dotted = true;
        }
        i += 1;
    }
    dotted
}

/// Whether `c` can stand in an identifier: an ASCII letter, a digit or `_`.
pub open spec fn ident_ok(c: char) -> bool {
    ('a' <= c && c <= 'z') || ('A' <= c && c <= 'Z') || ('0' <= c && c <= '9') || c == '_'
}

/// `c` where it can stand in an identifier, else `_`.
pub open spec fn ident_char(c: char) -> char {
    if ident_ok(c) {
        c
    } else {
        '_'
    }
}

/// A text with every character that cannot stand in an identifier, the dot
/// among them, replaced by `_`.
pub open spec fn sanitized(s: Seq<char>) -> Seq<char> {
    Seq::new(s.len(), |i: int| ident_char(s[i]))
}

/// The words that the generated code cannot use as names.
pub open spec fn reserved_words() -> Seq<Seq<char>> {
    seq![
        "as"@, "async"@, "await"@, "break"@, "const"@, "continue"@, "crate"@, "dyn"@, "else"@,
        "enum"@, "false"@, "fn"@, "for"@, "if"@, "impl"@, "in"@, "let"@, "loop"@, "match"@, "mod"@,
        "move"@, "mut"@, "pub"@, "ref"@, "return"@, "self"@, "static"@, "struct"@, "super"@,
        "trait"@, "true"@, "type"@, "union"@, "unsafe"@, "use"@, "where"@, "while"@,
    ]
}

/// Whether `w` is a reserved word.
pub open spec fn is_reserved(w: Seq<char>) -> bool {
    reserved_words().contains(w)
}

/// `w` itself, or `w` followed by `_` where it is a reserved word.
pub open spec fn escaped(w: Seq<char>) -> Seq<char> {
    if is_reserved(w) {
        w.push('_')
    } else {
        w
    }
}

/// Whether `c` is a digit.
pub open spec fn is_digit(c: char) -> bool {
    '0' <= c && c <= '9'
}

/// `w` where it can be the start of an identifier; `_` followed by `w`
/// where `w` is empty, starts with a digit or is `_` alone.
pub open spec fn headed(w: Seq<char>) -> Seq<char> {
    if w.len() == 0 || is_digit(w[0]) || (w.len() == 1 && w[0] == '_') {
        seq!['_'] + w
    } else {
        w
    }
}

/// The identifier of definition `name` of document `nsid`, before
/// escaping: the sanitized document identifier, followed for any
/// definition but `main` by `_` and the sanitized name.
pub open spec fn plain_identifier(nsid: Seq<char>, name: Seq<char>) -> Seq<char> {
    if name == "main"@ {
        sanitized(nsid)
    } else {
        sanitized(nsid).push('_') + sanitized(name)
    }
}

/// The identifier generated for definition `name` of document `nsid`.
pub open spec fn identifier(nsid: Seq<char>, name: Seq<char>) -> Seq<char> {
    escaped(headed(plain_identifier(nsid, name)))
}

/// The identifier generated for a property or parameter.
pub open spec fn field_identifier(name: Seq<char>) -> Seq<char> {
    escaped(headed(sanitized(name)))
}

fn reserved_table() -> (r: Vec<&'static str>)
    ensures
        r.len() == reserved_words().len(),
        forall|i: int| 0 <= i < r.len() ==> (#[trigger] r[i])@ == reserved_words()[i],
{
    vec![
        "as", "async", "await", "break", "const", "continue", "crate", "dyn", "else", "enum",
        "false", "fn", "for", "if", "impl", "in", "let", "loop", "match", "mod", "move", "mut",
        "pub", "ref", "return", "self", "static", "struct", "super", "trait", "true", "type",
        "union", "unsafe", "use", "where", "while",
    ]
}

/// Whether `w` is a reserved word.
pub fn reserved(w: &str) -> (r: bool)
    ensures
        r == is_reserved(w@),
{
    let table = reserved_table();
    let ghost words = reserved_words();
    let mut i: usize = 0;
    while i < table.len()
        invariant
            i <= table.len(),
            words == reserved_words(),
            table.len() == words.len(),
            forall|k: int| 0 <= k < table.len() ==> (#[trigger] table[k])@ == words[k],
            forall|k: int| 0 <= k < i ==> (#[trigger] words[k]) != w@,
        decreases table.len() - i,
    {
        assert(table[i as int]@ == words[i as int]);
        if same_text(table[i], w) {
            assert(words.contains(w@));
            return true;
        }
        i += 1;
    }
    assert(!words.contains(w@));
    false
}

fn push_sanitized(out: &mut String, s: &str)
    ensures
        final(out)@ == old(out)@ + sanitized(s@),
{
    let ghost before = out@;
    let n: usize = s.unicode_len();
    let mut i: usize = 0;
    assert(out@ =~= before + sanitized(s@).subrange(0, 0));
    while i < n
        invariant
            n == s@.len(),
            i <= n,
            out@ == before + sanitized(s@).subrange(0, i as int),
        decreases n - i,
    {
        let c = s.get_char(i);
        let ok = ('a' <= c && c <= 'z') || ('A' <= c && c <= 'Z') || ('0' <= c && c <= '9') || c == '_';
        if ok {
            out.push(c);
        } else {
            out.push('_');
        }
        i += 1;
        assert(out@ =~= before + sanitized(s@).subrange(0, i as int));
    }
    assert(sanitized(s@).subrange(0, n as int) =~= sanitized(s@));
}

fn head(w: String) -> (r: String)
    ensures
        r@ == headed(w@),
{
    let n: usize = w.as_str().unicode_len();
    let first_is_bad = n == 0 || {
        let c = w.as_str().get_char(0);
        ('0' <= c && c <= '9') || (n == 1 && c == '_')
    };
    if first_is_bad {
        let mut out = String::new();
        out.push('_');
        out.append(w.as_str());
        assert(out@ =~= seq!['_'] + w@);
        out
    } else {
        w
    }
}

fn escape(w: String) -> (r: String)
    ensures
        r@ == escaped(w@),
{
    if reserved(w.as_str()) {
        let mut out = w;
        out.push('_');
        out
    } else {
        w
    }
}

/// The identifier generated for definition `name` of document `nsid`.
pub fn make_identifier(nsid: &str, name: &str) -> (r: String)
    ensures
        r@ == identifier(nsid@, name@),
{
    let mut out = String::new();
    push_sanitized(&mut out, nsid);
    assert(out@ =~= sanitized(nsid@));
    if !same_text(name, "main") {
        out.push('_');
        push_sanitized(&mut out, name);
    }
    escape(head(out))
}

/// The identifier generated for a property or parameter.
pub fn make_field_identifier(name: &str) -> (r: String)
    ensures
        r@ == field_identifier(name@),
{
    let mut out = String::new();
    push_sanitized(&mut out, name);
    assert(out@ =~= sanitized(name@));
    escape(head(out))
}

} // verus!
