//! Classification of raw module statements by light syntactic sniffing.
use vstd::prelude::*;
use crate::text::{chars_of, contains, has_infix, has_prefix, starts_with, string_of, strs};

verus! {

/// The bucket that a module statement goes to.
#[derive(Debug, Clone, Copy, PartialEq, Eq, Structural)]
pub enum StatementKind {
    /// `export ... from '...'`: exports sourced from another module.
    Reexport,
    /// `export const ...`, `export function ...`: exports a local binding.
    NamedExport,
    /// `export default ...`: dropped, the module gets its own default export.
    DefaultExport,
    /// Anything else is treated as an import.
    Import,
}

pub open spec fn is_reexport(t: Seq<char>) -> bool {
    starts_with(t, "export"@) && contains(t, " from "@)
}

pub open spec fn is_named_export(t: Seq<char>) -> bool {
    starts_with(t, "export "@) && !starts_with(t, "export default"@)
}

pub open spec fn is_default_export(t: Seq<char>) -> bool {
    starts_with(t, "export default"@)
}

/// Checks in fixed order: re-export, named export, default export, import.
pub open spec fn classify_spec(t: Seq<char>) -> StatementKind {
    if is_reexport(t) {
        StatementKind::Reexport
    } else if is_named_export(t) {
        StatementKind::NamedExport
    } else if is_default_export(t) {
        StatementKind::DefaultExport
    } else {
        StatementKind::Import
    }
}

/// The bucket of the (already trimmed) statement `t`.
pub fn classify(t: &Vec<char>) -> (r: StatementKind)
    ensures
        r == classify_spec(t@),
{
    if has_prefix(t, "export") && has_infix(t, " from ") {
        StatementKind::Reexport
    } else if has_prefix(t, "export ") && !has_prefix(t, "export default") {
        StatementKind::NamedExport
    } else if has_prefix(t, "export default") {
        StatementKind::DefaultExport
    } else {
        StatementKind::Import
    }
}

pub open spec fn is_ident_char(c: char) -> bool {
    ('a' <= c && c <= 'z') || ('A' <= c && c <= 'Z') || ('0' <= c && c <= '9') || c == '_' || c == '$'
}

pub open spec fn is_quote(c: char) -> bool {
    c == '\'' || c == '"' || c == '`'
}

/// Tokens finished within the first `n` characters of `s`, and the one still open.
pub open spec fn scan(s: Seq<char>, n: int) -> (Seq<Seq<char>>, Seq<char>)
    decreases n,
{
    if n <= 0 || n > s.len() {
        (Seq::empty(), Seq::empty())
    } else {
        let (t, cur) = scan(s, n - 1);
        let c = s[n - 1];
        if is_ident_char(c) {
            (t, cur.push(c))
        } else if cur.len() > 0 {
            (t.push(cur), Seq::empty())
        } else {
            (t, Seq::empty())
        }
    }
}

/// Maximal runs of identifier characters in `s`.
pub open spec fn tokens(s: Seq<char>) -> Seq<Seq<char>> {
    let (t, cur) = scan(s, s.len() as int);
    if cur.len() > 0 { t.push(cur) } else { t }
}

/// Token `k` names a binding: it is no keyword and is not renamed by `as`.
pub open spec fn is_bound(toks: Seq<Seq<char>>, k: int) -> bool {
    &&& toks[k] != "from"@
    &&& toks[k] != "as"@
    &&& toks[k] != "type"@
    &&& (k + 1 == toks.len() || toks[k + 1] != "as"@)
}

pub open spec fn bound_upto(toks: Seq<Seq<char>>, k: int) -> Seq<Seq<char>>
    decreases k,
{
    if k <= 0 || k > toks.len() {
        Seq::empty()
    } else if is_bound(toks, k - 1) {
        bound_upto(toks, k - 1).push(toks[k - 1])
    } else {
        bound_upto(toks, k - 1)
    }
}

/// Index of the first quote at or after `i`, or the length.
pub open spec fn quote_from(s: Seq<char>, i: int) -> int
    decreases s.len() - i,
{
    if i < 0 || i >= s.len() {
        s.len() as int
    } else if is_quote(s[i]) {
        i
    } else {
        quote_from(s, i + 1)
    }
}

/// The binding clause of an import: between `import` and the module path.
pub open spec fn import_clause(s: Seq<char>) -> Seq<char> {
    if starts_with(s, "import"@) {
        s.subrange(6, quote_from(s, 6))
    } else {
        Seq::empty()
    }
}

/// The local names that import statement `s` binds.
pub open spec fn imported_names(s: Seq<char>) -> Seq<Seq<char>> {
    let toks = tokens(import_clause(s));
    bound_upto(toks, toks.len() as int)
}

pub open spec fn vviews(v: Seq<Vec<char>>) -> Seq<Seq<char>> {
    v.map_values(|t: Vec<char>| t@)
}

fn ident_char(c: char) -> (r: bool)
    ensures
        r == is_ident_char(c),
{
    ('a' <= c && c <= 'z') || ('A' <= c && c <= 'Z') || ('0' <= c && c <= '9') || c == '_' || c == '$'
}

fn eq_chars(a: &Vec<char>, b: &str) -> (r: bool)
    ensures
        r == (a@ == b@),
{
    let bc = chars_of(b);
    if a.len() != bc.len() {
        return false;
    }
    let mut k: usize = 0;
    while k < a.len()
        invariant
            k <= a.len() == bc.len(),
            bc@ == b@,
            forall|m: int| 0 <= m < k ==> a@[m] == bc@[m],
        decreases a.len() - k,
    {
        if a[k] != bc[k] {
            return false;
        }
        k = k + 1;
    }
    assert(a@ =~= bc@);
    true
}

/// Maximal runs of identifier characters in `s[from..to]`.
fn tokens_of(s: &Vec<char>, from: usize, to: usize) -> (r: Vec<Vec<char>>)
    requires
        from <= to <= s@.len(),
    ensures
        vviews(r@) == tokens(s@.subrange(from as int, to as int)),
{
    let ghost sub = s@.subrange(from as int, to as int);
    let mut toks: Vec<Vec<char>> = Vec::new();
    let mut cur: Vec<char> = Vec::new();
    let mut k: usize = from;
    assert(vviews(toks@) =~= Seq::<Seq<char>>::empty());
    while k < to
        invariant
            from <= k <= to <= s@.len(),
            sub == s@.subrange(from as int, to as int),
            (vviews(toks@), cur@) == scan(sub, (k - from) as int),
        decreases to - k,
    {
        let c = s[k];
        assert(sub[(k - from) as int] == c);
        if ident_char(c) {
            cur.push(c);
        } else if cur.len() > 0 {
            let done = cur;
            toks.push(done);
            cur = Vec::new();
            assert(vviews(toks@) =~= scan(sub, (k - from) as int).0.push(done@));
            assert(cur@ =~= Seq::<char>::empty());
        } else {
            assert(cur@ =~= Seq::<char>::empty());
        }
        k = k + 1;
    }
    if cur.len() > 0 {
        let ghost before = vviews(toks@);
        toks.push(cur);
        assert(vviews(toks@) =~= before.push(cur@));
    }
    toks
}

/// The local names that import statement `code` binds, in order.
pub fn extract_imported_names(code: &Vec<char>) -> (r: Vec<String>)
    ensures
        strs(r@) == imported_names(code@),
{
    let mut out: Vec<String> = Vec::new();
    assert(strs(out@) =~= Seq::<Seq<char>>::empty());
    if !has_prefix(code, "import") {
        return out;
    }
    proof {
        reveal_strlit("import");
    }
    let mut q: usize = 6;
    while q < code.len() && !(code[q] == '\'' || code[q] == '"' || code[q] == '`')
        invariant
            6 <= q <= code@.len(),
            quote_from(code@, 6) == quote_from(code@, q as int),
        decreases code.len() - q,
    {
        q = q + 1;
    }
    let toks = tokens_of(code, 6, q);
    let ghost tv = vviews(toks@);
    let mut k: usize = 0;
    while k < toks.len()
        invariant
            k <= toks@.len(),
            tv == vviews(toks@),
            strs(out@) == bound_upto(tv, k as int),
        decreases toks.len() - k,
    {
        let t = &toks[k];
        let bound = !eq_chars(t, "from") && !eq_chars(t, "as") && !eq_chars(t, "type")
            && (k + 1 == toks.len() || !eq_chars(&toks[k + 1], "as"));
        assert(tv[k as int] == t@);
        if bound {
            let name = string_of(t);
            let ghost before = strs(out@);
            out.push(name);
            assert(strs(out@) =~= before.push(t@));
        }
        k = k + 1;
    }
    out
}

} // verus!
