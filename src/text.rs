//! Character-level helpers shared by the compiler passes.
use vstd::prelude::*;

verus! {

/// A lower-case hexadecimal digit.
pub open spec fn hex_char(d: nat) -> char {
    if d < 10 {
        digit_char(d)
    } else if d == 10 { 'a' } else if d == 11 { 'b' } else if d == 12 { 'c' } else if d == 13 { 'd' }
    else if d == 14 { 'e' } else { 'f' }
}

/// How one character stands inside a JSON string literal: quote and backslash
/// escaped, the short escapes for backspace, tab, line feed, form feed and
/// carriage return, other characters below U+0020 as `\u00xx`, the rest as is.
pub open spec fn json_escape(c: char) -> Seq<char> {
    if c == '"' {
        seq!['\\', '"']
    } else if c == '\\' {
        seq!['\\', '\\']
    } else if c == '\u{8}' {
        seq!['\\', 'b']
    } else if c == '\t' {
        seq!['\\', 't']
    } else if c == '\n' {
        seq!['\\', 'n']
    } else if c == '\u{c}' {
        seq!['\\', 'f']
    } else if c == '\r' {
        seq!['\\', 'r']
    } else if (c as u32) < 0x20 {
        seq!['\\', 'u', '0', '0', hex_char((c as u32 / 16) as nat), hex_char((c as u32 % 16) as nat)]
    } else {
        seq![c]
    }
}

/// The escaped form of the first `n` characters of `s`.
pub open spec fn json_body(s: Seq<char>, n: int) -> Seq<char>
    decreases n,
{
    if n <= 0 || n > s.len() {
        Seq::empty()
    } else {
        json_body(s, n - 1) + json_escape(s[n - 1])
    }
}

/// The JSON string literal (quotes and escapes included) that denotes `s`.
pub open spec fn json_quoted(s: Seq<char>) -> Seq<char> {
    seq!['"'] + json_body(s, s.len() as int) + seq!['"']
}

/// Relies on `serde_json::to_string` on a `str` (`format_escaped_str` with its
/// `ESCAPE` table): it yields the JSON string literal of its argument. Writing a `str` into an in-memory buffer cannot
/// fail, so the error arm is never taken.
#[verifier::external_body]
pub(crate) fn quote_json(s: &str) -> (r: String)
    ensures
        r@ == json_quoted(s@),
{
    serde_json::to_string(s).unwrap_or_default()
}

/// The characters of `s` in order.
pub fn chars_of(s: &str) -> (r: Vec<char>)
    ensures
        r@ == s@,
{
    let mut out: Vec<char> = Vec::new();
    for c in it: s.chars()
        invariant
            it.seq() == s@,
            out@ == it.seq().take(it.index() as int),
    {
        out.push(c);
    }
    out
}

/// Relies on `String::push`: appends one character.
#[verifier::external_body]
pub(crate) fn push_char(s: &mut String, c: char)
    ensures
        final(s)@ == old(s)@.push(c),
{
    s.push(c)
}

/// The view of a vector of strings as a sequence of character sequences.
pub open spec fn strs(v: Seq<String>) -> Seq<Seq<char>> {
    v.map_values(|s: String| s@)
}

/// `parts` joined with `sep` between neighbours.
pub open spec fn join(parts: Seq<Seq<char>>, sep: Seq<char>) -> Seq<char>
    decreases parts.len(),
{
    if parts.len() == 0 {
        Seq::empty()
    } else if parts.len() == 1 {
        parts[0]
    } else {
        join(parts.drop_last(), sep) + sep + parts.last()
    }
}

/// Unicode White_Space, the set that `char::is_whitespace` and `str::trim` use.
pub open spec fn is_ws(c: char) -> bool {
    ('\u{9}' <= c && c <= '\u{d}') || c == ' ' || c == '\u{85}' || c == '\u{a0}' || c == '\u{1680}'
        || ('\u{2000}' <= c && c <= '\u{200a}') || c == '\u{2028}' || c == '\u{2029}' || c == '\u{202f}'
        || c == '\u{205f}' || c == '\u{3000}'
}

/// Whether `c` is whitespace.
pub fn is_space(c: char) -> (r: bool)
    ensures
        r == is_ws(c),
{
    ('\u{9}' <= c && c <= '\u{d}') || c == ' ' || c == '\u{85}' || c == '\u{a0}' || c == '\u{1680}'
        || ('\u{2000}' <= c && c <= '\u{200a}') || c == '\u{2028}' || c == '\u{2029}' || c == '\u{202f}'
        || c == '\u{205f}' || c == '\u{3000}'
}

pub open spec fn digit_char(d: nat) -> char
    recommends
        d < 10,
{
    if d == 0 { '0' } else if d == 1 { '1' } else if d == 2 { '2' } else if d == 3 { '3' }
    else if d == 4 { '4' } else if d == 5 { '5' } else if d == 6 { '6' } else if d == 7 { '7' }
    else if d == 8 { '8' } else { '9' }
}

/// Decimal digits of `n`, most significant first, without leading zeros.
pub open spec fn decimal(n: nat) -> Seq<char>
    decreases n,
{
    if n < 10 {
        seq![digit_char(n)]
    } else {
        decimal(n / 10).push(digit_char(n % 10))
    }
}

/// ASCII lower case of one character.
pub open spec fn lower_char(c: char) -> char {
    if 'A' <= c && c <= 'Z' {
        (((c as u8) + 32) as u8) as char
    } else {
        c
    }
}

pub open spec fn lower(s: Seq<char>) -> Seq<char> {
    s.map_values(|c: char| lower_char(c))
}

pub open spec fn starts_with(s: Seq<char>, p: Seq<char>) -> bool {
    p.len() <= s.len() && s.subrange(0, p.len() as int) == p
}

/// `s` holds `p` as a contiguous run somewhere.
pub open spec fn contains_at(s: Seq<char>, p: Seq<char>, i: int) -> bool {
    0 <= i && i + p.len() <= s.len() && s.subrange(i, i + p.len()) == p
}

pub open spec fn contains(s: Seq<char>, p: Seq<char>) -> bool {
    exists|i: int| contains_at(s, p, i)
}

/// Index of the first character of `s` that is not whitespace (or `s.len()`).
pub open spec fn trim_start_at(s: Seq<char>, i: int) -> int
    decreases s.len() - i,
{
    if i >= s.len() || i < 0 {
        s.len() as int
    } else if is_ws(s[i]) {
        trim_start_at(s, i + 1)
    } else {
        i
    }
}

/// One past the last character of `s[..j]` that is not whitespace (or 0).
pub open spec fn trim_end_at(s: Seq<char>, j: int) -> int
    decreases j,
{
    if j <= 0 || j > s.len() {
        0
    } else if is_ws(s[j - 1]) {
        trim_end_at(s, j - 1)
    } else {
        j
    }
}

/// `s` without leading and trailing whitespace.
pub open spec fn trim(s: Seq<char>) -> Seq<char> {
    let a = trim_start_at(s, 0);
    let b = trim_end_at(s, s.len() as int);
    if a < b { s.subrange(a, b) } else { Seq::empty() }
}

pub fn string_from(s: &str) -> (r: String)
    ensures
        r@ == s@,
{
    String::from_str(s)
}

/// Decimal text of `n`.
pub fn decimal_string(n: u64) -> (r: String)
    ensures
        r@ == decimal(n as nat),
    decreases n,
{
    let d: u64 = n % 10;
    let c: char = if d == 0 { '0' } else if d == 1 { '1' } else if d == 2 { '2' } else if d == 3 { '3' }
    else if d == 4 { '4' } else if d == 5 { '5' } else if d == 6 { '6' } else if d == 7 { '7' }
    else if d == 8 { '8' } else { '9' };
    if n < 10 {
        let mut s = String::new();
        push_char(&mut s, c);
        assert(s@ =~= seq![digit_char(n as nat)]);
        s
    } else {
        let mut s = decimal_string(n / 10);
        push_char(&mut s, c);
        s
    }
}

/// `parts` joined with `sep`.
pub fn join_strings(parts: &Vec<String>, sep: &str) -> (r: String)
    ensures
        r@ == join(strs(parts@), sep@),
{
    let mut out = String::new();
    let mut j: usize = 0;
    while j < parts.len()
        invariant
            j <= parts.len(),
            out@ == join(strs(parts@).take(j as int), sep@),
        decreases parts.len() - j,
    {
        proof {
            let t = strs(parts@).take(j as int + 1);
            assert(t.drop_last() =~= strs(parts@).take(j as int));
        }
        if j > 0 {
            out.append(sep);
        }
        out.append(parts[j].as_str());
        proof {
            let t = strs(parts@).take(j as int + 1);
            if j == 0 {
                assert(out@ =~= t[0]);
            }
        }
        j = j + 1;
    }
    assert(strs(parts@).take(j as int) =~= strs(parts@));
    out
}

/// ASCII lower case of `s`.
pub fn lowercase(s: &str) -> (r: String)
    ensures
        r@ == lower(s@),
{
    let cs = chars_of(s);
    let mut out = String::new();
    let mut i: usize = 0;
    while i < cs.len()
        invariant
            i <= cs.len(),
            cs@ == s@,
            out@ == lower(s@.take(i as int)),
        decreases cs.len() - i,
    {
        let c = cs[i];
        let l = if 'A' <= c && c <= 'Z' { ((c as u8) + 32) as char } else { c };
        push_char(&mut out, l);
        assert(lower(s@.take(i as int + 1)) =~= lower(s@.take(i as int)).push(lower_char(c)));
        i = i + 1;
    }
    assert(s@.take(i as int) =~= s@);
    out
}

/// Whether `s` begins with `p`.
pub fn has_prefix(s: &Vec<char>, p: &str) -> (r: bool)
    ensures
        r == starts_with(s@, p@),
{
    let pc = chars_of(p);
    if pc.len() > s.len() {
        return false;
    }
    let mut i: usize = 0;
    while i < pc.len()
        invariant
            i <= pc.len() <= s.len(),
            pc@ == p@,
            s@.subrange(0, i as int) == pc@.take(i as int),
        decreases pc.len() - i,
    {
        if s[i] != pc[i] {
            assert(s@.subrange(0, pc.len() as int)[i as int] != pc@[i as int]);
            return false;
        }
        assert(s@.subrange(0, i as int + 1) =~= pc@.take(i as int + 1));
        i = i + 1;
    }
    assert(pc@.take(i as int) =~= pc@);
    true
}

/// Whether `p` occurs in `s` starting at `i`.
pub fn occurs_at(s: &Vec<char>, p: &Vec<char>, i: usize) -> (r: bool)
    ensures
        r == contains_at(s@, p@, i as int),
{
    if p.len() > s.len() || i > s.len() - p.len() {
        return false;
    }
    let mut k: usize = 0;
    while k < p.len()
        invariant
            k <= p.len(),
            i + p.len() <= s.len(),
            s@.subrange(i as int, i + k) == p@.take(k as int),
        decreases p.len() - k,
    {
        if s[i + k] != p[k] {
            assert(s@.subrange(i as int, i + p.len())[k as int] != p@[k as int]);
            return false;
        }
        assert(s@.subrange(i as int, i + k + 1) =~= p@.take(k as int + 1));
        k = k + 1;
    }
    assert(p@.take(k as int) =~= p@);
    true
}

/// Whether `p` occurs anywhere in `s`.
pub fn has_infix(s: &Vec<char>, p: &str) -> (r: bool)
    ensures
        r == contains(s@, p@),
{
    let pc = chars_of(p);
    if pc.len() > s.len() {
        return false;
    }
    if pc.len() == 0 {
        assert(s@.subrange(0, 0) =~= p@);
        assert(contains_at(s@, p@, 0));
        return true;
    }
    let mut i: usize = 0;
    while i <= s.len() - pc.len()
        invariant
            pc@ == p@,
            0 < pc.len() <= s.len(),
            i <= s.len() - pc.len() + 1,
            forall|j: int| 0 <= j < i ==> !contains_at(s@, p@, j),
        decreases s.len() - pc.len() + 1 - i,
    {
        if occurs_at(s, &pc, i) {
            return true;
        }
        i = i + 1;
    }
    false
}

/// `s` without leading and trailing whitespace.
pub fn trimmed(s: &Vec<char>) -> (r: Vec<char>)
    ensures
        r@ == trim(s@),
{
    let mut a: usize = 0;
    while a < s.len() && is_space(s[a])
        invariant
            a <= s.len(),
            trim_start_at(s@, 0) == trim_start_at(s@, a as int),
        decreases s.len() - a,
    {
        a = a + 1;
    }
    let mut b: usize = s.len();
    while b > 0 && is_space(s[b - 1])
        invariant
            b <= s.len(),
            trim_end_at(s@, s.len() as int) == trim_end_at(s@, b as int),
        decreases b,
    {
        b = b - 1;
    }
    let mut out: Vec<char> = Vec::new();
    if a < b {
        let mut k: usize = a;
        while k < b
            invariant
                a <= k <= b <= s.len(),
                out@ == s@.subrange(a as int, k as int),
            decreases b - k,
        {
            out.push(s[k]);
            assert(out@ =~= s@.subrange(a as int, k as int + 1));
            k = k + 1;
        }
    } else {
        assert(out@ =~= Seq::<char>::empty());
    }
    out
}

/// The string holding the characters of `v`.
pub fn string_of(v: &Vec<char>) -> (r: String)
    ensures
        r@ == v@,
{
    let mut out = String::new();
    let mut k: usize = 0;
    while k < v.len()
        invariant
            k <= v.len(),
            out@ == v@.take(k as int),
        decreases v.len() - k,
    {
        push_char(&mut out, v[k]);
        assert(v@.take(k as int + 1) =~= v@.take(k as int).push(v[k as int]));
        k = k + 1;
    }
    assert(v@.take(k as int) =~= v@);
    out
}

pub(crate) fn slice(v: &Vec<char>, a: usize, b: usize) -> (r: Vec<char>)
    requires
        a <= b <= v@.len(),
    ensures
        r@ == v@.subrange(a as int, b as int),
{
    let mut out: Vec<char> = Vec::new();
    let mut k: usize = a;
    while k < b
        invariant
            a <= k <= b <= v@.len(),
            out@ == v@.subrange(a as int, k as int),
        decreases b - k,
    {
        out.push(v[k]);
        assert(out@ =~= v@.subrange(a as int, k as int + 1));
        k = k + 1;
    }
    out
}

} // verus!
