//! Code generation: every node of the tree becomes a call-style expression.
//!
//! A node `<tag>` with children `c1 .. cn` becomes `_jsx(TAG, {PROPS, children: c1})`
//! for one child and `_jsxs(TAG, {PROPS, children: [c1, .., cn]})` for more.
//! Built-in tags are looked up in the `_components` mapping; a tag whose name
//! was bound by an import is referenced directly.
use vstd::prelude::*;
use crate::error::{ErrorKind, MdxError};
use crate::text::{
    decimal, decimal_string, join, join_strings, json_quoted, lower, lowercase,
    quote_json, string_from, strs,
};
use crate::tree::{Attribute, Document, Node, NodeKind};

verus! {

/// What code generation has accumulated so far.
pub struct GenState {
    /// The next list-item / table-row key.
    pub key: nat,
    /// Image URLs, in the order met.
    pub images: Seq<Seq<char>>,
    /// Whether a fragment element has been emitted.
    pub frag: bool,
}

/// Outcome of emitting one node.
pub struct Gen {
    pub ok: bool,
    pub expr: Option<Seq<char>>,
    pub st: GenState,
}

/// Outcome of emitting a prefix of a node's children.
pub struct Kids {
    pub ok: bool,
    pub exprs: Seq<Seq<char>>,
    pub st: GenState,
}

/// Mutable state of one code generation run.
pub struct CodegenContext {
    /// Names bound by the document's import statements.
    pub imported_components: Vec<String>,
    pub next_key: u64,
    pub images: Vec<String>,
    pub uses_fragment: bool,
}

impl CodegenContext {
    pub open spec fn names(&self) -> Seq<Seq<char>> {
        strs(self.imported_components@)
    }

    pub open spec fn state(&self) -> GenState {
        GenState { key: self.next_key as nat, images: strs(self.images@), frag: self.uses_fragment }
    }

    /// A fresh context: no names, key 0, no images.
    pub fn new() -> (r: CodegenContext)
        ensures
            r.names().len() == 0,
            r.state() == (GenState { key: 0, images: Seq::empty(), frag: false }),
    {
        let r = CodegenContext {
            imported_components: Vec::new(),
            next_key: 0,
            images: Vec::new(),
            uses_fragment: false,
        };
        assert(r.state().images =~= Seq::<Seq<char>>::empty());
        r
    }
}

pub open spec fn opt_view(o: Option<String>) -> Option<Seq<char>> {
    match o {
        Some(s) => Some(s@),
        None => None,
    }
}

pub open spec fn comp(tag: Seq<char>) -> Seq<char> {
    "_components."@ + tag
}

pub open spec fn with_sep(props: Seq<char>) -> Seq<char> {
    if props.len() == 0 { props } else { props + ", "@ }
}

/// The call that builds element `tag` with `props` and children `kids`.
pub open spec fn call(tag: Seq<char>, props: Seq<char>, kids: Seq<Seq<char>>) -> Seq<char> {
    if kids.len() == 0 {
        "_jsx("@ + tag + ", {"@ + props + "})"@
    } else if kids.len() == 1 {
        "_jsx("@ + tag + ", {"@ + with_sep(props) + "children: "@ + kids[0] + "})"@
    } else {
        "_jsxs("@ + tag + ", {"@ + with_sep(props) + "children: ["@ + join(kids, ", "@) + "]})"@
    }
}

pub open spec fn heading_tag(depth: u8) -> Seq<char> {
    "h"@ + decimal(depth as nat)
}

pub open spec fn key_prop(prefix: Seq<char>, key: nat) -> Seq<char> {
    "key: \""@ + prefix + decimal(key) + "\""@
}

pub open spec fn id_prop(id: Option<String>) -> Seq<char> {
    match id {
        Some(s) => "id: "@ + json_quoted(s@),
        None => Seq::empty(),
    }
}

pub open spec fn lang_prop(lang: Option<String>) -> Seq<char> {
    match lang {
        Some(l) => "className: "@ + json_quoted("language-"@ + l@),
        None => Seq::empty(),
    }
}

pub open spec fn image_props(url: Seq<char>, alt: Seq<char>, lazy: bool) -> Seq<char> {
    "src: "@ + json_quoted(url) + ", alt: "@ + json_quoted(alt)
        + if lazy { ", loading: \"lazy\""@ } else { Seq::empty() }
}

/// How a component tag is referenced: directly when imported, the fragment
/// for the empty name, else through the mapping with the lower-case name as
/// fallback.
pub open spec fn element_tag(name: Seq<char>, names: Seq<Seq<char>>) -> Seq<char> {
    if name.len() == 0 {
        "_Fragment"@
    } else if names.contains(name) {
        name
    } else {
        "(_components["@ + json_quoted(lower(name)) + "] || "@ + json_quoted(lower(name)) + ")"@
    }
}

/// One attribute as an object property: quoted name, then the quoted value or `true`.
pub open spec fn attr_prop(a: Attribute) -> Seq<char> {
    json_quoted(a.name@) + ": "@ + match a.value {
        Some(v) => json_quoted(v@),
        None => "true"@,
    }
}

/// The attributes as object properties, in order.
pub open spec fn attr_props(attrs: Seq<Attribute>) -> Seq<char> {
    join(attrs.map_values(|a: Attribute| attr_prop(a)), ", "@)
}

/// The back-reference link that ends a footnote definition.
pub open spec fn backref(label: Seq<char>) -> Seq<char> {
    call(comp("a"@), "href: "@ + json_quoted("#fnref-"@ + label), seq![json_quoted("\u{21a9}"@)])
}

/// The disabled checkbox that opens a task-list item.
pub open spec fn task_box(checked: bool) -> Seq<char> {
    call(
        comp("input"@),
        "type: \"checkbox\", checked: "@ + (if checked { "true"@ } else { "false"@ }) + ", disabled: true"@,
        Seq::empty(),
    )
}

/// Table rows: the first goes in a header section, the rest in a body section.
pub open spec fn table_sections(rows: Seq<Seq<char>>) -> Seq<Seq<char>> {
    if rows.len() == 0 {
        rows
    } else if rows.len() == 1 {
        seq![call(comp("thead"@), Seq::empty(), rows)]
    } else {
        seq![
            call(comp("thead"@), Seq::empty(), seq![rows[0]]),
            call(comp("tbody"@), Seq::empty(), rows.drop_first()),
        ]
    }
}

/// The expression for a node of `kind` whose children gave `kids`.
pub open spec fn render(
    kind: NodeKind,
    hdr: bool,
    key: nat,
    kids: Seq<Seq<char>>,
    names: Seq<Seq<char>>,
) -> Option<Seq<char>> {
    match kind {
        NodeKind::Root => None,
        NodeKind::Heading { depth, id } => Some(call(comp(heading_tag(depth)), id_prop(id), kids)),
        NodeKind::Paragraph => Some(call(comp("p"@), Seq::empty(), kids)),
        NodeKind::Text { value } => Some(json_quoted(value@)),
        NodeKind::Emphasis => Some(call(comp("em"@), Seq::empty(), kids)),
        NodeKind::Strong => Some(call(comp("strong"@), Seq::empty(), kids)),
        NodeKind::Delete => Some(call(comp("del"@), Seq::empty(), kids)),
        NodeKind::Blockquote => Some(call(comp("blockquote"@), Seq::empty(), kids)),
        NodeKind::List { ordered } => Some(
            call(comp(if ordered { "ol"@ } else { "ul"@ }), Seq::empty(), kids),
        ),
        NodeKind::ListItem { checked } => Some(match checked {
            None => call(comp("li"@), key_prop("li-"@, key), kids),
            Some(b) => call(
                comp("li"@),
                key_prop("li-"@, key) + ", className: \"task-list-item\""@,
                seq![task_box(b)] + kids,
            ),
        }),
        NodeKind::Table => Some(call(comp("table"@), Seq::empty(), table_sections(kids))),
        NodeKind::TableRow => Some(call(comp("tr"@), key_prop("tr-"@, key), kids)),
        NodeKind::TableCell => Some(call(comp(if hdr { "th"@ } else { "td"@ }), Seq::empty(), kids)),
        NodeKind::Code { lang, value } => Some(
            call(
                comp("pre"@),
                Seq::empty(),
                seq![call(comp("code"@), lang_prop(lang), seq![json_quoted(value@)])],
            ),
        ),
        NodeKind::InlineCode { value } => Some(
            call(comp("code"@), Seq::empty(), seq![json_quoted(value@)]),
        ),
        NodeKind::Link { url } => Some(call(comp("a"@), "href: "@ + json_quoted(url@), kids)),
        NodeKind::Image { url, alt, lazy } => Some(
            call(comp("img"@), image_props(url@, alt@, lazy), Seq::empty()),
        ),
        NodeKind::FootnoteReference { label } => Some(
            call(
                comp("sup"@),
                Seq::empty(),
                seq![
                    call(
                        comp("a"@),
                        "href: "@ + json_quoted("#fn-"@ + label@) + ", id: "@ + json_quoted(
                            "fnref-"@ + label@,
                        ),
                        seq![json_quoted(label@)],
                    ),
                ],
            ),
        ),
        NodeKind::FootnoteDefinition { label } => Some(
            call(comp("div"@), "id: "@ + json_quoted("fn-"@ + label@), kids.push(backref(label@))),
        ),
        NodeKind::InlineMath { value } => Some(
            call(comp("span"@), "className: \"math math-inline\""@, seq![json_quoted(value@)]),
        ),
        NodeKind::Math { value } => Some(
            call(comp("div"@), "className: \"math math-display\""@, seq![json_quoted(value@)]),
        ),
        NodeKind::Element { name, attrs } => Some(call(element_tag(name@, names), attr_props(attrs@), kids)),
        NodeKind::Html { value } => Some(json_quoted(value@)),
        NodeKind::Esm { .. } => None,
        NodeKind::Yaml { .. } => None,
        NodeKind::Toml { .. } => None,
        NodeKind::ThematicBreak => Some(call(comp("hr"@), Seq::empty(), Seq::empty())),
        NodeKind::Break => Some(call(comp("br"@), Seq::empty(), Seq::empty())),
    }
}

/// Kinds that never have children.
pub open spec fn is_leaf(kind: NodeKind) -> bool {
    kind is Text || kind is Code || kind is InlineCode || kind is Image
        || kind is FootnoteReference || kind is InlineMath || kind is Math || kind is Html
        || kind is Esm || kind is Yaml || kind is Toml || kind is ThematicBreak || kind is Break
}

/// The node itself has a shape that can be emitted.
pub open spec fn shape_ok(n: Node) -> bool {
    &&& !(n.kind is Root)
    &&& is_leaf(n.kind) ==> n.children@.len() == 0
    &&& n.kind is Heading ==> 1 <= n.kind->Heading_depth <= 6
}

/// A node of kind `child` may stand under a node of kind `parent`.
pub open spec fn kid_ok(parent: NodeKind, child: NodeKind) -> bool {
    &&& parent is Table <==> child is TableRow
    &&& parent is TableRow <==> child is TableCell
}

/// Whether child `j` of a node of kind `parent` sits in a header row.
pub open spec fn kid_hdr(parent: NodeKind, hdr: bool, j: int) -> bool {
    if parent is Table {
        j == 0
    } else if parent is TableRow {
        hdr
    } else {
        false
    }
}

/// Whether entering a node of `kind` takes a key.
pub open spec fn keyed(kind: NodeKind) -> bool {
    kind is ListItem || kind is TableRow
}

/// The state after entering a node of `kind`, before its children.
pub open spec fn enter(kind: NodeKind, st: GenState) -> GenState {
    match kind {
        NodeKind::ListItem { .. } => GenState { key: st.key + 1, ..st },
        NodeKind::TableRow => GenState { key: st.key + 1, ..st },
        NodeKind::Image { url, .. } => GenState { images: st.images.push(url@), ..st },
        NodeKind::Element { name, .. } => GenState { frag: st.frag || name@.len() == 0, ..st },
        _ => st,
    }
}

pub open spec fn failed(st: GenState) -> Gen {
    Gen { ok: false, expr: None, st }
}

/// Emission of node `i` in header position `hdr`, starting from state `st`.
pub open spec fn emit(
    nodes: Seq<Node>,
    names: Seq<Seq<char>>,
    i: int,
    hdr: bool,
    st: GenState,
) -> Gen
    decreases nodes.len() - i, nodes[i].children@.len() + 1,
{
    if i < 0 || i >= nodes.len() {
        failed(st)
    } else if !shape_ok(nodes[i]) || (keyed(nodes[i].kind) && st.key >= u64::MAX) {
        failed(st)
    } else {
        let ks = kids(nodes, names, i, hdr, nodes[i].children@.len() as int, enter(nodes[i].kind, st));
        if !ks.ok {
            failed(ks.st)
        } else {
            Gen { ok: true, expr: render(nodes[i].kind, hdr, st.key, ks.exprs, names), st: ks.st }
        }
    }
}

/// Emission of the first `j` children of node `i`, starting from state `st`.
pub open spec fn kids(
    nodes: Seq<Node>,
    names: Seq<Seq<char>>,
    i: int,
    hdr: bool,
    j: int,
    st: GenState,
) -> Kids
    decreases nodes.len() - i, j,
{
    if i < 0 || i >= nodes.len() || j <= 0 || j > nodes[i].children@.len() {
        Kids { ok: j == 0, exprs: Seq::empty(), st }
    } else {
        let prev = kids(nodes, names, i, hdr, j - 1, st);
        let c = nodes[i].children@[j - 1] as int;
        if !prev.ok {
            prev
        } else if !(i < c < nodes.len()) || !kid_ok(nodes[i].kind, nodes[c].kind) {
            Kids { ok: false, ..prev }
        } else {
            let g = emit(nodes, names, c, kid_hdr(nodes[i].kind, hdr, j - 1), prev.st);
            Kids {
                ok: g.ok,
                exprs: match g.expr {
                    Some(e) => prev.exprs.push(e),
                    None => prev.exprs,
                },
                st: g.st,
            }
        }
    }
}


fn cat(a: &str, b: &str) -> (r: String)
    ensures
        r@ == a@ + b@,
{
    let mut s = string_from(a);
    s.append(b);
    s
}

fn comp_of(tag: &str) -> (r: String)
    ensures
        r@ == comp(tag@),
{
    cat("_components.", tag)
}

/// The call that builds element `tag` with `props` and children `kids`.
pub fn call_expr(tag: &str, props: &str, kids: &Vec<String>) -> (r: String)
    ensures
        r@ == call(tag@, props@, strs(kids@)),
{
    let n = kids.len();
    let mut out = if n <= 1 { string_from("_jsx(") } else { string_from("_jsxs(") };
    out.append(tag);
    out.append(", {");
    if n == 0 {
        out.append(props);
        out.append("})");
        assert(out@ =~= call(tag@, props@, strs(kids@)));
        return out;
    }
    if !props.is_empty() {
        out.append(props);
        out.append(", ");
    }
    if n == 1 {
        out.append("children: ");
        out.append(kids[0].as_str());
        out.append("})");
    } else {
        out.append("children: [");
        let joined = join_strings(kids, ", ");
        out.append(joined.as_str());
        out.append("]})");
    }
    assert(out@ =~= call(tag@, props@, strs(kids@)));
    out
}

fn one(s: String) -> (r: Vec<String>)
    ensures
        strs(r@) == seq![s@],
        r@.len() == 1,
        r@[0]@ == s@,
{
    let mut v: Vec<String> = Vec::new();
    v.push(s);
    assert(strs(v@) =~= seq![s@]);
    v
}

fn key_prop_of(prefix: &str, key: u64) -> (r: String)
    ensures
        r@ == key_prop(prefix@, key as nat),
{
    let mut s = string_from("key: \"");
    s.append(prefix);
    let d = decimal_string(key);
    s.append(d.as_str());
    s.append("\"");
    s
}

/// `lead` followed by the JSON literal of `a` + `b`.
fn quoted_prop(lead: &str, a: &str, b: &str) -> (r: String)
    ensures
        r@ == lead@ + json_quoted(a@ + b@),
{
    let v = cat(a, b);
    let q = quote_json(v.as_str());
    cat(lead, q.as_str())
}

fn table_sections_of(rows: Vec<String>) -> (r: Vec<String>)
    ensures
        strs(r@) == table_sections(strs(rows@)),
{
    let n = rows.len();
    if n == 0 {
        return rows;
    }
    let empty = String::new();
    if n == 1 {
        let head = call_expr(comp_of("thead").as_str(), empty.as_str(), &rows);
        return one(head);
    }
    let mut rest = rows;
    let first = rest.remove(0);
    assert(strs(rest@) =~= strs(rows@).drop_first());
    let first_v = one(first);
    let head = call_expr(comp_of("thead").as_str(), empty.as_str(), &first_v);
    let body = call_expr(comp_of("tbody").as_str(), empty.as_str(), &rest);
    let mut out = one(head);
    let ghost o1 = out@;
    out.push(body);
    assert(out@[0] == o1[0]);
    assert(strs(first_v@) =~= seq![strs(rows@)[0]]);
    assert(strs(out@)[0] == head@);
    assert(strs(out@)[1] == body@);
    assert(strs(out@) =~= table_sections(strs(rows@)));
    out
}

/// Whether `name` is one of `names`.
pub fn is_imported(names: &Vec<String>, name: &String) -> (r: bool)
    ensures
        r == strs(names@).contains(name@),
{
    let mut k: usize = 0;
    while k < names.len()
        invariant
            k <= names.len(),
            forall|m: int| 0 <= m < k ==> names@[m]@ != name@,
        decreases names.len() - k,
    {
        if names[k] == *name {
            assert(strs(names@)[k as int] == name@);
            return true;
        }
        k = k + 1;
    }
    assert forall|m: int| 0 <= m < strs(names@).len() implies strs(names@)[m] != name@ by {
        assert(names@[m]@ != name@);
    }
    false
}

fn element_tag_of(name: &String, names: &Vec<String>) -> (r: String)
    ensures
        r@ == element_tag(name@, strs(names@)),
{
    if name.as_str().is_empty() {
        return string_from("_Fragment");
    }
    if is_imported(names, name) {
        return name.clone();
    }
    let low = lowercase(name.as_str());
    let q = quote_json(low.as_str());
    let mut s = string_from("(_components[");
    s.append(q.as_str());
    s.append("] || ");
    s.append(q.as_str());
    s.append(")");
    s
}

fn attrs_text(attrs: &Vec<Attribute>) -> (r: String)
    ensures
        r@ == attr_props(attrs@),
{
    let ghost all = attrs@.map_values(|a: Attribute| attr_prop(a));
    let mut parts: Vec<String> = Vec::new();
    let mut k: usize = 0;
    assert(strs(parts@) =~= all.take(0));
    while k < attrs.len()
        invariant
            k <= attrs@.len(),
            all == attrs@.map_values(|a: Attribute| attr_prop(a)),
            strs(parts@) == all.take(k as int),
        decreases attrs.len() - k,
    {
        let a = &attrs[k];
        let mut t = quote_json(a.name.as_str());
        t.append(": ");
        match &a.value {
            Some(v) => {
                let q = quote_json(v.as_str());
                t.append(q.as_str());
            },
            None => {
                t.append("true");
            },
        }
        let ghost before = strs(parts@);
        parts.push(t);
        assert(strs(parts@) =~= before.push(all[k as int]));
        assert(strs(parts@) =~= all.take(k as int + 1));
        k = k + 1;
    }
    assert(all.take(k as int) =~= all);
    join_strings(&parts, ", ")
}

/// The expression for a node of `kind` whose children gave `kids`.
pub fn render_node(kind: &NodeKind, hdr: bool, key: u64, kids: Vec<String>, names: &Vec<String>) -> (r: Option<String>)
    ensures
        opt_view(r) == render(*kind, hdr, key as nat, strs(kids@), strs(names@)),
{
    let none = String::new();
    match kind {
        NodeKind::Root => None,
        NodeKind::Heading { depth, id } => {
            let d = decimal_string(*depth as u64);
            let h = cat("h", d.as_str());
            let tag = comp_of(h.as_str());
            let props = match id {
                Some(v) => {
                    let q = quote_json(v.as_str());
                    cat("id: ", q.as_str())
                },
                None => String::new(),
            };
            assert(tag@ == comp(heading_tag(*depth)));
            Some(call_expr(tag.as_str(), props.as_str(), &kids))
        },
        NodeKind::Paragraph => Some(call_expr(comp_of("p").as_str(), none.as_str(), &kids)),
        NodeKind::Text { value } => Some(quote_json(value.as_str())),
        NodeKind::Emphasis => Some(call_expr(comp_of("em").as_str(), none.as_str(), &kids)),
        NodeKind::Strong => Some(call_expr(comp_of("strong").as_str(), none.as_str(), &kids)),
        NodeKind::Delete => Some(call_expr(comp_of("del").as_str(), none.as_str(), &kids)),
        NodeKind::Blockquote => Some(call_expr(comp_of("blockquote").as_str(), none.as_str(), &kids)),
        NodeKind::List { ordered } => {
            let tag = if *ordered { comp_of("ol") } else { comp_of("ul") };
            Some(call_expr(tag.as_str(), none.as_str(), &kids))
        },
        NodeKind::ListItem { checked } => {
            let mut p = key_prop_of("li-", key);
            match checked {
                None => Some(call_expr(comp_of("li").as_str(), p.as_str(), &kids)),
                Some(b) => {
                    p.append(", className: \"task-list-item\"");
                    let mut bp = string_from("type: \"checkbox\", checked: ");
                    if *b {
                        bp.append("true");
                    } else {
                        bp.append("false");
                    }
                    bp.append(", disabled: true");
                    let no_kids: Vec<String> = Vec::new();
                    assert(strs(no_kids@) =~= Seq::<Seq<char>>::empty());
                    let input = call_expr(comp_of("input").as_str(), bp.as_str(), &no_kids);
                    let mut all = one(input);
                    let mut rest = kids;
                    let ghost k0 = strs(rest@);
                    all.append(&mut rest);
                    assert(strs(all@) =~= seq![task_box(*b)] + k0);
                    Some(call_expr(comp_of("li").as_str(), p.as_str(), &all))
                },
            }
        },
        NodeKind::Table => {
            let secs = table_sections_of(kids);
            Some(call_expr(comp_of("table").as_str(), none.as_str(), &secs))
        },
        NodeKind::TableRow => {
            let p = key_prop_of("tr-", key);
            Some(call_expr(comp_of("tr").as_str(), p.as_str(), &kids))
        },
        NodeKind::TableCell => {
            let tag = if hdr { comp_of("th") } else { comp_of("td") };
            Some(call_expr(tag.as_str(), none.as_str(), &kids))
        },
        NodeKind::Code { lang, value } => {
            let props = match lang {
                Some(l) => quoted_prop("className: ", "language-", l.as_str()),
                None => String::new(),
            };
            let inner = one(quote_json(value.as_str()));
            let code = call_expr(comp_of("code").as_str(), props.as_str(), &inner);
            let wrapped = one(code);
            Some(call_expr(comp_of("pre").as_str(), none.as_str(), &wrapped))
        },
        NodeKind::InlineCode { value } => {
            let inner = one(quote_json(value.as_str()));
            Some(call_expr(comp_of("code").as_str(), none.as_str(), &inner))
        },
        NodeKind::Link { url } => {
            let q = quote_json(url.as_str());
            let p = cat("href: ", q.as_str());
            Some(call_expr(comp_of("a").as_str(), p.as_str(), &kids))
        },
        NodeKind::Image { url, alt, lazy } => {
            let mut p = cat("src: ", quote_json(url.as_str()).as_str());
            p.append(", alt: ");
            let qa = quote_json(alt.as_str());
            p.append(qa.as_str());
            if *lazy {
                p.append(", loading: \"lazy\"");
            }
            let no_kids: Vec<String> = Vec::new();
            assert(strs(no_kids@) =~= Seq::<Seq<char>>::empty());
            Some(call_expr(comp_of("img").as_str(), p.as_str(), &no_kids))
        },
        NodeKind::FootnoteReference { label } => {
            let mut p = quoted_prop("href: ", "#fn-", label.as_str());
            let id = quoted_prop(", id: ", "fnref-", label.as_str());
            p.append(id.as_str());
            let inner = one(quote_json(label.as_str()));
            let a = call_expr(comp_of("a").as_str(), p.as_str(), &inner);
            let wrapped = one(a);
            Some(call_expr(comp_of("sup").as_str(), none.as_str(), &wrapped))
        },
        NodeKind::FootnoteDefinition { label } => {
            let bp = quoted_prop("href: ", "#fnref-", label.as_str());
            let arrow = one(quote_json("\u{21a9}"));
            let back = call_expr(comp_of("a").as_str(), bp.as_str(), &arrow);
            let mut all = kids;
            all.push(back);
            assert(strs(all@) =~= strs(kids@).push(backref(label@)));
            let p = quoted_prop("id: ", "fn-", label.as_str());
            Some(call_expr(comp_of("div").as_str(), p.as_str(), &all))
        },
        NodeKind::InlineMath { value } => {
            let inner = one(quote_json(value.as_str()));
            Some(call_expr(comp_of("span").as_str(), "className: \"math math-inline\"", &inner))
        },
        NodeKind::Math { value } => {
            let inner = one(quote_json(value.as_str()));
            Some(call_expr(comp_of("div").as_str(), "className: \"math math-display\"", &inner))
        },
        NodeKind::Element { name, attrs } => {
            let tag = element_tag_of(name, names);
            let props = attrs_text(attrs);
            Some(call_expr(tag.as_str(), props.as_str(), &kids))
        },
        NodeKind::Html { value } => Some(quote_json(value.as_str())),
        NodeKind::Esm { .. } => None,
        NodeKind::Yaml { .. } => None,
        NodeKind::Toml { .. } => None,
        NodeKind::ThematicBreak => {
            let no_kids: Vec<String> = Vec::new();
            assert(strs(no_kids@) =~= Seq::<Seq<char>>::empty());
            Some(call_expr(comp_of("hr").as_str(), none.as_str(), &no_kids))
        },
        NodeKind::Break => {
            let no_kids: Vec<String> = Vec::new();
            assert(strs(no_kids@) =~= Seq::<Seq<char>>::empty());
            Some(call_expr(comp_of("br").as_str(), none.as_str(), &no_kids))
        },
    }
}


/// Once a prefix of the children fails, every longer prefix fails.
proof fn lemma_kids_fail_stays(
    nodes: Seq<Node>,
    names: Seq<Seq<char>>,
    i: int,
    hdr: bool,
    j: int,
    n: int,
    st: GenState,
)
    requires
        0 <= i < nodes.len(),
        0 <= j <= n <= nodes[i].children@.len(),
        !kids(nodes, names, i, hdr, j, st).ok,
    ensures
        !kids(nodes, names, i, hdr, n, st).ok,
    decreases n - j,
{
    if j < n {
        lemma_kids_fail_stays(nodes, names, i, hdr, j, n - 1, st);
    }
}

fn invariant_error(msg: &str) -> (r: MdxError)
    ensures
        r.kind == ErrorKind::CodegenInvariant,
{
    MdxError::new(ErrorKind::CodegenInvariant, string_from(msg))
}

fn is_leaf_kind(kind: &NodeKind) -> (r: bool)
    ensures
        r == is_leaf(*kind),
{
    matches!(kind, NodeKind::Text { .. } | NodeKind::Code { .. } | NodeKind::InlineCode { .. }
        | NodeKind::Image { .. } | NodeKind::FootnoteReference { .. } | NodeKind::InlineMath { .. }
        | NodeKind::Math { .. } | NodeKind::Html { .. } | NodeKind::Esm { .. } | NodeKind::Yaml { .. }
        | NodeKind::Toml { .. } | NodeKind::ThematicBreak | NodeKind::Break)
}

/// Whether a node of kind `child` may stand under one of kind `parent`.
pub fn kid_fits(parent: &NodeKind, child: &NodeKind) -> (r: bool)
    ensures
        r == kid_ok(*parent, *child),
{
    let pt = matches!(parent, NodeKind::Table);
    let pr = matches!(parent, NodeKind::TableRow);
    let cr = matches!(child, NodeKind::TableRow);
    let cc = matches!(child, NodeKind::TableCell);
    pt == cr && pr == cc
}

/// Converts node `i` into an expression, or into nothing for nodes that emit
/// none. Fails on a shape that cannot be emitted.
pub fn node_to_code(doc: &Document, i: usize, in_header: bool, ctx: &mut CodegenContext) -> (r: Result<Option<String>, MdxError>)
    ensures
        final(ctx).names() == old(ctx).names(),
        ({
            let g = emit(doc.nodes@, old(ctx).names(), i as int, in_header, old(ctx).state());
            &&& (r is Ok <==> g.ok)
            &&& r is Ok ==> opt_view(r->Ok_0) == g.expr && final(ctx).state() == g.st
        }),
        r is Err ==> r->Err_0.kind == ErrorKind::CodegenInvariant,
    decreases doc.nodes@.len() - i, doc.nodes@[i as int].children@.len() + 1,
{
    if i >= doc.nodes.len() {
        return Err(invariant_error("node index out of range"));
    }
    let node = &doc.nodes[i];
    if matches!(node.kind, NodeKind::Root) {
        return Err(invariant_error("a root node below the top level"));
    }
    if is_leaf_kind(&node.kind) && node.children.len() > 0 {
        return Err(invariant_error("a leaf node with children"));
    }
    if let NodeKind::Heading { depth, .. } = &node.kind {
        if *depth < 1 || *depth > 6 {
            return Err(invariant_error("heading depth outside 1 to 6"));
        }
    }
    let key = ctx.next_key;
    let keyed_node = matches!(node.kind, NodeKind::ListItem { .. } | NodeKind::TableRow);
    if keyed_node && key == u64::MAX {
        return Err(invariant_error("out of keys"));
    }
    let ghost st0 = ctx.state();
    match &node.kind {
        NodeKind::ListItem { .. } | NodeKind::TableRow => {
            ctx.next_key = key + 1;
        },
        NodeKind::Image { url, .. } => {
            ctx.images.push(url.clone());
            assert(strs(ctx.images@) =~= st0.images.push(url@));
        },
        NodeKind::Element { name, .. } => {
            if name.as_str().is_empty() {
                ctx.uses_fragment = true;
            }
        },
        _ => {},
    }
    assert(ctx.state() == enter(node.kind, st0));
    let kid_exprs = children_to_code(doc, i, in_header, ctx)?;
    Ok(render_node(&node.kind, in_header, key, kid_exprs, &ctx.imported_components))
}

/// Converts the children of node `i`, in order, dropping those that emit nothing.
pub fn children_to_code(doc: &Document, i: usize, in_header: bool, ctx: &mut CodegenContext) -> (r: Result<Vec<String>, MdxError>)
    requires
        i < doc.nodes@.len(),
    ensures
        final(ctx).names() == old(ctx).names(),
        ({
            let ks = kids(doc.nodes@, old(ctx).names(), i as int, in_header,
                doc.nodes@[i as int].children@.len() as int, old(ctx).state());
            &&& (r is Ok <==> ks.ok)
            &&& r is Ok ==> strs(r->Ok_0@) == ks.exprs && final(ctx).state() == ks.st
        }),
        r is Err ==> r->Err_0.kind == ErrorKind::CodegenInvariant,
    decreases doc.nodes@.len() - i, doc.nodes@[i as int].children@.len(),
{
    let node = &doc.nodes[i];
    let n = node.children.len();
    let ghost names = ctx.names();
    let ghost st0 = ctx.state();
    let mut out: Vec<String> = Vec::new();
    let mut j: usize = 0;
    assert(strs(out@) =~= Seq::<Seq<char>>::empty());
    while j < n
        invariant
            i < doc.nodes@.len(),
            node == doc.nodes@[i as int],
            n == node.children@.len(),
            j <= n,
            ctx.names() == names,
            names == old(ctx).names(),
            st0 == old(ctx).state(),
            kids(doc.nodes@, names, i as int, in_header, j as int, st0).ok,
            strs(out@) == kids(doc.nodes@, names, i as int, in_header, j as int, st0).exprs,
            ctx.state() == kids(doc.nodes@, names, i as int, in_header, j as int, st0).st,
        decreases n - j,
    {
        let c = node.children[j];
        if c <= i || c >= doc.nodes.len() || !kid_fits(&node.kind, &doc.nodes[c].kind) {
            proof {
                lemma_kids_fail_stays(doc.nodes@, names, i as int, in_header, j as int + 1, n as int, st0);
            }
            return Err(invariant_error("a node that cannot stand under its parent"));
        }
        let hdr = if matches!(node.kind, NodeKind::Table) {
            j == 0
        } else if matches!(node.kind, NodeKind::TableRow) {
            in_header
        } else {
            false
        };
        let res = node_to_code(doc, c, hdr, ctx);
        match res {
            Err(e) => {
                proof {
                    lemma_kids_fail_stays(doc.nodes@, names, i as int, in_header, j as int + 1, n as int, st0);
                }
                return Err(e);
            },
            Ok(Some(e)) => {
                out.push(e);
                assert(strs(out@) =~= kids(doc.nodes@, names, i as int, in_header, j as int, st0).exprs.push(e@));
            },
            Ok(None) => {},
        }
        j = j + 1;
    }
    Ok(out)
}


/// An image adds its URL to the manifest whether or not the URL is there
/// already: repeats are kept, in the order met.
pub proof fn law_image_appends(nodes: Seq<Node>, names: Seq<Seq<char>>, i: int, hdr: bool, st: GenState)
    requires
        0 <= i < nodes.len(),
        nodes[i].kind is Image,
        nodes[i].children@.len() == 0,
    ensures
        emit(nodes, names, i, hdr, st).ok,
        emit(nodes, names, i, hdr, st).st.images == st.images.push(nodes[i].kind->Image_url@),
        emit(nodes, names, i, hdr, st).st.images.len() == st.images.len() + 1,
{
    assert(kids(nodes, names, i, hdr, 0, enter(nodes[i].kind, st)).ok);
}

/// A component tag whose name an import bound is emitted as a direct
/// reference to that name; any other named tag goes through the component
/// mapping with its lower-case name as fallback.
pub proof fn law_component_resolution(nodes: Seq<Node>, names: Seq<Seq<char>>, i: int, hdr: bool, st: GenState)
    requires
        0 <= i < nodes.len(),
        nodes[i].kind is Element,
        nodes[i].kind->Element_name@.len() > 0,
        nodes[i].kind->Element_attrs@.len() == 0,
        nodes[i].children@.len() == 0,
    ensures
        ({
            let name = nodes[i].kind->Element_name@;
            let g = emit(nodes, names, i, hdr, st);
            &&& g.ok
            &&& names.contains(name) ==> g.expr == Some(call(name, Seq::empty(), Seq::empty()))
            &&& !names.contains(name) ==> g.expr == Some(
                call(
                    "(_components["@ + json_quoted(lower(name)) + "] || "@ + json_quoted(lower(name)) + ")"@,
                    Seq::empty(),
                    Seq::empty(),
                ),
            )
        }),
{
    assert(nodes[i].kind->Element_attrs@.map_values(|a: Attribute| attr_prop(a)) =~= Seq::<Seq<char>>::empty());
    assert(kids(nodes, names, i, hdr, 0, enter(nodes[i].kind, st)).ok);
}


/// What code generation's success depends on in a node kind: its variant,
/// and a heading's depth.
pub open spec fn kind_shape(k: NodeKind) -> (int, int) {
    match k {
        NodeKind::Root => (0, 0),
        NodeKind::Heading { depth, .. } => (1, depth as int),
        NodeKind::Paragraph => (2, 0),
        NodeKind::Text { .. } => (3, 0),
        NodeKind::Emphasis => (4, 0),
        NodeKind::Strong => (5, 0),
        NodeKind::Delete => (6, 0),
        NodeKind::Blockquote => (7, 0),
        NodeKind::List { .. } => (8, 0),
        NodeKind::ListItem { .. } => (9, 0),
        NodeKind::Table => (10, 0),
        NodeKind::TableRow => (11, 0),
        NodeKind::TableCell => (12, 0),
        NodeKind::Code { .. } => (13, 0),
        NodeKind::InlineCode { .. } => (14, 0),
        NodeKind::Link { .. } => (15, 0),
        NodeKind::Image { .. } => (16, 0),
        NodeKind::FootnoteReference { .. } => (17, 0),
        NodeKind::FootnoteDefinition { .. } => (18, 0),
        NodeKind::InlineMath { .. } => (19, 0),
        NodeKind::Math { .. } => (20, 0),
        NodeKind::Element { .. } => (21, 0),
        NodeKind::Html { .. } => (22, 0),
        NodeKind::Esm { .. } => (23, 0),
        NodeKind::Yaml { .. } => (24, 0),
        NodeKind::Toml { .. } => (25, 0),
        NodeKind::ThematicBreak => (26, 0),
        NodeKind::Break => (27, 0),
    }
}

/// Two trees with the same children everywhere and kinds of the same shape.
pub open spec fn same_shape(a: Seq<Node>, b: Seq<Node>) -> bool {
    &&& a.len() == b.len()
    &&& forall|k: int|
        0 <= k < a.len() ==> kind_shape((#[trigger] a[k]).kind) == kind_shape(b[k].kind)
            && a[k].children@ == b[k].children@
}

/// Whether emission succeeds, and the key it ends on, depend only on the
/// shape of the tree and the key it starts from.
pub proof fn lemma_emit_shape(
    a: Seq<Node>,
    b: Seq<Node>,
    n1: Seq<Seq<char>>,
    n2: Seq<Seq<char>>,
    i: int,
    hdr: bool,
    s1: GenState,
    s2: GenState,
)
    requires
        same_shape(a, b),
        s1.key == s2.key,
    ensures
        emit(a, n1, i, hdr, s1).ok == emit(b, n2, i, hdr, s2).ok,
        emit(a, n1, i, hdr, s1).ok ==> emit(a, n1, i, hdr, s1).st.key == emit(b, n2, i, hdr, s2).st.key,
    decreases a.len() - i, a[i].children@.len() + 1,
{
    if 0 <= i < a.len() {
        assert(kind_shape(a[i].kind) == kind_shape(b[i].kind));
        assert(a[i].children@ == b[i].children@);
        let e1 = enter(a[i].kind, s1);
        let e2 = enter(b[i].kind, s2);
        assert(e1.key == e2.key);
        lemma_kids_shape(a, b, n1, n2, i, hdr, a[i].children@.len() as int, e1, e2);
    }
}

pub proof fn lemma_kids_shape(
    a: Seq<Node>,
    b: Seq<Node>,
    n1: Seq<Seq<char>>,
    n2: Seq<Seq<char>>,
    i: int,
    hdr: bool,
    j: int,
    s1: GenState,
    s2: GenState,
)
    requires
        same_shape(a, b),
        s1.key == s2.key,
        0 <= i < a.len(),
    ensures
        kids(a, n1, i, hdr, j, s1).ok == kids(b, n2, i, hdr, j, s2).ok,
        kids(a, n1, i, hdr, j, s1).ok ==> kids(a, n1, i, hdr, j, s1).st.key == kids(b, n2, i, hdr, j, s2).st.key,
    decreases a.len() - i, j,
{
    assert(kind_shape(a[i].kind) == kind_shape(b[i].kind));
    assert(a[i].children@ == b[i].children@);
    if 0 < j <= a[i].children@.len() {
        lemma_kids_shape(a, b, n1, n2, i, hdr, j - 1, s1, s2);
        let p1 = kids(a, n1, i, hdr, j - 1, s1);
        let p2 = kids(b, n2, i, hdr, j - 1, s2);
        let c = a[i].children@[j - 1] as int;
        if p1.ok && i < c < a.len() {
            assert(kind_shape(a[c].kind) == kind_shape(b[c].kind));
            lemma_emit_shape(a, b, n1, n2, c, kid_hdr(a[i].kind, hdr, j - 1), p1.st, p2.st);
            assert(kid_hdr(a[i].kind, hdr, j - 1) == kid_hdr(b[i].kind, hdr, j - 1));
        }
    }
}


/// Two node kinds that agree once every string is read as its characters.
pub open spec fn kind_veq(a: NodeKind, b: NodeKind) -> bool {
    match (a, b) {
        (NodeKind::Heading { depth: d1, id: i1 }, NodeKind::Heading { depth: d2, id: i2 }) => d1 == d2
            && opt_view(i1) == opt_view(i2),
        (NodeKind::Text { value: v1 }, NodeKind::Text { value: v2 }) => v1@ == v2@,
        (NodeKind::Code { lang: l1, value: v1 }, NodeKind::Code { lang: l2, value: v2 }) => opt_view(l1)
            == opt_view(l2) && v1@ == v2@,
        (NodeKind::InlineCode { value: v1 }, NodeKind::InlineCode { value: v2 }) => v1@ == v2@,
        (NodeKind::Link { url: u1 }, NodeKind::Link { url: u2 }) => u1@ == u2@,
        (NodeKind::Image { url: u1, alt: a1, lazy: z1 }, NodeKind::Image { url: u2, alt: a2, lazy: z2 }) => u1@
            == u2@ && a1@ == a2@ && z1 == z2,
        (NodeKind::FootnoteReference { label: l1 }, NodeKind::FootnoteReference { label: l2 }) => l1@ == l2@,
        (NodeKind::FootnoteDefinition { label: l1 }, NodeKind::FootnoteDefinition { label: l2 }) => l1@ == l2@,
        (NodeKind::InlineMath { value: v1 }, NodeKind::InlineMath { value: v2 }) => v1@ == v2@,
        (NodeKind::Math { value: v1 }, NodeKind::Math { value: v2 }) => v1@ == v2@,
        (NodeKind::Element { name: n1, attrs: a1 }, NodeKind::Element { name: n2, attrs: a2 }) => n1@ == n2@
            && attr_props(a1@) == attr_props(a2@),
        (NodeKind::Html { value: v1 }, NodeKind::Html { value: v2 }) => v1@ == v2@,
        (NodeKind::Esm { value: v1 }, NodeKind::Esm { value: v2 }) => v1@ == v2@,
        (NodeKind::Yaml { value: v1 }, NodeKind::Yaml { value: v2 }) => v1@ == v2@,
        (NodeKind::Toml { value: v1 }, NodeKind::Toml { value: v2 }) => v1@ == v2@,
        (NodeKind::List { ordered: o1 }, NodeKind::List { ordered: o2 }) => o1 == o2,
        (NodeKind::ListItem { checked: c1 }, NodeKind::ListItem { checked: c2 }) => c1 == c2,
        _ => a == b,
    }
}

/// Two trees that agree once every string is read as its characters.
pub open spec fn nodes_veq(a: Seq<Node>, b: Seq<Node>) -> bool {
    &&& a.len() == b.len()
    &&& forall|k: int|
        0 <= k < a.len() ==> kind_veq((#[trigger] a[k]).kind, b[k].kind) && a[k].children@ == b[k].children@
}

#[verifier::rlimit(100)]
proof fn lemma_kind_veq(a: NodeKind, b: NodeKind, hdr: bool, key: nat, ks: Seq<Seq<char>>, names: Seq<Seq<char>>, st: GenState)
    requires
        kind_veq(a, b),
    ensures
        render(a, hdr, key, ks, names) == render(b, hdr, key, ks, names),
        enter(a, st) == enter(b, st),
        kind_shape(a) == kind_shape(b),
        is_leaf(a) == is_leaf(b),
        keyed(a) == keyed(b),
        forall|c: NodeKind| #[trigger] kid_ok(a, c) == kid_ok(b, c),
        forall|c: NodeKind| #[trigger] kid_ok(c, a) == kid_ok(c, b),
        forall|j: int| #[trigger] kid_hdr(a, hdr, j) == kid_hdr(b, hdr, j),
{
    match a {
        NodeKind::Heading { .. } => {},
        NodeKind::Text { .. } => {},
        NodeKind::Code { .. } => {},
        NodeKind::InlineCode { .. } => {},
        NodeKind::Link { .. } => {},
        NodeKind::Image { .. } => {},
        NodeKind::FootnoteReference { .. } => {},
        NodeKind::FootnoteDefinition { .. } => {},
        NodeKind::InlineMath { .. } => {},
        NodeKind::Math { .. } => {},
        NodeKind::Element { .. } => {},
        NodeKind::Html { .. } => {},
        NodeKind::Esm { .. } => {},
        NodeKind::Yaml { .. } => {},
        NodeKind::Toml { .. } => {},
        NodeKind::List { .. } => {},
        NodeKind::ListItem { .. } => {},
        _ => {
            assert(a == b);
        },
    }
}

/// Emission reads strings only through their characters.
pub proof fn lemma_emit_veq(a: Seq<Node>, b: Seq<Node>, names: Seq<Seq<char>>, i: int, hdr: bool, st: GenState)
    requires
        nodes_veq(a, b),
    ensures
        emit(a, names, i, hdr, st) == emit(b, names, i, hdr, st),
    decreases a.len() - i, a[i].children@.len() + 1,
{
    if 0 <= i < a.len() {
        assert(kind_veq(a[i].kind, b[i].kind) && a[i].children@ == b[i].children@);
        lemma_kind_veq(a[i].kind, b[i].kind, hdr, st.key, Seq::empty(), names, st);
        let e = enter(a[i].kind, st);
        lemma_kids_veq(a, b, names, i, hdr, a[i].children@.len() as int, e);
        let ks = kids(a, names, i, hdr, a[i].children@.len() as int, e);
        lemma_kind_veq(a[i].kind, b[i].kind, hdr, st.key, ks.exprs, names, st);
    }
}

pub proof fn lemma_kids_veq(a: Seq<Node>, b: Seq<Node>, names: Seq<Seq<char>>, i: int, hdr: bool, j: int, st: GenState)
    requires
        nodes_veq(a, b),
        0 <= i < a.len(),
    ensures
        kids(a, names, i, hdr, j, st) == kids(b, names, i, hdr, j, st),
    decreases a.len() - i, j,
{
    assert(kind_veq(a[i].kind, b[i].kind) && a[i].children@ == b[i].children@);
    lemma_kind_veq(a[i].kind, b[i].kind, hdr, st.key, Seq::empty(), names, st);
    if 0 < j <= a[i].children@.len() {
        lemma_kids_veq(a, b, names, i, hdr, j - 1, st);
        let p = kids(a, names, i, hdr, j - 1, st);
        let c = a[i].children@[j - 1] as int;
        if p.ok && i < c < a.len() {
            assert(kind_veq(a[c].kind, b[c].kind));
            lemma_kind_veq(a[c].kind, b[c].kind, hdr, st.key, Seq::empty(), names, st);
            lemma_emit_veq(a, b, names, c, kid_hdr(a[i].kind, hdr, j - 1), p.st);
        }
    }
}

} // verus!
