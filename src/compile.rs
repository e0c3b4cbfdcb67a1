//! The compile pipeline: frontmatter, tree-phase plugins, statement
//! classification and code generation, module assembly, text-phase plugins.
use vstd::prelude::*;
use crate::assemble::{assemble_module, frontmatter_export, module_text};
use crate::codegen::{
    emit, kid_fits, kid_ok, kind_shape, kind_veq, lemma_emit_shape, lemma_emit_veq, node_to_code, nodes_veq,
    opt_view, same_shape, CodegenContext, GenState,
};
use crate::error::{ErrorKind, MdxError};
use crate::esm::{classify, classify_spec, extract_imported_names, imported_names, StatementKind};
use crate::frontmatter::{
    body_json, extract_frontmatter, leading_block, without_first, Frontmatter,
};
use crate::plugins::{has_bad_link, MdxPlugin, NoopPlugin, Plugin, BAD_LINK_MESSAGE};
use crate::text::{chars_of, slice, starts_with, string_from, string_of, strs, trim, trimmed};
use crate::tree::{Document, Node, NodeKind};

verus! {

/// Options of one compile.
#[derive(Debug, Clone)]
pub struct MdxCompileOptions<P> {
    /// Tables, strikethrough and task lists.
    pub gfm: bool,
    pub footnotes: bool,
    pub math: bool,
    /// Import path of the component factory runtime.
    pub jsx_runtime: String,
    /// Source path, for diagnostics only.
    pub filepath: Option<String>,
    /// Passes, applied in this order in both phases.
    pub plugins: Vec<Plugin<P>>,
}

impl MdxCompileOptions<NoopPlugin> {
    /// No syntax extensions, no plugins, the React runtime.
    pub fn new() -> (r: MdxCompileOptions<NoopPlugin>)
        ensures
            !r.gfm && !r.footnotes && !r.math,
            r.jsx_runtime@ == "react/jsx-runtime"@,
            r.filepath is None,
            r.plugins@.len() == 0,
    {
        MdxCompileOptions::new_with_custom()
    }
}

impl<P> MdxCompileOptions<P> {
    /// As `new`, for options that may register passes of type `P`.
    pub fn new_with_custom() -> (r: MdxCompileOptions<P>)
        ensures
            !r.gfm && !r.footnotes && !r.math,
            r.jsx_runtime@ == "react/jsx-runtime"@,
            r.filepath is None,
            r.plugins@.len() == 0,
    {
        MdxCompileOptions {
            gfm: false,
            footnotes: false,
            math: false,
            jsx_runtime: string_from("react/jsx-runtime"),
            filepath: None,
            plugins: Vec::new(),
        }
    }

    /// All syntax extensions on.
    pub fn with_all_features(self) -> (r: MdxCompileOptions<P>)
        ensures
            r == (MdxCompileOptions { gfm: true, footnotes: true, math: true, ..self }),
    {
        MdxCompileOptions { gfm: true, footnotes: true, math: true, ..self }
    }

    /// The built-in passes appended: heading ids, image optimization, link validation.
    pub fn with_default_plugins(self) -> (r: MdxCompileOptions<P>)
        ensures
            r.plugins@ == self.plugins@ + seq![
                Plugin::HeadingIds,
                Plugin::ImageOptimization,
                Plugin::LinkValidation,
            ],
            r.gfm == self.gfm && r.footnotes == self.footnotes && r.math == self.math,
            r.jsx_runtime == self.jsx_runtime,
            r.filepath == self.filepath,
    {
        let mut s = self;
        s.plugins.push(Plugin::HeadingIds);
        s.plugins.push(Plugin::ImageOptimization);
        s.plugins.push(Plugin::LinkValidation);
        s
    }

    /// One more pass at the end of the list.
    pub fn with_plugin(self, plugin: Plugin<P>) -> (r: MdxCompileOptions<P>)
        ensures
            r.plugins@ == self.plugins@.push(plugin),
            r.gfm == self.gfm && r.footnotes == self.footnotes && r.math == self.math,
            r.jsx_runtime == self.jsx_runtime,
            r.filepath == self.filepath,
    {
        let mut s = self;
        s.plugins.push(plugin);
        s
    }

    pub fn with_jsx_runtime(self, runtime: String) -> (r: MdxCompileOptions<P>)
        ensures
            r == (MdxCompileOptions { jsx_runtime: runtime, ..self }),
    {
        MdxCompileOptions { jsx_runtime: runtime, ..self }
    }

    pub fn with_filepath(self, path: String) -> (r: MdxCompileOptions<P>)
        ensures
            r == (MdxCompileOptions { filepath: Some(path), ..self }),
    {
        MdxCompileOptions { filepath: Some(path), ..self }
    }
}

/// The module text and its manifest.
#[derive(Debug, Clone)]
pub struct MdxCompileResult {
    pub code: String,
    pub frontmatter: Option<Frontmatter>,
    /// Image URLs in the order met, repeats kept.
    pub images: Vec<String>,
    pub named_exports: Vec<String>,
    pub reexports: Vec<String>,
    pub imports: Vec<String>,
    /// What the document's first `export default` statement exports.
    pub default_export: Option<String>,
}

/// State of the walk over the top-level nodes.
pub struct Top {
    pub ok: bool,
    pub imports: Seq<Seq<char>>,
    pub named: Seq<Seq<char>>,
    pub reexports: Seq<Seq<char>>,
    pub default_export: Option<Seq<char>>,
    pub exprs: Seq<Seq<char>>,
    pub names: Seq<Seq<char>>,
    pub st: GenState,
}

pub open spec fn top_start() -> Top {
    Top {
        ok: true,
        imports: Seq::empty(),
        named: Seq::empty(),
        reexports: Seq::empty(),
        default_export: None,
        exprs: Seq::empty(),
        names: Seq::empty(),
        st: GenState { key: 0, images: Seq::empty(), frag: false },
    }
}

/// What `export default X` exports: the trimmed text after the keywords.
pub open spec fn default_name(t: Seq<char>) -> Seq<char> {
    trim(t.subrange(14, t.len() as int))
}

pub open spec fn top_len(nodes: Seq<Node>) -> int {
    if nodes.len() > 0 { nodes[0].children@.len() as int } else { 0 }
}

/// One top-level node handled: a statement is put in its bucket, content is emitted.
pub open spec fn top_step(nodes: Seq<Node>, p: Top, c: int) -> Top {
    if !p.ok {
        p
    } else if !(0 < c < nodes.len()) {
        Top { ok: false, ..p }
    } else {
        match nodes[c].kind {
            NodeKind::Esm { value } => {
                let t = trim(value@);
                match classify_spec(t) {
                    StatementKind::Reexport => Top { reexports: p.reexports.push(t), ..p },
                    StatementKind::NamedExport => Top { named: p.named.push(t), ..p },
                    StatementKind::DefaultExport => Top {
                        default_export: if p.default_export is None {
                            Some(default_name(t))
                        } else {
                            p.default_export
                        },
                        ..p
                    },
                    StatementKind::Import => Top {
                        imports: p.imports.push(t),
                        names: p.names + imported_names(t),
                        ..p
                    },
                }
            },
            _ => if !kid_ok(NodeKind::Root, nodes[c].kind) {
                Top { ok: false, ..p }
            } else {
                let g = emit(nodes, p.names, c, false, p.st);
                Top {
                    ok: g.ok,
                    exprs: match g.expr {
                        Some(e) => p.exprs.push(e),
                        None => p.exprs,
                    },
                    st: g.st,
                    ..p
                }
            },
        }
    }
}

/// The walk over the first `j` top-level nodes.
pub open spec fn top_scan(nodes: Seq<Node>, j: int) -> Top
    decreases j,
{
    if j <= 0 || j > top_len(nodes) {
        top_start()
    } else {
        top_step(nodes, top_scan(nodes, j - 1), nodes[0].children@[j - 1] as int)
    }
}

pub open spec fn top_all(nodes: Seq<Node>) -> Top {
    top_scan(nodes, top_len(nodes))
}

/// `r` is what generation from `nodes` gives.
pub open spec fn generated(
    nodes: Seq<Node>,
    fm: Option<Frontmatter>,
    runtime: Seq<char>,
    r: Result<MdxCompileResult, MdxError>,
) -> bool {
    let t = top_all(nodes);
    &&& (r is Ok <==> t.ok)
    &&& r is Err ==> r->Err_0.kind == ErrorKind::CodegenInvariant
    &&& r is Ok ==> {
        let o = r->Ok_0;
        &&& o.code@ == module_text(runtime, t.imports, t.named + frontmatter_export(fm), t.reexports, t.exprs, t.st.frag)
        &&& strs(o.images@) == t.st.images
        &&& strs(o.imports@) == t.imports
        &&& strs(o.named_exports@) == t.named
        &&& strs(o.reexports@) == t.reexports
        &&& opt_view(o.default_export) == t.default_export
        &&& o.frontmatter == fm
    }
}

proof fn lemma_top_fail_stays(nodes: Seq<Node>, j: int, n: int)
    requires
        0 <= j <= n <= top_len(nodes),
        !top_scan(nodes, j).ok,
    ensures
        !top_scan(nodes, n).ok,
    decreases n - j,
{
    if j < n {
        lemma_top_fail_stays(nodes, j, n - 1);
    }
}

fn codegen_error(msg: &str) -> (r: MdxError)
    ensures
        r.kind == ErrorKind::CodegenInvariant,
{
    MdxError::new(ErrorKind::CodegenInvariant, string_from(msg))
}

/// Code generation and assembly from a tree whose passes have run.
pub fn generate(doc: &Document, frontmatter: Option<Frontmatter>, jsx_runtime: &str) -> (r: Result<MdxCompileResult, MdxError>)
    ensures
        generated(doc.nodes@, frontmatter, jsx_runtime@, r),
{
    let ghost nodes = doc.nodes@;
    let n: usize = if doc.nodes.len() > 0 { doc.nodes[0].children.len() } else { 0 };
    let mut imports: Vec<String> = Vec::new();
    let mut named: Vec<String> = Vec::new();
    let mut reexports: Vec<String> = Vec::new();
    let mut default_export: Option<String> = None;
    let mut exprs: Vec<String> = Vec::new();
    let mut ctx = CodegenContext::new();
    assert(strs(imports@) =~= Seq::<Seq<char>>::empty());
    assert(strs(named@) =~= Seq::<Seq<char>>::empty());
    assert(strs(reexports@) =~= Seq::<Seq<char>>::empty());
    assert(strs(exprs@) =~= Seq::<Seq<char>>::empty());
    assert(ctx.names() =~= Seq::<Seq<char>>::empty());
    let mut j: usize = 0;
    while j < n
        invariant
            nodes == doc.nodes@,
            n == top_len(nodes),
            j <= n,
            top_scan(nodes, j as int).ok,
            strs(imports@) == top_scan(nodes, j as int).imports,
            strs(named@) == top_scan(nodes, j as int).named,
            strs(reexports@) == top_scan(nodes, j as int).reexports,
            opt_view(default_export) == top_scan(nodes, j as int).default_export,
            strs(exprs@) == top_scan(nodes, j as int).exprs,
            ctx.names() == top_scan(nodes, j as int).names,
            ctx.state() == top_scan(nodes, j as int).st,
        decreases n - j,
    {
        let c = doc.nodes[0].children[j];
        let ghost p = top_scan(nodes, j as int);
        if c == 0 || c >= doc.nodes.len() {
            proof {
                lemma_top_fail_stays(nodes, j as int + 1, n as int);
            }
            return Err(codegen_error("a top-level index out of range"));
        }
        match &doc.nodes[c].kind {
            NodeKind::Esm { value } => {
                let tv = trimmed(&chars_of(value.as_str()));
                let t = string_of(&tv);
                match classify(&tv) {
                    StatementKind::Reexport => {
                        let ghost b = strs(reexports@);
                        reexports.push(t);
                        assert(strs(reexports@) =~= b.push(tv@));
                    },
                    StatementKind::NamedExport => {
                        let ghost b = strs(named@);
                        named.push(t);
                        assert(strs(named@) =~= b.push(tv@));
                    },
                    StatementKind::DefaultExport => {
                        if default_export.is_none() {
                            proof {
                                reveal_strlit("export default");
                            }
                            let rest = slice(&tv, 14, tv.len());
                            default_export = Some(string_of(&trimmed(&rest)));
                        }
                    },
                    StatementKind::Import => {
                        let ghost b = strs(imports@);
                        imports.push(t);
                        assert(strs(imports@) =~= b.push(tv@));
                        let found = extract_imported_names(&tv);
                        let ghost base = ctx.names();
                        let mut m: usize = 0;
                        while m < found.len()
                            invariant
                                m <= found@.len(),
                                ctx.names() == base + strs(found@).take(m as int),
                                ctx.state() == p.st,
                            decreases found.len() - m,
                        {
                            let nm = found[m].clone();
                            let ghost b2 = ctx.names();
                            ctx.imported_components.push(nm);
                            assert(ctx.names() =~= b2.push(strs(found@)[m as int]));
                            assert(ctx.names() =~= base + strs(found@).take(m as int + 1));
                            m = m + 1;
                        }
                        assert(strs(found@).take(m as int) =~= strs(found@));
                    },
                }
            },
            _ => {
                let root = NodeKind::Root;
                if !kid_fits(&root, &doc.nodes[c].kind) {
                    proof {
                        lemma_top_fail_stays(nodes, j as int + 1, n as int);
                    }
                    return Err(codegen_error("a table row or cell outside a table"));
                }
                match node_to_code(doc, c, false, &mut ctx) {
                    Err(e) => {
                        proof {
                            lemma_top_fail_stays(nodes, j as int + 1, n as int);
                        }
                        return Err(e);
                    },
                    Ok(Some(e)) => {
                        let ghost b = strs(exprs@);
                        exprs.push(e);
                        assert(strs(exprs@) =~= b.push(e@));
                    },
                    Ok(None) => {},
                }
            },
        }
        j = j + 1;
    }
    let mut all_named: Vec<String> = Vec::new();
    let mut k: usize = 0;
    while k < named.len()
        invariant
            k <= named@.len(),
            strs(all_named@) == strs(named@).take(k as int),
        decreases named.len() - k,
    {
        let ghost b = strs(all_named@);
        let x = named[k].clone();
        all_named.push(x);
        assert(strs(all_named@) =~= b.push(strs(named@)[k as int]));
        assert(strs(all_named@) =~= strs(named@).take(k as int + 1));
        k = k + 1;
    }
    assert(strs(named@).take(k as int) =~= strs(named@));
    if let Some(fm) = &frontmatter {
        let mut line = string_from("export const frontmatter = ");
        line.append(fm.json.as_str());
        line.append(";");
        let ghost b = strs(all_named@);
        all_named.push(line);
        assert(strs(all_named@) =~= b + frontmatter_export(frontmatter));
    } else {
        assert(strs(all_named@) =~= strs(named@) + frontmatter_export(frontmatter));
    }
    let code = assemble_module(jsx_runtime, &imports, &all_named, &reexports, &exprs, ctx.uses_fragment);
    Ok(MdxCompileResult {
        code,
        frontmatter,
        images: ctx.images,
        named_exports: named,
        reexports,
        imports,
        default_export,
    })
}


/// `ms` lists the trees between the tree phases of `ps`, from `a` to `b`.
pub open spec fn chain_through<P: MdxPlugin>(ps: Seq<Plugin<P>>, ms: Seq<Seq<Node>>, a: Seq<Node>, b: Seq<Node>) -> bool {
    &&& ms.len() == ps.len() + 1
    &&& ms[0] == a
    &&& ms.last() == b
    &&& forall|k: int|
        0 <= k < ps.len() ==> (#[trigger] ps[k]).tree_ok(ms[k]) && ps[k].tree_step(ms[k], ms[k + 1])
}

/// `b` is what the tree phases of `ps`, in order, make of `a`.
pub open spec fn phase_chain<P: MdxPlugin>(ps: Seq<Plugin<P>>, a: Seq<Node>, b: Seq<Node>) -> bool {
    exists|ms: Seq<Seq<Node>>| #[trigger] chain_through(ps, ms, a, b)
}

/// How a failure of `name` in `phase` is reported.
pub open spec fn plugin_failure_prefix(name: Seq<char>, phase: Seq<char>) -> Seq<char> {
    "Plugin '"@ + name + "' failed during "@ + phase + " transformation"@
}

/// The tree phase of `ps` fails on `a`: link validation is registered and a
/// link of the tree has a bad target (no other pass changes links).
pub open spec fn tree_phase_fails<P: MdxPlugin>(ps: Seq<Plugin<P>>, a: Seq<Node>) -> bool {
    (exists|k: int| 0 <= k < ps.len() && (#[trigger] ps[k]) is LinkValidation) && has_bad_link(a)
}

/// The message of a pass's failure: which pass, which phase, then the pass's own message.
pub open spec fn plugin_failure_message(name: Seq<char>, phase: Seq<char>, inner: Seq<char>) -> Seq<char> {
    plugin_failure_prefix(name, phase) + ": "@ + inner
}

/// The error of a failed tree phase: link validation's, wrapped.
pub open spec fn link_failure(e: MdxError) -> bool {
    &&& e.kind == ErrorKind::Plugin
    &&& e.message@ == plugin_failure_message("link-validation"@, "AST"@, BAD_LINK_MESSAGE@)
}

/// The error reports that pass `k` of `ps` failed in `phase`, and keeps the
/// pass's own message after the prefix.
pub open spec fn names_pass<P: MdxPlugin>(ps: Seq<Plugin<P>>, phase: Seq<char>, e: MdxError) -> bool {
    &&& e.kind == ErrorKind::Plugin
    &&& exists|k: int|
        0 <= k < ps.len() && starts_with(
            e.message@,
            plugin_failure_prefix((#[trigger] ps[k]).name_spec(), phase) + ": "@,
        )
}

/// `b` is what the text phases of `ps`, in order, make of `a`.
pub open spec fn text_chain<P: MdxPlugin>(ps: Seq<Plugin<P>>, a: Seq<char>, b: Seq<char>) -> bool {
    exists|ms: Seq<Seq<char>>|
        #![trigger ms.len(), ms[0]]
        ms.len() == ps.len() + 1 && ms[0] == a && ms.last() == b && forall|k: int|
            0 <= k < ps.len() ==> (#[trigger] ps[k]).text_step(ms[k], ms[k + 1])
}

fn wrap_plugin_error<P: MdxPlugin>(p: &Plugin<P>, phase: &str, inner: MdxError) -> (r: MdxError)
    ensures
        r.kind == ErrorKind::Plugin,
        r.message@ == plugin_failure_message(p.name_spec(), phase@, inner.message@),
        r.file == inner.file && r.line == inner.line && r.column == inner.column,
        r.context == inner.context && r.suggestion == inner.suggestion,
{
    let mut m = string_from("Plugin '");
    let name = p.name();
    m.append(name.as_str());
    m.append("' failed during ");
    m.append(phase);
    m.append(" transformation");
    m.append(": ");
    m.append(inner.message.as_str());
    assert(m@ =~= plugin_failure_message(p.name_spec(), phase@, inner.message@));
    MdxError { kind: ErrorKind::Plugin, message: m, ..inner }
}

proof fn lemma_chain_keeps_links<P: MdxPlugin>(ps: Seq<Plugin<P>>, ms: Seq<Seq<Node>>, a: Seq<Node>, b: Seq<Node>, k: int)
    requires
        chain_through(ps, ms, a, b),
        no_custom(ps),
        0 <= k <= ps.len(),
    ensures
        has_bad_link(ms[k]) == has_bad_link(a),
    decreases k,
{
    if k > 0 {
        lemma_chain_keeps_links(ps, ms, a, b, k - 1);
        assert(ps[k - 1].tree_step(ms[k - 1], ms[k]));
        crate::plugins::lemma_step_keeps_links(ps[k - 1], ms[k - 1], ms[k]);
    }
}

/// No pass of `ps` is a caller's own.
pub open spec fn no_custom<P: MdxPlugin>(ps: Seq<Plugin<P>>) -> bool {
    forall|k: int| 0 <= k < ps.len() ==> !((#[trigger] ps[k]) is Custom)
}

/// Runs every pass's tree phase in order; the first failure stops the run.
pub fn run_tree_phase<P: MdxPlugin>(plugins: &Vec<Plugin<P>>, doc: &mut Document) -> (r: Result<(), MdxError>)
    requires
        old(doc).wf(),
    ensures
        no_custom(plugins@) ==> (r is Ok <==> !tree_phase_fails(plugins@, old(doc).nodes@)),
        r is Ok ==> phase_chain(plugins@, old(doc).nodes@, final(doc).nodes@) && final(doc).wf(),
        r is Err ==> names_pass(plugins@, "AST"@, r->Err_0),
        r is Err && no_custom(plugins@) ==> link_failure(r->Err_0),
{
    let ghost a = doc.nodes@;
    let ghost mut ms: Seq<Seq<Node>> = seq![a];
    let mut k: usize = 0;
    while k < plugins.len()
        invariant
            k <= plugins@.len(),
            doc.wf(),
            chain_through(plugins@.take(k as int), ms, a, doc.nodes@),
            a == old(doc).nodes@,
            no_custom(plugins@) && has_bad_link(a) ==> forall|j: int|
                0 <= j < k ==> !((#[trigger] plugins@[j]) is LinkValidation),
        decreases plugins.len() - k,
    {
        let p = &plugins[k];
        let ghost before = doc.nodes@;
        proof {
            if no_custom(plugins@) {
                assert(no_custom(plugins@.take(k as int)));
                lemma_chain_keeps_links(plugins@.take(k as int), ms, a, before, k as int);
            }
        }
        match p.transform_ast(doc) {
            Err(e) => {
                proof {
                    if no_custom(plugins@) {
                        assert(!plugins@[k as int].tree_ok(before));
                        assert(ms[k as int] == before);
                        assert(plugins@[k as int] is LinkValidation);
                        assert(tree_phase_fails(plugins@, a));
                    }
                }
                let w = wrap_plugin_error(p, "AST", e);
                assert(w.message@.subrange(0, (plugin_failure_prefix(p.name_spec(), "AST"@) + ": "@).len() as int)
                    =~= plugin_failure_prefix(p.name_spec(), "AST"@) + ": "@);
                return Err(w);
            },
            Ok(()) => {},
        }
        proof {
            let t = plugins@.take(k as int + 1);
            let ms2 = ms.push(doc.nodes@);
            assert forall|m: int| 0 <= m < t.len() implies (#[trigger] t[m]).tree_ok(ms2[m])
                && t[m].tree_step(ms2[m], ms2[m + 1]) by {
                if m < k {
                    assert(t[m] == plugins@.take(k as int)[m]);
                } else {
                    assert(t[m] == plugins@[k as int]);
                }
            }
            ms = ms2;
        }
        k = k + 1;
    }
    assert(plugins@.take(k as int) =~= plugins@);
    assert(chain_through(plugins@, ms, a, doc.nodes@));
    Ok(())
}

/// Runs every pass's text phase in order; the first failure stops the run.
pub fn run_text_phase<P: MdxPlugin>(plugins: &Vec<Plugin<P>>, code: &mut String) -> (r: Result<(), MdxError>)
    ensures
        r is Ok ==> text_chain(plugins@, old(code)@, final(code)@),
        r is Err ==> names_pass(plugins@, "JSX"@, r->Err_0),
        no_custom(plugins@) ==> r is Ok && final(code)@ == old(code)@,
{
    let ghost a = code@;
    let ghost mut ms: Seq<Seq<char>> = seq![a];
    let mut k: usize = 0;
    while k < plugins.len()
        invariant
            k <= plugins@.len(),
            a == old(code)@,
            ms.len() == k + 1,
            ms[0] == a,
            ms.last() == code@,
            forall|m: int| 0 <= m < k ==> (#[trigger] plugins@[m]).text_step(ms[m], ms[m + 1]),
            no_custom(plugins@) ==> code@ == a,
        decreases plugins.len() - k,
    {
        let p = &plugins[k];
        let ghost before = code@;
        match p.transform_jsx(code) {
            Err(e) => {
                let w = wrap_plugin_error(p, "JSX", e);
                assert(w.message@.subrange(0, (plugin_failure_prefix(p.name_spec(), "JSX"@) + ": "@).len() as int)
                    =~= plugin_failure_prefix(p.name_spec(), "JSX"@) + ": "@);
                return Err(w);
            },
            Ok(()) => {},
        }
        proof {
            let ms2 = ms.push(code@);
            assert forall|m: int| 0 <= m < k + 1 implies (#[trigger] plugins@[m]).text_step(ms2[m], ms2[m + 1]) by {
                if m < k {
                    assert(ms2[m] == ms[m] && ms2[m + 1] == ms[m + 1]);
                }
            }
            ms = ms2;
        }
        k = k + 1;
    }
    assert(ms.len() == plugins@.len() + 1 && ms[0] == a && ms.last() == code@);
    Ok(())
}

/// The manifest of `o` is what generation from `t` gives.
pub open spec fn manifest_from(t: Seq<Node>, o: MdxCompileResult) -> bool {
    let g = top_all(t);
    &&& g.ok
    &&& strs(o.images@) == g.st.images
    &&& strs(o.imports@) == g.imports
    &&& strs(o.named_exports@) == g.named
    &&& strs(o.reexports@) == g.reexports
    &&& opt_view(o.default_export) == g.default_export
}

/// The code of `o` is what the text phases of `ps` make of the module generated from `t`.
pub open spec fn code_from<P: MdxPlugin>(ps: Seq<Plugin<P>>, t: Seq<Node>, o: MdxCompileResult, runtime: Seq<char>) -> bool {
    let g = top_all(t);
    text_chain(ps, module_text(runtime, g.imports, g.named + frontmatter_export(o.frontmatter), g.reexports, g.exprs, g.st.frag), o.code@)
}

/// The frontmatter of the result matches the document's leading block.
pub open spec fn frontmatter_of(doc: Document, fm: Option<Frontmatter>) -> bool {
    match leading_block(doc) {
        None => fm is None,
        Some((fmt, body)) => {
            &&& fm is Some
            &&& fm->Some_0.raw@ == body
            &&& fm->Some_0.format == fmt
            &&& body_json(fmt, body) is Some
            &&& fm->Some_0.json@ == body_json(fmt, body)->Some_0
        },
    }
}

/// The tree left once the leading block (if any) is taken off.
pub open spec fn stripped(doc: Document, s: Seq<Node>) -> bool {
    match leading_block(doc) {
        None => s == doc.nodes@,
        Some(_) => exists|d: Document| d.nodes@ == s && #[trigger] without_first(doc, d),
    }
}

/// The bad leading block makes the compile fail.
pub open spec fn bad_frontmatter(doc: Document) -> bool {
    match leading_block(doc) {
        Some((fmt, body)) => body_json(fmt, body) is None,
        None => false,
    }
}

fn attach_file(e: MdxError, path: &Option<String>) -> (r: MdxError)
    ensures
        r.kind == e.kind,
        r.message == e.message,
        path is Some ==> r.file == path,
        path is None ==> r.file == e.file,
{
    match path {
        Some(p) => e.with_file(p.clone()),
        None => e,
    }
}

/// Both trees hold the same kinds at every index.
proof fn lemma_strip_keeps_links(doc: Document, s: Seq<Node>)
    requires
        doc.wf(),
        stripped(doc, s),
    ensures
        has_bad_link(s) == has_bad_link(doc.nodes@),
{
    if leading_block(doc) is Some {
        let d = choose|d: Document| d.nodes@ == s && #[trigger] without_first(doc, d);
        assert forall|k: int| 0 <= k < s.len() implies (#[trigger] s[k]).kind == doc.nodes@[k].kind by {
            if k > 0 {
                assert(d.nodes@[k] == doc.nodes@[k]);
            }
        }
        if has_bad_link(s) {
            let k = choose|k: int|
                0 <= k < s.len() && (#[trigger] s[k]).kind is Link && crate::plugins::bad_link_target(s[k].kind->Link_url@);
            assert(s[k].kind == doc.nodes@[k].kind);
        }
        if has_bad_link(doc.nodes@) {
            let k = choose|k: int|
                0 <= k < doc.nodes@.len() && (#[trigger] doc.nodes@[k]).kind is Link
                    && crate::plugins::bad_link_target(doc.nodes@[k].kind->Link_url@);
            assert(s[k].kind == doc.nodes@[k].kind);
        }
    }
}

proof fn lemma_top_shape(a: Seq<Node>, b: Seq<Node>, j: int)
    requires
        same_shape(a, b),
        a.len() > 0,
    ensures
        top_scan(a, j).ok == top_scan(b, j).ok,
        top_scan(a, j).ok ==> top_scan(a, j).st.key == top_scan(b, j).st.key,
    decreases j,
{
    assert(a[0].children@ == b[0].children@);
    if 0 < j <= top_len(a) {
        lemma_top_shape(a, b, j - 1);
        let p1 = top_scan(a, j - 1);
        let p2 = top_scan(b, j - 1);
        let c = a[0].children@[j - 1] as int;
        if p1.ok && 0 < c < a.len() {
            assert(kind_shape(a[c].kind) == kind_shape(b[c].kind));
            lemma_emit_shape(a, b, p1.names, p2.names, c, false, p1.st, p2.st);
        }
    }
}

/// A built-in tree step keeps the shape of the tree.
proof fn lemma_step_shape<P: MdxPlugin>(p: Plugin<P>, a: Seq<Node>, b: Seq<Node>)
    requires
        !(p is Custom),
        p.tree_step(a, b),
    ensures
        same_shape(a, b),
{
    assert forall|k: int| 0 <= k < a.len() implies kind_shape((#[trigger] a[k]).kind) == kind_shape(b[k].kind)
        && a[k].children@ == b[k].children@ by {
        assert(b[k].children == a[k].children);
    }
}

proof fn lemma_chain_shape<P: MdxPlugin>(ps: Seq<Plugin<P>>, ms: Seq<Seq<Node>>, a: Seq<Node>, b: Seq<Node>, k: int)
    requires
        chain_through(ps, ms, a, b),
        no_custom(ps),
        0 <= k <= ps.len(),
    ensures
        same_shape(a, ms[k]),
    decreases k,
{
    if k > 0 {
        lemma_chain_shape(ps, ms, a, b, k - 1);
        assert(ps[k - 1].tree_step(ms[k - 1], ms[k]));
        lemma_step_shape(ps[k - 1], ms[k - 1], ms[k]);
    }
}

/// Code generation fails on the tree left once the leading block is taken off.
pub open spec fn codegen_fails(doc: Document) -> bool {
    exists|s: Seq<Node>| #[trigger] stripped(doc, s) && !top_all(s).ok
}

/// After built-in passes, code generation succeeds exactly when it succeeds
/// on the tree the passes started from.
proof fn lemma_codegen_outcome<P: MdxPlugin>(doc: Document, ps: Seq<Plugin<P>>, s: Seq<Node>, t: Seq<Node>)
    requires
        doc.wf(),
        stripped(doc, s),
        no_custom(ps),
        phase_chain(ps, s, t),
    ensures
        top_all(t).ok <==> !codegen_fails(doc),
{
    let ms = choose|ms: Seq<Seq<Node>>| #[trigger] chain_through(ps, ms, s, t);
    lemma_chain_shape(ps, ms, s, t, ps.len() as int);
    assert(s.len() > 0) by {
        if leading_block(doc) is Some {
            let d = choose|d: Document| d.nodes@ == s && #[trigger] without_first(doc, d);
        }
    }
    lemma_top_shape(s, t, top_len(s));
    if top_all(t).ok {
        assert forall|s2: Seq<Node>| #[trigger] stripped(doc, s2) implies top_all(s2).ok by {
            if leading_block(doc) is Some {
                let d = choose|d: Document| d.nodes@ == s && #[trigger] without_first(doc, d);
                let d2 = choose|d2: Document| d2.nodes@ == s2 && #[trigger] without_first(doc, d2);
                assert forall|k: int| 0 <= k < s2.len() implies kind_shape((#[trigger] s2[k]).kind) == kind_shape(s[k].kind)
                    && s2[k].children@ == s[k].children@ by {
                    if k > 0 {
                        assert(d2.nodes@[k] == doc.nodes@[k]);
                        assert(d.nodes@[k] == doc.nodes@[k]);
                    }
                }
            }
            lemma_top_shape(s2, s, top_len(s2));
        }
    }
}

/// Compiles a document tree with `options`.
///
/// With built-in passes only, it fails for one of three reasons only: a
/// leading metadata block that does not parse; a tree phase that fails (link
/// validation registered and a bad link present); or a tree that code
/// generation cannot emit. A caller's pass may fail or change the text
/// whatever the input.
pub fn compile_document<P: MdxPlugin>(doc: Document, options: &MdxCompileOptions<P>) -> (r: Result<MdxCompileResult, MdxError>)
    requires
        doc.wf(),
    ensures
        bad_frontmatter(doc) ==> r is Err && r->Err_0.kind == ErrorKind::FrontmatterParse,
        no_custom(options.plugins@) && !bad_frontmatter(doc) && tree_phase_fails(options.plugins@, doc.nodes@)
            ==> r is Err && link_failure(r->Err_0),
        no_custom(options.plugins@) && !bad_frontmatter(doc) && !tree_phase_fails(options.plugins@, doc.nodes@)
            && r is Err ==> {
            &&& r->Err_0.kind == ErrorKind::CodegenInvariant
            &&& exists|s: Seq<Node>, t: Seq<Node>|
                stripped(doc, s) && #[trigger] phase_chain(options.plugins@, s, t) && !top_all(t).ok
        },
        no_custom(options.plugins@) && !bad_frontmatter(doc) && !tree_phase_fails(options.plugins@, doc.nodes@)
            ==> (r is Ok <==> !codegen_fails(doc)),
        r is Err ==> (r->Err_0.kind == ErrorKind::FrontmatterParse || r->Err_0.kind == ErrorKind::Plugin
            || r->Err_0.kind == ErrorKind::CodegenInvariant),
        r is Ok ==> frontmatter_of(doc, r->Ok_0.frontmatter),
        r is Ok ==> exists|s: Seq<Node>, t: Seq<Node>|
            stripped(doc, s) && #[trigger] phase_chain(options.plugins@, s, t) && manifest_from(t, r->Ok_0)
                && code_from(options.plugins@, t, r->Ok_0, options.jsx_runtime@),
        r is Err && r->Err_0.kind == ErrorKind::Plugin ==> names_pass(options.plugins@, "AST"@, r->Err_0)
            || names_pass(options.plugins@, "JSX"@, r->Err_0),
        r is Ok && no_custom(options.plugins@) ==> exists|s: Seq<Node>, t: Seq<Node>|
            stripped(doc, s) && #[trigger] phase_chain(options.plugins@, s, t)
                && generated(t, r->Ok_0.frontmatter, options.jsx_runtime@, r),
        r is Err && options.filepath is Some ==> r->Err_0.file == options.filepath,
        options.plugins@.len() == 0 && leading_block(doc) is None && options.filepath is None
            ==> generated(doc.nodes@, None, options.jsx_runtime@, r),
{
    let ghost d0 = doc;
    let (mut tree, fm) = match extract_frontmatter(doc) {
        Ok(x) => x,
        Err(e) => {
            return Err(attach_file(e, &options.filepath));
        },
    };
    let ghost s = tree.nodes@;
    proof {
        if leading_block(d0) is Some {
            assert(without_first(d0, tree));
        }
        assert(stripped(d0, s));
        lemma_strip_keeps_links(d0, s);
    }
    match run_tree_phase(&options.plugins, &mut tree) {
        Err(e) => {
            return Err(attach_file(e, &options.filepath));
        },
        Ok(()) => {},
    }
    proof {
        if options.plugins@.len() == 0 {
            let ms = choose|ms: Seq<Seq<Node>>| #[trigger] chain_through(options.plugins@, ms, s, tree.nodes@);
            assert(tree.nodes@ == s);
        }
    }
    proof {
        if no_custom(options.plugins@) {
            lemma_codegen_outcome(d0, options.plugins@, s, tree.nodes@);
        }
    }
    let result = generate(&tree, fm, options.jsx_runtime.as_str());
    match result {
        Err(e) => {
            assert(phase_chain(options.plugins@, s, tree.nodes@) && !top_all(tree.nodes@).ok);
            Err(attach_file(e, &options.filepath))
        },
        Ok(mut out) => {
            let ghost generated_code = out.code@;
            match run_text_phase(&options.plugins, &mut out.code) {
                Err(e) => {
                    return Err(attach_file(e, &options.filepath));
                },
                Ok(()) => {},
            }
            assert(phase_chain(options.plugins@, s, tree.nodes@));
            assert(manifest_from(tree.nodes@, out));
            assert(code_from(options.plugins@, tree.nodes@, out, options.jsx_runtime@));
            assert(no_custom(options.plugins@) ==> generated(tree.nodes@, out.frontmatter, options.jsx_runtime@, Ok::<MdxCompileResult, MdxError>(out)));
            Ok(out)
        },
    }
}

/// Compiles a document tree to module text. Fails for the reasons
/// `compile_document` gives.
pub fn mdast_to_jsx_with_options<P: MdxPlugin>(root: Document, options: &MdxCompileOptions<P>) -> (r: Result<String, MdxError>)
    requires
        root.wf(),
    ensures
        bad_frontmatter(root) ==> r is Err && r->Err_0.kind == ErrorKind::FrontmatterParse,
        no_custom(options.plugins@) && !bad_frontmatter(root) && tree_phase_fails(options.plugins@, root.nodes@) ==> r is Err && link_failure(
            r->Err_0,
        ),
        no_custom(options.plugins@) && !bad_frontmatter(root) && !tree_phase_fails(options.plugins@, root.nodes@)
            && r is Err ==> {
            &&& r->Err_0.kind == ErrorKind::CodegenInvariant
            &&& exists|s: Seq<Node>, t: Seq<Node>|
                stripped(root, s) && #[trigger] phase_chain(options.plugins@, s, t) && !top_all(t).ok
        },
        no_custom(options.plugins@) && !bad_frontmatter(root) && !tree_phase_fails(options.plugins@, root.nodes@)
            ==> (r is Ok <==> !codegen_fails(root)),
        r is Err ==> (r->Err_0.kind == ErrorKind::FrontmatterParse || r->Err_0.kind == ErrorKind::Plugin
            || r->Err_0.kind == ErrorKind::CodegenInvariant),
        r is Err && r->Err_0.kind == ErrorKind::Plugin ==> names_pass(options.plugins@, "AST"@, r->Err_0)
            || names_pass(options.plugins@, "JSX"@, r->Err_0),
        r is Ok ==> exists|s: Seq<Node>, t: Seq<Node>, o: MdxCompileResult|
            #![trigger phase_chain(options.plugins@, s, t), frontmatter_of(root, o.frontmatter)]
            stripped(root, s) && phase_chain(options.plugins@, s, t) && manifest_from(t, o)
                && code_from(options.plugins@, t, o, options.jsx_runtime@)
                && frontmatter_of(root, o.frontmatter) && o.code@ == r->Ok_0@,
        r is Ok && no_custom(options.plugins@) ==> exists|s: Seq<Node>, t: Seq<Node>, o: MdxCompileResult|
            #![trigger phase_chain(options.plugins@, s, t), frontmatter_of(root, o.frontmatter)]
            stripped(root, s) && phase_chain(options.plugins@, s, t)
                && generated(t, o.frontmatter, options.jsx_runtime@, Ok::<MdxCompileResult, MdxError>(o))
                && frontmatter_of(root, o.frontmatter) && o.code@ == r->Ok_0@,
        options.plugins@.len() == 0 && leading_block(root) is None && options.filepath is None ==> {
            let t = top_all(root.nodes@);
            &&& (r is Ok <==> t.ok)
            &&& r is Err ==> r->Err_0.kind == ErrorKind::CodegenInvariant
            &&& r is Ok ==> r->Ok_0@ == module_text(
                options.jsx_runtime@,
                t.imports,
                t.named + frontmatter_export(None),
                t.reexports,
                t.exprs,
                t.st.frag,
            )
        },
{
    match compile_document(root, options) {
        Ok(o) => Ok(o.code),
        Err(e) => Err(e),
    }
}

/// Compiles a document tree with the default options (no passes, the React
/// runtime). Fails only on a bad leading block or a tree that cannot be emitted.
pub fn mdast_to_jsx(root: Document) -> (r: Result<String, MdxError>)
    requires
        root.wf(),
    ensures
        bad_frontmatter(root) ==> r is Err && r->Err_0.kind == ErrorKind::FrontmatterParse,
        !bad_frontmatter(root) ==> (r is Ok <==> !codegen_fails(root)),
        !bad_frontmatter(root) && r is Err ==> {
            &&& r->Err_0.kind == ErrorKind::CodegenInvariant
            &&& exists|t: Seq<Node>| #[trigger] stripped(root, t) && !top_all(t).ok
        },
        r is Ok ==> exists|t: Seq<Node>, o: MdxCompileResult|
            #![trigger stripped(root, t), frontmatter_of(root, o.frontmatter)]
            stripped(root, t)
                && generated(t, o.frontmatter, "react/jsx-runtime"@, Ok::<MdxCompileResult, MdxError>(o))
                && frontmatter_of(root, o.frontmatter) && o.code@ == r->Ok_0@,
        leading_block(root) is None ==> {
            let t = top_all(root.nodes@);
            &&& (r is Ok <==> t.ok)
            &&& r is Ok ==> r->Ok_0@ == module_text(
                "react/jsx-runtime"@,
                t.imports,
                t.named + frontmatter_export(None),
                t.reexports,
                t.exprs,
                t.st.frag,
            )
        },
{
    let options = MdxCompileOptions::new();
    let r = mdast_to_jsx_with_options(root, &options);
    proof {
        assert(no_custom(options.plugins@));
        assert(!tree_phase_fails(options.plugins@, root.nodes@));
        if r is Ok {
            let (s, t, o) = choose|s: Seq<Node>, t: Seq<Node>, o: MdxCompileResult|
                #![trigger phase_chain(options.plugins@, s, t), frontmatter_of(root, o.frontmatter)]
                stripped(root, s) && phase_chain(options.plugins@, s, t)
                    && generated(t, o.frontmatter, options.jsx_runtime@, Ok::<MdxCompileResult, MdxError>(o))
                    && frontmatter_of(root, o.frontmatter) && o.code@ == r->Ok_0@;
            let ms = choose|ms: Seq<Seq<Node>>| #[trigger] chain_through(options.plugins@, ms, s, t);
            assert(t == s);
        }
        if !bad_frontmatter(root) && r is Err {
            let (s, t) = choose|s: Seq<Node>, t: Seq<Node>|
                stripped(root, s) && #[trigger] phase_chain(options.plugins@, s, t) && !top_all(t).ok;
            let ms = choose|ms: Seq<Seq<Node>>| #[trigger] chain_through(options.plugins@, ms, s, t);
            assert(t == s);
        }
    }
    r
}

/// Generation is a function of the tree, the frontmatter and the runtime path:
/// two runs on the same inputs give the same code, images and statement lists.
pub proof fn law_generation_deterministic(
    nodes: Seq<Node>,
    fm: Option<Frontmatter>,
    runtime: Seq<char>,
    r1: Result<MdxCompileResult, MdxError>,
    r2: Result<MdxCompileResult, MdxError>,
)
    requires
        generated(nodes, fm, runtime, r1),
        generated(nodes, fm, runtime, r2),
    ensures
        r1 is Ok <==> r2 is Ok,
        r1 is Ok ==> {
            &&& r1->Ok_0.code@ == r2->Ok_0.code@
            &&& strs(r1->Ok_0.images@) == strs(r2->Ok_0.images@)
            &&& strs(r1->Ok_0.imports@) == strs(r2->Ok_0.imports@)
            &&& strs(r1->Ok_0.named_exports@) == strs(r2->Ok_0.named_exports@)
            &&& strs(r1->Ok_0.reexports@) == strs(r2->Ok_0.reexports@)
        },
{
}

/// With frontmatter, the named-export section ends with exactly one extra
/// export carrying its data as JSON; without, no such export is added.
pub proof fn law_frontmatter_export(
    nodes: Seq<Node>,
    fm: Option<Frontmatter>,
    runtime: Seq<char>,
    r: Result<MdxCompileResult, MdxError>,
)
    requires
        generated(nodes, fm, runtime, r),
        r is Ok,
    ensures
        ({
            let t = top_all(nodes);
            &&& r->Ok_0.code@ == module_text(runtime, t.imports, t.named + frontmatter_export(fm), t.reexports, t.exprs, t.st.frag)
            &&& fm is None ==> frontmatter_export(fm).len() == 0
            &&& fm is Some ==> frontmatter_export(fm) == seq![
                "export const frontmatter = "@ + fm->Some_0.json@ + ";"@,
            ]
            &&& strs(r->Ok_0.named_exports@) == t.named
        }),
{
}

/// The statements of kind `kind` among the first `j` top-level nodes, trimmed,
/// in source order.
pub open spec fn bucket(nodes: Seq<Node>, j: int, kind: StatementKind) -> Seq<Seq<char>>
    decreases j,
{
    if j <= 0 || j > top_len(nodes) {
        Seq::empty()
    } else {
        let prev = bucket(nodes, j - 1, kind);
        let c = nodes[0].children@[j - 1] as int;
        if 0 < c < nodes.len() && nodes[c].kind is Esm && classify_spec(trim(nodes[c].kind->Esm_value@))
            == kind {
            prev.push(trim(nodes[c].kind->Esm_value@))
        } else {
            prev
        }
    }
}

proof fn lemma_buckets(nodes: Seq<Node>, j: int)
    requires
        0 <= j <= top_len(nodes),
        top_scan(nodes, j).ok,
    ensures
        top_scan(nodes, j).imports == bucket(nodes, j, StatementKind::Import),
        top_scan(nodes, j).named == bucket(nodes, j, StatementKind::NamedExport),
        top_scan(nodes, j).reexports == bucket(nodes, j, StatementKind::Reexport),
    decreases j,
{
    if j > 0 {
        if !top_scan(nodes, j - 1).ok {
            lemma_top_fail_stays(nodes, j - 1, j);
        }
        lemma_buckets(nodes, j - 1);
    }
}

/// The module puts the runtime import and the imports first, then the named
/// exports, then the default export, then the re-exports; each group holds
/// the document's statements of its kind in source order.
pub proof fn law_statement_order(
    nodes: Seq<Node>,
    fm: Option<Frontmatter>,
    runtime: Seq<char>,
    r: Result<MdxCompileResult, MdxError>,
)
    requires
        generated(nodes, fm, runtime, r),
        r is Ok,
    ensures
        ({
            let t = top_all(nodes);
            let n = top_len(nodes);
            let named = bucket(nodes, n, StatementKind::NamedExport) + frontmatter_export(fm);
            let re = bucket(nodes, n, StatementKind::Reexport);
            r->Ok_0.code@ == crate::text::join(
                seq![crate::assemble::runtime_line(crate::assemble::needs_fragment(t.exprs, t.st.frag), runtime)]
                    + bucket(nodes, n, StatementKind::Import),
                "\n"@,
            ) + "\n\n"@
                + (if named.len() > 0 { crate::text::join(named, "\n"@) + "\n\n"@ } else { Seq::empty() })
                + crate::assemble::CONTENT_HEAD@ + crate::assemble::body_expr(t.exprs)
                + crate::assemble::CONTENT_TAIL@
                + (if re.len() > 0 { "\n\n"@ + crate::text::join(re, "\n"@) } else { Seq::empty() })
        }),
{
    let n = top_len(nodes);
    if nodes.len() > 0 {
        lemma_buckets(nodes, n);
    }
}


proof fn lemma_top_veq(a: Seq<Node>, b: Seq<Node>, j: int)
    requires
        nodes_veq(a, b),
        a.len() > 0,
    ensures
        top_scan(a, j) == top_scan(b, j),
    decreases j,
{
    assert(a[0].children@ == b[0].children@);
    if 0 < j <= top_len(a) {
        lemma_top_veq(a, b, j - 1);
        let p = top_scan(a, j - 1);
        let c = a[0].children@[j - 1] as int;
        if p.ok && 0 < c < a.len() {
            assert(kind_veq(a[c].kind, b[c].kind));
            lemma_emit_veq(a, b, p.names, c, false, p.st);
        }
    }
}

proof fn lemma_text_veq(a: Seq<Node>, b: Seq<Node>, k: int, j: int)
    requires
        nodes_veq(a, b),
        0 <= k < a.len(),
    ensures
        crate::plugins::text_upto(a, k, j) == crate::plugins::text_upto(b, k, j),
    decreases j,
{
    assert(a[k].children@ == b[k].children@);
    if 0 < j <= a[k].children@.len() {
        lemma_text_veq(a, b, k, j - 1);
        let c = a[k].children@[j - 1] as int;
        if 0 <= c < a.len() {
            assert(kind_veq(a[c].kind, b[c].kind));
        }
    }
}

proof fn lemma_step_veq<P: MdxPlugin>(p: Plugin<P>, a1: Seq<Node>, a2: Seq<Node>, b1: Seq<Node>, b2: Seq<Node>)
    requires
        !(p is Custom),
        nodes_veq(a1, a2),
        p.tree_step(a1, b1),
        p.tree_step(a2, b2),
    ensures
        nodes_veq(b1, b2),
{
    assert forall|k: int| 0 <= k < b1.len() implies kind_veq((#[trigger] b1[k]).kind, b2[k].kind)
        && b1[k].children@ == b2[k].children@ by {
        assert(kind_veq(a1[k].kind, a2[k].kind) && a1[k].children@ == a2[k].children@);
        if p is HeadingIds {
            lemma_text_veq(a1, a2, k, a1[k].children@.len() as int);
        }
    }
}

proof fn lemma_chain_veq<P: MdxPlugin>(
    ps: Seq<Plugin<P>>,
    ms1: Seq<Seq<Node>>,
    ms2: Seq<Seq<Node>>,
    s1: Seq<Node>,
    s2: Seq<Node>,
    t1: Seq<Node>,
    t2: Seq<Node>,
    k: int,
)
    requires
        no_custom(ps),
        chain_through(ps, ms1, s1, t1),
        chain_through(ps, ms2, s2, t2),
        nodes_veq(s1, s2),
        0 <= k <= ps.len(),
    ensures
        nodes_veq(ms1[k], ms2[k]),
    decreases k,
{
    if k > 0 {
        lemma_chain_veq(ps, ms1, ms2, s1, s2, t1, t2, k - 1);
        assert(ps[k - 1].tree_step(ms1[k - 1], ms1[k]));
        assert(ps[k - 1].tree_step(ms2[k - 1], ms2[k]));
        lemma_step_veq(ps[k - 1], ms1[k - 1], ms2[k - 1], ms1[k], ms2[k]);
    }
}

proof fn lemma_stripped_veq(doc: Document, s1: Seq<Node>, s2: Seq<Node>)
    requires
        doc.wf(),
        stripped(doc, s1),
        stripped(doc, s2),
    ensures
        nodes_veq(s1, s2),
        s1.len() > 0,
{
    if leading_block(doc) is Some {
        let d1 = choose|d: Document| d.nodes@ == s1 && #[trigger] without_first(doc, d);
        let d2 = choose|d: Document| d.nodes@ == s2 && #[trigger] without_first(doc, d);
        assert forall|k: int| 0 <= k < s1.len() implies kind_veq((#[trigger] s1[k]).kind, s2[k].kind)
            && s1[k].children@ == s2[k].children@ by {
            if k > 0 {
                assert(d1.nodes@[k] == doc.nodes@[k]);
                assert(d2.nodes@[k] == doc.nodes@[k]);
            } else {
                assert(s1[0].kind == doc.nodes@[0].kind);
                assert(s2[0].kind == doc.nodes@[0].kind);
            }
        }
    } else {
        assert forall|k: int| 0 <= k < s1.len() implies kind_veq((#[trigger] s1[k]).kind, s2[k].kind)
            && s1[k].children@ == s2[k].children@ by {
            assert(s1[k] == s2[k]);
        }
    }
}

/// With built-in passes, compiling one document twice gives the same outcome:
/// both fail, or both succeed with the same code, images and statement lists
/// (no content comes from a clock or chance, generated keys included).
pub proof fn law_compile_deterministic<P: MdxPlugin>(
    doc: Document,
    ps: Seq<Plugin<P>>,
    runtime: Seq<char>,
    s1: Seq<Node>,
    t1: Seq<Node>,
    fm1: Option<Frontmatter>,
    r1: Result<MdxCompileResult, MdxError>,
    s2: Seq<Node>,
    t2: Seq<Node>,
    fm2: Option<Frontmatter>,
    r2: Result<MdxCompileResult, MdxError>,
)
    requires
        doc.wf(),
        no_custom(ps),
        stripped(doc, s1),
        stripped(doc, s2),
        phase_chain(ps, s1, t1),
        phase_chain(ps, s2, t2),
        frontmatter_of(doc, fm1),
        frontmatter_of(doc, fm2),
        generated(t1, fm1, runtime, r1),
        generated(t2, fm2, runtime, r2),
    ensures
        r1 is Ok <==> r2 is Ok,
        r1 is Ok ==> {
            &&& r1->Ok_0.code@ == r2->Ok_0.code@
            &&& strs(r1->Ok_0.images@) == strs(r2->Ok_0.images@)
            &&& strs(r1->Ok_0.imports@) == strs(r2->Ok_0.imports@)
            &&& strs(r1->Ok_0.named_exports@) == strs(r2->Ok_0.named_exports@)
            &&& strs(r1->Ok_0.reexports@) == strs(r2->Ok_0.reexports@)
            &&& opt_view(r1->Ok_0.default_export) == opt_view(r2->Ok_0.default_export)
        },
{
    lemma_stripped_veq(doc, s1, s2);
    let ms1 = choose|ms: Seq<Seq<Node>>| #[trigger] chain_through(ps, ms, s1, t1);
    let ms2 = choose|ms: Seq<Seq<Node>>| #[trigger] chain_through(ps, ms, s2, t2);
    lemma_chain_veq(ps, ms1, ms2, s1, s2, t1, t2, ps.len() as int);
    lemma_chain_shape(ps, ms1, s1, t1, ps.len() as int);
    lemma_top_veq(t1, t2, top_len(t1));
    assert(frontmatter_export(fm1) == frontmatter_export(fm2));
}

} // verus!
