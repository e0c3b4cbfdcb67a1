//! Passes that run before code generation (tree phase) and after assembly
//! (text phase): three built-in ones, and any that callers write.
use vstd::prelude::*;
use crate::error::{ErrorKind, MdxError};
use crate::text::{chars_of, lower_char, string_from, string_of};
use crate::tree::{Document, Node, NodeKind};

verus! {

/// A pass that callers write. It must keep no state between calls. Either
/// phase may do nothing. `ast_step` and `jsx_step` say how each phase relates
/// its input to its output; a pass that does not say claims nothing.
pub trait MdxPlugin {
    open spec fn ast_step(&self, a: Seq<Node>, b: Seq<Node>) -> bool {
        true
    }

    open spec fn jsx_step(&self, a: Seq<char>, b: Seq<char>) -> bool {
        true
    }

    fn transform_ast(&self, doc: &mut Document) -> (r: Result<(), MdxError>)
        requires
            old(doc).wf(),
        ensures
            r is Ok ==> final(doc).wf() && self.ast_step(old(doc).nodes@, final(doc).nodes@),
    ;

    fn transform_jsx(&self, code: &mut String) -> (r: Result<(), MdxError>)
        ensures
            r is Ok ==> self.jsx_step(old(code)@, final(code)@),
    ;
}

/// The pass that does nothing: the custom pass type of options that use
/// built-in passes only.
#[derive(Debug, Clone, Copy)]
pub struct NoopPlugin;

impl MdxPlugin for NoopPlugin {
    open spec fn ast_step(&self, a: Seq<Node>, b: Seq<Node>) -> bool {
        b == a
    }

    open spec fn jsx_step(&self, a: Seq<char>, b: Seq<char>) -> bool {
        b == a
    }

    fn transform_ast(&self, doc: &mut Document) -> (r: Result<(), MdxError>) {
        Ok(())
    }

    fn transform_jsx(&self, code: &mut String) -> (r: Result<(), MdxError>) {
        Ok(())
    }
}

/// A registered pass: one of the built-in ones, or one a caller wrote. Each
/// built-in pass acts in the phase it needs and leaves the other unchanged.
#[derive(Debug, Clone)]
pub enum Plugin<P> {
    /// Gives each heading without an id one derived from its text.
    HeadingIds,
    /// Marks every image for lazy loading.
    ImageOptimization,
    /// Rejects links whose target is empty or holds whitespace.
    LinkValidation,
    /// A caller's pass, registered under a name for diagnostics.
    Custom { name: String, pass: P },
}

pub open spec fn is_alnum(c: char) -> bool {
    ('a' <= c && c <= 'z') || ('A' <= c && c <= 'Z') || ('0' <= c && c <= '9')
}

/// What one character contributes to a slug.
pub open spec fn slug_piece(c: char) -> Seq<char> {
    if is_alnum(c) {
        seq![lower_char(c)]
    } else if c == ' ' || c == '-' {
        seq!['-']
    } else {
        Seq::empty()
    }
}

/// The slug of the first `n` characters of `s`.
pub open spec fn slug_upto(s: Seq<char>, n: int) -> Seq<char>
    decreases n,
{
    if n <= 0 || n > s.len() {
        Seq::empty()
    } else {
        slug_upto(s, n - 1) + slug_piece(s[n - 1])
    }
}

/// Lower-case letters and digits kept, spaces and hyphens as `-`, the rest dropped.
pub open spec fn slug(s: Seq<char>) -> Seq<char> {
    slug_upto(s, s.len() as int)
}

/// The text of the first `j` children of node `k` that are text nodes.
pub open spec fn text_upto(nodes: Seq<Node>, k: int, j: int) -> Seq<char>
    decreases j,
{
    if j <= 0 || k < 0 || k >= nodes.len() || j > nodes[k].children@.len() {
        Seq::empty()
    } else {
        let c = nodes[k].children@[j - 1] as int;
        let piece = if 0 <= c < nodes.len() && nodes[c].kind is Text {
            nodes[c].kind->Text_value@
        } else {
            Seq::empty()
        };
        text_upto(nodes, k, j - 1) + piece
    }
}

/// The text directly under node `k`.
pub open spec fn heading_text(nodes: Seq<Node>, k: int) -> Seq<char> {
    text_upto(nodes, k, nodes[k].children@.len() as int)
}

/// `b` is `a` with an id on each heading that had none.
pub open spec fn with_heading_ids(a: Seq<Node>, b: Seq<Node>) -> bool {
    &&& b.len() == a.len()
    &&& forall|k: int|
        0 <= k < a.len() ==> {
            &&& (#[trigger] b[k]).children == a[k].children
            &&& if a[k].kind is Heading && a[k].kind->Heading_id is None {
                &&& b[k].kind is Heading
                &&& b[k].kind->Heading_depth == a[k].kind->Heading_depth
                &&& b[k].kind->Heading_id is Some
                &&& b[k].kind->Heading_id->Some_0@ == slug(heading_text(a, k))
            } else {
                b[k].kind == a[k].kind
            }
        }
}

/// `b` is `a` with every image marked lazy.
pub open spec fn with_lazy_images(a: Seq<Node>, b: Seq<Node>) -> bool {
    &&& b.len() == a.len()
    &&& forall|k: int|
        0 <= k < a.len() ==> {
            &&& (#[trigger] b[k]).children == a[k].children
            &&& if a[k].kind is Image {
                &&& b[k].kind is Image
                &&& b[k].kind->Image_url == a[k].kind->Image_url
                &&& b[k].kind->Image_alt == a[k].kind->Image_alt
                &&& b[k].kind->Image_lazy
            } else {
                b[k].kind == a[k].kind
            }
        }
}

pub open spec fn bad_link_target(url: Seq<char>) -> bool {
    url.len() == 0 || exists|i: int| 0 <= i < url.len() && crate::text::is_ws(#[trigger] url[i])
}

/// Some link of the tree has a bad target.
pub open spec fn has_bad_link(nodes: Seq<Node>) -> bool {
    exists|k: int|
        0 <= k < nodes.len() && (#[trigger] nodes[k]).kind is Link && bad_link_target(
            nodes[k].kind->Link_url@,
        )
}

/// What link validation reports.
pub const BAD_LINK_MESSAGE: &'static str = "a link target is empty or holds whitespace";

/// A tree step leaves every link, and so the presence of a bad one, as it was.
pub proof fn lemma_step_keeps_links<P: MdxPlugin>(p: Plugin<P>, a: Seq<Node>, b: Seq<Node>)
    requires
        !(p is Custom),
        p.tree_step(a, b),
    ensures
        has_bad_link(a) == has_bad_link(b),
{
    if has_bad_link(a) {
        let k = choose|k: int|
            0 <= k < a.len() && (#[trigger] a[k]).kind is Link && bad_link_target(a[k].kind->Link_url@);
        assert(b[k].kind == a[k].kind);
    }
    if has_bad_link(b) {
        let k = choose|k: int|
            0 <= k < b.len() && (#[trigger] b[k]).kind is Link && bad_link_target(b[k].kind->Link_url@);
        assert(b[k].kind == a[k].kind);
    }
}

impl<P: MdxPlugin> Plugin<P> {
    /// The name of the pass.
    pub open spec fn name_spec(&self) -> Seq<char> {
        match self {
            Plugin::HeadingIds => "heading-ids"@,
            Plugin::ImageOptimization => "image-optimization"@,
            Plugin::LinkValidation => "link-validation"@,
            Plugin::Custom { name, .. } => name@,
        }
    }

    /// Whether the tree phase of a built-in pass succeeds on `nodes`.
    pub open spec fn tree_ok(&self, nodes: Seq<Node>) -> bool {
        !(self is LinkValidation && has_bad_link(nodes))
    }

    /// The tree phase turns `a` into `b`.
    pub open spec fn tree_step(&self, a: Seq<Node>, b: Seq<Node>) -> bool {
        match self {
            Plugin::HeadingIds => with_heading_ids(a, b),
            Plugin::ImageOptimization => with_lazy_images(a, b),
            Plugin::LinkValidation => b == a,
            Plugin::Custom { pass, .. } => pass.ast_step(a, b),
        }
    }

    /// The text phase turns `a` into `b`: built-in passes leave it as it is.
    pub open spec fn text_step(&self, a: Seq<char>, b: Seq<char>) -> bool {
        match self {
            Plugin::Custom { pass, .. } => pass.jsx_step(a, b),
            _ => b == a,
        }
    }
}

impl<P: MdxPlugin> Plugin<P> {
    pub fn name(&self) -> (r: String)
        ensures
            r@ == self.name_spec(),
    {
        match self {
            Plugin::HeadingIds => string_from("heading-ids"),
            Plugin::ImageOptimization => string_from("image-optimization"),
            Plugin::LinkValidation => string_from("link-validation"),
            Plugin::Custom { name, .. } => name.clone(),
        }
    }

    /// The tree phase.
    pub fn transform_ast(&self, doc: &mut Document) -> (r: Result<(), MdxError>)
        requires
            old(doc).wf(),
        ensures
            !(self is Custom) ==> (r is Ok <==> self.tree_ok(old(doc).nodes@)),
            r is Ok ==> self.tree_step(old(doc).nodes@, final(doc).nodes@) && final(doc).wf(),
            r is Err && !(self is Custom) ==> r->Err_0.kind == ErrorKind::Plugin && r->Err_0.message@
                == BAD_LINK_MESSAGE@,
    {
        match self {
            Plugin::HeadingIds => {
                add_heading_ids(doc);
                Ok(())
            },
            Plugin::ImageOptimization => {
                mark_images_lazy(doc);
                Ok(())
            },
            Plugin::LinkValidation => {
                if find_bad_link(doc) {
                    Err(MdxError::new(ErrorKind::Plugin, string_from(BAD_LINK_MESSAGE)))
                } else {
                    Ok(())
                }
            },
            Plugin::Custom { pass, .. } => pass.transform_ast(doc),
        }
    }

    /// The text phase: every built-in pass leaves the text as it is.
    pub fn transform_jsx(&self, code: &mut String) -> (r: Result<(), MdxError>)
        ensures
            !(self is Custom) ==> r is Ok,
            r is Ok ==> self.text_step(old(code)@, final(code)@),
    {
        match self {
            Plugin::Custom { pass, .. } => pass.transform_jsx(code),
            _ => Ok(()),
        }
    }
}

fn slug_of(s: &String) -> (r: String)
    ensures
        r@ == slug(s@),
{
    let cs = chars_of(s.as_str());
    let mut out: Vec<char> = Vec::new();
    let mut i: usize = 0;
    while i < cs.len()
        invariant
            i <= cs@.len(),
            cs@ == s@,
            out@ == slug_upto(s@, i as int),
        decreases cs.len() - i,
    {
        let c = cs[i];
        if ('a' <= c && c <= 'z') || ('0' <= c && c <= '9') {
            out.push(c);
        } else if 'A' <= c && c <= 'Z' {
            out.push(((c as u8) + 32) as char);
        } else if c == ' ' || c == '-' {
            out.push('-');
        }
        assert(out@ =~= slug_upto(s@, i as int) + slug_piece(c));
        i = i + 1;
    }
    string_of(&out)
}

fn text_of(doc: &Document, k: usize) -> (r: String)
    requires
        k < doc.nodes@.len(),
    ensures
        r@ == heading_text(doc.nodes@, k as int),
{
    let kids = &doc.nodes[k].children;
    let mut out = String::new();
    let mut j: usize = 0;
    while j < kids.len()
        invariant
            k < doc.nodes@.len(),
            kids == doc.nodes@[k as int].children,
            j <= kids@.len(),
            out@ == text_upto(doc.nodes@, k as int, j as int),
        decreases kids.len() - j,
    {
        let c = kids[j];
        if c < doc.nodes.len() {
            if let NodeKind::Text { value } = &doc.nodes[c].kind {
                out.append(value.as_str());
            } else {
                assert(out@ =~= text_upto(doc.nodes@, k as int, j as int + 1));
            }
        } else {
            assert(out@ =~= text_upto(doc.nodes@, k as int, j as int + 1));
        }
        j = j + 1;
    }
    out
}

fn add_heading_ids(doc: &mut Document)
    requires
        old(doc).wf(),
    ensures
        with_heading_ids(old(doc).nodes@, final(doc).nodes@),
        final(doc).wf(),
{
    let n = doc.nodes.len();
    let mut ids: Vec<Option<String>> = Vec::new();
    let mut k: usize = 0;
    while k < n
        invariant
            n == doc.nodes@.len(),
            k <= n,
            ids@.len() == k,
            forall|m: int|
                0 <= m < k ==> (#[trigger] ids@[m] is Some <==> (doc.nodes@[m].kind is Heading
                    && doc.nodes@[m].kind->Heading_id is None)),
            forall|m: int|
                0 <= m < k && ids@[m] is Some ==> (#[trigger] ids@[m])->Some_0@ == slug(
                    heading_text(doc.nodes@, m),
                ),
        decreases n - k,
    {
        let id = match &doc.nodes[k].kind {
            NodeKind::Heading { id: None, .. } => {
                let t = text_of(doc, k);
                Some(slug_of(&t))
            },
            _ => None,
        };
        ids.push(id);
        k = k + 1;
    }
    let ghost a = doc.nodes@;
    let mut k: usize = 0;
    while k < n
        invariant
            n == a.len(),
            doc.nodes@.len() == n,
            k <= n,
            ids@.len() == n,
            forall|m: int|
                0 <= m < n ==> (#[trigger] ids@[m] is Some <==> (a[m].kind is Heading
                    && a[m].kind->Heading_id is None)),
            forall|m: int|
                0 <= m < n && ids@[m] is Some ==> (#[trigger] ids@[m])->Some_0@ == slug(heading_text(a, m)),
            forall|m: int| k <= m < n ==> doc.nodes@[m] == a[m],
            forall|m: int|
                0 <= m < k ==> {
                    &&& (#[trigger] doc.nodes@[m]).children == a[m].children
                    &&& if a[m].kind is Heading && a[m].kind->Heading_id is None {
                        &&& doc.nodes@[m].kind is Heading
                        &&& doc.nodes@[m].kind->Heading_depth == a[m].kind->Heading_depth
                        &&& doc.nodes@[m].kind->Heading_id is Some
                        &&& doc.nodes@[m].kind->Heading_id->Some_0@ == slug(heading_text(a, m))
                    } else {
                        doc.nodes@[m].kind == a[m].kind
                    }
                },
        decreases n - k,
    {
        if let Some(id) = &ids[k] {
            if let NodeKind::Heading { depth, .. } = &doc.nodes[k].kind {
                let d = *depth;
                doc.nodes[k].kind = NodeKind::Heading { depth: d, id: Some(id.clone()) };
            }
        }
        k = k + 1;
    }
    assert forall|i: int, j: int|
        #![trigger doc.nodes@[i].children@[j]]
        0 <= i < doc.nodes@.len() && 0 <= j < doc.nodes@[i].children@.len()
            implies i < doc.nodes@[i].children@[j] < doc.nodes@.len() by {
        assert(doc.nodes@[i].children == a[i].children);
        assert(a[i].children@[j] == a[i].children@[j]);
    }
}

fn mark_images_lazy(doc: &mut Document)
    requires
        old(doc).wf(),
    ensures
        with_lazy_images(old(doc).nodes@, final(doc).nodes@),
        final(doc).wf(),
{
    let n = doc.nodes.len();
    let ghost a = doc.nodes@;
    let mut k: usize = 0;
    while k < n
        invariant
            n == a.len(),
            doc.nodes@.len() == n,
            k <= n,
            forall|m: int| k <= m < n ==> doc.nodes@[m] == a[m],
            forall|m: int|
                0 <= m < k ==> {
                    &&& (#[trigger] doc.nodes@[m]).children == a[m].children
                    &&& if a[m].kind is Image {
                        &&& doc.nodes@[m].kind is Image
                        &&& doc.nodes@[m].kind->Image_url == a[m].kind->Image_url
                        &&& doc.nodes@[m].kind->Image_alt == a[m].kind->Image_alt
                        &&& doc.nodes@[m].kind->Image_lazy
                    } else {
                        doc.nodes@[m].kind == a[m].kind
                    }
                },
        decreases n - k,
    {
        if let NodeKind::Image { url, alt, .. } = &doc.nodes[k].kind {
            let u = url.clone();
            let al = alt.clone();
            doc.nodes[k].kind = NodeKind::Image { url: u, alt: al, lazy: true };
        }
        k = k + 1;
    }
    assert forall|i: int, j: int|
        #![trigger doc.nodes@[i].children@[j]]
        0 <= i < doc.nodes@.len() && 0 <= j < doc.nodes@[i].children@.len()
            implies i < doc.nodes@[i].children@[j] < doc.nodes@.len() by {
        assert(doc.nodes@[i].children == a[i].children);
        assert(a[i].children@[j] == a[i].children@[j]);
    }
}

fn bad_target(url: &String) -> (r: bool)
    ensures
        r == bad_link_target(url@),
{
    let cs = chars_of(url.as_str());
    if cs.len() == 0 {
        return true;
    }
    let mut i: usize = 0;
    while i < cs.len()
        invariant
            i <= cs@.len(),
            cs@ == url@,
            forall|m: int| 0 <= m < i ==> !crate::text::is_ws(#[trigger] url@[m]),
        decreases cs.len() - i,
    {
        let c = cs[i];
        if crate::text::is_space(c) {
            assert(crate::text::is_ws(url@[i as int]));
            return true;
        }
        i = i + 1;
    }
    false
}

fn find_bad_link(doc: &Document) -> (r: bool)
    ensures
        r == has_bad_link(doc.nodes@),
{
    let mut k: usize = 0;
    while k < doc.nodes.len()
        invariant
            k <= doc.nodes@.len(),
            forall|m: int|
                0 <= m < k ==> !((#[trigger] doc.nodes@[m]).kind is Link && bad_link_target(
                    doc.nodes@[m].kind->Link_url@,
                )),
        decreases doc.nodes.len() - k,
    {
        if let NodeKind::Link { url } = &doc.nodes[k].kind {
            if bad_target(url) {
                return true;
            }
        }
        k = k + 1;
    }
    false
}

} // verus!
