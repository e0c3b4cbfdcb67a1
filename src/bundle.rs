//! Inputs and outputs of bundling a compiled document with its imports.
use vstd::prelude::*;
use crate::compile::MdxCompileOptions;
use crate::plugins::{NoopPlugin, Plugin};
use crate::frontmatter::Frontmatter;
use crate::text::string_from;

verus! {

/// One file of the in-memory file system handed to the bundler.
#[derive(Debug, Clone)]
pub struct VirtualFile {
    pub path: String,
    pub content: String,
}

/// Options for bundling: the document source, the files it imports, and
/// compile options (`None` for all features with the default passes).
#[derive(Debug, Clone)]
pub struct BundleMdxOptions<P> {
    pub source: String,
    /// At most one file per path, in the order first added.
    pub files: Vec<VirtualFile>,
    pub mdx_options: Option<MdxCompileOptions<P>>,
}

pub open spec fn files_view(v: Seq<VirtualFile>) -> Seq<(Seq<char>, Seq<char>)> {
    v.map_values(|f: VirtualFile| (f.path@, f.content@))
}

/// No two files share a path.
pub open spec fn paths_unique(v: Seq<(Seq<char>, Seq<char>)>) -> bool {
    forall|a: int, b: int| 0 <= a < b < v.len() ==> v[a].0 != v[b].0
}

/// `b` is `a` with `content` stored under `path`: replaced in place where the
/// path is present, added at the end where it is not.
pub open spec fn stored(
    a: Seq<(Seq<char>, Seq<char>)>,
    path: Seq<char>,
    content: Seq<char>,
    b: Seq<(Seq<char>, Seq<char>)>,
) -> bool {
    if exists|k: int| 0 <= k < a.len() && (#[trigger] a[k]).0 == path {
        exists|k: int| 0 <= k < a.len() && (#[trigger] a[k]).0 == path && b == a.update(k, (path, content))
    } else {
        b == a.push((path, content))
    }
}

impl<P> BundleMdxOptions<P> {
    pub open spec fn wf(&self) -> bool {
        paths_unique(files_view(self.files@))
    }
}

impl BundleMdxOptions<NoopPlugin> {
    /// Options holding just `source`.
    pub fn new(source: &str) -> (r: BundleMdxOptions<NoopPlugin>)
        ensures
            r.source@ == source@,
            r.files@.len() == 0,
            r.mdx_options is None,
            r.wf(),
    {
        BundleMdxOptions { source: string_from(source), files: Vec::new(), mdx_options: None }
    }
}

impl<P> BundleMdxOptions<P> {
    /// Stores `content` under `path`, replacing an earlier file of that path.
    pub fn with_file(self, path: &str, content: &str) -> (r: BundleMdxOptions<P>)
        requires
            self.wf(),
        ensures
            r.wf(),
            stored(files_view(self.files@), path@, content@, files_view(r.files@)),
            r.source == self.source,
            r.mdx_options == self.mdx_options,
    {
        let mut s = self;
        let ghost a = files_view(s.files@);
        let p = string_from(path);
        let mut k: usize = 0;
        while k < s.files.len()
            invariant
                k <= s.files@.len(),
                a == files_view(s.files@),
                a == files_view(self.files@),
                p@ == path@,
                s.source == self.source,
                s.mdx_options == self.mdx_options,
                paths_unique(a),
                forall|m: int| 0 <= m < k ==> a[m].0 != path@,
            decreases s.files.len() - k,
        {
            if s.files[k].path == p {
                let f = VirtualFile { path: p, content: string_from(content) };
                s.files.set(k, f);
                assert(files_view(s.files@) =~= a.update(k as int, (path@, content@)));
                assert(a[k as int].0 == path@);
                assert(paths_unique(files_view(s.files@)));
                assert(stored(a, path@, content@, files_view(s.files@)));
                return s;
            }
            k = k + 1;
        }
        s.files.push(VirtualFile { path: p, content: string_from(content) });
        assert(files_view(s.files@) =~= a.push((path@, content@)));
        assert(!exists|m: int| 0 <= m < a.len() && (#[trigger] a[m]).0 == path@);
        s
    }

    /// Sets the compile options.
    pub fn with_mdx_options<Q>(self, options: MdxCompileOptions<Q>) -> (r: BundleMdxOptions<Q>)
        ensures
            r.source == self.source,
            r.files == self.files,
            r.mdx_options == Some(options),
    {
        BundleMdxOptions { source: self.source, files: self.files, mdx_options: Some(options) }
    }
}

/// The bundled code and the document's frontmatter.
#[derive(Debug, Clone)]
pub struct BundleMdxResult {
    pub code: String,
    pub frontmatter: Option<Frontmatter>,
}

impl BundleMdxResult {
    /// Size of the code in bytes.
    pub fn size(&self) -> (r: usize)
        ensures
            r == vstd::utf8::encode_utf8(self.code@).len() as usize,
    {
        self.code.as_str().len()
    }

    pub fn has_frontmatter(&self) -> (r: bool)
        ensures
            r == self.frontmatter is Some,
    {
        self.frontmatter.is_some()
    }
}


/// Path under which the compiled document is handed to the bundler.
pub const ENTRY_PATH: &'static str = "__mdx_entry__.jsx";

impl<P> BundleMdxOptions<P> {
    /// The compile options to use: those given, else all syntax extensions
    /// with the default passes.
    pub fn resolved_mdx_options(self) -> (r: MdxCompileOptions<P>)
        ensures
            self.mdx_options is Some ==> r == self.mdx_options->Some_0,
            self.mdx_options is None ==> r.gfm && r.footnotes && r.math && r.filepath is None
                && r.jsx_runtime@ == "react/jsx-runtime"@
                && r.plugins@ == seq![
                    Plugin::<P>::HeadingIds,
                    Plugin::<P>::ImageOptimization,
                    Plugin::<P>::LinkValidation,
                ],
    {
        match self.mdx_options {
            Some(o) => o,
            None => {
                let o = MdxCompileOptions::new_with_custom().with_all_features().with_default_plugins();
                assert(o.plugins@ =~= seq![
                    Plugin::<P>::HeadingIds,
                    Plugin::<P>::ImageOptimization,
                    Plugin::<P>::LinkValidation,
                ]);
                o
            },
        }
    }

    /// The bundler's file system: the compiled entry first, then the given
    /// files; a given file at the entry's path replaces the entry.
    pub fn virtual_files(self, entry_code: &str) -> (r: Vec<VirtualFile>)
        requires
            self.wf(),
        ensures
            paths_unique(files_view(r@)),
            ({
                let e = seq![(ENTRY_PATH@, entry_code@)];
                let f = files_view(self.files@);
                if exists|k: int| 0 <= k < f.len() && (#[trigger] f[k]).0 == ENTRY_PATH@ {
                    files_view(r@) == f
                } else {
                    files_view(r@) == e + f
                }
            }),
    {
        let ghost f = files_view(self.files@);
        let entry = string_from(ENTRY_PATH);
        let mut k: usize = 0;
        while k < self.files.len()
            invariant
                k <= self.files@.len(),
                f == files_view(self.files@),
                entry@ == ENTRY_PATH@,
                paths_unique(f),
                forall|m: int| 0 <= m < k ==> f[m].0 != ENTRY_PATH@,
            decreases self.files.len() - k,
        {
            if self.files[k].path == entry {
                assert(f[k as int].0 == ENTRY_PATH@);
                return self.files;
            }
            k = k + 1;
        }
        let mut out: Vec<VirtualFile> = Vec::new();
        out.push(VirtualFile { path: entry, content: string_from(entry_code) });
        let mut rest = self.files;
        out.append(&mut rest);
        assert(files_view(out@) =~= seq![(ENTRY_PATH@, entry_code@)] + f);
        assert forall|a: int, b: int| 0 <= a < b < files_view(out@).len()
            implies files_view(out@)[a].0 != files_view(out@)[b].0 by {
            if a == 0 {
                assert(files_view(out@)[b] == f[b - 1]);
            } else {
                assert(files_view(out@)[a] == f[a - 1]);
                assert(files_view(out@)[b] == f[b - 1]);
            }
        }
        out
    }
}

} // verus!
