//! Assembly of the final module text.
//!
//! Sections, in order: the runtime import, the document's imports, its named
//! exports, the default-export component, its re-exports.
use vstd::prelude::*;
use crate::frontmatter::Frontmatter;
use crate::text::{join, join_strings, string_from, strs};

verus! {

/// Opening of the default-export component, up to its returned expression.
pub const CONTENT_HEAD: &'static str = "export default function MDXContent({components: _cProp = {}, ...props}) {\n  const _components = Object.assign({\n    h1: \"h1\", h2: \"h2\", h3: \"h3\", h4: \"h4\", h5: \"h5\", h6: \"h6\",\n    p: \"p\", a: \"a\", strong: \"strong\", em: \"em\", code: \"code\", pre: \"pre\",\n    blockquote: \"blockquote\", ul: \"ul\", ol: \"ol\", li: \"li\",\n    table: \"table\", thead: \"thead\", tbody: \"tbody\", tr: \"tr\", th: \"th\", td: \"td\",\n    hr: \"hr\", br: \"br\", img: \"img\", del: \"del\", div: \"div\", span: \"span\", sup: \"sup\", input: \"input\"\n  }, _cProp);\n  return ";

/// Close of the default-export component.
pub const CONTENT_TAIL: &'static str = ";\n}";

pub open spec fn runtime_line(frag: bool, runtime: Seq<char>) -> Seq<char> {
    if frag {
        "import {jsx as _jsx, jsxs as _jsxs, Fragment as _Fragment} from '"@ + runtime + "';"@
    } else {
        "import {jsx as _jsx, jsxs as _jsxs} from '"@ + runtime + "';"@
    }
}

/// What the component returns: `null`, the one expression, or a fragment of all.
pub open spec fn body_expr(exprs: Seq<Seq<char>>) -> Seq<char> {
    if exprs.len() == 0 {
        "null"@
    } else if exprs.len() == 1 {
        exprs[0]
    } else {
        "_jsxs(_Fragment, {children: ["@ + join(exprs, ", "@) + "]})"@
    }
}

/// The fragment factory is imported when the body wraps several expressions
/// or when a fragment element was emitted.
pub open spec fn needs_fragment(exprs: Seq<Seq<char>>, frag: bool) -> bool {
    exprs.len() > 1 || frag
}

pub open spec fn module_text(
    runtime: Seq<char>,
    imports: Seq<Seq<char>>,
    named: Seq<Seq<char>>,
    reexports: Seq<Seq<char>>,
    exprs: Seq<Seq<char>>,
    frag: bool,
) -> Seq<char> {
    join(seq![runtime_line(needs_fragment(exprs, frag), runtime)] + imports, "\n"@) + "\n\n"@
        + (if named.len() > 0 { join(named, "\n"@) + "\n\n"@ } else { Seq::empty() })
        + CONTENT_HEAD@ + body_expr(exprs) + CONTENT_TAIL@
        + (if reexports.len() > 0 { "\n\n"@ + join(reexports, "\n"@) } else { Seq::empty() })
}

/// The named export that carries the frontmatter data, if any.
pub open spec fn frontmatter_export(fm: Option<Frontmatter>) -> Seq<Seq<char>> {
    match fm {
        Some(f) => seq!["export const frontmatter = "@ + f.json@ + ";"@],
        None => Seq::empty(),
    }
}

/// The module text from its parts.
pub fn assemble_module(
    runtime: &str,
    imports: &Vec<String>,
    named: &Vec<String>,
    reexports: &Vec<String>,
    exprs: &Vec<String>,
    frag: bool,
) -> (r: String)
    ensures
        r@ == module_text(runtime@, strs(imports@), strs(named@), strs(reexports@), strs(exprs@), frag),
{
    let fragment = exprs.len() > 1 || frag;
    let mut line = if fragment {
        string_from("import {jsx as _jsx, jsxs as _jsxs, Fragment as _Fragment} from '")
    } else {
        string_from("import {jsx as _jsx, jsxs as _jsxs} from '")
    };
    line.append(runtime);
    line.append("';");
    let mut all: Vec<String> = Vec::new();
    all.push(line);
    let mut k: usize = 0;
    while k < imports.len()
        invariant
            k <= imports@.len(),
            strs(all@) == seq![runtime_line(fragment, runtime@)] + strs(imports@).take(k as int),
        decreases imports.len() - k,
    {
        let ghost before = strs(all@);
        let im = imports[k].clone();
        all.push(im);
        assert(strs(all@) =~= before.push(strs(imports@)[k as int]));
        assert(strs(all@) =~= seq![runtime_line(fragment, runtime@)] + strs(imports@).take(k as int + 1));
        k = k + 1;
    }
    assert(strs(imports@).take(k as int) =~= strs(imports@));
    let mut out = join_strings(&all, "\n");
    out.append("\n\n");
    if named.len() > 0 {
        let j = join_strings(named, "\n");
        out.append(j.as_str());
        out.append("\n\n");
    }
    out.append(CONTENT_HEAD);
    if exprs.len() == 0 {
        out.append("null");
    } else if exprs.len() == 1 {
        out.append(exprs[0].as_str());
    } else {
        out.append("_jsxs(_Fragment, {children: [");
        let j = join_strings(exprs, ", ");
        out.append(j.as_str());
        out.append("]})");
    }
    out.append(CONTENT_TAIL);
    if reexports.len() > 0 {
        out.append("\n\n");
        let j = join_strings(reexports, "\n");
        out.append(j.as_str());
    }
    assert(out@ =~= module_text(runtime@, strs(imports@), strs(named@), strs(reexports@), strs(exprs@), frag));
    out
}


/// No content gives a `null` body; one expression is returned bare with no
/// fragment import (unless a fragment element was emitted); two or more are
/// wrapped in a fragment and the fragment factory is imported.
pub proof fn law_fragment_rule(exprs: Seq<Seq<char>>, frag: bool, runtime: Seq<char>)
    ensures
        exprs.len() == 0 ==> body_expr(exprs) == "null"@,
        exprs.len() == 1 ==> body_expr(exprs) == exprs[0],
        exprs.len() <= 1 && !frag ==> runtime_line(needs_fragment(exprs, frag), runtime)
            == "import {jsx as _jsx, jsxs as _jsxs} from '"@ + runtime + "';"@,
        exprs.len() >= 2 ==> body_expr(exprs) == "_jsxs(_Fragment, {children: ["@ + join(exprs, ", "@) + "]})"@,
        exprs.len() >= 2 ==> runtime_line(needs_fragment(exprs, frag), runtime)
            == "import {jsx as _jsx, jsxs as _jsxs, Fragment as _Fragment} from '"@ + runtime + "';"@,
{
}

} // verus!
