//! Extraction of the leading metadata block.
//!
//! The block's body is YAML or TOML. It is parsed by the YAML and TOML
//! libraries into a JSON-equivalent tree (objects keep source order), which is
//! also kept as compact JSON text for the module's `frontmatter` export.
use vstd::prelude::*;
use crate::error::{ErrorKind, MdxError};
use crate::text::string_from;
use crate::tree::{Document, NodeKind};

verus! {

#[derive(Debug, Clone, Copy, PartialEq, Eq, Structural)]
pub enum FrontmatterFormat {
    Yaml,
    Toml,
}

impl FrontmatterFormat {
    /// `yaml` or `toml`.
    pub fn name(&self) -> (r: String)
        ensures
            r@ == (match self {
                FrontmatterFormat::Yaml => "yaml"@,
                FrontmatterFormat::Toml => "toml"@,
            }),
    {
        match self {
            FrontmatterFormat::Yaml => string_from("yaml"),
            FrontmatterFormat::Toml => string_from("toml"),
        }
    }
}

#[verifier::external_type_specification]
#[verifier::external_body]
pub struct ExJsonValue(serde_json::Value);

/// Relies on `serde_json::Value`'s `Clone`, which copies the tree; nothing is
/// claimed of the copy.
pub assume_specification[ <serde_json::Value as Clone>::clone ](v: &serde_json::Value) -> serde_json::Value;

/// The parsed block: its raw text, its format, its data as a tree, and the
/// same data as compact JSON text.
#[derive(Debug, Clone)]
pub struct Frontmatter {
    pub raw: String,
    pub format: FrontmatterFormat,
    pub data: serde_json::Value,
    pub json: String,
}

/// The compact JSON text of the YAML document `s`, or `None` when `s` is not
/// valid YAML (or holds a mapping key that is not a string).
pub uninterp spec fn yaml_to_json(s: Seq<char>) -> Option<Seq<char>>;

/// The compact JSON text of the TOML document `s`, or `None` when `s` is not
/// valid TOML.
pub uninterp spec fn toml_to_json(s: Seq<char>) -> Option<Seq<char>>;

/// Relies on `serde_yaml::from_str` into a `serde_json::Value` and on
/// `serde_json::to_string` of that value (which cannot fail on a `Value`):
/// whether the text parses, and the data as JSON text, depend on the text alone.
#[verifier::external_body]
fn parse_yaml(body: &str) -> (r: Result<(serde_json::Value, String), String>)
    ensures
        r is Ok <==> yaml_to_json(body@) is Some,
        r is Ok ==> r->Ok_0.1@ == yaml_to_json(body@)->Some_0,
{
    match serde_yaml::from_str::<serde_json::Value>(body) {
        Ok(v) => {
            let json = serde_json::to_string(&v).unwrap_or_default();
            Ok((v, json))
        },
        Err(e) => Err(e.to_string()),
    }
}

/// Relies on `toml::from_str` into a `serde_json::Value` and on
/// `serde_json::to_string` of that value (which cannot fail on a `Value`):
/// whether the text parses, and the data as JSON text, depend on the text alone.
#[verifier::external_body]
fn parse_toml(body: &str) -> (r: Result<(serde_json::Value, String), String>)
    ensures
        r is Ok <==> toml_to_json(body@) is Some,
        r is Ok ==> r->Ok_0.1@ == toml_to_json(body@)->Some_0,
{
    match toml::from_str::<serde_json::Value>(body) {
        Ok(v) => {
            let json = serde_json::to_string(&v).unwrap_or_default();
            Ok((v, json))
        },
        Err(e) => Err(e.to_string()),
    }
}

/// The data of a body in `fmt` as JSON text, or `None` when it does not parse.
pub open spec fn body_json(fmt: FrontmatterFormat, body: Seq<char>) -> Option<Seq<char>> {
    match fmt {
        FrontmatterFormat::Yaml => yaml_to_json(body),
        FrontmatterFormat::Toml => toml_to_json(body),
    }
}

/// How a block that does not parse is reported: the format, then the parser's message.
pub open spec fn frontmatter_error_prefix(fmt: FrontmatterFormat) -> Seq<char> {
    match fmt {
        FrontmatterFormat::Yaml => "Failed to parse YAML frontmatter: "@,
        FrontmatterFormat::Toml => "Failed to parse TOML frontmatter: "@,
    }
}

/// The data of block body `body` in format `fmt`; fails when it does not parse.
pub fn parse_frontmatter_body(fmt: FrontmatterFormat, body: &str) -> (r: Result<(serde_json::Value, String), MdxError>)
    ensures
        match body_json(fmt, body@) {
            Some(j) => r is Ok && r->Ok_0.1@ == j,
            None => r is Err && r->Err_0.kind == ErrorKind::FrontmatterParse && crate::text::starts_with(
                r->Err_0.message@,
                frontmatter_error_prefix(fmt),
            ),
        },
{
    let parsed = match fmt {
        FrontmatterFormat::Yaml => parse_yaml(body),
        FrontmatterFormat::Toml => parse_toml(body),
    };
    match parsed {
        Ok(x) => Ok(x),
        Err(inner) => {
            let mut m = match fmt {
                FrontmatterFormat::Yaml => string_from("Failed to parse YAML frontmatter: "),
                FrontmatterFormat::Toml => string_from("Failed to parse TOML frontmatter: "),
            };
            let ghost head = m@;
            m.append(inner.as_str());
            assert(m@.subrange(0, head.len() as int) =~= head);
            Err(MdxError::new(ErrorKind::FrontmatterParse, m))
        },
    }
}

/// The format and body of the block that opens the document, if any.
pub open spec fn leading_block(doc: Document) -> Option<(FrontmatterFormat, Seq<char>)> {
    if doc.top().len() > 0 && doc.top()[0] < doc.nodes@.len() {
        match doc.nodes@[doc.top()[0] as int].kind {
            NodeKind::Yaml { value } => Some((FrontmatterFormat::Yaml, value@)),
            NodeKind::Toml { value } => Some((FrontmatterFormat::Toml, value@)),
            _ => None,
        }
    } else {
        None
    }
}

/// `b` is `a` with the first top-level child taken off the root.
pub open spec fn without_first(a: Document, b: Document) -> bool {
    &&& b.nodes@.len() == a.nodes@.len()
    &&& b.nodes@[0].kind == a.nodes@[0].kind
    &&& b.top() == a.top().drop_first()
    &&& forall|k: int| 0 < k < a.nodes@.len() ==> b.nodes@[k] == a.nodes@[k]
}

/// Looks at the first top-level node only. A metadata block there is parsed
/// and taken off the tree; a block that does not parse is an error.
pub fn extract_frontmatter(doc: Document) -> (r: Result<(Document, Option<Frontmatter>), MdxError>)
    requires
        doc.wf(),
    ensures
        match leading_block(doc) {
            None => r is Ok && r->Ok_0.0 == doc && r->Ok_0.1 is None,
            Some((fmt, body)) => match body_json(fmt, body) {
                None => r is Err && r->Err_0.kind == ErrorKind::FrontmatterParse,
                Some(j) => r is Ok && without_first(doc, r->Ok_0.0) && r->Ok_0.0.wf() && ({
                    let fm = r->Ok_0.1;
                    &&& fm is Some
                    &&& fm->Some_0.raw@ == body
                    &&& fm->Some_0.format == fmt
                    &&& fm->Some_0.json@ == j
                }),
            },
        },
{
    if doc.nodes[0].children.len() == 0 {
        return Ok((doc, None));
    }
    let first = doc.nodes[0].children[0];
    let (fmt, body) = match &doc.nodes[first].kind {
        NodeKind::Yaml { value } => (FrontmatterFormat::Yaml, value.clone()),
        NodeKind::Toml { value } => (FrontmatterFormat::Toml, value.clone()),
        _ => {
            return Ok((doc, None));
        },
    };
    let (data, json) = parse_frontmatter_body(fmt, body.as_str())?;
    let mut doc = doc;
    let ghost before = doc;
    let mut root = doc.nodes.remove(0);
    root.children.remove(0);
    doc.nodes.insert(0, root);
    assert(doc.top() =~= before.top().drop_first());
    assert forall|k: int| 0 < k < before.nodes@.len() implies doc.nodes@[k] == before.nodes@[k] by {}
    assert forall|i: int, j: int|
        #![trigger doc.nodes@[i].children@[j]]
        0 <= i < doc.nodes@.len() && 0 <= j < doc.nodes@[i].children@.len()
            implies i < doc.nodes@[i].children@[j] < doc.nodes@.len() by {
        if i == 0 {
            assert(doc.nodes@[0].children@[j] == before.nodes@[0].children@[j + 1]);
        } else {
            assert(doc.nodes@[i] == before.nodes@[i]);
        }
    }
    Ok((doc, Some(Frontmatter { raw: body, format: fmt, data, json })))
}

} // verus!
