use bunny_mdx::assemble::{CONTENT_HEAD, CONTENT_TAIL};
use bunny_mdx::compile::{compile_document, mdast_to_jsx, MdxCompileOptions};
use bunny_mdx::error::ErrorKind;
use bunny_mdx::frontmatter::FrontmatterFormat;
use bunny_mdx::error::MdxError;
use bunny_mdx::plugins::{MdxPlugin, Plugin};
use bunny_mdx::tree::{Attribute, Document, NodeKind};

const RT: &str = "import {jsx as _jsx, jsxs as _jsxs} from 'react/jsx-runtime';";
const RT_FRAG: &str =
    "import {jsx as _jsx, jsxs as _jsxs, Fragment as _Fragment} from 'react/jsx-runtime';";

fn text(doc: &mut Document, parent: usize, s: &str) -> usize {
    doc.add_child(parent, NodeKind::Text { value: s.to_string() })
}

fn heading(doc: &mut Document, depth: u8, s: &str) -> usize {
    let h = doc.add_child(0, NodeKind::Heading { depth, id: None });
    text(doc, h, s);
    h
}

fn paragraph(doc: &mut Document, s: &str) -> usize {
    let p = doc.add_child(0, NodeKind::Paragraph);
    text(doc, p, s);
    p
}

fn esm(doc: &mut Document, s: &str) -> usize {
    doc.add_child(0, NodeKind::Esm { value: s.to_string() })
}

fn module(runtime: &str, body: &str) -> String {
    format!("{}\n\n{}{}{}", runtime, CONTENT_HEAD, body, CONTENT_TAIL)
}

#[test]
fn single_heading_is_returned_bare() {
    let mut doc = Document::new();
    heading(&mut doc, 1, "Hello");
    let r = compile_document(doc, &MdxCompileOptions::new()).unwrap();
    assert_eq!(r.code, module(RT, "_jsx(_components.h1, {children: \"Hello\"})"));
    assert!(!r.code.contains("_Fragment"));
}

#[test]
fn two_blocks_are_wrapped_in_a_fragment() {
    let mut doc = Document::new();
    heading(&mut doc, 2, "A");
    paragraph(&mut doc, "b");
    let r = compile_document(doc, &MdxCompileOptions::new()).unwrap();
    assert_eq!(
        r.code,
        module(
            RT_FRAG,
            "_jsxs(_Fragment, {children: [_jsx(_components.h2, {children: \"A\"}), _jsx(_components.p, {children: \"b\"})]})"
        )
    );
}

#[test]
fn empty_document_returns_null() {
    let doc = Document::new();
    let r = compile_document(doc, &MdxCompileOptions::new()).unwrap();
    assert_eq!(r.code, module(RT, "null"));
    assert!(r.images.is_empty());
    assert!(r.frontmatter.is_none());
}

#[test]
fn yaml_frontmatter_becomes_one_named_export() {
    let mut doc = Document::new();
    doc.add_child(0, NodeKind::Yaml { value: "title: Test".to_string() });
    heading(&mut doc, 1, "Hello");
    let r = compile_document(doc, &MdxCompileOptions::new()).unwrap();
    let fm = r.frontmatter.clone().unwrap();
    assert_eq!(fm.raw, "title: Test");
    assert_eq!(fm.format, FrontmatterFormat::Yaml);
    assert_eq!(fm.json, "{\"title\":\"Test\"}");
    assert_eq!(fm.data["title"], serde_json::Value::String("Test".to_string()));
    let line = "export const frontmatter = {\"title\":\"Test\"};";
    assert_eq!(r.code.matches("export const frontmatter").count(), 1);
    assert!(r.code.contains(line));
    let v: serde_json::Value = serde_json::from_str(&fm.json).unwrap();
    let mut m = serde_json::Map::new();
    m.insert("title".to_string(), serde_json::Value::String("Test".to_string()));
    assert_eq!(v, serde_json::Value::Object(m));
    assert_eq!(r.code, format!("{}\n\n{}\n\n{}{}{}", RT, line, CONTENT_HEAD, "_jsx(_components.h1, {children: \"Hello\"})", CONTENT_TAIL));
}

#[test]
fn no_leading_block_means_no_frontmatter() {
    let mut doc = Document::new();
    paragraph(&mut doc, "x");
    doc.add_child(0, NodeKind::Yaml { value: "title: Late".to_string() });
    let r = compile_document(doc, &MdxCompileOptions::new()).unwrap();
    assert!(r.frontmatter.is_none());
    assert!(!r.code.contains("export const frontmatter"));
}

#[test]
fn malformed_yaml_fails_the_compile() {
    let mut doc = Document::new();
    doc.add_child(0, NodeKind::Yaml { value: "title: Test\nthis line has no separator".to_string() });
    heading(&mut doc, 1, "Hello");
    let e = compile_document(doc, &MdxCompileOptions::new()).unwrap_err();
    assert_eq!(e.kind, ErrorKind::FrontmatterParse);
    assert!(e.message.starts_with("Failed to parse YAML frontmatter: "));
}

#[test]
fn yaml_mapping_inside_a_value_is_rejected() {
    let mut doc = Document::new();
    doc.add_child(0, NodeKind::Yaml { value: "a: b: c".to_string() });
    let e = compile_document(doc, &MdxCompileOptions::new()).unwrap_err();
    assert_eq!(e.kind, ErrorKind::FrontmatterParse);
}

#[test]
fn toml_frontmatter_values() {
    let mut doc = Document::new();
    doc.add_child(0, NodeKind::Toml { value: "# meta\ncount = 3\ndraft = true\nname = \"x\"\n".to_string() });
    let r = compile_document(doc, &MdxCompileOptions::new()).unwrap();
    let fm = r.frontmatter.unwrap();
    assert_eq!(fm.format, FrontmatterFormat::Toml);
    assert_eq!(fm.json, "{\"count\":3,\"draft\":true,\"name\":\"x\"}");
    assert!(r.code.contains("export const frontmatter = {\"count\":3,\"draft\":true,\"name\":\"x\"};"));
}

#[test]
fn toml_bare_word_is_rejected() {
    let mut doc = Document::new();
    doc.add_child(0, NodeKind::Toml { value: "title = Test".to_string() });
    let e = compile_document(doc, &MdxCompileOptions::new()).unwrap_err();
    assert_eq!(e.kind, ErrorKind::FrontmatterParse);
    assert!(e.message.starts_with("Failed to parse TOML frontmatter: "));
}

#[test]
fn statements_keep_their_groups_and_order() {
    let mut doc = Document::new();
    esm(&mut doc, "export { x } from './x.js'");
    esm(&mut doc, "import A from './a.js'");
    paragraph(&mut doc, "one");
    esm(&mut doc, "export const first = 1");
    esm(&mut doc, "  import B from './b.js'  ");
    paragraph(&mut doc, "two");
    esm(&mut doc, "export const second = 2");
    esm(&mut doc, "import C from './c.js'");
    esm(&mut doc, "export default Layout");
    let r = compile_document(doc, &MdxCompileOptions::new()).unwrap();
    assert_eq!(r.imports, vec!["import A from './a.js'", "import B from './b.js'", "import C from './c.js'"]);
    assert_eq!(r.named_exports, vec!["export const first = 1", "export const second = 2"]);
    assert_eq!(r.reexports, vec!["export { x } from './x.js'"]);
    assert_eq!(r.default_export, Some("Layout".to_string()));
    let c = &r.code;
    let pos = |s: &str| c.find(s).unwrap();
    assert!(pos("import A") < pos("import B"));
    assert!(pos("import B") < pos("import C"));
    assert!(pos("import C") < pos("export const first"));
    assert!(pos("export const first") < pos("export const second"));
    assert!(pos("export const second") < pos("export default function MDXContent"));
    assert!(pos("export default function MDXContent") < pos("export { x } from"));
    assert!(!c.contains("export default Layout"));
    assert!(c.ends_with("\n}\n\nexport { x } from './x.js'"));
}

#[test]
fn repeated_image_is_listed_twice() {
    let mut doc = Document::new();
    let p = doc.add_child(0, NodeKind::Paragraph);
    doc.add_child(p, NodeKind::Image { url: "./cat.png".to_string(), alt: "a".to_string(), lazy: false });
    doc.add_child(p, NodeKind::Image { url: "./dog.png".to_string(), alt: "b".to_string(), lazy: false });
    doc.add_child(p, NodeKind::Image { url: "./cat.png".to_string(), alt: "c".to_string(), lazy: false });
    let r = compile_document(doc, &MdxCompileOptions::new()).unwrap();
    assert_eq!(r.images, vec!["./cat.png", "./dog.png", "./cat.png"]);
    assert!(r.code.contains("_jsx(_components.img, {src: \"./cat.png\", alt: \"a\"})"));
}

#[test]
fn imported_component_is_referenced_directly() {
    let mut doc = Document::new();
    esm(&mut doc, "import X from './X.jsx'");
    let x = doc.add_child(0, NodeKind::Element { name: "X".to_string(), attrs: vec![] });
    text(&mut doc, x, "Click");
    let y = doc.add_child(0, NodeKind::Element { name: "Y".to_string(), attrs: vec![] });
    text(&mut doc, y, "Other");
    let r = compile_document(doc, &MdxCompileOptions::new()).unwrap();
    assert!(r.code.contains("_jsx(X, {children: \"Click\"})"));
    assert!(r.code.contains("_jsx((_components[\"y\"] || \"y\"), {children: \"Other\"})"));
}

#[test]
fn failing_plugin_stops_before_codegen() {
    let mut doc = Document::new();
    let p = doc.add_child(0, NodeKind::Paragraph);
    let a = doc.add_child(p, NodeKind::Link { url: "".to_string() });
    text(&mut doc, a, "nowhere");
    let opts = MdxCompileOptions::new().with_plugin(Plugin::HeadingIds).with_plugin(Plugin::LinkValidation);
    let e = compile_document(doc, &opts).unwrap_err();
    assert_eq!(e.kind, ErrorKind::Plugin);
    assert_eq!(
        e.message,
        "Plugin 'link-validation' failed during AST transformation: a link target is empty or holds whitespace"
    );
}

#[test]
fn same_input_gives_same_output() {
    let build = || {
        let mut doc = Document::new();
        let l = doc.add_child(0, NodeKind::List { ordered: false });
        for s in ["a", "b"] {
            let li = doc.add_child(l, NodeKind::ListItem { checked: None });
            text(&mut doc, li, s);
        }
        let p = doc.add_child(0, NodeKind::Paragraph);
        doc.add_child(p, NodeKind::Image { url: "i.png".to_string(), alt: String::new(), lazy: false });
        doc
    };
    let opts = MdxCompileOptions::new().with_default_plugins();
    let r1 = compile_document(build(), &opts).unwrap();
    let r2 = compile_document(build(), &opts).unwrap();
    assert_eq!(r1.code, r2.code);
    assert_eq!(r1.images, r2.images);
    assert_eq!(r1.named_exports, r2.named_exports);
    assert!(r1.code.contains("key: \"li-0\""));
    assert!(r1.code.contains("key: \"li-1\""));
}

#[test]
fn list_items_take_increasing_keys() {
    let mut doc = Document::new();
    let l = doc.add_child(0, NodeKind::List { ordered: true });
    for s in ["a", "b"] {
        let li = doc.add_child(l, NodeKind::ListItem { checked: None });
        text(&mut doc, li, s);
    }
    let r = compile_document(doc, &MdxCompileOptions::new()).unwrap();
    assert_eq!(
        r.code,
        module(RT, "_jsxs(_components.ol, {children: [_jsx(_components.li, {key: \"li-0\", children: \"a\"}), _jsx(_components.li, {key: \"li-1\", children: \"b\"})]})")
    );
}

#[test]
fn table_has_header_and_body() {
    let mut doc = Document::new();
    let t = doc.add_child(0, NodeKind::Table);
    for row in [["h1", "h2"], ["a", "b"]] {
        let tr = doc.add_child(t, NodeKind::TableRow);
        for cell in row {
            let td = doc.add_child(tr, NodeKind::TableCell);
            text(&mut doc, td, cell);
        }
    }
    let r = compile_document(doc, &MdxCompileOptions::new()).unwrap();
    assert_eq!(
        r.code,
        module(RT, "_jsxs(_components.table, {children: [_jsx(_components.thead, {children: _jsxs(_components.tr, {key: \"tr-0\", children: [_jsx(_components.th, {children: \"h1\"}), _jsx(_components.th, {children: \"h2\"})]})}), _jsx(_components.tbody, {children: _jsxs(_components.tr, {key: \"tr-1\", children: [_jsx(_components.td, {children: \"a\"}), _jsx(_components.td, {children: \"b\"})]})})]})")
    );
}

#[test]
fn row_outside_table_is_an_internal_error() {
    let mut doc = Document::new();
    let tr = doc.add_child(0, NodeKind::TableRow);
    doc.add_child(tr, NodeKind::TableCell);
    let e = compile_document(doc, &MdxCompileOptions::new()).unwrap_err();
    assert_eq!(e.kind, ErrorKind::CodegenInvariant);
}

#[test]
fn heading_depth_seven_is_an_internal_error() {
    let mut doc = Document::new();
    heading(&mut doc, 7, "x");
    let e = compile_document(doc, &MdxCompileOptions::new()).unwrap_err();
    assert_eq!(e.kind, ErrorKind::CodegenInvariant);
}

#[test]
fn text_is_quoted_as_json() {
    let mut doc = Document::new();
    paragraph(&mut doc, "say \"hi\"\n");
    let r = compile_document(doc, &MdxCompileOptions::new()).unwrap();
    assert_eq!(r.code, module(RT, "_jsx(_components.p, {children: \"say \\\"hi\\\"\\n\"})"));
}

#[test]
fn heading_ids_come_from_text() {
    let mut doc = Document::new();
    heading(&mut doc, 2, "Hello World!");
    let opts = MdxCompileOptions::new().with_plugin(Plugin::HeadingIds);
    let r = compile_document(doc, &opts).unwrap();
    assert_eq!(r.code, module(RT, "_jsx(_components.h2, {id: \"hello-world\", children: \"Hello World!\"})"));
}

#[test]
fn images_marked_lazy_keep_their_url() {
    let mut doc = Document::new();
    let p = doc.add_child(0, NodeKind::Paragraph);
    doc.add_child(p, NodeKind::Image { url: "./image.png".to_string(), alt: "test".to_string(), lazy: false });
    let opts = MdxCompileOptions::new().with_default_plugins();
    let r = compile_document(doc, &opts).unwrap();
    assert_eq!(r.images, vec!["./image.png"]);
    assert!(r.code.contains("loading: \"lazy\""));
}

#[test]
fn code_math_and_footnotes() {
    let mut doc = Document::new();
    doc.add_child(0, NodeKind::Code { lang: Some("rust".to_string()), value: "fn main() {}".to_string() });
    doc.add_child(0, NodeKind::Math { value: "E = mc^2".to_string() });
    let p = doc.add_child(0, NodeKind::Paragraph);
    doc.add_child(p, NodeKind::InlineMath { value: "x".to_string() });
    doc.add_child(p, NodeKind::FootnoteReference { label: "1".to_string() });
    let d = doc.add_child(0, NodeKind::FootnoteDefinition { label: "1".to_string() });
    text(&mut doc, d, "Note");
    let r = compile_document(doc, &MdxCompileOptions::new()).unwrap();
    let c = &r.code;
    assert!(c.contains("_jsx(_components.pre, {children: _jsx(_components.code, {className: \"language-rust\", children: \"fn main() {}\"})})"));
    assert!(c.contains("_jsx(_components.div, {className: \"math math-display\", children: \"E = mc^2\"})"));
    assert!(c.contains("_jsx(_components.span, {className: \"math math-inline\", children: \"x\"})"));
    assert!(c.contains("_jsx(_components.sup, {children: _jsx(_components.a, {href: \"#fn-1\", id: \"fnref-1\", children: \"1\"})})"));
    assert!(c.contains("_jsxs(_components.div, {id: \"fn-1\", children: [\"Note\", _jsx(_components.a, {href: \"#fnref-1\", children: \"\u{21a9}\"})]})"));
}

#[test]
fn fragment_element_imports_the_fragment_factory() {
    let mut doc = Document::new();
    let f = doc.add_child(0, NodeKind::Element { name: String::new(), attrs: vec![] });
    text(&mut doc, f, "in");
    let r = compile_document(doc, &MdxCompileOptions::new()).unwrap();
    assert_eq!(r.code, module(RT_FRAG, "_jsx(_Fragment, {children: \"in\"})"));
}

#[test]
fn errors_carry_the_file_path() {
    let mut doc = Document::new();
    heading(&mut doc, 9, "x");
    let opts = MdxCompileOptions::new().with_filepath("post.mdx".to_string());
    let e = compile_document(doc, &opts).unwrap_err();
    assert_eq!(e.file, Some("post.mdx".to_string()));
}

#[test]
fn custom_runtime_path() {
    let doc = Document::new();
    let opts = MdxCompileOptions::new().with_jsx_runtime("preact/jsx-runtime".to_string());
    let r = compile_document(doc, &opts).unwrap();
    assert!(r.code.starts_with("import {jsx as _jsx, jsxs as _jsxs} from 'preact/jsx-runtime';\n\n"));
}

#[test]
fn default_options_entry_point() {
    let mut doc = Document::new();
    heading(&mut doc, 1, "Hi");
    let code = mdast_to_jsx(doc).unwrap();
    assert_eq!(code, module(RT, "_jsx(_components.h1, {children: \"Hi\"})"));
}

#[test]
fn attributes_become_quoted_properties() {
    let mut doc = Document::new();
    let attrs = vec![
        Attribute { name: "variant".to_string(), value: Some("primary".to_string()) },
        Attribute { name: "data-x".to_string(), value: None },
    ];
    let b = doc.add_child(0, NodeKind::Element { name: "Button".to_string(), attrs });
    text(&mut doc, b, "Go");
    let r = compile_document(doc, &MdxCompileOptions::new()).unwrap();
    assert_eq!(
        r.code,
        module(RT, "_jsx((_components[\"button\"] || \"button\"), {\"variant\": \"primary\", \"data-x\": true, children: \"Go\"})")
    );
}

#[test]
fn task_items_open_with_a_checkbox() {
    let mut doc = Document::new();
    let l = doc.add_child(0, NodeKind::List { ordered: false });
    let li = doc.add_child(l, NodeKind::ListItem { checked: Some(true) });
    text(&mut doc, li, "done");
    let r = compile_document(doc, &MdxCompileOptions::new()).unwrap();
    assert_eq!(
        r.code,
        module(RT, "_jsx(_components.ul, {children: _jsxs(_components.li, {key: \"li-0\", className: \"task-list-item\", children: [_jsx(_components.input, {type: \"checkbox\", checked: true, disabled: true}), \"done\"]})})")
    );
}

fn yaml_result(body: &str) -> Result<bunny_mdx::compile::MdxCompileResult, bunny_mdx::error::MdxError> {
    let mut doc = Document::new();
    doc.add_child(0, NodeKind::Yaml { value: body.to_string() });
    compile_document(doc, &MdxCompileOptions::new())
}

#[test]
fn yaml_nested_values_keep_their_structure() {
    let body = "title: Post\nurl: https://example.com\ntags: [a, \"b c\", 3]\nratio: 4.5\nm: {a: 1}\nl: [a, [b]]\nauthor:\n  name: Joy\n  links:\n    - x\n    - y";
    let r = yaml_result(body).unwrap();
    let fm = r.frontmatter.unwrap();
    assert_eq!(
        fm.json,
        "{\"title\":\"Post\",\"url\":\"https://example.com\",\"tags\":[\"a\",\"b c\",3],\"ratio\":4.5,\"m\":{\"a\":1},\"l\":[\"a\",[\"b\"]],\"author\":{\"name\":\"Joy\",\"links\":[\"x\",\"y\"]}}"
    );
    assert_eq!(fm.data["author"]["links"][1], serde_json::Value::String("y".to_string()));
    assert!(r.code.contains(&format!("export const frontmatter = {};", fm.json)));
}

#[test]
fn unclosed_flow_list_is_rejected() {
    let e = yaml_result("title: [unclosed").unwrap_err();
    assert_eq!(e.kind, ErrorKind::FrontmatterParse);
    assert!(e.message.starts_with("Failed to parse YAML frontmatter: "));
    assert!(e.message.len() > "Failed to parse YAML frontmatter: ".len());
}

#[test]
fn unclosed_quote_is_rejected() {
    assert_eq!(yaml_result("title: \"open").unwrap_err().kind, ErrorKind::FrontmatterParse);
}

#[test]
fn toml_arrays() {
    let mut doc = Document::new();
    doc.add_child(0, NodeKind::Toml { value: "xs = [1, 2.5, \"z\"]".to_string() });
    let r = compile_document(doc, &MdxCompileOptions::new()).unwrap();
    assert!(r.code.contains("export const frontmatter = {\"xs\":[1,2.5,\"z\"]};"));
}

struct Banner;

impl MdxPlugin for Banner {
    fn transform_ast(&self, _doc: &mut Document) -> Result<(), MdxError> {
        Ok(())
    }
    fn transform_jsx(&self, code: &mut String) -> Result<(), MdxError> {
        code.insert_str(0, "// built\n");
        Ok(())
    }
}

struct Refuse;

impl MdxPlugin for Refuse {
    fn transform_ast(&self, _doc: &mut Document) -> Result<(), MdxError> {
        Err(MdxError::new(ErrorKind::Plugin, "no".to_string()))
    }
    fn transform_jsx(&self, _code: &mut String) -> Result<(), MdxError> {
        Ok(())
    }
}

#[test]
fn caller_plugins_run_in_registration_order() {
    let mut doc = Document::new();
    heading(&mut doc, 1, "A b");
    let opts = MdxCompileOptions::new_with_custom()
        .with_plugin(Plugin::Custom { name: "banner".to_string(), pass: Banner })
        .with_plugin(Plugin::HeadingIds);
    let r = compile_document(doc, &opts).unwrap();
    assert_eq!(r.code, format!("// built\n{}", module(RT, "_jsx(_components.h1, {id: \"a-b\", children: \"A b\"})")));
}

#[test]
fn failing_caller_plugin_is_named() {
    let mut doc = Document::new();
    heading(&mut doc, 1, "A");
    let opts = MdxCompileOptions::new_with_custom().with_plugin(Plugin::Custom { name: "refuse".to_string(), pass: Refuse });
    let e = compile_document(doc, &opts).unwrap_err();
    assert_eq!(e.kind, ErrorKind::Plugin);
    assert_eq!(e.message, "Plugin 'refuse' failed during AST transformation: no");
}

#[test]
fn duplicate_yaml_keys_never_repeat_in_the_export() {
    match yaml_result("a: 1\na: 2") {
        Ok(r) => assert_eq!(r.frontmatter.unwrap().json.matches("\"a\"").count(), 1),
        Err(e) => assert_eq!(e.kind, ErrorKind::FrontmatterParse),
    }
}

#[test]
fn toml_tables_nest() {
    let mut doc = Document::new();
    doc.add_child(0, NodeKind::Toml { value: "title = \"T\"\n[author]\nname = \"Joy\"\n".to_string() });
    let r = compile_document(doc, &MdxCompileOptions::new()).unwrap();
    assert_eq!(r.frontmatter.unwrap().json, "{\"title\":\"T\",\"author\":{\"name\":\"Joy\"}}");
}
