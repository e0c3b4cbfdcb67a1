use bunny_mdx::bundle::{BundleMdxOptions, BundleMdxResult};
use bunny_mdx::compile::MdxCompileOptions;
use bunny_mdx::esm::{classify, extract_imported_names, StatementKind};
use bunny_mdx::text::{decimal_string, join_strings, lowercase};

fn chars(s: &str) -> Vec<char> {
    s.chars().collect()
}

#[test]
fn classification_order() {
    assert_eq!(classify(&chars("export { a } from './a'")), StatementKind::Reexport);
    assert_eq!(classify(&chars("export * from './a'")), StatementKind::Reexport);
    assert_eq!(classify(&chars("export const meta = {}")), StatementKind::NamedExport);
    assert_eq!(classify(&chars("export default Layout")), StatementKind::DefaultExport);
    assert_eq!(classify(&chars("import A from './a'")), StatementKind::Import);
    assert_eq!(classify(&chars("const x = 1")), StatementKind::Import);
}

#[test]
fn imported_names_of_each_form() {
    assert_eq!(extract_imported_names(&chars("import Button from './Button.jsx'")), vec!["Button"]);
    assert_eq!(
        extract_imported_names(&chars("import A, {B as C, D} from './x'")),
        vec!["A", "C", "D"]
    );
    assert_eq!(extract_imported_names(&chars("import * as NS from \"./ns\"")), vec!["NS"]);
    assert!(extract_imported_names(&chars("import './styles.css'")).is_empty());
    assert!(extract_imported_names(&chars("export const a = 1")).is_empty());
}

#[test]
fn helpers() {
    assert_eq!(decimal_string(0), "0");
    assert_eq!(decimal_string(1203), "1203");
    assert_eq!(lowercase("MyTag-X"), "mytag-x");
    assert_eq!(join_strings(&vec!["a".to_string(), "b".to_string(), "c".to_string()], ", "), "a, b, c");
    assert_eq!(join_strings(&vec![], ", "), "");
}

#[test]
fn bundle_options_store_files_by_path() {
    let o = BundleMdxOptions::new("# Hello")
        .with_file("./a.js", "one")
        .with_file("./b.js", "two")
        .with_file("./a.js", "three");
    assert_eq!(o.source, "# Hello");
    assert_eq!(o.files.len(), 2);
    assert_eq!(o.files[0].path, "./a.js");
    assert_eq!(o.files[0].content, "three");
    assert_eq!(o.files[1].content, "two");
    assert!(o.mdx_options.is_none());
    let o = o.with_mdx_options(MdxCompileOptions::new().with_all_features().with_default_plugins());
    let m = o.mdx_options.unwrap();
    assert!(m.gfm && m.footnotes && m.math);
    assert_eq!(m.plugins.len(), 3);
}

#[test]
fn bundle_result_size_and_frontmatter() {
    let r = BundleMdxResult { code: "héllo".to_string(), frontmatter: None };
    assert_eq!(r.size(), 6);
    assert!(!r.has_frontmatter());
}

#[test]
fn virtual_files_put_the_entry_first() {
    let o = BundleMdxOptions::new("# Hi").with_file("./Button.jsx", "export default 1");
    let files = o.virtual_files("code");
    assert_eq!(files.len(), 2);
    assert_eq!(files[0].path, bunny_mdx::bundle::ENTRY_PATH);
    assert_eq!(files[0].content, "code");
    assert_eq!(files[1].path, "./Button.jsx");
    let o = BundleMdxOptions::new("# Hi").with_file(bunny_mdx::bundle::ENTRY_PATH, "mine");
    let files = o.virtual_files("code");
    assert_eq!(files.len(), 1);
    assert_eq!(files[0].content, "mine");
}

#[test]
fn missing_compile_options_default_to_everything() {
    let o = BundleMdxOptions::new("# Hi").resolved_mdx_options();
    assert!(o.gfm && o.footnotes && o.math);
    assert_eq!(o.plugins.len(), 3);
    assert_eq!(o.jsx_runtime, "react/jsx-runtime");
    let given = MdxCompileOptions::new().with_jsx_runtime("preact/jsx-runtime".to_string());
    let o = BundleMdxOptions::new("# Hi").with_mdx_options(given).resolved_mdx_options();
    assert!(!o.gfm);
    assert_eq!(o.jsx_runtime, "preact/jsx-runtime");
}

#[test]
fn format_names() {
    assert_eq!(bunny_mdx::frontmatter::FrontmatterFormat::Yaml.name(), "yaml");
    assert_eq!(bunny_mdx::frontmatter::FrontmatterFormat::Toml.name(), "toml");
}
