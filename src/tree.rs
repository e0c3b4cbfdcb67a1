//! The document tree: an arena of nodes addressed by index.
//!
//! Node 0 is the root. A node's children are indices of later nodes, so every
//! walk from a node down through its children ends.
use vstd::prelude::*;

verus! {

/// What a node is, with the data that its kind carries.
#[derive(Debug, Clone)]
pub enum NodeKind {
    Root,
    Heading { depth: u8, id: Option<String> },
    Paragraph,
    Text { value: String },
    Emphasis,
    Strong,
    Delete,
    Blockquote,
    List { ordered: bool },
    /// `checked` is set on a task-list item.
    ListItem { checked: Option<bool> },
    Table,
    TableRow,
    TableCell,
    Code { lang: Option<String>, value: String },
    InlineCode { value: String },
    Link { url: String },
    Image { url: String, alt: String, lazy: bool },
    FootnoteReference { label: String },
    FootnoteDefinition { label: String },
    InlineMath { value: String },
    Math { value: String },
    /// A component tag; the empty name is a fragment.
    Element { name: String, attrs: Vec<Attribute> },
    Html { value: String },
    /// Raw module code (an import or export statement).
    Esm { value: String },
    Yaml { value: String },
    Toml { value: String },
    ThematicBreak,
    Break,
}

/// A literal attribute of a component tag; no value means `true`.
#[derive(Debug, Clone)]
pub struct Attribute {
    pub name: String,
    pub value: Option<String>,
}

#[derive(Debug, Clone)]
pub struct Node {
    pub kind: NodeKind,
    pub children: Vec<usize>,
}

#[derive(Debug, Clone)]
pub struct Document {
    pub nodes: Vec<Node>,
}

impl Document {
    /// A root node holds index 0 and every child index points further on.
    pub open spec fn wf(&self) -> bool {
        &&& self.nodes@.len() > 0
        &&& self.nodes@[0].kind is Root
        &&& forall|i: int, j: int|
            #![trigger self.nodes@[i].children@[j]]
            0 <= i < self.nodes@.len() && 0 <= j < self.nodes@[i].children@.len()
                ==> i < self.nodes@[i].children@[j] < self.nodes@.len()
    }

    pub open spec fn top(&self) -> Seq<usize> {
        self.nodes@[0].children@
    }

    /// A document holding only an empty root.
    pub fn new() -> (r: Document)
        ensures
            r.wf(),
            r.top().len() == 0,
            r.nodes@.len() == 1,
    {
        let root = Node { kind: NodeKind::Root, children: Vec::new() };
        let mut nodes: Vec<Node> = Vec::new();
        nodes.push(root);
        Document { nodes }
    }

    /// Adds a node of `kind` with no children as the last child of `parent`,
    /// and returns its index.
    pub fn add_child(&mut self, parent: usize, kind: NodeKind) -> (r: usize)
        requires
            old(self).wf(),
            parent < old(self).nodes@.len(),
            old(self).nodes@.len() < usize::MAX,
        ensures
            final(self).wf(),
            r == old(self).nodes@.len(),
            final(self).nodes@.len() == r + 1,
            final(self).nodes@[r as int].kind == kind,
            final(self).nodes@[r as int].children@.len() == 0,
            final(self).nodes@[parent as int].kind == old(self).nodes@[parent as int].kind,
            final(self).nodes@[parent as int].children@ == old(self).nodes@[parent as int].children@.push(r),
            forall|k: int| 0 <= k < r && k != parent ==> final(self).nodes@[k] == old(self).nodes@[k],
    {
        let n = self.nodes.len();
        self.nodes.push(Node { kind, children: Vec::new() });
        let ghost mid = self.nodes@;
        let mut p = self.nodes.remove(parent);
        p.children.push(n);
        self.nodes.insert(parent, p);
        assert forall|i: int, j: int|
            #![trigger self.nodes@[i].children@[j]]
            0 <= i < self.nodes@.len() && 0 <= j < self.nodes@[i].children@.len()
                implies i < self.nodes@[i].children@[j] < self.nodes@.len() by {
            if i != parent {
                assert(self.nodes@[i] == mid[i]);
            } else if j < old(self).nodes@[parent as int].children@.len() {
                assert(self.nodes@[i].children@[j] == old(self).nodes@[i].children@[j]);
            }
        }
        n
    }
}

} // verus!
