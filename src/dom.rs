//! A document tree held as an arena of nodes addressed by index, with the
//! searches and mutations that the walkers are built from.
use vstd::prelude::*;

use crate::text::str_equal;

verus! {

/// One attribute of an element: a namespace (empty for none), a local name
/// and a value.
pub struct Attribute {
    pub ns: String,
    pub name: String,
    pub value: String,
}

/// What a node is.
pub enum NodeData {
    Document,
    Doctype { name: String },
    Text { contents: String },
    Comment { contents: String },
    Element { ns: String, name: String, attrs: Vec<Attribute> },
    ProcessingInstruction { target: String, contents: String },
}

/// A node and the indices of its children, in order.
pub struct TreeNode {
    pub data: NodeData,
    pub children: Vec<usize>,
}

/// A document: node 0 is the document root; every child index is larger than
/// the index of its parent, so every walk from a node goes down and ends.
pub struct Dom {
    pub nodes: Vec<TreeNode>,
}

/// What a node is, as a value of the specification (element attributes
/// apart): an element is its namespace and local name.
pub enum NodeView {
    Document,
    Doctype(Seq<char>),
    Text(Seq<char>),
    Comment(Seq<char>),
    Element(Seq<char>, Seq<char>),
    ProcessingInstruction(Seq<char>, Seq<char>),
}

/// An attribute as a value: namespace, local name, value.
pub type AttrView = (Seq<char>, Seq<char>, Seq<char>);

/// A tree as a value: for each node, what it is, its attributes and the
/// indices of its children.
pub type Shape = Seq<(NodeView, Seq<AttrView>, Seq<usize>)>;

pub open spec fn data_view(d: NodeData) -> NodeView {
    match d {
        NodeData::Document => NodeView::Document,
        NodeData::Doctype { name } => NodeView::Doctype(name@),
        NodeData::Text { contents } => NodeView::Text(contents@),
        NodeData::Comment { contents } => NodeView::Comment(contents@),
        NodeData::Element { ns, name, .. } => NodeView::Element(ns@, name@),
        NodeData::ProcessingInstruction { target, contents } => NodeView::ProcessingInstruction(
            target@,
            contents@,
        ),
    }
}

pub open spec fn attr_view(a: Attribute) -> AttrView {
    (a.ns@, a.name@, a.value@)
}

/// The attributes of an element, as values; none for other nodes.
pub open spec fn attrs_view(d: NodeData) -> Seq<AttrView> {
    match d {
        NodeData::Element { attrs, .. } => attrs@.map_values(|a: Attribute| attr_view(a)),
        _ => seq![],
    }
}

pub open spec fn node_shape(n: TreeNode) -> (NodeView, Seq<AttrView>, Seq<usize>) {
    (data_view(n.data), attrs_view(n.data), n.children@)
}

/// The shape of a sequence of nodes.
pub open spec fn shape_of(nodes: Seq<TreeNode>) -> Shape {
    nodes.map_values(|n: TreeNode| node_shape(n))
}

/// A shape that a document can hold: the first node is a document, child
/// indices grow downwards and stay inside, and only documents and
/// elements have children.
pub open spec fn shape_wf(s: Shape) -> bool {
    &&& s.len() > 0
    &&& s[0].0 is Document
    &&& forall|i: int, k: int|
        0 <= i < s.len() && 0 <= k < s[i].2.len() ==> i < #[trigger] s[i].2[k] < s.len()
    &&& forall|i: int|
        0 <= i < s.len() && !(#[trigger] s[i].0 is Document || s[i].0 is Element) ==> s[i].2.len()
            == 0
}

/// `s` with every child index moved up by `base`.
pub open spec fn shift(s: Shape, base: nat) -> Shape {
    s.map_values(
        |e: (NodeView, Seq<AttrView>, Seq<usize>)|
            (e.0, e.1, e.2.map_values(|c: usize| (c + base) as usize)),
    )
}

/// Index of the document root.
pub const ROOT: usize = 0;

/// Whether a node of this kind may have children.
pub open spec fn may_have_children(d: NodeData) -> bool {
    d is Document || d is Element
}

/// `j` is the first attribute of `attrs` named `name`.
pub open spec fn first_attr_at(attrs: Seq<Attribute>, name: Seq<char>, j: int) -> bool {
    &&& 0 <= j < attrs.len()
    &&& attrs[j].name@ == name
    &&& forall|k: int| 0 <= k < j ==> attrs[k].name@ != name
}

/// The value of the first attribute of `attrs` named `name`.
pub open spec fn attr_value(attrs: Seq<Attribute>, name: Seq<char>) -> Option<Seq<char>> {
    if exists|j: int| first_attr_at(attrs, name, j) {
        Some(attrs[choose|j: int| first_attr_at(attrs, name, j)].value@)
    } else {
        None
    }
}

/// The value of attribute `name` of an element; `None` for other nodes.
pub open spec fn data_attr(d: NodeData, name: Seq<char>) -> Option<Seq<char>> {
    match d {
        NodeData::Element { attrs, .. } => attr_value(attrs@, name),
        _ => None,
    }
}

/// Whether `d` is an element with local name `tag`.
pub open spec fn is_element_named(d: NodeData, tag: Seq<char>) -> bool {
    match d {
        NodeData::Element { name, .. } => name@ == tag,
        _ => false,
    }
}

/// Whether `d` is an element whose `id` attribute is `id`.
pub open spec fn has_id(d: NodeData, id: Seq<char>) -> bool {
    d is Element && data_attr(d, "id"@) == Some(id)
}

/// `after` is `before` with the value of its first attribute `name` set to
/// `value`; a node that is no element, or has no such attribute, is unchanged.
pub open spec fn data_set_attr(before: NodeData, name: Seq<char>, value: Seq<char>, after: NodeData) -> bool {
    match before {
        NodeData::Element { ns, name: tag, attrs } => match after {
            NodeData::Element { ns: ns2, name: tag2, attrs: attrs2 } => {
                &&& ns2 == ns
                &&& tag2 == tag
                &&& attrs2@.len() == attrs@.len()
                &&& forall|j: int|
                    0 <= j < attrs@.len() ==> if first_attr_at(attrs@, name, j) {
                        (#[trigger] attrs2@[j]).ns == attrs@[j].ns && attrs2@[j].name == attrs@[j].name
                            && attrs2@[j].value@ == value
                    } else {
                        attrs2@[j] == attrs@[j]
                    }
            },
            _ => false,
        },
        _ => after == before,
    }
}

/// What a search looks for.
pub enum Query {
    /// An element with this `id`.
    Id(String),
    /// An element with this local name.
    Tag(String),
}

/// What a search looks for, as a value of the specification.
pub enum Wanted {
    Id(Seq<char>),
    Tag(Seq<char>),
}

impl View for Query {
    type V = Wanted;

    open spec fn view(&self) -> Wanted {
        match self {
            Query::Id(id) => Wanted::Id(id@),
            Query::Tag(tag) => Wanted::Tag(tag@),
        }
    }
}

pub open spec fn query_holds(q: Wanted, d: NodeData) -> bool {
    match q {
        Wanted::Id(id) => has_id(d, id),
        Wanted::Tag(tag) => is_element_named(d, tag),
    }
}

/// Children of `i` that keep the tree order (always all of them in a
/// well-formed document).
pub open spec fn child_ok(nodes: Seq<TreeNode>, i: int, k: int) -> bool {
    0 <= i < nodes.len() && 0 <= k < nodes[i].children@.len() && i < nodes[i].children@[k]
        < nodes.len()
}

/// The first node strictly below `i`, in pre-order, that satisfies `q`.
pub open spec fn find_below(nodes: Seq<TreeNode>, i: int, q: Wanted) -> Option<usize>
    decreases nodes.len() - i, 1int,
{
    if 0 <= i < nodes.len() {
        find_from(nodes, i, 0, q)
    } else {
        None
    }
}

/// The first node, in pre-order, in the subtrees of the children of `i` from
/// the `k`-th on, that satisfies `q`.
pub open spec fn find_from(nodes: Seq<TreeNode>, i: int, k: int, q: Wanted) -> Option<usize>
    decreases nodes.len() - i, 0int, nodes[i].children@.len() - k,
    when 0 <= i < nodes.len() && 0 <= k
{
    if child_ok(nodes, i, k) {
        let c = nodes[i].children@[k];
        if query_holds(q, nodes[c as int].data) {
            Some(c)
        } else {
            match find_below(nodes, c as int, q) {
                Some(x) => Some(x),
                None => find_from(nodes, i, k + 1, q),
            }
        }
    } else {
        None
    }
}

/// All nodes strictly below `i` that satisfy `q`, in pre-order.
pub open spec fn collect_below(nodes: Seq<TreeNode>, i: int, q: Wanted) -> Seq<usize>
    decreases nodes.len() - i, 1int,
{
    if 0 <= i < nodes.len() {
        collect_from(nodes, i, 0, q)
    } else {
        seq![]
    }
}

/// All nodes satisfying `q` in the subtrees of the children of `i` from the
/// `k`-th on, in pre-order.
pub open spec fn collect_from(nodes: Seq<TreeNode>, i: int, k: int, q: Wanted) -> Seq<usize>
    decreases nodes.len() - i, 0int, nodes[i].children@.len() - k,
    when 0 <= i < nodes.len() && 0 <= k
{
    if child_ok(nodes, i, k) {
        let c = nodes[i].children@[k];
        let own = if query_holds(q, nodes[c as int].data) {
            seq![c]
        } else {
            seq![]
        };
        own + collect_below(nodes, c as int, q) + collect_from(nodes, i, k + 1, q)
    } else {
        seq![]
    }
}

/// The top-level content of a parsed fragment below `i`: the children of the
/// first `html` element reached by following first children.
pub open spec fn contents_below(nodes: Seq<TreeNode>, i: int) -> Seq<usize>
    decreases nodes.len() - i,
{
    if child_ok(nodes, i, 0) {
        let c = nodes[i].children@[0];
        if is_element_named(nodes[c as int].data, "html"@) {
            nodes[c as int].children@
        } else {
            contents_below(nodes, c as int)
        }
    } else {
        seq![]
    }
}

impl Dom {
    /// TreeNode 0 is the document root, child indices grow downwards, and only
    /// the root and elements have children.
    pub open spec fn wf(&self) -> bool {
        &&& self.nodes@.len() > 0
        &&& self.nodes@[0].data is Document
        &&& forall|i: int, k: int|
            0 <= i < self.nodes@.len() && 0 <= k < self.nodes@[i].children@.len() ==> child_ok(
                self.nodes@,
                i,
                k,
            )
        &&& forall|i: int|
            0 <= i < self.nodes@.len() && !may_have_children(#[trigger] self.nodes@[i].data)
                ==> self.nodes@[i].children@.len() == 0
    }

    /// A document holding only its root.
    pub fn new() -> (r: Dom)
        ensures
            r.wf(),
            r.nodes@.len() == 1,
            r.nodes@[0].children@.len() == 0,
    {
        let mut nodes: Vec<TreeNode> = Vec::new();
        nodes.push(TreeNode { data: NodeData::Document, children: Vec::new() });
        Dom { nodes }
    }

    /// Appends a node without children and returns its index.
    pub fn push_node(&mut self, data: NodeData) -> (r: usize)
        requires
            old(self).wf(),
            old(self).nodes@.len() < usize::MAX,
        ensures
            final(self).wf(),
            r == old(self).nodes@.len(),
            final(self).nodes@ == old(self).nodes@.push(TreeNode { data, children: final(self).nodes@[r as int].children }),
            final(self).nodes@[r as int].children@.len() == 0,
    {
        let r = self.nodes.len();
        self.nodes.push(TreeNode { data, children: Vec::new() });
        proof {
            assert forall|i: int, k: int|
                0 <= i < self.nodes@.len() && 0 <= k < self.nodes@[i].children@.len() implies child_ok(self.nodes@, i, k) by {
                assert(child_ok(old(self).nodes@, i, k));
            }
        }
        r
    }

    /// Whether node `i` satisfies `q`.
    fn holds(&self, i: usize, q: &Query) -> (r: bool)
        requires
            i < self.nodes@.len(),
        ensures
            r == query_holds(q@, self.nodes@[i as int].data),
    {
        match &self.nodes[i].data {
            NodeData::Element { name, attrs, .. } => match q {
                Query::Id(id) => match attr_lookup(attrs, "id") {
                    Some(v) => str_equal(v.as_str(), id.as_str()),
                    None => false,
                },
                Query::Tag(tag) => str_equal(name.as_str(), tag.as_str()),
            },
            _ => false,
        }
    }

    /// The first node strictly below `i`, in pre-order, that satisfies `q`.
    pub fn find_first(&self, i: usize, q: &Query) -> (r: Option<usize>)
        requires
            self.wf(),
            i < self.nodes@.len(),
        ensures
            r == find_below(self.nodes@, i as int, q@),
            r matches Some(x) ==> i < x < self.nodes@.len() && query_holds(q@, self.nodes@[x as int].data),
        decreases self.nodes@.len() - i,
    {
        let mut k: usize = 0;
        while k < self.nodes[i].children.len()
            invariant
                self.wf(),
                i < self.nodes@.len(),
                k <= self.nodes@[i as int].children@.len(),
                find_below(self.nodes@, i as int, q@) == find_from(self.nodes@, i as int, k as int, q@),
            decreases self.nodes@[i as int].children@.len() - k,
        {
            let c = self.nodes[i].children[k];
            assert(child_ok(self.nodes@, i as int, k as int));
            if self.holds(c, q) {
                return Some(c);
            }
            match self.find_first(c, q) {
                Some(x) => {
                    return Some(x);
                },
                None => {},
            }
            k = k + 1;
        }
        None
    }

    /// All nodes strictly below `i` that satisfy `q`, in pre-order.
    pub fn collect_all(&self, i: usize, q: &Query) -> (r: Vec<usize>)
        requires
            self.wf(),
            i < self.nodes@.len(),
        ensures
            r@ == collect_below(self.nodes@, i as int, q@),
        decreases self.nodes@.len() - i,
    {
        let mut out: Vec<usize> = Vec::new();
        let mut k: usize = 0;
        while k < self.nodes[i].children.len()
            invariant
                self.wf(),
                i < self.nodes@.len(),
                k <= self.nodes@[i as int].children@.len(),
                collect_below(self.nodes@, i as int, q@) == out@ + collect_from(self.nodes@, i as int, k as int, q@),
            decreases self.nodes@[i as int].children@.len() - k,
        {
            let c = self.nodes[i].children[k];
            assert(child_ok(self.nodes@, i as int, k as int));
            let ghost before = out@;
            if self.holds(c, q) {
                out.push(c);
            }
            let mut below = self.collect_all(c, q);
            out.append(&mut below);
            proof {
                let own = if query_holds(q@, self.nodes@[c as int].data) {
                    seq![c]
                } else {
                    seq![]
                };
                assert(out@ == before + own + collect_below(self.nodes@, c as int, q@));
                assert(before + (own + collect_below(self.nodes@, c as int, q@) + collect_from(
                    self.nodes@,
                    i as int,
                    k + 1,
                    q@,
                )) == out@ + collect_from(self.nodes@, i as int, k + 1, q@));
            }
            k = k + 1;
        }
        assert(out@ + collect_from(self.nodes@, i as int, k as int, q@) == out@);
        out
    }

    /// The first element, in document order, whose `id` is `id`.
    pub fn get_element_by_id(&self, id: &str) -> (r: Option<usize>)
        requires
            self.wf(),
        ensures
            r == find_below(self.nodes@, 0, Wanted::Id(id@)),
            r matches Some(x) ==> 0 < x < self.nodes@.len() && has_id(self.nodes@[x as int].data, id@),
    {
        self.find_first(ROOT, &Query::Id(id.to_string()))
    }
    /// The first `head` element, in document order.
    pub fn get_head(&self) -> (r: Option<usize>)
        requires
            self.wf(),
        ensures
            r == find_below(self.nodes@, 0, Wanted::Tag("head"@)),
            r matches Some(x) ==> 0 < x < self.nodes@.len() && is_element_named(self.nodes@[x as int].data, "head"@),
    {
        self.find_first(ROOT, &Query::Tag("head".to_string()))
    }

    /// Every `meta` element, in document order.
    pub fn find_meta_tags(&self) -> (r: Vec<usize>)
        requires
            self.wf(),
        ensures
            r@ == collect_below(self.nodes@, 0, Wanted::Tag("meta"@)),
    {
        self.collect_all(ROOT, &Query::Tag("meta".to_string()))
    }

    /// The value of attribute `name` of node `node`; `None` where the node is
    /// no element or has no such attribute.
    pub fn get_attribute(&self, node: usize, name: &str) -> (r: Option<String>)
        requires
            node < self.nodes@.len(),
        ensures
            match r {
                Some(v) => data_attr(self.nodes@[node as int].data, name@) == Some(v@),
                None => data_attr(self.nodes@[node as int].data, name@) is None,
            },
    {
        match &self.nodes[node].data {
            NodeData::Element { attrs, .. } => attr_lookup(attrs, name),
            _ => None,
        }
    }

    /// Sets the value of the first attribute `name` of element `node`; does
    /// nothing where there is no such attribute or the node is no element.
    pub fn set_attribute(&mut self, node: usize, name: &str, value: String)
        requires
            old(self).wf(),
            node < old(self).nodes@.len(),
        ensures
            final(self).wf(),
            final(self).nodes@.len() == old(self).nodes@.len(),
            forall|i: int|
                0 <= i < old(self).nodes@.len() && i != node ==> final(self).nodes@[i] == old(
                    self,
                ).nodes@[i],
            final(self).nodes@[node as int].children == old(self).nodes@[node as int].children,
            data_set_attr(
                old(self).nodes@[node as int].data,
                name@,
                value@,
                final(self).nodes@[node as int].data,
            ),
    {
        let ghost before = self.nodes@;
        match &mut self.nodes[node].data {
            NodeData::Element { attrs, .. } => {
                match attr_position(attrs, name) {
                    Some(j) => {
                        attrs[j].value = value;
                    },
                    None => {},
                }
            },
            _ => {},
        }
        proof {
            assert forall|i: int, k: int|
                0 <= i < self.nodes@.len() && 0 <= k < self.nodes@[i].children@.len() implies child_ok(self.nodes@, i, k) by {
                assert(child_ok(before, i, k));
            }
            assert forall|i: int|
                0 <= i < self.nodes@.len() && !may_have_children(#[trigger] self.nodes@[i].data)
                    implies self.nodes@[i].children@.len() == 0 by {
                assert(!may_have_children(before[i].data));
            }
        }
    }

    /// Replaces the whole child sequence of `node` with `children`.
    pub fn replace_children(&mut self, node: usize, children: Vec<usize>)
        requires
            old(self).wf(),
            node < old(self).nodes@.len(),
            may_have_children(old(self).nodes@[node as int].data),
            forall|k: int| 0 <= k < children@.len() ==> node < #[trigger] children@[k] < old(self).nodes@.len(),
        ensures
            final(self).wf(),
            final(self).nodes@.len() == old(self).nodes@.len(),
            forall|i: int|
                0 <= i < old(self).nodes@.len() && i != node ==> final(self).nodes@[i] == old(
                    self,
                ).nodes@[i],
            final(self).nodes@[node as int].data == old(self).nodes@[node as int].data,
            final(self).nodes@[node as int].children@ == children@,
    {
        let ghost before = self.nodes@;
        self.nodes[node].children = children;
        proof {
            assert forall|i: int, k: int|
                0 <= i < self.nodes@.len() && 0 <= k < self.nodes@[i].children@.len() implies child_ok(self.nodes@, i, k) by {
                if i != node {
                    assert(child_ok(before, i, k));
                }
            }
            assert forall|i: int|
                0 <= i < self.nodes@.len() && !may_have_children(#[trigger] self.nodes@[i].data)
                    implies self.nodes@[i].children@.len() == 0 by {
                assert(!may_have_children(before[i].data));
            }
        }
    }

    /// Replaces the contents of text node `node`; other nodes are left as
    /// they are.
    pub fn set_text(&mut self, node: usize, contents: String)
        requires
            old(self).wf(),
            node < old(self).nodes@.len(),
        ensures
            final(self).wf(),
            final(self).nodes@.len() == old(self).nodes@.len(),
            forall|i: int|
                0 <= i < old(self).nodes@.len() && i != node ==> final(self).nodes@[i] == old(
                    self,
                ).nodes@[i],
            final(self).nodes@[node as int].children == old(self).nodes@[node as int].children,
            if old(self).nodes@[node as int].data is Text {
                final(self).nodes@[node as int].data == (NodeData::Text { contents })
            } else {
                final(self).nodes@[node as int].data == old(self).nodes@[node as int].data
            },
    {
        let ghost before = self.nodes@;
        match &mut self.nodes[node].data {
            NodeData::Text { contents: c } => {
                *c = contents;
            },
            _ => {},
        }
        proof {
            assert forall|i: int, k: int|
                0 <= i < self.nodes@.len() && 0 <= k < self.nodes@[i].children@.len() implies child_ok(self.nodes@, i, k) by {
                assert(child_ok(before, i, k));
            }
            assert forall|i: int|
                0 <= i < self.nodes@.len() && !may_have_children(#[trigger] self.nodes@[i].data)
                    implies self.nodes@[i].children@.len() == 0 by {
                assert(!may_have_children(before[i].data));
            }
        }
    }
}

/// The value of the first attribute named `name`.
pub fn attr_lookup(attrs: &Vec<Attribute>, name: &str) -> (r: Option<String>)
    ensures
        match r {
            Some(v) => attr_value(attrs@, name@) == Some(v@),
            None => attr_value(attrs@, name@) is None,
        },
{
    let mut j: usize = 0;
    while j < attrs.len()
        invariant
            j <= attrs@.len(),
            forall|k: int| 0 <= k < j ==> attrs@[k].name@ != name@,
        decreases attrs@.len() - j,
    {
        if str_equal(attrs[j].name.as_str(), name) {
            assert(first_attr_at(attrs@, name@, j as int));
            return Some(attrs[j].value.clone());
        }
        j = j + 1;
    }
    None
}

/// The index of the first attribute named `name`.
pub fn attr_position(attrs: &Vec<Attribute>, name: &str) -> (r: Option<usize>)
    ensures
        match r {
            Some(j) => first_attr_at(attrs@, name@, j as int),
            None => forall|j: int| 0 <= j < attrs@.len() ==> attrs@[j].name@ != name@,
        },
{
    let mut j: usize = 0;
    while j < attrs.len()
        invariant
            j <= attrs@.len(),
            forall|k: int| 0 <= k < j ==> attrs@[k].name@ != name@,
        decreases attrs@.len() - j,
    {
        if str_equal(attrs[j].name.as_str(), name) {
            return Some(j);
        }
        j = j + 1;
    }
    None
}

/// The top-level content of a parsed fragment rooted at `node`: descends
/// through first children to the first `html` element and returns its
/// children.
pub fn extract_contents(dom: &Dom, node: usize) -> (r: Vec<usize>)
    requires
        dom.wf(),
        node < dom.nodes@.len(),
    ensures
        r@ == contents_below(dom.nodes@, node as int),
    decreases dom.nodes@.len() - node,
{
    if dom.nodes[node].children.len() == 0 {
        return Vec::new();
    }
    let c = dom.nodes[node].children[0];
    assert(child_ok(dom.nodes@, node as int, 0));
    let is_html = match &dom.nodes[c].data {
        NodeData::Element { name, .. } => str_equal(name.as_str(), "html"),
        _ => false,
    };
    if is_html {
        dom.nodes[c].children.clone()
    } else {
        extract_contents(dom, c)
    }
}

} // verus!
