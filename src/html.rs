//! Moving documents between HTML text and the arena tree. html5ever parses
//! into markup5ever_rcdom's tree, which is handed over flattened (node `i`
//! with the indices of its children); the verified code here checks that
//! shape and builds the arena from it. Serializing goes the other way,
//! through a builder that records the shape of the rcdom tree it makes.
use html5ever::tendril::TendrilSink;
use html5ever::QualName;
use markup5ever_rcdom::{Node as RcNode, NodeData as RcData, RcDom, SerializableHandle};
use std::cell::RefCell;
use std::rc::Rc;
use vstd::prelude::*;

use crate::dom::{
    attr_view, attrs_view, child_ok, data_view, may_have_children, shape_of, shape_wf, shift,
    Attribute, Dom, NodeData, NodeView, Shape, TreeNode,
};

verus! {

/// markup5ever_rcdom's node, held opaque: the verified code only passes
/// handles of it between the wrappers below.
#[verifier::external_type_specification]
#[verifier::external_body]
pub struct ExRcNode(markup5ever_rcdom::Node);

/// The tree that html5ever's `parse_document` builds from `html`,
/// flattened breadth-first from the document node.
pub uninterp spec fn html_document_of(html: Seq<char>) -> Shape;

/// The tree that html5ever's `parse_fragment` builds from `html` in the
/// context of a `body` element, flattened breadth-first from its root.
pub uninterp spec fn html_fragment_of(html: Seq<char>) -> Shape;

/// The text that html5ever's `serialize` writes for the children of node 0
/// of an rcdom tree of shape `s`; `None` where it fails.
pub uninterp spec fn html_serialization_of(s: Shape) -> Option<Seq<char>>;

/// A tree that html5ever parsed, flattened: handle `i` is node `i`.
struct ParsedHtml {
    handles: Vec<Rc<markup5ever_rcdom::Node>>,
    children: Vec<Vec<usize>>,
    text: String,
    fragment: bool,
}

/// The shape that html5ever gave for the parsed text.
spec fn parsed_shape(p: ParsedHtml) -> Shape {
    if p.fragment {
        html_fragment_of(p.text@)
    } else {
        html_document_of(p.text@)
    }
}

/// The handles and child lists of `p` follow its shape.
spec fn flat_ok(p: ParsedHtml) -> bool {
    &&& p.handles@.len() == parsed_shape(p).len()
    &&& p.children@.len() == p.handles@.len()
    &&& forall|i: int| 0 <= i < p.children@.len() ==> (#[trigger] p.children@[i])@ == parsed_shape(p)[i].2
}

/// Relies on html5ever's `parse_document` into an `RcDom`: its tree,
/// flattened breadth-first.
#[verifier::external_body]
fn parse_document_flat(html: &str) -> (r: ParsedHtml)
    ensures
        r.text@ == html@,
        !r.fragment,
        flat_ok(r),
        r.handles@.len() == html_document_of(html@).len(),
{
    let root = html5ever::parse_document(RcDom::default(), Default::default()).one(html).document;
    let (mut handles, mut children) = (vec![root], Vec::new());
    while children.len() < handles.len() {
        let kids = handles[children.len()].children.borrow().clone();
        children.push((handles.len()..handles.len() + kids.len()).collect());
        handles.extend(kids);
    }
    ParsedHtml { handles, children, text: html.to_string(), fragment: false }
}

/// Relies on html5ever's `parse_fragment` into an `RcDom`, in the context of
/// a `body` element: its tree, flattened breadth-first.
#[verifier::external_body]
fn parse_fragment_flat(html: &str) -> (r: ParsedHtml)
    ensures
        r.text@ == html@,
        r.fragment,
        flat_ok(r),
        r.handles@.len() == html_fragment_of(html@).len(),
{
    let body = QualName::new(None, "http://www.w3.org/1999/xhtml".into(), "body".into());
    let root = html5ever::parse_fragment(RcDom::default(), Default::default(), body, vec![]).one(html).document;
    let (mut handles, mut children) = (vec![root], Vec::new());
    while children.len() < handles.len() {
        let kids = handles[children.len()].children.borrow().clone();
        children.push((handles.len()..handles.len() + kids.len()).collect());
        handles.extend(kids);
    }
    ParsedHtml { handles, children, text: html.to_string(), fragment: true }
}

/// Relies on markup5ever_rcdom's `Node::data`: what parsed node `i` is, its
/// attributes left out (see `parsed_attrs`); only elements have attributes.
#[verifier::external_body]
fn parsed_data(p: &ParsedHtml, i: usize) -> (r: NodeData)
    requires
        flat_ok(*p),
        i < p.handles@.len(),
    ensures
        data_view(r) == parsed_shape(*p)[i as int].0,
        attrs_view(r).len() == 0,
        !(r is Element) ==> parsed_shape(*p)[i as int].1.len() == 0,
{
    match &p.handles[i].data {
        RcData::Document => NodeData::Document,
        RcData::Doctype { name, .. } => NodeData::Doctype { name: name.to_string() },
        RcData::Text { contents } => NodeData::Text { contents: contents.borrow().to_string() },
        RcData::Comment { contents } => NodeData::Comment { contents: contents.to_string() },
        RcData::Element { name, .. } => NodeData::Element { ns: name.ns.to_string(), name: name.local.to_string(), attrs: vec![] },
        RcData::ProcessingInstruction { target, contents } => NodeData::ProcessingInstruction { target: target.to_string(), contents: contents.to_string() },
    }
}

/// Relies on markup5ever_rcdom's `NodeData::Element::attrs`: the attributes
/// of parsed node `i`, in order; none for other nodes.
#[verifier::external_body]
fn parsed_attrs(p: &ParsedHtml, i: usize) -> (r: Vec<Attribute>)
    requires
        flat_ok(*p),
        i < p.handles@.len(),
    ensures
        r@.map_values(|a: Attribute| attr_view(a)) == parsed_shape(*p)[i as int].1,
{
    match &p.handles[i].data {
        RcData::Element { attrs, .. } => attrs.borrow().iter().map(|a| Attribute {
            ns: a.name.ns.to_string(),
            name: a.name.local.to_string(),
            value: a.value.to_string(),
        }).collect(),
        _ => vec![],
    }
}

/// `after` extends `before`: the nodes of `before` are kept as they are.
pub open spec fn extends(before: Dom, after: Dom) -> bool {
    &&& before.nodes@.len() <= after.nodes@.len()
    &&& forall|i: int| 0 <= i < before.nodes@.len() ==> after.nodes@[i] == before.nodes@[i]
}

/// The nodes of a parsed tree, children moved up by `base`; `None` where the
/// tree does not have the shape of a document.
fn import_parsed(p: &ParsedHtml, base: usize) -> (r: Option<Vec<TreeNode>>)
    requires
        flat_ok(*p),
        base + p.handles@.len() <= usize::MAX,
    ensures
        match r {
            Some(v) => shape_wf(parsed_shape(*p)) && shape_of(v@) == shift(parsed_shape(*p), base as nat),
            None => !shape_wf(parsed_shape(*p)),
        },
{
    let ghost s = parsed_shape(*p);
    let n = p.handles.len();
    if n == 0 {
        return None;
    }
    let mut out: Vec<TreeNode> = Vec::new();
    let mut i: usize = 0;
    while i < n
        invariant
            flat_ok(*p),
            s == parsed_shape(*p),
            n == s.len(),
            base + n <= usize::MAX,
            i <= n,
            out@.len() == i,
            shape_of(out@) == shift(s.subrange(0, i as int), base as nat),
            i > 0 ==> s[0].0 is Document,
            forall|j: int, k: int| 0 <= j < i && 0 <= k < s[j].2.len() ==> j < #[trigger] s[j].2[k] < n,
            forall|j: int| 0 <= j < i && !(#[trigger] s[j].0 is Document || s[j].0 is Element) ==> s[j].2.len() == 0,
        decreases n - i,
    {
        let mut data = parsed_data(p, i);
        let attrs = parsed_attrs(p, i);
        let container = matches!(data, NodeData::Document | NodeData::Element { .. });
        if i == 0 && !matches!(data, NodeData::Document) {
            return None;
        }
        let kids = &p.children[i];
        assert(kids@ == s[i as int].2);
        if !container && kids.len() > 0 {
            assert(!(s[i as int].0 is Document || s[i as int].0 is Element));
            return None;
        }
        let mut moved: Vec<usize> = Vec::new();
        let mut k: usize = 0;
        while k < kids.len()
            invariant
                flat_ok(*p),
                s == parsed_shape(*p),
                n == s.len(),
                i < n,
                kids@ == s[i as int].2,
                base + n <= usize::MAX,
                k <= kids@.len(),
                moved@ == kids@.subrange(0, k as int).map_values(|c: usize| (c + base) as usize),
                forall|m: int| 0 <= m < k ==> i < #[trigger] kids@[m] < n,
            decreases kids@.len() - k,
        {
            let c = kids[k];
            if c <= i || c >= n {
                assert(s[i as int].2[k as int] == c);
                return None;
            }
            moved.push(c + base);
            assert(kids@.subrange(0, k + 1).map_values(|c: usize| (c + base) as usize) =~= moved@);
            k = k + 1;
        }
        assert(kids@.subrange(0, kids@.len() as int) == kids@);
        match &mut data {
            NodeData::Element { attrs: a, .. } => {
                *a = attrs;
            },
            _ => {},
        }
        let ghost before = out@;
        out.push(TreeNode { data, children: moved });
        proof {
            assert(shape_of(out@) =~= shape_of(before).push(shape_of(out@)[i as int]));
            assert(s.subrange(0, i + 1) =~= s.subrange(0, i as int).push(s[i as int]));
            assert(shift(s.subrange(0, i + 1), base as nat) =~= shift(s.subrange(0, i as int), base as nat).push(shift(s, base as nat)[i as int]));
            assert(shape_of(out@)[i as int] == shift(s, base as nat)[i as int]);
        }
        i = i + 1;
    }
    assert(s.subrange(0, n as int) == s);
    Some(out)
}

proof fn lemma_wf_from_shape(nodes: Seq<TreeNode>, base: int, s: Shape)
    requires
        0 <= base,
        nodes.len() == base + s.len(),
        shape_wf(s),
        shape_of(nodes.subrange(base, nodes.len() as int)) == shift(s, base as nat),
        forall|i: int, k: int| 0 <= i < base && 0 <= k < nodes[i].children@.len() ==> child_ok(nodes, i, k),
        forall|i: int| 0 <= i < base && !may_have_children(#[trigger] nodes[i].data) ==> nodes[i].children@.len() == 0,
        base == 0 || nodes[0].data is Document,
        nodes.len() <= usize::MAX,
    ensures
        forall|i: int, k: int| 0 <= i < nodes.len() && 0 <= k < nodes[i].children@.len() ==> child_ok(nodes, i, k),
        forall|i: int| 0 <= i < nodes.len() && !may_have_children(#[trigger] nodes[i].data) ==> nodes[i].children@.len() == 0,
        nodes[0].data is Document,
{
    let tail = nodes.subrange(base, nodes.len() as int);
    assert forall|i: int, k: int| 0 <= i < nodes.len() && 0 <= k < nodes[i].children@.len() implies child_ok(nodes, i, k) by {
        if i >= base {
            let j = i - base;
            assert(tail[j] == nodes[i]);
            assert(shape_of(tail)[j] == shift(s, base as nat)[j]);
            assert(nodes[i].children@ == s[j].2.map_values(|c: usize| (c + base) as usize));
            assert(j < s[j].2[k] < s.len());
            assert(nodes[i].children@[k] == (s[j].2[k] + base) as usize);
        }
    }
    assert forall|i: int| 0 <= i < nodes.len() && !may_have_children(#[trigger] nodes[i].data) implies nodes[i].children@.len() == 0 by {
        if i >= base {
            let j = i - base;
            assert(tail[j] == nodes[i]);
            assert(shape_of(tail)[j] == shift(s, base as nat)[j]);
            assert(!(s[j].0 is Document || s[j].0 is Element));
        }
    }
    if base == 0 {
        assert(tail[0] == nodes[0]);
        assert(shape_of(tail)[0] == shift(s, 0)[0]);
    }
}

proof fn lemma_shift_zero(s: Shape)
    ensures
        shift(s, 0) == s,
{
    assert forall|j: int| 0 <= j < s.len() implies #[trigger] shift(s, 0)[j] == s[j] by {
        assert(s[j].2.map_values(|c: usize| (c + 0nat) as usize) =~= s[j].2);
    }
    assert(shift(s, 0) =~= s);
}

/// Parses an HTML document with html5ever. `None` exactly where the parsed
/// tree does not have the shape of a document.
pub fn build_document(html: &str) -> (r: Option<Dom>)
    ensures
        match r {
            Some(d) => d.wf() && shape_wf(html_document_of(html@)) && shape_of(d.nodes@)
                == html_document_of(html@),
            None => !shape_wf(html_document_of(html@)),
        },
{
    let p = parse_document_flat(html);
    let _ = p.handles.len();
    let nodes = import_parsed(&p, 0)?;
    proof {
        lemma_shift_zero(html_document_of(html@));
        assert(nodes@.subrange(0, nodes@.len() as int) == nodes@);
        lemma_wf_from_shape(nodes@, 0, html_document_of(html@));
    }
    Some(Dom { nodes })
}

/// Parses an HTML fragment with html5ever, in the context of a `body`
/// element, as a document of its own. `None` exactly where the parsed tree
/// does not have the shape of a document.
pub fn build_fragment(html: &str) -> (r: Option<Dom>)
    ensures
        match r {
            Some(d) => d.wf() && shape_wf(html_fragment_of(html@)) && shape_of(d.nodes@)
                == html_fragment_of(html@),
            None => !shape_wf(html_fragment_of(html@)),
        },
{
    let p = parse_fragment_flat(html);
    let _ = p.handles.len();
    let nodes = import_parsed(&p, 0)?;
    proof {
        lemma_shift_zero(html_fragment_of(html@));
        assert(nodes@.subrange(0, nodes@.len() as int) == nodes@);
        lemma_wf_from_shape(nodes@, 0, html_fragment_of(html@));
    }
    Some(Dom { nodes })
}

/// Whether the fragment `html` can be appended to an arena of `n` nodes.
pub open spec fn fragment_fits(n: nat, html: Seq<char>) -> bool {
    shape_wf(html_fragment_of(html)) && n + html_fragment_of(html).len() < usize::MAX
}

/// `b` is `a` with the parsed fragment `html` appended, its root at `a.len()`.
pub open spec fn fragment_appended(a: Seq<TreeNode>, html: Seq<char>, b: Seq<TreeNode>) -> bool {
    &&& b.len() == a.len() + html_fragment_of(html).len()
    &&& forall|i: int| 0 <= i < a.len() ==> b[i] == a[i]
    &&& shape_of(b.subrange(a.len() as int, b.len() as int)) == shift(html_fragment_of(html), a.len())
}

/// Parses an HTML fragment into `dom`, below no parent, and returns the index
/// of its root; the nodes already in `dom` are kept as they are. `None`
/// exactly where the fragment does not fit.
pub fn append_fragment(dom: &mut Dom, html: &str) -> (r: Option<usize>)
    requires
        old(dom).wf(),
    ensures
        final(dom).wf(),
        match r {
            Some(f) => f == old(dom).nodes@.len() && fragment_fits(old(dom).nodes@.len(), html@)
                && fragment_appended(old(dom).nodes@, html@, final(dom).nodes@),
            None => !fragment_fits(old(dom).nodes@.len(), html@) && final(dom).nodes@ == old(dom).nodes@,
        },
{
    let p = parse_fragment_flat(html);
    let base = dom.nodes.len();
    if p.handles.len() >= usize::MAX - base {
        return None;
    }
    let mut nodes = import_parsed(&p, base)?;
    let ghost a = dom.nodes@;
    let ghost added = nodes@;
    dom.nodes.append(&mut nodes);
    let _ = dom.nodes.len();
    proof {
        assert(shape_of(added).len() == added.len());
        assert(shift(html_fragment_of(html@), base as nat).len() == html_fragment_of(html@).len());
        assert(dom.nodes@.subrange(base as int, dom.nodes@.len() as int) =~= added);
        assert forall|i: int, k: int| 0 <= i < base && 0 <= k < dom.nodes@[i].children@.len() implies child_ok(dom.nodes@, i, k) by {
            assert(dom.nodes@[i] == a[i]);
            assert(child_ok(a, i, k));
        }
        assert forall|i: int| 0 <= i < base && !may_have_children(#[trigger] dom.nodes@[i].data) implies dom.nodes@[i].children@.len() == 0 by {
            assert(dom.nodes@[i] == a[i]);
        }
        lemma_wf_from_shape(dom.nodes@, base as int, html_fragment_of(html@));
    }
    Some(base)
}

/// An rcdom tree under construction, with the shape it has so far.
struct RcBuild {
    handles: Vec<Rc<markup5ever_rcdom::Node>>,
    shape: Ghost<Shape>,
}

impl RcBuild {
    spec fn ok(&self) -> bool {
        self.handles@.len() == self.shape@.len()
    }
}

/// Relies on markup5ever_rcdom's `Node::new`: adds a node without children
/// that is no element.
#[verifier::external_body]
fn build_push_leaf(b: &mut RcBuild, data: &NodeData)
    requires
        old(b).ok(),
        !(data is Element),
    ensures
        final(b).ok(),
        final(b).shape@ == old(b).shape@.push((data_view(*data), seq![], seq![])),
{
    let d = match data {
        NodeData::Document => RcData::Document,
        NodeData::Doctype { name } => RcData::Doctype { name: name.as_str().into(), public_id: "".into(), system_id: "".into() },
        NodeData::Text { contents } => RcData::Text { contents: RefCell::new(contents.as_str().into()) },
        NodeData::Comment { contents } => RcData::Comment { contents: contents.as_str().into() },
        NodeData::ProcessingInstruction { target, contents } => RcData::ProcessingInstruction { target: target.as_str().into(), contents: contents.as_str().into() },
        NodeData::Element { .. } => return,
    };
    b.handles.push(RcNode::new(d));
}

/// Relies on markup5ever_rcdom's `Node::new`: adds an element without children.
#[verifier::external_body]
fn build_push_element(b: &mut RcBuild, ns: &str, name: &str, attrs: &Vec<Attribute>)
    requires
        old(b).ok(),
    ensures
        final(b).ok(),
        final(b).shape@ == old(b).shape@.push(
            (NodeView::Element(ns@, name@), attrs@.map_values(|a: Attribute| attr_view(a)), seq![]),
        ),
{
    let q = |ns: &str, n: &str| QualName::new(None, ns.into(), n.into());
    let attrs = attrs.iter().map(|a| html5ever::Attribute { name: q(&a.ns, &a.name), value: a.value.as_str().into() });
    b.handles.push(RcNode::new(RcData::Element {
        name: q(ns, name),
        attrs: RefCell::new(attrs.collect()),
        template_contents: RefCell::new(None),
        mathml_annotation_xml_integration_point: false,
    }));
}

/// Relies on markup5ever_rcdom's `Node::children`: appends node `child` to
/// the children of node `parent`.
#[verifier::external_body]
fn build_append(b: &mut RcBuild, parent: usize, child: usize)
    requires
        old(b).ok(),
        parent < old(b).shape@.len(),
        child < old(b).shape@.len(),
    ensures
        final(b).ok(),
        final(b).shape@ == old(b).shape@.update(
            parent as int,
            (old(b).shape@[parent as int].0, old(b).shape@[parent as int].1, old(b).shape@[parent as int].2.push(child)),
        ),
{
    let c = b.handles[child].clone();
    b.handles[parent].children.borrow_mut().push(c);
}

/// No child in `s` is a document node (html5ever's serializer takes none).
pub open spec fn no_document_child(s: Shape) -> bool {
    forall|i: int, k: int|
        0 <= i < s.len() && 0 <= k < s[i].2.len() ==> !(s[#[trigger] s[i].2[k] as int].0 is Document)
}

/// Relies on html5ever's `serialize` of the children of node 0, and on
/// `String::from_utf8`; `None` where either fails.
#[verifier::external_body]
fn build_serialize(b: &RcBuild) -> (r: Option<String>)
    requires
        b.ok(),
        b.shape@.len() > 0,
        b.shape@[0].0 is Document,
        no_document_child(b.shape@),
        forall|i: int, k: int|
            0 <= i < b.shape@.len() && 0 <= k < b.shape@[i].2.len() ==> i < #[trigger] b.shape@[i].2[k] < b.shape@.len(),
    ensures
        match r {
            Some(t) => html_serialization_of(b.shape@) == Some(t@),
            None => html_serialization_of(b.shape@) is None,
        },
{
    let mut buf: Vec<u8> = Vec::new();
    let handle: SerializableHandle = b.handles[0].clone().into();
    html5ever::serialize(&mut buf, &handle, Default::default()).ok()?;
    String::from_utf8(buf).ok()
}

/// The children `cs` without document nodes, in order.
pub open spec fn non_document(nodes: Seq<TreeNode>, cs: Seq<usize>) -> Seq<usize>
    decreases cs.len(),
{
    if cs.len() == 0 {
        seq![]
    } else {
        let rest = non_document(nodes, cs.drop_last());
        if cs.last() < nodes.len() && nodes[cs.last() as int].data is Document {
            rest
        } else {
            rest.push(cs.last())
        }
    }
}

/// The shape of the rcdom tree that serializes the arena: document nodes
/// below others are left out.
pub open spec fn export_shape(nodes: Seq<TreeNode>) -> Shape {
    Seq::new(
        nodes.len(),
        |i: int| (data_view(nodes[i].data), attrs_view(nodes[i].data), non_document(nodes, nodes[i].children@)),
    )
}

proof fn lemma_non_document(nodes: Seq<TreeNode>, cs: Seq<usize>)
    ensures
        forall|m: int| 0 <= m < non_document(nodes, cs).len() ==> cs.contains(#[trigger] non_document(nodes, cs)[m]) && !(non_document(nodes, cs)[m] < nodes.len() && nodes[non_document(nodes, cs)[m] as int].data is Document),
    decreases cs.len(),
{
    if cs.len() > 0 {
        lemma_non_document(nodes, cs.drop_last());
        let rest = non_document(nodes, cs.drop_last());
        assert forall|m: int| 0 <= m < rest.len() implies cs.contains(#[trigger] rest[m]) by {
            assert(cs.drop_last().contains(rest[m]));
            let j = choose|j: int| 0 <= j < cs.drop_last().len() && cs.drop_last()[j] == rest[m];
            assert(cs[j] == rest[m]);
        }
        assert(cs[cs.len() - 1] == cs.last());
    }
}

/// Builds the rcdom tree of the arena, node for node.
fn export(dom: &Dom) -> (b: RcBuild)
    requires
        dom.wf(),
    ensures
        b.ok(),
        b.shape@ == export_shape(dom.nodes@),
{
    let ghost nodes = dom.nodes@;
    let n = dom.nodes.len();
    let mut b = RcBuild { handles: Vec::new(), shape: Ghost(Seq::empty()) };
    let mut i: usize = 0;
    while i < n
        invariant
            dom.wf(),
            nodes == dom.nodes@,
            n == nodes.len(),
            i <= n,
            b.ok(),
            b.shape@.len() == i,
            forall|j: int| 0 <= j < i ==> #[trigger] b.shape@[j] == (data_view(nodes[j].data), attrs_view(nodes[j].data), Seq::<usize>::empty()),
        decreases n - i,
    {
        match &dom.nodes[i].data {
            NodeData::Element { ns, name, attrs } => build_push_element(&mut b, ns.as_str(), name.as_str(), attrs),
            data => build_push_leaf(&mut b, data),
        }
        i = i + 1;
    }
    let mut i: usize = 0;
    while i < n
        invariant
            dom.wf(),
            nodes == dom.nodes@,
            n == nodes.len(),
            i <= n,
            b.ok(),
            b.shape@.len() == n,
            forall|j: int| 0 <= j < n ==> (#[trigger] b.shape@[j]).0 == data_view(nodes[j].data) && b.shape@[j].1 == attrs_view(nodes[j].data),
            forall|j: int| 0 <= j < i ==> (#[trigger] b.shape@[j]).2 == non_document(nodes, nodes[j].children@),
            forall|j: int| i <= j < n ==> (#[trigger] b.shape@[j]).2 == Seq::<usize>::empty(),
        decreases n - i,
    {
        let mut k: usize = 0;
        while k < dom.nodes[i].children.len()
            invariant
                dom.wf(),
                nodes == dom.nodes@,
                n == nodes.len(),
                i < n,
                k <= nodes[i as int].children@.len(),
                b.ok(),
                b.shape@.len() == n,
                forall|j: int| 0 <= j < n ==> (#[trigger] b.shape@[j]).0 == data_view(nodes[j].data) && b.shape@[j].1 == attrs_view(nodes[j].data),
                forall|j: int| 0 <= j < i ==> (#[trigger] b.shape@[j]).2 == non_document(nodes, nodes[j].children@),
                forall|j: int| i < j < n ==> (#[trigger] b.shape@[j]).2 == Seq::<usize>::empty(),
                b.shape@[i as int].2 == non_document(nodes, nodes[i as int].children@.subrange(0, k as int)),
            decreases nodes[i as int].children@.len() - k,
        {
            let c = dom.nodes[i].children[k];
            assert(child_ok(nodes, i as int, k as int));
            let ghost cs = nodes[i as int].children@;
            assert(cs.subrange(0, k + 1).drop_last() == cs.subrange(0, k as int));
            if !matches!(dom.nodes[c].data, NodeData::Document) {
                build_append(&mut b, i, c);
            }
            k = k + 1;
        }
        assert(nodes[i as int].children@.subrange(0, nodes[i as int].children@.len() as int) == nodes[i as int].children@);
        i = i + 1;
    }
    assert(b.shape@ =~= export_shape(nodes));
    b
}

/// Serializes the document as HTML text with html5ever: the serialization of
/// the arena's shape, document nodes below the root left out.
pub fn serialize_to_html(dom: &Dom) -> (r: Option<String>)
    requires
        dom.wf(),
    ensures
        match r {
            Some(t) => html_serialization_of(export_shape(dom.nodes@)) == Some(t@),
            None => html_serialization_of(export_shape(dom.nodes@)) is None,
        },
{
    let b = export(dom);
    proof {
        let s = b.shape@;
        let nodes = dom.nodes@;
        assert forall|i: int, k: int| 0 <= i < s.len() && 0 <= k < s[i].2.len() implies !(s[#[trigger] s[i].2[k] as int].0 is Document) && i < s[i].2[k] < s.len() by {
            lemma_non_document(nodes, nodes[i].children@);
            let c = s[i].2[k];
            let j = choose|j: int| 0 <= j < nodes[i].children@.len() && nodes[i].children@[j] == c;
            assert(child_ok(nodes, i, j));
        }
    }
    build_serialize(&b)
}

} // verus!
