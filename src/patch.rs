//! The patch strategy: splice replacement content into a marked element,
//! empty other marked elements, strip chosen meta tags, inject a script.
use vstd::prelude::*;

use crate::dom::{
    shape_of, shift,
    child_ok, contents_below, data_attr, extract_contents, find_below, is_element_named,
    Attribute, Dom, NodeData, TreeNode, Wanted,
};
use crate::html::{append_fragment, fragment_fits, html_fragment_of};
use crate::text::{contains_str, contains_text};

verus! {

/// `b` is `a` with the children of node `t` replaced by `cs`.
pub open spec fn children_replaced(a: Seq<TreeNode>, t: int, cs: Seq<usize>, b: Seq<TreeNode>) -> bool {
    &&& 0 <= t < a.len()
    &&& b.len() == a.len()
    &&& forall|i: int| 0 <= i < a.len() && i != t ==> b[i] == a[i]
    &&& b[t].data == a[t].data
    &&& b[t].children@ == cs
}

/// Splicing: where an element has `id` and the fragment `content` fits,
/// the fragment is parsed into new nodes after the old ones, and the
/// children of that element become its top-level content; the old nodes are
/// otherwise kept. Nothing changes where no element has that `id`, or where
/// the fragment does not fit.
pub open spec fn splice_step(a: Seq<TreeNode>, id: Seq<char>, content: Seq<char>, b: Seq<TreeNode>) -> bool {
    match find_below(a, 0, Wanted::Id(id)) {
        Some(t) => if fragment_fits(a.len(), content) {
            let f = a.len() as int;
            &&& b.len() == a.len() + html_fragment_of(content).len()
            &&& forall|i: int| 0 <= i < a.len() && i != t ==> b[i] == a[i]
            &&& b[t as int].data == a[t as int].data
            &&& shape_of(b.subrange(f, b.len() as int)) == shift(html_fragment_of(content), a.len())
            &&& b[t as int].children@ == contents_below(b, f)
        } else {
            b == a
        },
        None => b == a,
    }
}

/// Emptying: the element with `id` loses its children and stays in place.
/// Nothing changes where no element has that `id`.
pub open spec fn clear_step(a: Seq<TreeNode>, id: Seq<char>, b: Seq<TreeNode>) -> bool {
    match find_below(a, 0, Wanted::Id(id)) {
        Some(t) => children_replaced(a, t as int, seq![], b),
        None => b == a,
    }
}

/// `trace` runs from `a` to `b` through one emptying step per `id` of `ids`.
pub open spec fn clear_trace(
    a: Seq<TreeNode>,
    ids: Seq<String>,
    b: Seq<TreeNode>,
    trace: Seq<Seq<TreeNode>>,
) -> bool {
    &&& trace.len() == ids.len() + 1
    &&& trace[0] == a
    &&& trace[ids.len() as int] == b
    &&& forall|k: int| 0 <= k < ids.len() ==> clear_step(#[trigger] trace[k], ids[k]@, trace[k + 1])
}

/// A meta element whose `name` or `property` is one of `tags`.
pub open spec fn stripped_meta(d: NodeData, tags: Seq<String>) -> bool {
    &&& is_element_named(d, "meta"@)
    &&& {
        ||| (data_attr(d, "name"@) is Some && contains_text(tags, data_attr(d, "name"@)->0))
        ||| (data_attr(d, "property"@) is Some && contains_text(tags, data_attr(d, "property"@)->0))
    }
}

/// The children `cs` without the meta elements to strip, in order.
pub open spec fn kept_children(nodes: Seq<TreeNode>, cs: Seq<usize>, tags: Seq<String>) -> Seq<usize>
    decreases cs.len(),
{
    if cs.len() == 0 {
        seq![]
    } else {
        let rest = kept_children(nodes, cs.drop_last(), tags);
        let c = cs.last();
        if c < nodes.len() && stripped_meta(nodes[c as int].data, tags) {
            rest
        } else {
            rest.push(c)
        }
    }
}

/// Stripping: the direct children of the first `head` lose the meta elements
/// to strip. Nothing changes where there is no `head`.
pub open spec fn strip_step(a: Seq<TreeNode>, tags: Seq<String>, b: Seq<TreeNode>) -> bool {
    match find_below(a, 0, Wanted::Tag("head"@)) {
        Some(h) => children_replaced(a, h as int, kept_children(a, a[h as int].children@, tags), b),
        None => b == a,
    }
}

proof fn lemma_contents_below(nodes: Seq<TreeNode>, i: int)
    requires
        forall|p: int, k: int| 0 <= p < nodes.len() && 0 <= k < nodes[p].children@.len() ==> child_ok(nodes, p, k),
    ensures
        forall|j: int| 0 <= j < contents_below(nodes, i).len() ==> i < #[trigger] contents_below(nodes, i)[j] < nodes.len(),
    decreases nodes.len() - i,
{
    if child_ok(nodes, i, 0) {
        let c = nodes[i].children@[0] as int;
        if !is_element_named(nodes[c].data, "html"@) {
            lemma_contents_below(nodes, c);
            assert(contents_below(nodes, i) == contents_below(nodes, c));
            assert forall|j: int| 0 <= j < contents_below(nodes, i).len() implies i < #[trigger] contents_below(nodes, i)[j] < nodes.len() by {
                assert(c < contents_below(nodes, c)[j]);
            }
        } else {
            assert(contents_below(nodes, i) == nodes[c].children@);
            assert forall|j: int| 0 <= j < nodes[c].children@.len() implies i < #[trigger] nodes[c].children@[j] < nodes.len() by {
                assert(child_ok(nodes, c, j));
            }
        }
    }
}

proof fn lemma_contents_below_frame(a: Seq<TreeNode>, b: Seq<TreeNode>, i: int)
    requires
        a.len() == b.len(),
        0 <= i,
        forall|j: int| i <= j < a.len() ==> b[j] == a[j],
    ensures
        contents_below(a, i) == contents_below(b, i),
    decreases a.len() - i,
{
    if child_ok(a, i, 0) {
        let c = a[i].children@[0] as int;
        lemma_contents_below_frame(a, b, c);
    }
}

/// The element with `id` gets `new_children` as its children, provided they
/// all come after it in the arena. Returns whether the children were
/// replaced; nothing changes where they were not.
pub fn replace_children(dom: &mut Dom, node_id: &str, new_children: Vec<usize>) -> (r: bool)
    requires
        old(dom).wf(),
    ensures
        final(dom).wf(),
        match find_below(old(dom).nodes@, 0, Wanted::Id(node_id@)) {
            Some(t) => if r {
                children_replaced(old(dom).nodes@, t as int, new_children@, final(dom).nodes@)
            } else {
                final(dom).nodes@ == old(dom).nodes@ && !(forall|k: int|
                    0 <= k < new_children@.len() ==> t < #[trigger] new_children@[k]
                        < old(dom).nodes@.len())
            },
            None => !r && final(dom).nodes@ == old(dom).nodes@,
        },
{
    match dom.get_element_by_id(node_id) {
        Some(t) => {
            let mut k: usize = 0;
            while k < new_children.len()
                invariant
                    dom.wf(),
                    dom.nodes@ == old(dom).nodes@,
                    find_below(old(dom).nodes@, 0, Wanted::Id(node_id@)) == Some(t),
                    k <= new_children@.len(),
                    forall|j: int| 0 <= j < k ==> t < #[trigger] new_children@[j] < dom.nodes@.len(),
                decreases new_children@.len() - k,
            {
                if new_children[k] <= t || new_children[k] >= dom.nodes.len() {
                    return false;
                }
                k = k + 1;
            }
            dom.replace_children(t, new_children);
            true
        },
        None => false,
    }
}

/// Replaces the children of the element with `node_id` by the top-level
/// content of the fragment `html`. Returns whether that element was found.
pub fn splice_fragment(dom: &mut Dom, node_id: &str, html: &str) -> (r: bool)
    requires
        old(dom).wf(),
    ensures
        final(dom).wf(),
        splice_step(old(dom).nodes@, node_id@, html@, final(dom).nodes@),
        r == find_below(old(dom).nodes@, 0, Wanted::Id(node_id@)) is Some,
{
    match dom.get_element_by_id(node_id) {
        None => false,
        Some(t) => {
            match append_fragment(dom, html) {
                None => {},
                Some(f) => {
                    let contents = extract_contents(dom, f);
                    proof {
                        lemma_contents_below(dom.nodes@, f as int);
                    }
                    let ghost b = dom.nodes@;
                    dom.replace_children(t, contents);
                    proof {
                        lemma_contents_below_frame(b, dom.nodes@, f as int);
                        assert(dom.nodes@.subrange(f as int, dom.nodes@.len() as int) =~= b.subrange(f as int, b.len() as int));
                    }
                },
            }
            true
        },
    }
}

/// Empties the element with `node_id`: it stays in place without children.
/// Returns whether it was found.
pub fn remove_children(dom: &mut Dom, node_id: &str) -> (r: bool)
    requires
        old(dom).wf(),
    ensures
        final(dom).wf(),
        clear_step(old(dom).nodes@, node_id@, final(dom).nodes@),
        r == find_below(old(dom).nodes@, 0, Wanted::Id(node_id@)) is Some,
{
    replace_children(dom, node_id, Vec::new())
}

/// Removes, from the direct children of the first `head`, every meta element
/// whose `name` or `property` is one of `tags`.
pub fn remove_doc_metas(dom: &mut Dom, tags: &Vec<String>)
    requires
        old(dom).wf(),
    ensures
        final(dom).wf(),
        strip_step(old(dom).nodes@, tags@, final(dom).nodes@),
{
    match dom.get_head() {
        None => {},
        Some(h) => {
            let ghost nodes = dom.nodes@;
            let ghost cs = dom.nodes@[h as int].children@;
            let mut kept: Vec<usize> = Vec::new();
            let mut k: usize = 0;
            while k < dom.nodes[h].children.len()
                invariant
                    dom.wf(),
                    dom.nodes@ == nodes,
                    h < nodes.len(),
                    cs == nodes[h as int].children@,
                    k <= cs.len(),
                    kept@ == kept_children(nodes, cs.subrange(0, k as int), tags@),
                    forall|j: int| 0 <= j < kept@.len() ==> h < #[trigger] kept@[j] < nodes.len(),
                decreases cs.len() - k,
            {
                let c = dom.nodes[h].children[k];
                assert(child_ok(nodes, h as int, k as int));
                assert(cs.subrange(0, k + 1).drop_last() == cs.subrange(0, k as int));
                let is_meta = match &dom.nodes[c].data {
                    NodeData::Element { name, .. } => crate::text::str_equal(name.as_str(), "meta"),
                    _ => false,
                };
                let by_name = match dom.get_attribute(c, "name") {
                    Some(v) => contains_str(tags, v.as_str()),
                    None => false,
                };
                let by_property = match dom.get_attribute(c, "property") {
                    Some(v) => contains_str(tags, v.as_str()),
                    None => false,
                };
                if !(is_meta && (by_name || by_property)) {
                    kept.push(c);
                }
                k = k + 1;
            }
            assert(cs.subrange(0, cs.len() as int) == cs);
            dom.replace_children(h, kept);
        },
    }
}

/// The namespace of HTML elements.
pub open spec fn html_ns() -> Seq<char> {
    "http://www.w3.org/1999/xhtml"@
}

/// `d` is a `script` element whose only attribute is `src` = `url`.
pub open spec fn is_script_for(d: NodeData, url: Seq<char>) -> bool {
    match d {
        NodeData::Element { ns, name, attrs } => {
            &&& ns@ == html_ns()
            &&& name@ == "script"@
            &&& attrs@.len() == 1
            &&& attrs@[0].ns@ == Seq::<char>::empty()
            &&& attrs@[0].name@ == "src"@
            &&& attrs@[0].value@ == url
        },
        _ => false,
    }
}

/// A `script` element that loads `url`.
pub fn build_script(url: &str) -> (r: NodeData)
    ensures
        is_script_for(r, url@),
{
    let mut attrs: Vec<Attribute> = Vec::new();
    attrs.push(Attribute { ns: String::new(), name: "src".to_string(), value: url.to_string() });
    NodeData::Element { ns: "http://www.w3.org/1999/xhtml".to_string(), name: "script".to_string(), attrs }
}

/// A text node holding a line break.
pub fn build_newline() -> (r: NodeData)
    ensures
        r matches NodeData::Text { contents } && contents@ == "\n"@,
{
    NodeData::Text { contents: "\n".to_string() }
}

/// `b` is `a` with a `script` element loading `url`, then a line break,
/// appended to the children of the first `head`; `a` itself where there is
/// no `head`.
pub open spec fn injected(a: Seq<TreeNode>, url: Seq<char>, b: Seq<TreeNode>) -> bool {
    match find_below(a, 0, Wanted::Tag("head"@)) {
        Some(h) => {
            let n = a.len() as int;
            &&& b.len() == n + 2
            &&& forall|i: int| 0 <= i < n && i != h ==> b[i] == a[i]
            &&& b[h as int].data == a[h as int].data
            &&& b[h as int].children@ == a[h as int].children@.push(n as usize).push((n + 1) as usize)
            &&& is_script_for(b[n].data, url)
            &&& b[n].children@.len() == 0
            &&& b[n + 1].children@.len() == 0
            &&& b[n + 1].data matches NodeData::Text { contents } && contents@ == "\n"@
        },
        None => b == a,
    }
}

/// Appends, to the children of the first `head`, a `script` element that
/// loads `url` and a line break after it. Nothing changes without a `head`.
pub fn inject_online_script(dom: &mut Dom, url: &str)
    requires
        old(dom).wf(),
        old(dom).nodes@.len() < usize::MAX - 2,
    ensures
        final(dom).wf(),
        injected(old(dom).nodes@, url@, final(dom).nodes@),
{
    match dom.get_head() {
        None => {},
        Some(h) => {
            let mut cs = dom.nodes[h].children.clone();
            let s = dom.push_node(build_script(url));
            let n = dom.push_node(build_newline());
            proof {
                assert forall|k: int| 0 <= k < cs@.len() implies h < #[trigger] cs@[k] < dom.nodes@.len() by {
                    assert(child_ok(old(dom).nodes@, h as int, k));
                }
            }
            cs.push(s);
            cs.push(n);
            dom.replace_children(h, cs);
        },
    }
}

/// `b` results from `a` by the patch strategy: splicing `content` into
/// `target`, one emptying step per `id` of `remove_nodes`, then stripping
/// `remove_meta_tags`.
pub open spec fn patched(
    a: Seq<TreeNode>,
    target: Seq<char>,
    content: Seq<char>,
    remove_nodes: Seq<String>,
    remove_meta_tags: Seq<String>,
    b: Seq<TreeNode>,
) -> bool {
    exists|s1: Seq<TreeNode>, s2: Seq<TreeNode>, trace: Seq<Seq<TreeNode>>|
        splice_step(a, target, content, s1) && clear_trace(s1, remove_nodes, s2, trace) && strip_step(
            s2,
            remove_meta_tags,
            b,
        )
}

/// Runs the patch strategy: splice `content` into the element `target`,
/// empty each element of `remove_nodes`, then strip the meta tags of
/// `remove_meta_tags` from `head`. Each step runs whether or not the ones
/// before found their element.
pub fn apply_patch(
    dom: &mut Dom,
    target: &str,
    content: &str,
    remove_nodes: &Vec<String>,
    remove_meta_tags: &Vec<String>,
)
    requires
        old(dom).wf(),
    ensures
        final(dom).wf(),
        patched(old(dom).nodes@, target@, content@, remove_nodes@, remove_meta_tags@, final(dom).nodes@),
{
    splice_fragment(dom, target, content);
    let ghost s1 = dom.nodes@;
    let ghost mut trace: Seq<Seq<TreeNode>> = seq![dom.nodes@];
    let mut k: usize = 0;
    while k < remove_nodes.len()
        invariant
            dom.wf(),
            k <= remove_nodes@.len(),
            trace.len() == k + 1,
            trace[0] == s1,
            trace[k as int] == dom.nodes@,
            forall|j: int| 0 <= j < k ==> clear_step(#[trigger] trace[j], remove_nodes@[j]@, trace[j + 1]),
        decreases remove_nodes@.len() - k,
    {
        remove_children(dom, remove_nodes[k].as_str());
        proof {
            trace = trace.push(dom.nodes@);
        }
        k = k + 1;
    }
    let ghost s2 = dom.nodes@;
    assert(clear_trace(s1, remove_nodes@, s2, trace));
    remove_doc_metas(dom, remove_meta_tags);
}

} // verus!
