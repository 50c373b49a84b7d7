//! The obfuscation strategy on documents: a pre-order walk that picks the
//! text nodes to obfuscate, honouring the exclusion rules, and a separate
//! pass over the meta tags named for obfuscation.
use vstd::prelude::*;

use crate::dom::{
    child_ok, collect_below, data_attr, data_set_attr, is_element_named, Dom, NodeData,
    TreeNode, Wanted, ROOT,
};
use crate::obfuscation::{
    head_exempt_obfuscation, obfuscated_text, obfuscated_with_remaining, remaining_after,
    text_obfuscation, CharactersMapper, ObfuscatorConfig,
};
use crate::text::{contains_str, contains_text, str_equal};

verus! {

/// The exclusion rules of the obfuscation walk.
pub struct ObfuscationRules {
    /// Keep the first text met directly inside a `title` element.
    pub ignore_title: bool,
    /// Elements with one of these `id`s are skipped with all they hold.
    pub ignore_nodes: Vec<String>,
    /// From the element with this `id` on, in document order, the first
    /// `ignore_len` non-white-space characters of text are kept.
    pub ignore_after_node: String,
    pub ignore_len: usize,
}

/// Tags whose elements are skipped with all they hold.
pub open spec fn is_skipped_tag(tag: Seq<char>) -> bool {
    tag == "script"@ || tag == "noscript"@ || tag == "style"@ || tag == "template"@ || tag
        == "iframe"@
}

/// Tests whether elements with this tag are skipped with all they hold.
pub fn skipped_tag(tag: &str) -> (r: bool)
    ensures
        r == is_skipped_tag(tag@),
{
    str_equal(tag, "script") || str_equal(tag, "noscript") || str_equal(tag, "style")
        || str_equal(tag, "template") || str_equal(tag, "iframe")
}

/// The state of the walk: the text nodes picked so far, each with whether it
/// lies in the preserving zone; whether the title text was kept already;
/// whether the preserving zone has begun.
pub struct WalkState {
    pub found: Seq<(usize, bool)>,
    pub title_done: bool,
    pub zone: bool,
}

/// The state after visiting child `c` of `p`, then the children of `p` after it.
pub open spec fn walk_from(
    nodes: Seq<TreeNode>,
    rules: ObfuscationRules,
    p: int,
    k: int,
    st: WalkState,
) -> WalkState
    decreases nodes.len() - p, 0int, nodes[p].children@.len() - k,
    when 0 <= p < nodes.len() && 0 <= k
{
    if child_ok(nodes, p, k) {
        let c = nodes[p].children@[k];
        let next = match nodes[c as int].data {
            NodeData::Text { .. } => if rules.ignore_title && !st.title_done && is_element_named(
                nodes[p].data,
                "title"@,
            ) {
                WalkState { found: st.found, title_done: true, zone: st.zone }
            } else {
                WalkState { found: st.found.push((c, st.zone)), title_done: st.title_done, zone: st.zone }
            },
            NodeData::Element { name, .. } => {
                let id = data_attr(nodes[c as int].data, "id"@);
                if id is Some && contains_text(rules.ignore_nodes@, id->0) {
                    st
                } else {
                    let entered = WalkState {
                        found: st.found,
                        title_done: st.title_done,
                        zone: st.zone || id == Some(rules.ignore_after_node@),
                    };
                    if is_skipped_tag(name@) {
                        entered
                    } else {
                        walk_below(nodes, rules, c as int, entered)
                    }
                }
            },
            _ => st,
        };
        walk_from(nodes, rules, p, k + 1, next)
    } else {
        st
    }
}

/// The state after walking the subtree below `p`, in pre-order.
pub open spec fn walk_below(nodes: Seq<TreeNode>, rules: ObfuscationRules, p: int, st: WalkState) -> WalkState
    decreases nodes.len() - p, 1int,
{
    if 0 <= p < nodes.len() {
        walk_from(nodes, rules, p, 0, st)
    } else {
        st
    }
}

/// The text nodes that the walk of the whole document picks, in document
/// order, each with whether it lies in the preserving zone.
pub open spec fn obfuscation_plan(nodes: Seq<TreeNode>, rules: ObfuscationRules) -> Seq<(usize, bool)> {
    walk_below(nodes, rules, 0, WalkState { found: seq![], title_done: false, zone: false }).found
}

fn walk(dom: &Dom, rules: &ObfuscationRules, p: usize, found: &mut Vec<(usize, bool)>, title_done: &mut bool, zone: &mut bool)
    requires
        dom.wf(),
        p < dom.nodes@.len(),
    ensures
        walk_below(dom.nodes@, *rules, p as int, WalkState { found: old(found)@, title_done: *old(title_done), zone: *old(zone) })
            == (WalkState { found: final(found)@, title_done: *final(title_done), zone: *final(zone) }),
    decreases dom.nodes@.len() - p,
{
    let ghost nodes = dom.nodes@;
    let ghost start = WalkState { found: found@, title_done: *title_done, zone: *zone };
    let parent_is_title = match &dom.nodes[p].data {
        NodeData::Element { name, .. } => str_equal(name.as_str(), "title"),
        _ => false,
    };
    let mut k: usize = 0;
    while k < dom.nodes[p].children.len()
        invariant
            dom.wf(),
            nodes == dom.nodes@,
            p < nodes.len(),
            k <= nodes[p as int].children@.len(),
            parent_is_title == is_element_named(nodes[p as int].data, "title"@),
            walk_below(nodes, *rules, p as int, start) == walk_from(
                nodes,
                *rules,
                p as int,
                k as int,
                WalkState { found: found@, title_done: *title_done, zone: *zone },
            ),
        decreases nodes[p as int].children@.len() - k,
    {
        let c = dom.nodes[p].children[k];
        assert(child_ok(nodes, p as int, k as int));
        match &dom.nodes[c].data {
            NodeData::Text { .. } => {
                if rules.ignore_title && !*title_done && parent_is_title {
                    *title_done = true;
                } else {
                    found.push((c, *zone));
                }
            },
            NodeData::Element { name, .. } => {
                let id = dom.get_attribute(c, "id");
                let ignored = match &id {
                    Some(v) => contains_str(&rules.ignore_nodes, v.as_str()),
                    None => false,
                };
                if !ignored {
                    let starts = match &id {
                        Some(v) => str_equal(v.as_str(), rules.ignore_after_node.as_str()),
                        None => false,
                    };
                    if starts {
                        *zone = true;
                    }
                    if !skipped_tag(name.as_str()) {
                        walk(dom, rules, c, found, title_done, zone);
                    }
                }
            },
            _ => {},
        }
        k = k + 1;
    }
}

/// The text nodes to obfuscate, in document order, each with whether it lies
/// in the preserving zone.
pub fn collect_obfuscation_nodes(dom: &Dom, rules: &ObfuscationRules) -> (r: Vec<(usize, bool)>)
    requires
        dom.wf(),
    ensures
        r@ == obfuscation_plan(dom.nodes@, *rules),
{
    let mut found: Vec<(usize, bool)> = Vec::new();
    let mut title_done = false;
    let mut zone = false;
    walk(dom, rules, ROOT, &mut found, &mut title_done, &mut zone);
    found
}

/// The text of a text node; empty for other nodes.
pub open spec fn text_of(d: NodeData) -> Seq<char> {
    match d {
        NodeData::Text { contents } => contents@,
        _ => seq![],
    }
}

/// Entry `e` of `plan` is the first one for its node.
pub open spec fn first_visit(plan: Seq<(usize, bool)>, e: int) -> bool {
    forall|j: int| 0 <= j < e ==> plan[j].0 != plan[e].0
}

/// The preserving budget left when entry `e` of `plan` is reached, starting
/// from `n`: first visits of text nodes in the zone use it up while it is
/// positive.
pub open spec fn budget_before(nodes: Seq<TreeNode>, plan: Seq<(usize, bool)>, e: int, n: nat) -> nat
    decreases e,
{
    if e <= 0 {
        n
    } else {
        let b = budget_before(nodes, plan, e - 1, n);
        let t = plan[e - 1].0 as int;
        if plan[e - 1].1 && b > 0 && t < nodes.len() && nodes[t].data is Text && first_visit(
            plan,
            e - 1,
        ) {
            remaining_after(text_of(nodes[t].data), b)
        } else {
            b
        }
    }
}

/// How one picked text node changes: in the zone with budget left, head-exempt
/// obfuscation with that budget; otherwise full obfuscation. Other nodes stay.
pub open spec fn text_step(
    ms: Seq<CharactersMapper>,
    before: NodeData,
    in_zone: bool,
    budget: nat,
    after: NodeData,
) -> bool {
    match before {
        NodeData::Text { contents } => match after {
            NodeData::Text { contents: c2 } => if in_zone && budget > 0 {
                head_exempt_obfuscation(ms, contents@, budget, c2@)
            } else {
                text_obfuscation(ms, contents@, c2@)
            },
            _ => false,
        },
        _ => after == before,
    }
}

/// Whether node `i` occurs in `plan`.
pub open spec fn in_plan(plan: Seq<(usize, bool)>, i: int) -> bool {
    exists|e: int| 0 <= e < plan.len() && plan[e].0 == i
}

/// `b` results from `a` by obfuscating the text nodes of `plan` in order,
/// each once, at its first entry, with a preserving budget of `n` shared
/// along the plan.
pub open spec fn text_pass(
    ms: Seq<CharactersMapper>,
    a: Seq<TreeNode>,
    plan: Seq<(usize, bool)>,
    n: nat,
    b: Seq<TreeNode>,
) -> bool {
    &&& b.len() == a.len()
    &&& forall|i: int| 0 <= i < a.len() ==> (#[trigger] b[i]).children == a[i].children
    &&& forall|i: int| 0 <= i < a.len() && !in_plan(plan, i) ==> #[trigger] b[i] == a[i]
    &&& forall|e: int|
        0 <= e < plan.len() && plan[e].0 < a.len() && first_visit(plan, e) ==> text_step(
            ms,
            a[plan[e].0 as int].data,
            plan[e].1,
            budget_before(a, plan, e, n),
            #[trigger] b[plan[e].0 as int].data,
        )
}

/// Obfuscates the text nodes of `plan` in order, each once. Those in the
/// zone keep their head while the shared budget, starting at
/// `ignore_remaining`, lasts.
pub fn obfuscate_plan(
    dom: &mut Dom,
    config: &ObfuscatorConfig,
    plan: &Vec<(usize, bool)>,
    ignore_remaining: usize,
)
    requires
        old(dom).wf(),
    ensures
        final(dom).wf(),
        text_pass(config.mappers@, old(dom).nodes@, plan@, ignore_remaining as nat, final(dom).nodes@),
{
    let ghost a = dom.nodes@;
    let ghost n = ignore_remaining as nat;
    let mut done: Vec<bool> = vec![false; dom.nodes.len()];
    let mut remaining = ignore_remaining;
    let mut e: usize = 0;
    while e < plan.len()
        invariant
            dom.wf(),
            e <= plan@.len(),
            dom.nodes@.len() == a.len(),
            done@.len() == a.len(),
            forall|i: int| 0 <= i < a.len() ==> (#[trigger] done@[i] <==> exists|j: int| 0 <= j < e && plan@[j].0 == i),
            forall|i: int| 0 <= i < a.len() ==> (#[trigger] dom.nodes@[i]).children == a[i].children,
            forall|i: int| 0 <= i < a.len() && !done@[i] ==> #[trigger] dom.nodes@[i] == a[i],
            remaining == budget_before(a, plan@, e as int, n),
            forall|j: int|
                0 <= j < e && plan@[j].0 < a.len() && first_visit(plan@, j) ==> text_step(
                    config.mappers@,
                    a[plan@[j].0 as int].data,
                    plan@[j].1,
                    budget_before(a, plan@, j, n),
                    #[trigger] dom.nodes@[plan@[j].0 as int].data,
                ),
        decreases plan@.len() - e,
    {
        let (t, in_zone) = plan[e];
        let ghost cur = dom.nodes@;
        let ghost done_before = done@;
        if t < dom.nodes.len() && !done[t] {
            assert(first_visit(plan@, e as int));
            assert(cur[t as int] == a[t as int]);
            done.set(t, true);
            let text = match &dom.nodes[t].data {
                NodeData::Text { contents } => Some(contents.clone()),
                _ => None,
            };
            match text {
                Some(old_text) => {
                    if !in_zone || remaining == 0 {
                        let new_text = obfuscated_text(config, old_text.as_str());
                        dom.set_text(t, new_text);
                    } else {
                        let (new_text, left) = obfuscated_with_remaining(config, old_text.as_str(), remaining);
                        dom.set_text(t, new_text);
                        remaining = left;
                    }
                },
                None => {},
            }
            proof {
                assert forall|j: int|
                    0 <= j < e && plan@[j].0 < a.len() && first_visit(plan@, j) implies text_step(
                        config.mappers@,
                        a[plan@[j].0 as int].data,
                        plan@[j].1,
                        budget_before(a, plan@, j, n),
                        #[trigger] dom.nodes@[plan@[j].0 as int].data,
                    ) by {
                    assert(plan@[j].0 != t);
                }
                assert forall|i: int| 0 <= i < a.len() implies (#[trigger] done@[i] <==> exists|j: int| 0 <= j < e + 1 && plan@[j].0 == i) by {
                    if i == t as int {
                        assert(plan@[e as int].0 == i);
                    } else {
                        if exists|j: int| 0 <= j < e + 1 && plan@[j].0 == i {
                            let j = choose|j: int| 0 <= j < e + 1 && plan@[j].0 == i;
                            assert(j < e);
                        }
                    }
                }
            }
        } else {
            proof {
                if t < a.len() {
                    assert(done_before[t as int]);
                    let j = choose|j: int| 0 <= j < e && plan@[j].0 == t as int;
                    assert(!first_visit(plan@, e as int));
                }
                assert forall|i: int| 0 <= i < a.len() implies (#[trigger] done@[i] <==> exists|j: int| 0 <= j < e + 1 && plan@[j].0 == i) by {
                    if exists|j: int| 0 <= j < e + 1 && plan@[j].0 == i {
                        let j = choose|j: int| 0 <= j < e + 1 && plan@[j].0 == i;
                        if j == e {
                            assert(t as int == i);
                        }
                    }
                }
            }
        }
        e = e + 1;
    }
    proof {
        assert forall|i: int| 0 <= i < a.len() && !in_plan(plan@, i) implies #[trigger] dom.nodes@[i] == a[i] by {
            assert(!done@[i]);
        }
    }
}

/// The text pass of the obfuscation strategy: obfuscates the text nodes that
/// the walk picks, in document order, with the preserving budget of `rules`
/// shared along them.
pub fn obfuscate_doc_text(dom: &mut Dom, config: &ObfuscatorConfig, rules: &ObfuscationRules)
    requires
        old(dom).wf(),
    ensures
        final(dom).wf(),
        text_pass(
            config.mappers@,
            old(dom).nodes@,
            obfuscation_plan(old(dom).nodes@, *rules),
            rules.ignore_len as nat,
            final(dom).nodes@,
        ),
{
    let plan = collect_obfuscation_nodes(dom, rules);
    obfuscate_plan(dom, config, &plan, rules.ignore_len);
}

/// A meta element named for obfuscation: its `name`, or else its
/// `property`, is one of `tags`.
pub open spec fn meta_selected(d: NodeData, tags: Seq<String>) -> bool {
    ||| (data_attr(d, "name"@) is Some && contains_text(tags, data_attr(d, "name"@)->0))
    ||| (data_attr(d, "property"@) is Some && contains_text(tags, data_attr(d, "property"@)->0))
}

/// How one meta element changes: where it is selected and has a `content`,
/// that content is obfuscated in full; otherwise nothing changes.
pub open spec fn meta_step(ms: Seq<CharactersMapper>, tags: Seq<String>, before: NodeData, after: NodeData) -> bool {
    if meta_selected(before, tags) && data_attr(before, "content"@) is Some {
        exists|v: Seq<char>|
            text_obfuscation(ms, data_attr(before, "content"@)->0, v) && #[trigger] data_set_attr(
                before,
                "content"@,
                v,
                after,
            )
    } else {
        after == before
    }
}

/// `b` results from `a` by the meta step on each node of `metas`, once.
pub open spec fn meta_pass(
    ms: Seq<CharactersMapper>,
    tags: Seq<String>,
    a: Seq<TreeNode>,
    metas: Seq<usize>,
    b: Seq<TreeNode>,
) -> bool {
    &&& b.len() == a.len()
    &&& forall|i: int| 0 <= i < a.len() ==> (#[trigger] b[i]).children == a[i].children
    &&& forall|i: int| 0 <= i < a.len() && !metas.contains(i as usize) ==> #[trigger] b[i] == a[i]
    &&& forall|e: int|
        0 <= e < metas.len() && metas[e] < a.len() ==> meta_step(
            ms,
            tags,
            a[metas[e] as int].data,
            #[trigger] b[metas[e] as int].data,
        )
}

/// Obfuscates the `content` of every meta element whose `name` or
/// `property` is one of `include_tags`, once per element.
pub fn obfuscate_doc_metas(dom: &mut Dom, config: &ObfuscatorConfig, include_tags: &Vec<String>)
    requires
        old(dom).wf(),
    ensures
        final(dom).wf(),
        meta_pass(
            config.mappers@,
            include_tags@,
            old(dom).nodes@,
            collect_below(old(dom).nodes@, 0, Wanted::Tag("meta"@)),
            final(dom).nodes@,
        ),
{
    let ghost a = dom.nodes@;
    let ghost ms = config.mappers@;
    let metas = dom.find_meta_tags();
    let mut done: Vec<bool> = vec![false; dom.nodes.len()];
    let mut e: usize = 0;
    while e < metas.len()
        invariant
            dom.wf(),
            ms == config.mappers@,
            e <= metas@.len(),
            dom.nodes@.len() == a.len(),
            done@.len() == a.len(),
            forall|i: int| 0 <= i < a.len() ==> (#[trigger] done@[i] <==> metas@.subrange(0, e as int).contains(i as usize)),
            forall|i: int| 0 <= i < a.len() ==> (#[trigger] dom.nodes@[i]).children == a[i].children,
            forall|i: int| 0 <= i < a.len() && !done@[i] ==> #[trigger] dom.nodes@[i] == a[i],
            forall|j: int|
                0 <= j < e && metas@[j] < a.len() ==> meta_step(
                    ms,
                    include_tags@,
                    a[metas@[j] as int].data,
                    #[trigger] dom.nodes@[metas@[j] as int].data,
                ),
        decreases metas@.len() - e,
    {
        let m = metas[e];
        let ghost cur = dom.nodes@;
        let ghost pre = metas@.subrange(0, e as int);
        let ghost post = metas@.subrange(0, e + 1);
        proof {
            assert(post == pre.push(m));
        }
        if m < dom.nodes.len() && !done[m] {
            assert(cur[m as int] == a[m as int]);
            done.set(m, true);
            let by_name = match dom.get_attribute(m, "name") {
                Some(v) => contains_str(include_tags, v.as_str()),
                None => false,
            };
            let by_property = match dom.get_attribute(m, "property") {
                Some(v) => contains_str(include_tags, v.as_str()),
                None => false,
            };
            if by_name || by_property {
                match dom.get_attribute(m, "content") {
                    Some(content) => {
                        let v = obfuscated_text(config, content.as_str());
                        let ghost vv = v@;
                        dom.set_attribute(m, "content", v);
                        assert(data_set_attr(cur[m as int].data, "content"@, vv, dom.nodes@[m as int].data));
                    },
                    None => {},
                }
            }
            proof {
                assert forall|j: int|
                    0 <= j < e && metas@[j] < a.len() implies meta_step(
                        ms,
                        include_tags@,
                        a[metas@[j] as int].data,
                        #[trigger] dom.nodes@[metas@[j] as int].data,
                    ) by {
                    if metas@[j] == m {
                        assert(pre[j] == m);
                    }
                }
            }
        } else {
            proof {
                if m < a.len() {
                    assert(pre.contains(m));
                    let j = choose|j: int| 0 <= j < pre.len() && pre[j] == m;
                    assert(metas@[j] == m);
                }
            }
        }
        proof {
            assert forall|i: int| 0 <= i < a.len() implies (#[trigger] done@[i] <==> post.contains(i as usize)) by {
                if post.contains(i as usize) {
                    let j = choose|j: int| 0 <= j < post.len() && post[j] == i as usize;
                    if j < e {
                        assert(pre[j] == i as usize);
                    }
                }
                if pre.contains(i as usize) {
                    let j = choose|j: int| 0 <= j < pre.len() && pre[j] == i as usize;
                    assert(post[j] == i as usize);
                }
                if i == m as int {
                    assert(post[e as int] == m);
                }
            }
        }
        e = e + 1;
    }
    proof {
        assert(metas@.subrange(0, metas@.len() as int) == metas@);
        assert forall|i: int| 0 <= i < a.len() && !metas@.contains(i as usize) implies #[trigger] dom.nodes@[i] == a[i] by {
            assert(!done@[i]);
        }
    }
}

/// `b` results from `a` by the obfuscation strategy: the text pass along the
/// walk's plan, then the meta pass.
pub open spec fn obfuscated(
    ms: Seq<CharactersMapper>,
    rules: ObfuscationRules,
    meta_tags: Seq<String>,
    a: Seq<TreeNode>,
    b: Seq<TreeNode>,
) -> bool {
    exists|mid: Seq<TreeNode>|
        text_pass(ms, a, obfuscation_plan(a, rules), rules.ignore_len as nat, mid) && meta_pass(
            ms,
            meta_tags,
            mid,
            collect_below(mid, 0, Wanted::Tag("meta"@)),
            b,
        )
}

/// Runs the obfuscation strategy on a document: the text pass along the
/// walk's plan, then the meta pass.
pub fn obfuscate_document(
    dom: &mut Dom,
    config: &ObfuscatorConfig,
    rules: &ObfuscationRules,
    meta_tags: &Vec<String>,
)
    requires
        old(dom).wf(),
    ensures
        final(dom).wf(),
        obfuscated(config.mappers@, *rules, meta_tags@, old(dom).nodes@, final(dom).nodes@),
{
    obfuscate_doc_text(dom, config, rules);
    let ghost mid = dom.nodes@;
    obfuscate_doc_metas(dom, config, meta_tags);
}

} // verus!
