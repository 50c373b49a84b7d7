//! Properties of the codec, the text obfuscator and the tree primitives,
//! stated over their specifications and proved.
use vstd::prelude::*;

use crate::dom::{find_below, Wanted, TreeNode};
use crate::obfuscation::{
    codec_allows, count_non_ws, exempt_at, first_match_at, head_exempt_obfuscation,
    in_any_source, in_source, CharactersMapper,
};
use crate::patch::children_replaced;
use crate::pipeline::{fetch_step, load_result, Header, Loaded, RequestError, SendOutcome};
use crate::text::has_prefix;
use crate::text::{is_scalar, is_white_space};

verus! {

/// A character outside every source range of the table is mapped to itself.
pub proof fn codec_fixes_unmapped(ms: Seq<CharactersMapper>, c: char, r: char)
    requires
        forall|i: int| 0 <= i < ms.len() ==> !in_source(#[trigger] ms[i], c),
        codec_allows(ms, c, r),
    ensures
        r == c,
{
}

/// A character inside a source range is mapped into the target range of
/// the first entry that covers it, on every draw, where that target range
/// is non-empty and holds only characters.
pub proof fn codec_lands_in_target(ms: Seq<CharactersMapper>, c: char, r: char, i: int)
    requires
        first_match_at(ms, c, i),
        ms[i].target_start as u32 <= ms[i].target_end as u32,
        forall|v: u32| ms[i].target_start as u32 <= v <= ms[i].target_end as u32 ==> is_scalar(v),
        codec_allows(ms, c, r),
    ensures
        ms[i].target_start as u32 <= r as u32 <= ms[i].target_end as u32,
{
    assert(in_any_source(ms, c));
    let j = choose|j: int|
        first_match_at(ms, c, j) && crate::obfuscation::draw_allows(
            ms[j].target_start as u32,
            ms[j].target_end as u32,
            r,
        );
    if j < i {
        assert(!in_source(ms[j], c));
    } else if i < j {
        assert(!in_source(ms[i], c));
    }
}

/// Head-exempt obfuscation with budget `n`: the first `n` non-white-space
/// characters, and the white space among them, pass unchanged; white space
/// uses up no budget; every character after the budget is spent goes
/// through the codec.
pub proof fn head_exempt_keeps_head(
    ms: Seq<CharactersMapper>,
    s: Seq<char>,
    n: nat,
    r: Seq<char>,
    i: int,
)
    requires
        head_exempt_obfuscation(ms, s, n, r),
        0 <= i < s.len(),
    ensures
        count_non_ws(s.subrange(0, i)) < n ==> r[i] == s[i],
        count_non_ws(s.subrange(0, i)) >= n ==> codec_allows(ms, s[i], r[i]),
        is_white_space(s[i]) ==> count_non_ws(s.subrange(0, i + 1)) == count_non_ws(s.subrange(0, i)),
        !is_white_space(s[i]) ==> count_non_ws(s.subrange(0, i + 1)) == count_non_ws(s.subrange(0, i)) + 1,
{
    assert(s.subrange(0, i + 1).drop_last() == s.subrange(0, i));
    assert(exempt_at(s, n, i) == (count_non_ws(s.subrange(0, i)) < n));
    assert(codec_allows(ms, s[i], r[i]) || exempt_at(s, n, i));
}

/// Finding by `id` is a function of the tree: two searches on the same
/// nodes find the same element.
pub proof fn find_by_id_deterministic(a: Seq<TreeNode>, b: Seq<TreeNode>, id: Seq<char>)
    requires
        a == b,
    ensures
        find_below(a, 0, Wanted::Id(id)) == find_below(b, 0, Wanted::Id(id)),
{
}

/// After the children of a node are replaced, reading them gives exactly
/// the new sequence, in order, and every other node reads as before.
pub proof fn replaced_children_read_back(a: Seq<TreeNode>, t: int, cs: Seq<usize>, b: Seq<TreeNode>)
    requires
        children_replaced(a, t, cs, b),
    ensures
        b[t].children@ == cs,
        forall|k: int| 0 <= k < cs.len() ==> b[t].children@[k] == cs[k],
        forall|i: int| 0 <= i < a.len() && i != t ==> b[i].children@ == a[i].children@,
{
}

/// A timed-out request ends the fetch with 504, before any body is read.
pub proof fn timeout_gives_504(status: u16, headers: Seq<Header>, body: Option<String>, r: Loaded)
    requires
        load_result(fetch_step(SendOutcome::Failed(RequestError::Timeout)), status, headers, body, r),
    ensures
        r matches Loaded::Special(c) && c == 504,
{
}

/// A reply whose content type is neither HTML nor JSON ends the fetch with
/// 502, before any body is read.
pub proof fn unsupported_type_gives_502(v: String, status: u16, headers: Seq<Header>, body: Option<String>, r: Loaded)
    requires
        !has_prefix(v@, "text/html"@),
        !has_prefix(v@, "application/json"@),
        load_result(fetch_step(SendOutcome::Received(Some(Some(v)))), status, headers, body, r),
    ensures
        r matches Loaded::Special(c) && c == 502,
{
}

} // verus!
