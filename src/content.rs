//! The replacement content of the patch strategy, as HTML: from Markdown,
//! from HTML as it is, or from plain text with one paragraph per line.
use vstd::prelude::*;

use crate::parse::{lemma_split_nonempty, split_on, split_spec, views};
use crate::text::{chars_of, ends_with, has_suffix, string_from_chars};

verus! {

/// The HTML that comrak renders from Markdown text with its default options.
pub uninterp spec fn markdown_html_of(md: Seq<char>) -> Seq<char>;

/// Relies on comrak's `markdown_to_html` with `Options::default()`.
#[verifier::external_body]
fn markdown_to_html(md: &str) -> (r: String)
    ensures
        r@ == markdown_html_of(md@),
{
    comrak::markdown_to_html(md, &comrak::Options::default())
}

/// `p` without one trailing carriage return.
pub open spec fn strip_cr(p: Seq<char>) -> Seq<char> {
    if p.len() > 0 && p.last() == '\r' {
        p.drop_last()
    } else {
        p
    }
}

/// The lines of `s`, as `str::lines` gives them: split at `\n`, a `\r`
/// before it dropped, and no empty line after a final line break.
pub open spec fn lines_of(s: Seq<char>) -> Seq<Seq<char>> {
    let ps = split_spec(s, '\n');
    let body = ps.subrange(0, ps.len() - 1).map_values(|p: Seq<char>| strip_cr(p));
    if ps.last().len() == 0 {
        body
    } else {
        body.push(ps.last())
    }
}

/// Each line wrapped in a paragraph, each paragraph after a line break.
pub open spec fn paragraphs(ls: Seq<Seq<char>>) -> Seq<char>
    decreases ls.len(),
{
    if ls.len() == 0 {
        seq![]
    } else {
        paragraphs(ls.drop_last()) + "\n<p>"@ + ls.last() + "</p>"@
    }
}

fn without_cr(s: &str) -> (r: String)
    ensures
        r@ == strip_cr(s@),
{
    let cs = chars_of(s);
    if cs.len() > 0 && cs[cs.len() - 1] == '\r' {
        let mut out: Vec<char> = Vec::new();
        let mut i: usize = 0;
        while i < cs.len() - 1
            invariant
                cs@ == s@,
                cs@.len() > 0,
                i < cs@.len(),
                out@ == cs@.subrange(0, i as int),
            decreases cs@.len() - i,
        {
            out.push(cs[i]);
            i = i + 1;
        }
        assert(out@ =~= s@.drop_last());
        string_from_chars(out.as_slice())
    } else {
        s.to_string()
    }
}

/// Plain text as HTML: one paragraph per line.
pub fn text_to_paragraphs(text: &str) -> (r: String)
    ensures
        r@ == paragraphs(lines_of(text@)),
{
    let ps = split_on(text, '\n');
    let ghost pv = views(ps@);
    proof {
        lemma_split_nonempty(text@, '\n');
    }
    let n = ps.len();
    let mut out = String::new();
    let mut k: usize = 0;
    while k < n - 1
        invariant
            n == ps@.len(),
            n >= 1,
            pv == views(ps@),
            pv == split_spec(text@, '\n'),
            k < n,
            out@ == paragraphs(pv.subrange(0, k as int).map_values(|p: Seq<char>| strip_cr(p))),
        decreases n - k,
    {
        let line = without_cr(ps[k].as_str());
        let ghost before = pv.subrange(0, k as int).map_values(|p: Seq<char>| strip_cr(p));
        out.append("\n<p>");
        out.append(line.as_str());
        out.append("</p>");
        proof {
            let after = pv.subrange(0, k + 1).map_values(|p: Seq<char>| strip_cr(p));
            assert(after.drop_last() =~= before);
            assert(after.last() == strip_cr(pv[k as int]));
            assert(out@ =~= paragraphs(before) + "\n<p>"@ + line@ + "</p>"@);
        }
        k = k + 1;
    }
    let last = &ps[n - 1];
    let ghost body = pv.subrange(0, n - 1).map_values(|p: Seq<char>| strip_cr(p));
    if last.as_str().unicode_len() > 0 {
        out.append("\n<p>");
        out.append(last.as_str());
        out.append("</p>");
        proof {
            assert(body.push(pv.last()).drop_last() =~= body);
            assert(out@ =~= paragraphs(body) + "\n<p>"@ + pv.last() + "</p>"@);
        }
    }
    out
}

/// The replacement HTML of the patch strategy, from the configured file
/// name and what was read from that file (`None` where reading failed): no
/// file means the built-in Markdown; `.md` files are Markdown, `.html` files
/// are taken as they are, and any other file is plain text.
pub fn load_patch_html(
    file_name: &str,
    file_content: Option<String>,
    fallback_markdown: &str,
    fallback_html: &str,
) -> (r: String)
    ensures
        r@ == (if file_name@.len() == 0 {
            markdown_html_of(fallback_markdown@)
        } else if has_suffix(file_name@, ".md"@) {
            markdown_html_of(
                match file_content {
                    Some(c) => c@,
                    None => fallback_markdown@,
                },
            )
        } else if has_suffix(file_name@, ".html"@) {
            match file_content {
                Some(c) => c@,
                None => fallback_html@,
            }
        } else {
            paragraphs(
                lines_of(
                    match file_content {
                        Some(c) => c@,
                        None => "Hello from Miragend!"@,
                    },
                ),
            )
        }),
{
    if file_name.unicode_len() == 0 {
        markdown_to_html(fallback_markdown)
    } else if ends_with(file_name, ".md") {
        match file_content {
            Some(c) => markdown_to_html(c.as_str()),
            None => markdown_to_html(fallback_markdown),
        }
    } else if ends_with(file_name, ".html") {
        match file_content {
            Some(c) => c,
            None => fallback_html.to_string(),
        }
    } else {
        match file_content {
            Some(c) => text_to_paragraphs(c.as_str()),
            None => text_to_paragraphs("Hello from Miragend!"),
        }
    }
}

} // verus!
