//! The request pipeline around the walkers: where the request goes, how an
//! upstream reply is classified, which transformation applies, and what
//! the client finally gets.
use vstd::prelude::*;
use vstd::string::{StrSliceExecFns, StringSliceAdditionalSpecFns};

use crate::config::Settings;
use crate::dom::{shape_of, shape_wf, Dom, TreeNode};
use crate::html::{build_document, export_shape, html_document_of, html_serialization_of, serialize_to_html};
use crate::json::{json_obfuscation, JsonValue, Obfuscator};
use crate::obfuscation::ObfuscatorConfig;
use crate::patch::{apply_patch, injected, patched, inject_online_script};
use crate::special::{build_resp, special_body, SpecialResponse, Style};
use crate::text::{has_prefix, starts_with, str_equal};
use crate::walker::{obfuscate_document, obfuscated};

verus! {

/// A header: its name, lower case, and its value.
pub type Header = (String, Vec<u8>);

/// The kinds of body the proxy transforms.
#[derive(Clone, Copy, PartialEq, Eq, Structural)]
pub enum ContentType {
    Html,
    Json,
}

/// Why an upstream request failed.
#[derive(Clone, Copy, PartialEq, Eq, Structural)]
pub enum RequestError {
    Timeout,
    Transport,
}

/// A reply from upstream whose body is read.
pub struct Response {
    pub status: u16,
    pub headers: Vec<Header>,
    pub content_type: ContentType,
    pub body: String,
}

/// What fetching a page gives: a status that the proxy answers itself, or
/// a reply to transform and forward.
pub enum Loaded {
    Special(u16),
    Forward(Response),
}

/// The URL that a request for `path` goes to.
pub fn upstream_url(base: &str, path: &str) -> (r: String)
    ensures
        r@ == base@ + path@,
{
    let mut r = base.to_string();
    r.append(path);
    r
}

/// The outbound headers: every inbound header in order, `host` set to the
/// upstream domain.
pub fn build_from_request(headers: &Vec<Header>, domain: &str) -> (r: Vec<Header>)
    ensures
        r@.len() == headers@.len(),
        forall|i: int|
            0 <= i < headers@.len() ==> (#[trigger] r@[i]).0@ == headers@[i].0@ && r@[i].1@ == (if headers@[i].0@
                == "host"@ {
                domain.spec_bytes()
            } else {
                headers@[i].1@
            }),
{
    let mut r: Vec<Header> = Vec::new();
    let mut i: usize = 0;
    while i < headers.len()
        invariant
            i <= headers@.len(),
            r@.len() == i,
            forall|j: int|
                0 <= j < i ==> (#[trigger] r@[j]).0@ == headers@[j].0@ && r@[j].1@ == (if headers@[j].0@
                    == "host"@ {
                    domain.spec_bytes()
                } else {
                    headers@[j].1@
                }),
        decreases headers@.len() - i,
    {
        let name = headers[i].0.clone();
        let value = if str_equal(name.as_str(), "host") {
            domain.as_bytes_vec()
        } else {
            headers[i].1.clone()
        };
        r.push((name, value));
        i = i + 1;
    }
    r
}

/// Response headers that describe the upstream body, which the proxy
/// rewrites, and so are not forwarded.
pub open spec fn dropped_header(name: Seq<char>) -> bool {
    name == "connection"@ || name == "content-length"@ || name == "content-encoding"@ || name
        == "etag"@ || name == "last-modified"@ || name == "transfer-encoding"@
}

/// The view of a header: its name and its bytes.
pub open spec fn header_view(h: Header) -> (Seq<char>, Seq<u8>) {
    (h.0@, h.1@)
}

/// The upstream headers that are forwarded, in order.
pub open spec fn forwarded_headers(hs: Seq<(Seq<char>, Seq<u8>)>) -> Seq<(Seq<char>, Seq<u8>)>
    decreases hs.len(),
{
    if hs.len() == 0 {
        seq![]
    } else {
        let rest = forwarded_headers(hs.drop_last());
        if dropped_header(hs.last().0) {
            rest
        } else {
            rest.push(hs.last())
        }
    }
}

/// Keeps the upstream headers that may be forwarded, in order.
pub fn append_headers(headers: &Vec<Header>) -> (r: Vec<Header>)
    ensures
        r@.map_values(|h: Header| header_view(h)) == forwarded_headers(
            headers@.map_values(|h: Header| header_view(h)),
        ),
{
    let ghost hv = headers@.map_values(|h: Header| header_view(h));
    let mut r: Vec<Header> = Vec::new();
    let mut i: usize = 0;
    while i < headers.len()
        invariant
            i <= headers@.len(),
            hv == headers@.map_values(|h: Header| header_view(h)),
            r@.map_values(|h: Header| header_view(h)) == forwarded_headers(hv.subrange(0, i as int)),
        decreases headers@.len() - i,
    {
        assert(hv.subrange(0, i + 1).drop_last() == hv.subrange(0, i as int));
        let name = headers[i].0.as_str();
        let drop = str_equal(name, "connection") || str_equal(name, "content-length")
            || str_equal(name, "content-encoding") || str_equal(name, "etag")
            || str_equal(name, "last-modified") || str_equal(name, "transfer-encoding");
        if !drop {
            let h = (headers[i].0.clone(), headers[i].1.clone());
            let ghost before = r@;
            r.push(h);
            assert(r@.map_values(|h: Header| header_view(h)) =~= before.map_values(|h: Header| header_view(h)).push(header_view(h)));
        }
        i = i + 1;
    }
    assert(hv.subrange(0, headers@.len() as int) == hv);
    r
}

/// The status for a failed upstream request: 504 on a timeout, else 502.
pub fn map_error(e: RequestError) -> (r: u16)
    ensures
        r == (match e {
            RequestError::Timeout => 504u16,
            RequestError::Transport => 502u16,
        }),
{
    match e {
        RequestError::Timeout => 504,
        RequestError::Transport => 502,
    }
}

/// The kind of body that a `content-type` header announces: an absent header
/// means HTML; a value that is no text, or another type, is refused.
pub open spec fn content_type_of(header: Option<Option<String>>) -> Option<ContentType> {
    match header {
        None => Some(ContentType::Html),
        Some(None) => None,
        Some(Some(v)) => if has_prefix(v@, "text/html"@) {
            Some(ContentType::Html)
        } else if has_prefix(v@, "application/json"@) {
            Some(ContentType::Json)
        } else {
            None
        },
    }
}

/// Classifies a reply by its `content-type` header.
pub fn classify(header: &Option<Option<String>>) -> (r: Option<ContentType>)
    ensures
        r == content_type_of(*header),
{
    match header {
        None => Some(ContentType::Html),
        Some(None) => None,
        Some(Some(v)) => if starts_with(v.as_str(), "text/html") {
            Some(ContentType::Html)
        } else if starts_with(v.as_str(), "application/json") {
            Some(ContentType::Json)
        } else {
            None
        },
    }
}

/// What the upstream request gave, before its body is read.
pub enum SendOutcome {
    Failed(RequestError),
    /// A reply, with its `content-type` header: absent, present but no
    /// text, or text.
    Received(Option<Option<String>>),
}

/// What the fetch does next.
#[derive(PartialEq, Eq, Structural)]
pub enum FetchStep {
    /// Read the body, which holds this kind of content.
    ReadBody(ContentType),
    /// Stop, and answer with this status.
    Stop(u16),
}

/// The next step once the upstream request came back: 504 on a timeout,
/// 502 on another failure or a content type that is not transformed, else
/// read the body.
pub open spec fn fetch_step(outcome: SendOutcome) -> FetchStep {
    match outcome {
        SendOutcome::Failed(e) => FetchStep::Stop(if e == RequestError::Timeout {
            504u16
        } else {
            502u16
        }),
        SendOutcome::Received(h) => match content_type_of(h) {
            Some(t) => FetchStep::ReadBody(t),
            None => FetchStep::Stop(502u16),
        },
    }
}

/// Decides the next step once the upstream request came back.
pub fn after_send(outcome: &SendOutcome) -> (r: FetchStep)
    ensures
        r == fetch_step(*outcome),
{
    match outcome {
        SendOutcome::Failed(e) => FetchStep::Stop(map_error(*e)),
        SendOutcome::Received(h) => match classify(h) {
            Some(t) => FetchStep::ReadBody(t),
            None => FetchStep::Stop(502),
        },
    }
}

/// What fetching gives after `step`: the status of a stop, without reading
/// a body; otherwise the reply with the body that was read, or 502 where
/// reading it failed.
pub open spec fn load_result(step: FetchStep, status: u16, headers: Seq<Header>, body: Option<String>, r: Loaded) -> bool {
    match step {
        FetchStep::Stop(c) => r matches Loaded::Special(s) && s == c,
        FetchStep::ReadBody(t) => match body {
            None => r matches Loaded::Special(c) && c == 502,
            Some(b) => r matches Loaded::Forward(resp) && resp.status == status && resp.headers@ == headers
                && resp.content_type == t && resp.body@ == b@,
        },
    }
}

/// The result of fetching, given the step that `after_send` chose and, where
/// it was to read the body, what reading gave.
pub fn load(step: FetchStep, status: u16, headers: Vec<Header>, body: Option<String>) -> (r: Loaded)
    ensures
        load_result(step, status, headers@, body, r),
{
    match step {
        FetchStep::Stop(c) => Loaded::Special(c),
        FetchStep::ReadBody(t) => match body {
            None => Loaded::Special(502),
            Some(b) => Loaded::Forward(Response { status, headers, content_type: t, body: b }),
        },
    }
}

/// Whether a strategy name selects the patch strategy; every other name
/// selects obfuscation.
pub fn is_patch_strategy(name: &str) -> (r: bool)
    ensures
        r == (name@ == "patch"@),
{
    str_equal(name, "patch")
}

/// Whether a strategy name is one of the known ones (`patch`,
/// `obfuscation`, `obfus`).
pub fn is_known_strategy(name: &str) -> (r: bool)
    ensures
        r == (name@ == "patch"@ || name@ == "obfuscation"@ || name@ == "obfus"@),
{
    str_equal(name, "patch") || str_equal(name, "obfuscation") || str_equal(name, "obfus")
}

/// The strategy for one request.
pub enum Strategy {
    /// Patch, with the replacement content as HTML.
    Patch { content: String },
    Obfuscation,
}

/// `b` results from `a` by the strategy alone.
pub open spec fn strategy_result(a: Seq<TreeNode>, strategy: Strategy, settings: Settings, b: Seq<TreeNode>) -> bool {
    match strategy {
        Strategy::Patch { content } => patched(
            a,
            settings.patch_target@,
            content@,
            settings.patch_remove_nodes@,
            settings.patch_remove_meta_tags@,
            b,
        ),
        Strategy::Obfuscation => obfuscated(
            settings.obfuscator_config.mappers@,
            settings.obfuscation_rules,
            settings.obfuscation_meta_tags@,
            a,
            b,
        ),
    }
}

/// `b` is `a` after the script injection, where a script is configured and
/// the arena has room for it.
pub open spec fn injection_step(a: Seq<TreeNode>, url: Seq<char>, b: Seq<TreeNode>) -> bool {
    if url.len() == 0 || a.len() >= usize::MAX - 2 {
        b == a
    } else {
        injected(a, url, b)
    }
}

/// `b` is the document `a` after the strategy and the script injection.
pub open spec fn transformed(a: Seq<TreeNode>, strategy: Strategy, settings: Settings, b: Seq<TreeNode>) -> bool {
    exists|mid: Seq<TreeNode>|
        #[trigger] strategy_result(a, strategy, settings, mid) && injection_step(
            mid,
            settings.inject_online_script@,
            b,
        )
}

/// Applies the strategy to a parsed page, then injects the configured
/// script into its head.
pub fn transform_page(dom: &mut Dom, strategy: &Strategy, settings: &Settings)
    requires
        old(dom).wf(),
    ensures
        final(dom).wf(),
        transformed(old(dom).nodes@, *strategy, *settings, final(dom).nodes@),
{
    match strategy {
        Strategy::Patch { content } => {
            apply_patch(
                dom,
                settings.patch_target.as_str(),
                content.as_str(),
                &settings.patch_remove_nodes,
                &settings.patch_remove_meta_tags,
            );
        },
        Strategy::Obfuscation => {
            obfuscate_document(
                dom,
                &settings.obfuscator_config,
                &settings.obfuscation_rules,
                &settings.obfuscation_meta_tags,
            );
        },
    }
    let ghost mid = dom.nodes@;
    if settings.inject_online_script.as_str().unicode_len() > 0 && dom.nodes.len() < usize::MAX - 2 {
        inject_online_script(dom, settings.inject_online_script.as_str());
    }
    proof {
        assert(strategy_result(old(dom).nodes@, *strategy, *settings, mid));
        assert(injection_step(mid, settings.inject_online_script@, dom.nodes@));
    }
}

/// Why a body could not be transformed.
#[derive(Clone, Copy, PartialEq, Eq, Structural)]
pub enum PageError {
    Parse,
    Serialize,
}

/// What handling the page `html` may give: `Parse` where html5ever's tree
/// has no document shape; otherwise the serialization of a transformation
/// of the parsed document, or `Serialize` where that serialization fails.
pub open spec fn page_result(
    html: Seq<char>,
    strategy: Strategy,
    settings: Settings,
    r: Result<Seq<char>, PageError>,
) -> bool {
    if !shape_wf(html_document_of(html)) {
        r == Err::<Seq<char>, PageError>(PageError::Parse)
    } else {
        exists|a: Seq<TreeNode>, b: Seq<TreeNode>|
            shape_of(a) == html_document_of(html) && #[trigger] transformed(a, strategy, settings, b)
                && r == match html_serialization_of(export_shape(b)) {
                Some(t) => Ok::<Seq<char>, PageError>(t),
                None => Err(PageError::Serialize),
            }
    }
}

/// The text of a page result.
pub open spec fn result_view(r: Result<String, PageError>) -> Result<Seq<char>, PageError> {
    match r {
        Ok(s) => Ok(s@),
        Err(e) => Err(e),
    }
}

/// Parses a page with html5ever, transforms it as `transform_page` states,
/// and serializes it again.
pub fn handle_page(html: &str, strategy: &Strategy, settings: &Settings) -> (r: Result<String, PageError>)
    ensures
        page_result(html@, *strategy, *settings, result_view(r)),
{
    let mut dom = match build_document(html) {
        Some(d) => d,
        None => {
            return Err(PageError::Parse);
        },
    };
    let ghost a = dom.nodes@;
    transform_page(&mut dom, strategy, settings);
    let ghost b = dom.nodes@;
    let r = match serialize_to_html(&dom) {
        Some(s) => Ok(s),
        None => Err(PageError::Serialize),
    };
    assert(transformed(a, *strategy, *settings, b));
    r
}

/// What a JSON body becomes.
pub enum JsonReply {
    /// Forwarded as it came.
    Unchanged(String),
    /// Rewritten; to be serialized.
    Obfuscated(JsonValue),
}

/// Transforms a JSON body, given what the JSON parser made of it (`None`
/// where it could not parse the body). The patch strategy forwards the body
/// as it came; obfuscation rewrites every string leaf.
pub fn handle_json(body: String, parsed: Option<JsonValue>, strategy: &Strategy, config: &ObfuscatorConfig) -> (r: Result<JsonReply, PageError>)
    ensures
        match parsed {
            Some(v) => match strategy {
                Strategy::Patch { .. } => r matches Ok(JsonReply::Unchanged(b)) && b@ == body@,
                Strategy::Obfuscation => r matches Ok(JsonReply::Obfuscated(w)) && json_obfuscation(
                    config.mappers@,
                    v,
                    w,
                ),
            },
            None => r == Err::<JsonReply, PageError>(PageError::Parse),
        },
{
    match parsed {
        Some(v) => match strategy {
            Strategy::Patch { .. } => Ok(JsonReply::Unchanged(body)),
            Strategy::Obfuscation => Ok(JsonReply::Obfuscated(v.obfuscated(config))),
        },
        None => Err(PageError::Parse),
    }
}

/// What the client gets.
pub enum Outcome {
    /// The transformed reply, with the forwardable upstream headers.
    Reply { status: u16, headers: Vec<Header>, body: String },
    /// A JSON reply whose rewritten value is still to be serialized.
    SerializeJson { status: u16, headers: Vec<Header>, value: JsonValue },
    /// A fallback page.
    Special(SpecialResponse),
}

/// `sr` is the fallback response for `code` in `style`.
pub open spec fn special_for(sr: SpecialResponse, code: u16, style: Style) -> bool {
    &&& sr.status == code
    &&& sr.body@ == special_body(code, style)
    &&& match style {
        Style::Nginx => sr.content_type matches Some(t) && t@ == "text/html; charset=utf-8"@,
        Style::Plain => sr.content_type is None,
    }
}

/// `hs` are the upstream headers `upstream` that may be forwarded.
pub open spec fn forwarded(hs: Vec<Header>, upstream: Vec<Header>) -> bool {
    hs@.map_values(|h: Header| header_view(h)) == forwarded_headers(
        upstream@.map_values(|h: Header| header_view(h)),
    )
}

/// The outcome for a fetched page once it was transformed: the page, or a
/// 500 fallback where parsing or serializing failed.
pub fn page_outcome(status: u16, headers: &Vec<Header>, page: Result<String, PageError>, style: Style) -> (r: Outcome)
    ensures
        match page {
            Ok(b) => r matches Outcome::Reply { status: s, headers: hs, body } && s == status && body@ == b@
                && forwarded(hs, *headers),
            Err(_) => r matches Outcome::Special(sr) && special_for(sr, 500, style),
        },
{
    match page {
        Ok(b) => Outcome::Reply { status, headers: append_headers(headers), body: b },
        Err(_) => Outcome::Special(build_resp(500, style)),
    }
}

/// The outcome for a fetched JSON body once it was transformed.
pub fn json_outcome(status: u16, headers: &Vec<Header>, reply: Result<JsonReply, PageError>, style: Style) -> (r: Outcome)
    ensures
        match reply {
            Ok(JsonReply::Unchanged(b)) => r matches Outcome::Reply { status: s, headers: hs, body } && s == status
                && body@ == b@ && forwarded(hs, *headers),
            Ok(JsonReply::Obfuscated(v)) => r matches Outcome::SerializeJson { status: s, headers: hs, value } && s == status
                && value == v && forwarded(hs, *headers),
            Err(_) => r matches Outcome::Special(sr) && special_for(sr, 500, style),
        },
{
    match reply {
        Ok(JsonReply::Unchanged(b)) => Outcome::Reply { status, headers: append_headers(headers), body: b },
        Ok(JsonReply::Obfuscated(v)) => Outcome::SerializeJson { status, headers: append_headers(headers), value: v },
        Err(_) => Outcome::Special(build_resp(500, style)),
    }
}

/// The final outcome of a rewritten JSON value, given what the JSON
/// serializer made of it (`None` where it failed): the reply, or a 500
/// fallback.
pub fn json_reply(status: u16, headers: Vec<Header>, serialized: Option<String>, style: Style) -> (r: Outcome)
    ensures
        match serialized {
            Some(t) => r matches Outcome::Reply { status: s, headers: hs, body } && s == status && body@ == t@
                && hs@ == headers@,
            None => r matches Outcome::Special(sr) && special_for(sr, 500, style),
        },
{
    match serialized {
        Some(t) => Outcome::Reply { status, headers, body: t },
        None => Outcome::Special(build_resp(500, style)),
    }
}

/// Dispatches a fetch result: a fallback page for a status the proxy
/// answers itself; otherwise the body goes through the walker for its kind
/// and the active strategy. `parsed_json` is what the JSON parser made of a
/// JSON body.
pub fn handle(loaded: Loaded, parsed_json: Option<JsonValue>, strategy: &Strategy, settings: &Settings) -> (r: Outcome)
    ensures
        match loaded {
            Loaded::Special(c) => r matches Outcome::Special(sr) && special_for(sr, c, settings.special_page_style),
            Loaded::Forward(resp) => match resp.content_type {
                ContentType::Html => match r {
                    Outcome::Reply { status, headers, body } => status == resp.status && forwarded(headers, resp.headers)
                        && page_result(resp.body@, *strategy, *settings, Ok(body@)),
                    Outcome::Special(sr) => special_for(sr, 500, settings.special_page_style)
                        && exists|e: PageError| page_result(resp.body@, *strategy, *settings, Err(e)),
                    _ => false,
                },
                ContentType::Json => match parsed_json {
                    Some(v) => match strategy {
                        Strategy::Patch { .. } => r matches Outcome::Reply { status, headers, body } && status == resp.status
                            && body@ == resp.body@ && forwarded(headers, resp.headers),
                        Strategy::Obfuscation => r matches Outcome::SerializeJson { status, headers, value } && status == resp.status
                            && forwarded(headers, resp.headers) && json_obfuscation(settings.obfuscator_config.mappers@, v, value),
                    },
                    None => r matches Outcome::Special(sr) && special_for(sr, 500, settings.special_page_style),
                },
            },
        },
{
    match loaded {
        Loaded::Special(c) => Outcome::Special(build_resp(c, settings.special_page_style)),
        Loaded::Forward(resp) => match resp.content_type {
            ContentType::Html => {
                let page = handle_page(resp.body.as_str(), strategy, settings);
                let ghost pv = result_view(page);
                let r = page_outcome(resp.status, &resp.headers, page, settings.special_page_style);
                proof {
                    match pv {
                        Err(e) => {
                            assert(page_result(resp.body@, *strategy, *settings, Err(e)));
                        },
                        Ok(_) => {},
                    }
                }
                r
            },
            ContentType::Json => {
                let reply = handle_json(resp.body, parsed_json, strategy, &settings.obfuscator_config);
                json_outcome(resp.status, &resp.headers, reply, settings.special_page_style)
            },
        },
    }
}

} // verus!
