//! The process-wide settings: built once at startup from the raw values of
//! the environment, checked, and read-only afterwards.
use vstd::prelude::*;

use crate::obfuscation::{csv_headers_of, csv_rows_of, table_describes, ObfuscatorConfig};
use crate::parse::{number_of, parse_number, split_commas, split_spec, views};
use crate::special::Style;
use crate::text::str_equal;
use crate::walker::ObfuscationRules;

verus! {

/// The raw configuration values, each absent where it is not set.
pub struct EnvValues {
    pub bind: Option<String>,
    pub upstream_base_url: Option<String>,
    pub strategy: Option<String>,
    pub patch_target: Option<String>,
    pub patch_content_file: Option<String>,
    pub patch_remove_nodes: Option<String>,
    pub patch_remove_meta_tags: Option<String>,
    pub obfuscation_meta_tags: Option<String>,
    pub obfuscation_ignore_nodes: Option<String>,
    pub obfuscation_ignore_title: Option<String>,
    pub obfuscation_ignore_after_node: Option<String>,
    pub obfuscation_ignore_len: Option<String>,
    pub connect_timeout_secs: Option<String>,
    pub special_page_style: Option<String>,
    pub inject_online_script: Option<String>,
    /// The CSV text of the character range mapping table.
    pub mapping_csv: String,
}

/// The checked settings.
pub struct Settings {
    pub bind: String,
    pub upstream_base_url: String,
    pub upstream_domain: String,
    pub strategy: String,
    pub patch_target: String,
    pub patch_content_file: String,
    pub patch_remove_nodes: Vec<String>,
    pub patch_remove_meta_tags: Vec<String>,
    pub obfuscation_meta_tags: Vec<String>,
    pub obfuscation_rules: ObfuscationRules,
    pub obfuscator_config: ObfuscatorConfig,
    pub connect_timeout_secs: u64,
    pub special_page_style: Style,
    pub inject_online_script: String,
}

/// Why the settings cannot be built; the process stops on it.
#[derive(Clone, Copy, PartialEq, Eq, Structural)]
pub enum ConfigError {
    /// No upstream base URL is set.
    MissingUpstreamBaseUrl,
    /// The upstream base URL is no URL with a domain.
    InvalidUpstreamBaseUrl,
}

/// The domain of the URL that `s` writes; `None` where `s` is no URL or the
/// URL has no domain.
pub uninterp spec fn url_domain_of(s: Seq<char>) -> Option<Seq<char>>;

/// Relies on url's `Url::parse` (as reqwest re-exports it) and `Url::domain`.
#[verifier::external_body]
fn url_domain(s: &str) -> (r: Option<String>)
    ensures
        match r {
            Some(d) => url_domain_of(s@) == Some(d@),
            None => url_domain_of(s@) is None,
        },
{
    reqwest::Url::parse(s).ok()?.domain().map(|d| d.to_string())
}

/// `v` where it is set, else `d`.
pub open spec fn or_default(v: Option<String>, d: Seq<char>) -> Seq<char> {
    match v {
        Some(s) => s@,
        None => d,
    }
}

/// The meta tags obfuscated where none are configured.
pub open spec fn default_meta_tags() -> Seq<Seq<char>> {
    seq!["description"@, "keywords"@, "og:title"@, "og:description"@]
}

/// A number setting: its value where it writes one that fits, else `d`.
pub open spec fn number_or(v: Option<String>, max: nat, d: nat) -> nat {
    match v {
        Some(s) => match number_of(s@, 10) {
            Some(n) => if n <= max {
                n
            } else {
                d
            },
            None => d,
        },
        None => d,
    }
}

fn text_or(v: &Option<String>, d: &str) -> (r: String)
    ensures
        r@ == or_default(*v, d@),
{
    match v {
        Some(s) => s.clone(),
        None => d.to_string(),
    }
}

fn number_setting(v: &Option<String>, max: u64, d: u64) -> (r: u64)
    requires
        d <= max,
    ensures
        r as nat == number_or(*v, max as nat, d as nat),
{
    match v {
        Some(s) => match parse_number(s.as_str(), 10, max) {
            Some(n) => n,
            None => d,
        },
        None => d,
    }
}

/// Builds and checks the settings. Fails where the upstream base URL is
/// missing or is no URL with a domain.
pub fn force_init(env: EnvValues) -> (r: Result<Settings, ConfigError>)
    ensures
        match env.upstream_base_url {
            None => r == Err::<Settings, ConfigError>(ConfigError::MissingUpstreamBaseUrl),
            Some(u) => match url_domain_of(u@) {
                None => r == Err::<Settings, ConfigError>(ConfigError::InvalidUpstreamBaseUrl),
                Some(d) => r matches Ok(s) && {
                    &&& s.upstream_base_url@ == u@
                    &&& s.upstream_domain@ == d
                    &&& s.bind@ == or_default(env.bind, "0.0.0.0:8080"@)
                    &&& s.strategy@ == or_default(env.strategy, "obfuscation"@)
                    &&& s.patch_target@ == or_default(env.patch_target, ""@)
                    &&& s.patch_content_file@ == or_default(env.patch_content_file, ""@)
                    &&& views(s.patch_remove_nodes@) == (if or_default(env.patch_remove_nodes, ""@).len() == 0 {
                        Seq::<Seq<char>>::empty()
                    } else {
                        split_spec(or_default(env.patch_remove_nodes, ""@), ',')
                    })
                    &&& views(s.patch_remove_meta_tags@) == split_spec(or_default(env.patch_remove_meta_tags, ""@), ',')
                    &&& views(s.obfuscation_meta_tags@) == match env.obfuscation_meta_tags {
                        Some(t) => split_spec(t@, ','),
                        None => default_meta_tags(),
                    }
                    &&& views(s.obfuscation_rules.ignore_nodes@) == split_spec(or_default(env.obfuscation_ignore_nodes, ""@), ',')
                    &&& s.obfuscation_rules.ignore_title == (env.obfuscation_ignore_title matches Some(t) && t@ == "true"@)
                    &&& s.obfuscation_rules.ignore_after_node@ == or_default(env.obfuscation_ignore_after_node, ""@)
                    &&& s.obfuscation_rules.ignore_len as nat == number_or(env.obfuscation_ignore_len, usize::MAX as nat, 0)
                    &&& s.connect_timeout_secs as nat == number_or(env.connect_timeout_secs, u64::MAX as nat, 60)
                    &&& s.special_page_style == (if or_default(env.special_page_style, ""@) == "nginx"@ {
                        Style::Nginx
                    } else {
                        Style::Plain
                    })
                    &&& s.inject_online_script@ == or_default(env.inject_online_script, ""@)
                    &&& match csv_headers_of(env.mapping_csv@) {
                        Some(h) => table_describes(h, csv_rows_of(env.mapping_csv@), s.obfuscator_config.mappers@),
                        None => s.obfuscator_config.mappers@.len() == 0,
                    }
                },
            },
        },
{
    let upstream_base_url = match &env.upstream_base_url {
        None => {
            return Err(ConfigError::MissingUpstreamBaseUrl);
        },
        Some(u) => u.clone(),
    };
    let upstream_domain = match url_domain(upstream_base_url.as_str()) {
        None => {
            return Err(ConfigError::InvalidUpstreamBaseUrl);
        },
        Some(d) => d,
    };
    let remove_nodes_text = text_or(&env.patch_remove_nodes, "");
    let patch_remove_nodes = if remove_nodes_text.as_str().unicode_len() == 0 {
        Vec::new()
    } else {
        split_commas(remove_nodes_text.as_str())
    };
    let obfuscation_meta_tags = match &env.obfuscation_meta_tags {
        Some(t) => split_commas(t.as_str()),
        None => {
            let mut v: Vec<String> = Vec::new();
            v.push("description".to_string());
            v.push("keywords".to_string());
            v.push("og:title".to_string());
            v.push("og:description".to_string());
            assert(views(v@) =~= default_meta_tags());
            v
        },
    };
    let ignore_title = match &env.obfuscation_ignore_title {
        Some(t) => str_equal(t.as_str(), "true"),
        None => false,
    };
    let style_text = text_or(&env.special_page_style, "");
    let special_page_style = if str_equal(style_text.as_str(), "nginx") {
        Style::Nginx
    } else {
        Style::Plain
    };
    let ignore_len = number_setting(&env.obfuscation_ignore_len, usize::MAX as u64, 0) as usize;
    let obfuscation_rules = ObfuscationRules {
        ignore_title,
        ignore_nodes: split_commas(text_or(&env.obfuscation_ignore_nodes, "").as_str()),
        ignore_after_node: text_or(&env.obfuscation_ignore_after_node, ""),
        ignore_len,
    };
    Ok(Settings {
        bind: text_or(&env.bind, "0.0.0.0:8080"),
        upstream_base_url,
        upstream_domain,
        strategy: text_or(&env.strategy, "obfuscation"),
        patch_target: text_or(&env.patch_target, ""),
        patch_content_file: text_or(&env.patch_content_file, ""),
        patch_remove_nodes,
        patch_remove_meta_tags: split_commas(text_or(&env.patch_remove_meta_tags, "").as_str()),
        obfuscation_meta_tags,
        obfuscation_rules,
        obfuscator_config: ObfuscatorConfig::load_from_csv(env.mapping_csv.as_str()),
        connect_timeout_secs: number_setting(&env.connect_timeout_secs, u64::MAX, 60),
        special_page_style,
        inject_online_script: text_or(&env.inject_online_script, ""),
    })
}

/// The address to listen on.
pub fn bind(s: &Settings) -> (r: &str)
    ensures
        r@ == s.bind@,
{
    s.bind.as_str()
}

/// The base URL of the upstream origin.
pub fn upstream_base_url(s: &Settings) -> (r: &str)
    ensures
        r@ == s.upstream_base_url@,
{
    s.upstream_base_url.as_str()
}

/// The domain of the upstream origin, sent as the `Host` header.
pub fn upstream_domain(s: &Settings) -> (r: &str)
    ensures
        r@ == s.upstream_domain@,
{
    s.upstream_domain.as_str()
}

/// The name of the active strategy.
pub fn strategy(s: &Settings) -> (r: &str)
    ensures
        r@ == s.strategy@,
{
    s.strategy.as_str()
}

/// The `id` of the element that the patch strategy fills.
pub fn patch_target(s: &Settings) -> (r: &str)
    ensures
        r@ == s.patch_target@,
{
    s.patch_target.as_str()
}

/// The file that holds the patch content; empty for the built-in one.
pub fn patch_content_file(s: &Settings) -> (r: &str)
    ensures
        r@ == s.patch_content_file@,
{
    s.patch_content_file.as_str()
}

/// The `id`s of the elements that the patch strategy empties.
pub fn patch_remove_nodes(s: &Settings) -> (r: &Vec<String>)
    ensures
        r@ == s.patch_remove_nodes@,
{
    &s.patch_remove_nodes
}

/// The `name` or `property` values of the meta tags that the patch strategy
/// removes.
pub fn patch_remove_meta_tags(s: &Settings) -> (r: &Vec<String>)
    ensures
        r@ == s.patch_remove_meta_tags@,
{
    &s.patch_remove_meta_tags
}

/// The `name` or `property` values of the meta tags whose content is obfuscated.
pub fn obfuscation_meta_tags(s: &Settings) -> (r: &Vec<String>)
    ensures
        r@ == s.obfuscation_meta_tags@,
{
    &s.obfuscation_meta_tags
}

/// The `id`s of the elements that obfuscation skips.
pub fn obfuscation_ignore_nodes(s: &Settings) -> (r: &Vec<String>)
    ensures
        r@ == s.obfuscation_rules.ignore_nodes@,
{
    &s.obfuscation_rules.ignore_nodes
}

/// Whether obfuscation keeps the title.
pub fn obfuscation_ignore_title(s: &Settings) -> (r: bool)
    ensures
        r == s.obfuscation_rules.ignore_title,
{
    s.obfuscation_rules.ignore_title
}

/// The `id` of the element after which text heads are kept.
pub fn obfuscation_ignore_after_node(s: &Settings) -> (r: &str)
    ensures
        r@ == s.obfuscation_rules.ignore_after_node@,
{
    s.obfuscation_rules.ignore_after_node.as_str()
}

/// How many non-white-space characters are kept after that element.
pub fn obfuscation_ignore_len(s: &Settings) -> (r: usize)
    ensures
        r == s.obfuscation_rules.ignore_len,
{
    s.obfuscation_rules.ignore_len
}

/// The character range mapping table.
pub fn obfuscator_config(s: &Settings) -> (r: &ObfuscatorConfig)
    ensures
        r == &s.obfuscator_config,
{
    &s.obfuscator_config
}

/// The timeout of upstream requests, in seconds.
pub fn connect_timeout_secs(s: &Settings) -> (r: u64)
    ensures
        r == s.connect_timeout_secs,
{
    s.connect_timeout_secs
}

/// The style of fallback pages.
pub fn special_page_style(s: &Settings) -> (r: Style)
    ensures
        r == s.special_page_style,
{
    s.special_page_style
}

/// The URL of the script injected into every page's head; empty for none.
pub fn inject_online_script(s: &Settings) -> (r: &str)
    ensures
        r@ == s.inject_online_script@,
{
    s.inject_online_script.as_str()
}

} // verus!
