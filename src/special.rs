//! Fallback bodies for the statuses that the proxy answers itself.
use vstd::prelude::*;

verus! {

/// How fallback pages look.
#[derive(Clone, Copy, PartialEq, Eq, Structural)]
pub enum Style {
    /// An HTML page in the manner of nginx's error pages.
    Nginx,
    /// The status line as plain text.
    Plain,
}

/// The canonical reason phrase of a status code, where it has one.
pub uninterp spec fn reason_phrase_of(code: u16) -> Option<Seq<char>>;

/// Relies on http's `StatusCode::from_u16` and `StatusCode::canonical_reason`:
/// the reason phrase that http knows for the code, if any.
#[verifier::external_body]
fn canonical_reason(code: u16) -> (r: Option<&'static str>)
    ensures
        match r {
            Some(s) => reason_phrase_of(code) == Some(s@),
            None => reason_phrase_of(code) is None,
        },
{
    http::StatusCode::from_u16(code).ok().and_then(|s| s.canonical_reason())
}

/// The decimal digits of `n`.
pub open spec fn decimal_text(n: nat) -> Seq<char>
    decreases n,
{
    let last = seq![(('0' as u8) + ((n % 10) as u8)) as char];
    if n < 10 {
        last
    } else {
        decimal_text(n / 10) + last
    }
}

/// Writes `n` in decimal.
pub fn decimal_string(n: u16) -> (r: String)
    ensures
        r@ == decimal_text(n as nat),
    decreases n,
{
    let digit = (('0' as u8) + ((n % 10) as u8)) as char;
    let mut cs: Vec<char> = Vec::new();
    cs.push(digit);
    let last = crate::text::string_from_chars(cs.as_slice());
    assert(last@ == seq![digit]);
    if n < 10 {
        last
    } else {
        let mut head = decimal_string(n / 10);
        head.append(last.as_str());
        head
    }
}

/// The plain-text body: the code and its reason phrase; the bare code where
/// it has no reason phrase.
pub open spec fn plain_body(code: u16) -> Seq<char> {
    match reason_phrase_of(code) {
        Some(p) => decimal_text(code as nat) + " "@ + p,
        None => decimal_text(code as nat),
    }
}

/// The headline of the nginx-style page.
pub open spec fn nginx_headline(code: u16) -> Seq<char> {
    if code == 504 {
        "504 Gateway Time-out"@
    } else if code == 500 {
        "500 Internal Server Error"@
    } else if code == 502 {
        "502 Bad Gateway"@
    } else {
        decimal_text(code as nat)
    }
}

/// The trailing comment that keeps browsers from showing a page of their own.
pub open spec fn padding_line() -> Seq<char> {
    "<!-- a padding to disable MSIE and Chrome friendly error page -->\n"@
}

/// The nginx-style page around `headline`.
pub open spec fn nginx_page(headline: Seq<char>) -> Seq<char> {
    "<html>\n<head><title>"@ + headline + "</title></head>\n<body>\n<center><h1>"@ + headline
        + "</h1></center>\n<hr><center>nginx</center>\n</body>\n</html>\n"@ + padding_line()
        + padding_line() + padding_line() + padding_line() + padding_line() + padding_line()
}

/// The body of the fallback page for `code` in `style`.
pub open spec fn special_body(code: u16, style: Style) -> Seq<char> {
    match style {
        Style::Nginx => nginx_page(nginx_headline(code)),
        Style::Plain => plain_body(code),
    }
}

/// The plain-text body for `code`.
pub fn build_page(code: u16) -> (r: String)
    ensures
        r@ == plain_body(code),
{
    let mut r = decimal_string(code);
    match canonical_reason(code) {
        Some(p) => {
            r.append(" ");
            r.append(p);
        },
        None => {},
    }
    r
}

/// The nginx-style page for `code`.
pub fn build_nginx_page(code: u16) -> (r: String)
    ensures
        r@ == nginx_page(nginx_headline(code)),
{
    let headline = if code == 504 {
        "504 Gateway Time-out".to_string()
    } else if code == 500 {
        "500 Internal Server Error".to_string()
    } else if code == 502 {
        "502 Bad Gateway".to_string()
    } else {
        decimal_string(code)
    };
    let mut r = "<html>\n<head><title>".to_string();
    r.append(headline.as_str());
    r.append("</title></head>\n<body>\n<center><h1>");
    r.append(headline.as_str());
    r.append("</h1></center>\n<hr><center>nginx</center>\n</body>\n</html>\n");
    let mut k: usize = 0;
    while k < 6
        invariant
            k <= 6,
            r@ == "<html>\n<head><title>"@ + headline@ + "</title></head>\n<body>\n<center><h1>"@
                + headline@ + "</h1></center>\n<hr><center>nginx</center>\n</body>\n</html>\n"@
                + padding_k(k as nat),
        decreases 6 - k,
    {
        r.append("<!-- a padding to disable MSIE and Chrome friendly error page -->\n");
        k = k + 1;
    }
    proof {
        assert(headline@ == nginx_headline(code));
        let l = padding_line();
        assert(padding_k(0) =~= Seq::<char>::empty());
        assert(padding_k(1) =~= l);
        assert(padding_k(2) =~= l + l);
        assert(padding_k(3) =~= l + l + l);
        assert(padding_k(4) =~= l + l + l + l);
        assert(padding_k(5) =~= l + l + l + l + l);
        assert(padding_k(6) =~= l + l + l + l + l + l);
        assert(r@ =~= nginx_page(nginx_headline(code)));
    }
    r
}

/// `k` padding lines.
pub open spec fn padding_k(k: nat) -> Seq<char>
    decreases k,
{
    if k == 0 {
        seq![]
    } else {
        padding_k((k - 1) as nat) + padding_line()
    }
}

/// The body of the fallback page for `code` in `style`.
pub fn build_body(code: u16, style: Style) -> (r: String)
    ensures
        r@ == special_body(code, style),
{
    match style {
        Style::Nginx => build_nginx_page(code),
        Style::Plain => build_page(code),
    }
}

/// The content type that a fallback page in `style` forces, if any.
pub fn special_content_type(style: Style) -> (r: Option<String>)
    ensures
        match style {
            Style::Nginx => r matches Some(t) && t@ == "text/html; charset=utf-8"@,
            Style::Plain => r is None,
        },
{
    match style {
        Style::Nginx => Some("text/html; charset=utf-8".to_string()),
        Style::Plain => None,
    }
}

/// A response that the proxy answers itself.
pub struct SpecialResponse {
    pub status: u16,
    pub content_type: Option<String>,
    pub body: String,
}

/// The fallback response for `code` in `style`.
pub fn build_resp(code: u16, style: Style) -> (r: SpecialResponse)
    ensures
        r.status == code,
        r.body@ == special_body(code, style),
        match style {
            Style::Nginx => r.content_type matches Some(t) && t@ == "text/html; charset=utf-8"@,
            Style::Plain => r.content_type is None,
        },
{
    SpecialResponse { status: code, content_type: special_content_type(style), body: build_body(code, style) }
}

} // verus!
