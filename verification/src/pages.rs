//! Custom pages written by the administrators, and how a request for a path
//! that is not a page or a stored file is answered.
use vstd::prelude::*;
use crate::common::VContext;
use crate::links::{percent_decode, percent_decoded};
use crate::text::{contains, same_text, seq_contains, strip_prefixes, trim, trim_spec, trim_start_matches};

verus! {

broadcast use vstd::string::group_string_axioms;

/// The HTML that `pulldown_cmark` renders from the markdown `md` with its
/// default options.
pub uninterp spec fn markdown_to_html(md: Seq<char>) -> Seq<char>;

/// Renders markdown to HTML: `pulldown_cmark::html::push_html` over
/// `Parser::new(md)`.  The contract names the output; its form is left to
/// `pulldown_cmark`.
#[verifier::external_body]
fn markdown_html(md: &str) -> (r: String)
    ensures
        r@ == markdown_to_html(md@),
{
    let mut out = String::new();
    pulldown_cmark::html::push_html(&mut out, pulldown_cmark::Parser::new(md));
    out
}

/// A page of the site at `path`, in markdown or HTML.
pub struct CustomPage {
    pub id: i64,
    pub path: String,
    pub title: String,
    pub description: String,
    /// `markdown`, or anything else for HTML.
    pub content_type: String,
    pub content: String,
    /// Seconds since the Unix epoch.
    pub created_at: i64,
    /// Seconds since the Unix epoch.
    pub updated_at: i64,
}

impl CustomPage {
    /// The HTML of the page: markdown rendered, anything else as written.
    pub fn get_render_content(&self) -> (r: String)
        ensures
            r@ == (if self.content_type@ == "markdown"@ {
                markdown_to_html(self.content@)
            } else {
                self.content@
            }),
    {
        if same_text(self.content_type.as_str(), "markdown") {
            markdown_html(self.content.as_str())
        } else {
            self.content.clone()
        }
    }
}

/// A page as an administrator submits it.
pub struct CreateForm {
    pub path: String,
    pub title: String,
    pub description: String,
    pub content_type: String,
    pub content: String,
}

/// The path under which an edited page is stored: trimmed, without leading
/// slashes.
pub fn normalize_page_path(path: &str) -> (r: &str)
    ensures
        r@ == strip_prefixes(trim_spec(path@), "/"@),
{
    trim_start_matches(trim(path), "/")
}

/// The page that a request path asks for: the path without leading slashes.
pub fn page_path(decoded: &str) -> (r: &str)
    ensures
        r@ == strip_prefixes(decoded@, "/"@),
{
    trim_start_matches(decoded, "/")
}

/// The client takes HTML: it sends no `Accept` header, or one that names
/// `text/html`, `application/xhtml+xml` or `application/xml`.
pub open spec fn accepts_html_spec(accept: Seq<char>) -> bool {
    accept.len() == 0 || seq_contains(accept, "text/html"@) || seq_contains(
        accept,
        "application/xhtml+xml"@,
    ) || seq_contains(accept, "application/xml"@)
}

/// Whether a custom page (or the HTML error page) answers this request.
pub fn accepts_html(accept: &str) -> (b: bool)
    ensures
        b == accepts_html_spec(accept@),
{
    accept.is_empty() || contains(accept, "text/html") || contains(accept, "application/xhtml+xml")
        || contains(accept, "application/xml")
}

/// How a request for a missing path is answered.
#[derive(PartialEq, Eq, Structural, Debug, Clone, Copy)]
pub enum NotFoundReply {
    /// The HTML error page.
    Html,
    /// A JSON body with code 404.
    Json,
    /// The bare status.
    Bare,
}

/// The answer to a request for a missing path, by its `Accept` header.
pub fn not_found_reply(accept: &str) -> (r: NotFoundReply)
    ensures
        r == (if accepts_html_spec(accept@) {
            NotFoundReply::Html
        } else if seq_contains(accept@, "application/json"@) {
            NotFoundReply::Json
        } else {
            NotFoundReply::Bare
        }),
{
    if accepts_html(accept) {
        NotFoundReply::Html
    } else if contains(accept, "application/json") {
        NotFoundReply::Json
    } else {
        NotFoundReply::Bare
    }
}

/// A theme choice: the theme, and where to go back to.
pub struct PreferredTheme {
    pub theme: Option<String>,
    pub back: Option<String>,
}

/// Where a theme choice returns to: the page named by `back`, else the
/// referring page, else the home page.
pub fn theme_return_to<'a>(back: Option<&'a str>, referer: Option<&'a str>) -> (r: &'a str)
    ensures
        r@ == (match back {
            Some(b) => b@,
            None => match referer {
                Some(f) => f@,
                None => "/"@,
            },
        }),
{
    match back {
        Some(b) => b,
        None => match referer {
            Some(f) => f,
            None => "/",
        },
    }
}

/// The name of a bundled public file asked for by `path`: the path without
/// leading slashes.
pub fn public_asset_name(path: &str) -> (r: &str)
    ensures
        r@ == strip_prefixes(path@, "/"@),
{
    trim_start_matches(path, "/")
}

/// The page shown for a missing path.
pub struct NotFoundTemplate {
    pub ctx: VContext,
}

/// The page shown when the server fails.
pub struct InternalErrorTemplate {
    pub ctx: VContext,
}

/// The path of a request with its percent-escapes decoded, and the page it
/// asks for: that path without leading slashes.
pub fn requested_page(raw_path: &str) -> (r: (String, String))
    ensures
        r.0@ == percent_decoded(raw_path@),
        r.1@ == strip_prefixes(percent_decoded(raw_path@), "/"@),
{
    let decoded = percent_decode(raw_path);
    let page = String::from_str(page_path(decoded.as_str()));
    (decoded, page)
}

} // verus!
