//! Turning a page's or post's body into HTML.
use vstd::prelude::*;

use crate::text::chars_of;

verus! {

broadcast use vstd::string::group_string_axioms;

/// The HTML fragment that pulldown-cmark makes of a markdown text, with YAML and
/// `+++` metadata blocks, heading attributes, tables and footnotes enabled.
pub uninterp spec fn markdown_html(s: Seq<char>) -> Seq<char>;

/// Relies on pulldown-cmark's `Parser::new_ext` and `html::push_html`: a pure
/// conversion of the text, and an empty text gives an empty fragment.
#[verifier::external_body]
fn markdown_to_html(s: &str) -> (r: String)
    ensures
        r@ == markdown_html(s@),
        s@.len() == 0 ==> r@.len() == 0,
{
    let mut opts = pulldown_cmark::Options::empty();
    opts.insert(pulldown_cmark::Options::ENABLE_YAML_STYLE_METADATA_BLOCKS);
    opts.insert(pulldown_cmark::Options::ENABLE_PLUSES_DELIMITED_METADATA_BLOCKS);
    opts.insert(pulldown_cmark::Options::ENABLE_HEADING_ATTRIBUTES);
    opts.insert(pulldown_cmark::Options::ENABLE_TABLES);
    opts.insert(pulldown_cmark::Options::ENABLE_FOOTNOTES);
    let mut out = String::new();
    pulldown_cmark::html::push_html(&mut out, pulldown_cmark::Parser::new_ext(s, opts));
    out
}

/// `s` holds `{%` somewhere.
pub open spec fn has_directive(s: Seq<char>) -> bool {
    exists|i: int| 0 <= i < s.len() - 1 && #[trigger] s[i] == '{' && s[i + 1] == '%'
}

/// Renders documents whose body is a template producing HTML directly.
#[derive(Debug)]
pub struct HtmlDocument;

/// Renders markdown documents in two phases: embedded template directives
/// first, then markdown to HTML.
#[derive(Debug)]
pub struct MarkdownDocument;

impl HtmlDocument {
    /// An HTML document is its own template, registered under its path.
    pub fn template_name(source_path: &str) -> (r: String)
        ensures
            r@ == source_path@,
    {
        source_path.to_string()
    }
}

impl MarkdownDocument {
    /// Whether the body holds template directives (`{%`) that must be expanded
    /// before markdown conversion.
    pub fn needs_expansion(content: &str) -> (r: bool)
        ensures
            r == has_directive(content@),
    {
        let v = chars_of(content);
        let n = v.len();
        if n < 2 {
            return false;
        }
        let mut i: usize = 0;
        while i + 1 < n
            invariant
                v@ == content@,
                n == v@.len(),
                n >= 2,
                i <= n - 1,
                forall|k: int| 0 <= k < i ==> !(#[trigger] v@[k] == '{' && v@[k + 1] == '%'),
            decreases n - i,
        {
            if v[i] == '{' && v[i + 1] == '%' {
                return true;
            }
            i = i + 1;
        }
        false
    }

    /// The second phase: the (expanded) markdown converted to HTML.
    pub fn to_html(resolved: &str) -> (r: String)
        ensures
            r@ == markdown_html(resolved@),
    {
        markdown_to_html(resolved)
    }
}

} // verus!
