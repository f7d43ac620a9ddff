//! Markdown to HTML, by the `pulldown_cmark` crate.

use pulldown_cmark::{html, Options, Parser};
use vstd::prelude::*;

verus! {

/// The HTML source that `pulldown_cmark` writes for the Markdown source
/// `markdown`, read with all of the parser's extensions switched on.
pub uninterp spec fn markdown_html(markdown: Seq<char>) -> Seq<char>;

/// Calls `pulldown_cmark::html::push_html` on an empty string, with the
/// events of `pulldown_cmark::Parser::new_ext(markdown, Options::all())`.
/// The contract gives the text that comes back its name and claims
/// nothing else of it: the same source gives the same HTML.
#[verifier::external_body]
fn push_html_of(markdown: &str) -> (out: String)
    ensures
        out@ == markdown_html(markdown@),
{
    let parser = Parser::new_ext(markdown, Options::all());
    let mut out = String::new();
    html::push_html(&mut out, parser);
    out
}

/// Converts Markdown source to HTML source.
pub fn markdown_to_html(markdown: &str) -> (out: String)
    ensures
        out@ == markdown_html(markdown@),
{
    push_html_of(markdown)
}

} // verus!
