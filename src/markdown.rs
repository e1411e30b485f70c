use vstd::prelude::*;

verus! {

/// The HTML that pulldown-cmark renders from the markdown text `md`, with all of its
/// extensions on.
pub uninterp spec fn markdown_html_of(md: Seq<char>) -> Seq<char>;

/// Relies on `pulldown_cmark::html::push_html` over `Parser::new_ext` with
/// `Options::all()`: the HTML rendering of the markdown text, which depends on the text
/// alone.
#[verifier::external_body]
pub(crate) fn render_markdown(md: &str) -> (r: String)
    ensures
        r@ == markdown_html_of(md@),
{
    let parser = pulldown_cmark::Parser::new_ext(md, pulldown_cmark::Options::all());
    let mut out = String::new();
    pulldown_cmark::html::push_html(&mut out, parser);
    out
}

} // verus!
