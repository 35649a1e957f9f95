use vstd::prelude::*;
use crate::document::wrapped;
use crate::document::wrap_document;
use crate::pipeline::PipelineError;
use pulldown_cmark::html;
use pulldown_cmark::Options;
use pulldown_cmark::Parser;

verus! {

/// The markdown extensions that the renderer enables.
#[derive(Clone, Copy, Debug, PartialEq, Eq, Structural)]
pub struct RenderConfig {
    pub strikethrough: bool,
    pub footnotes: bool,
}

impl RenderConfig {
    /// The configuration of a build: strikethrough and footnotes enabled.
    pub fn standard() -> (r: RenderConfig)
        ensures
            r.strikethrough,
            r.footnotes,
    {
        RenderConfig { strikethrough: true, footnotes: true }
    }
}

/// The HTML that pulldown-cmark renders from markdown text with the given
/// extensions enabled.
pub uninterp spec fn markdown_html(text: Seq<char>, strikethrough: bool, footnotes: bool) -> Seq<
    char,
>;

/// Relies on pulldown_cmark::Parser::new_ext with html::push_html: the HTML
/// that the parser's events give for `text` under the chosen options, which
/// depends on the text and the options alone.
#[verifier::external_body]
fn markdown_to_html(text: &str, config: RenderConfig) -> (r: String)
    ensures
        r@ == markdown_html(text@, config.strikethrough, config.footnotes),
{
    let mut options = Options::empty();
    options.set(Options::ENABLE_STRIKETHROUGH, config.strikethrough);
    options.set(Options::ENABLE_FOOTNOTES, config.footnotes);
    let mut out = String::new();
    html::push_html(&mut out, Parser::new_ext(text, options));
    out
}

/// What a rendered fragment becomes: nothing for an empty fragment (there is
/// nothing to write), else the wrapped document, or the wrapper's failure.
pub open spec fn page_of(f: Seq<char>) -> Result<Option<Seq<char>>, PipelineError> {
    if f.len() == 0 {
        Ok(None)
    } else {
        match wrapped(f) {
            Some(d) => Ok(Some(d)),
            None => Err(PipelineError::MalformedFragment),
        }
    }
}

/// The view of a page result, with strings seen as their characters.
pub open spec fn page_view(r: Result<Option<String>, PipelineError>) -> Result<
    Option<Seq<char>>,
    PipelineError,
> {
    match r {
        Ok(Some(d)) => Ok(Some(d@)),
        Ok(None) => Ok(None),
        Err(e) => Err(e),
    }
}

/// Turns a rendered fragment into the page to write: `None` when the fragment
/// is empty, else the fragment wrapped into a complete document.
pub fn finish_fragment(fragment: &str) -> (r: Result<Option<String>, PipelineError>)
    ensures
        page_view(r) == page_of(fragment@),
{
    if fragment.unicode_len() == 0 {
        return Ok(None);
    }
    match wrap_document(fragment) {
        Ok(d) => Ok(Some(d)),
        Err(e) => Err(e),
    }
}

/// Renders markdown text into the page to write.
pub fn render_markdown_page(text: &str, config: RenderConfig) -> (r: Result<
    Option<String>,
    PipelineError,
>)
    ensures
        page_view(r) == page_of(markdown_html(text@, config.strikethrough, config.footnotes)),
{
    let fragment = markdown_to_html(text, config);
    finish_fragment(fragment.as_str())
}

/// Turns what the custom-markup renderer returned into the page to write: its
/// failure (with whatever cause it gave) is a `RenderError` of this file.
pub fn finish_custom_render(rendered: Result<String, String>) -> (r: Result<
    Option<String>,
    PipelineError,
>)
    ensures
        match rendered {
            Ok(f) => page_view(r) == page_of(f@),
            Err(_) => r == Err::<Option<String>, PipelineError>(PipelineError::RenderError),
        },
{
    match rendered {
        Ok(f) => finish_fragment(f.as_str()),
        Err(_) => Err(PipelineError::RenderError),
    }
}

} // verus!
