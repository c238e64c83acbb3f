//! An mdbook preprocessor that turns marked groups of per-language code
//! samples into one tabbed language switcher.
use vstd::prelude::*;

pub mod text;
pub mod sections;
pub mod languages;
pub mod render;
pub mod preprocessor;
pub mod install;

verus! {

/// The preprocessor. It holds no state: each chapter's text is transformed
/// on its own, by `preprocessor::process_markdown`.
pub struct LangTabsPreprocessor;

impl LangTabsPreprocessor {
    pub fn new() -> (r: Self)
        ensures
            r == LangTabsPreprocessor,
    {
        LangTabsPreprocessor
    }

    /// The name under which the book's configuration registers it.
    pub fn name(&self) -> (r: &'static str)
        ensures
            r@ == "langtabs"@,
    {
        "langtabs"
    }

    /// Only the HTML renderer is supported.
    pub fn supports_renderer(&self, renderer: &str) -> (r: bool)
        ensures
            r == (renderer@ == "html"@),
    {
        text::same(&text::chars_of(renderer), "html")
    }
}

impl Default for LangTabsPreprocessor {
    fn default() -> (r: Self)
        ensures
            r == LangTabsPreprocessor,
    {
        LangTabsPreprocessor::new()
    }
}

} // verus!
