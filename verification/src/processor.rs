use vstd::prelude::*;
use crate::builder::CLIConfig;
use crate::error::TailwindError;
use lightningcss::printer::PrinterOptions;
use lightningcss::stylesheet::{MinifyOptions, ParserFlags, ParserOptions, StyleSheet};

verus! {

/// What the stylesheet collaborator answers for a given stylesheet text,
/// minify flag and set of known unused symbols: the printed text, or the
/// message of the call that refused. The three calls behind it take no
/// seed, clock or environment, and the symbols serve lookups only, so the
/// answer is a function of these arguments alone.
pub uninterp spec fn css_collab_of(
    css: Seq<char>,
    minify: bool,
    unused: Seq<Seq<char>>,
) -> Result<Seq<char>, Seq<char>>;

/// Relies on lightningcss's StyleSheet::parse (with nesting and custom
/// media enabled), StyleSheet::minify (told the known unused symbols) and
/// StyleSheet::to_css, in that order: the external stylesheet
/// collaborator. The sheet the three calls pass along cannot be named
/// outside the crate (its default at-rule type is private), so the whole
/// exchange stands behind this one item. Whichever call refuses, its
/// message is returned.
#[verifier::external_body]
fn run_css_collaborator(css: &str, minify: bool, unused: &Vec<String>) -> (r: Result<
    String,
    String,
>)
    ensures
        r matches Ok(c) ==> (css_collab_of(css@, minify, unused.deep_view()) matches Ok(v) && c@
            == v),
        r matches Err(m) ==> (css_collab_of(css@, minify, unused.deep_view()) matches Err(v)
            && m@ == v),
{
    let options = ParserOptions {
        flags: ParserFlags::NESTING | ParserFlags::CUSTOM_MEDIA,
        ..Default::default()
    };
    let mut sheet = StyleSheet::parse(css, options).map_err(|e| format!("{}", e))?;
    let minify_options = MinifyOptions {
        unused_symbols: unused.iter().cloned().collect(),
        ..Default::default()
    };
    sheet.minify(minify_options).map_err(|e| format!("{}", e))?;
    let out = sheet.to_css(PrinterOptions { minify, ..Default::default() }).map_err(
        |e| format!("{}", e),
    )?;
    Ok(out.code)
}

impl CLIConfig {
    /// Hands the generated stylesheet to the external CSS collaborator to
    /// parse, minify and print, minified where the run asks for it and with
    /// the run's known unused symbols removed. What the collaborator
    /// returns is its own; any refusal is fatal to the run and reported as
    /// a runtime error.
    pub fn compile_css(&self, css: &str) -> (r: Result<String, TailwindError>)
        ensures
            r matches Ok(c) ==> (css_collab_of(
                css@,
                self.minify,
                self.unused_symbols.deep_view(),
            ) matches Ok(v) && c@ == v),
            r matches Err(e) ==> (e matches TailwindError::Runtime { message } && css_collab_of(
                css@,
                self.minify,
                self.unused_symbols.deep_view(),
            ) matches Err(v) && message@ == v),
            r is Ok <==> css_collab_of(css@, self.minify, self.unused_symbols.deep_view()) is Ok,
    {
        match run_css_collaborator(css, self.minify, &self.unused_symbols) {
            Ok(code) => Ok(code),
            Err(message) => Err(TailwindError::Runtime { message }),
        }
    }
}

} // verus!
