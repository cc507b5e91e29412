use tailwind_css::builder::{CLIConfig, TailwindBuilder};
use tailwind_css::css::CssInlineMode;

fn pre_config() -> (CLIConfig, TailwindBuilder) {
    let config = CLIConfig::default();
    let builder = config.builder();
    (config, builder)
}

const EFFECT_HTML: &str = "<div class=\"shadow-[0_1px_2px] brightness-125\"></div>";

#[test]
fn test_effect_trace() {
    let (mut config, mut builder) = pre_config();
    config.mode = CssInlineMode::Normal;
    let (html, css) = config.compile_html(EFFECT_HTML, &mut builder).unwrap();
    assert_eq!(html, EFFECT_HTML);
    assert_eq!(
        css,
        ".tw-0{box-shadow:0_1px_2px;}.tw-1{filter:brightness(125%);}"
    );
}

#[test]
fn test_effect_inline() {
    let (mut config, mut builder) = pre_config();
    config.mode = CssInlineMode::Inline;
    let (html, css) = config.compile_html(EFFECT_HTML, &mut builder).unwrap();
    assert_eq!(
        html,
        "<div style=\"box-shadow:0_1px_2px;filter:brightness(125%);\"></div>"
    );
    assert_eq!(
        css,
        ".tw-0{box-shadow:0_1px_2px;}.tw-1{filter:brightness(125%);}"
    );
}

#[test]
fn test_scoped_rewrite() {
    let (mut config, mut builder) = pre_config();
    config.mode = CssInlineMode::Scoped;
    let input = "<p class=\"mt-4 bogus-token\">x</p>";
    let (html, css) = config.compile_html(input, &mut builder).unwrap();
    assert_eq!(html, "<p class=\"tw-0 bogus-token\">x</p>");
    assert_eq!(css, ".tw-0{margin-top:1em;}");
}

#[test]
fn test_compile_css_minifies() {
    let config = CLIConfig {
        minify: true,
        ..CLIConfig::default()
    };
    let out = config.compile_css(".a { color: red; }").unwrap();
    assert_eq!(out, ".a{color:red}");
}

#[test]
fn test_compile_css_rejects_garbage() {
    let config = CLIConfig::default();
    let out = config.compile_css("not a stylesheet {{{");
    assert!(matches!(
        out,
        Err(tailwind_css::error::TailwindError::Runtime { .. })
    ));
}
