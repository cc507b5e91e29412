use tailwind_css::ast::AstStyle;
use tailwind_css::breakpoints::BreakPointSystem;
use tailwind_css::builder::{Mode, TailwindApp};
use tailwind_css::css::{normalize_class_name, CssInlineMode};
use tailwind_css::error::TailwindError;
use tailwind_css::modules::{
    BackgroundImage, SizingUnit, TailWindZIndex, TailwindAspect, TailwindBreak, TailwindClear,
    TailwindColumns, TailwindOverflow, TailwindSizing, TailwindSnap,
};
use tailwind_css::units::{IntegerOnly, KeywordInstance, StandardValue, TailwindArbitrary};

fn arb(s: &str) -> TailwindArbitrary {
    TailwindArbitrary::of_str(s)
}

fn words(items: &[&str]) -> Vec<String> {
    items.iter().map(|s| s.to_string()).collect()
}

#[test]
fn grammar_rejects_malformed_tokens() {
    assert!(matches!(
        AstStyle::parse("w-[3px"),
        Err(TailwindError::Syntax { .. })
    ));
    assert!(matches!(
        AstStyle::parse("hover:"),
        Err(TailwindError::Syntax { .. })
    ));
    assert!(matches!(
        AstStyle::parse(""),
        Err(TailwindError::Syntax { .. })
    ));
    assert!(matches!(
        AstStyle::parse("a()"),
        Err(TailwindError::Syntax { .. })
    ));
    assert!(matches!(
        AstStyle::parse("a(b"),
        Err(TailwindError::Syntax { .. })
    ));
}

#[test]
fn grammar_reads_the_pieces() {
    let style = AstStyle::parse("not-hover:-w-[10px]!").unwrap();
    assert!(style.important);
    assert!(style.elements.negative);
    assert_eq!(style.variants.len(), 1);
    assert!(style.variants[0].not);
    assert!(!style.variants[0].pseudo);
    assert_eq!(style.variants[0].names, vec!["hover".to_string()]);
    assert_eq!(style.elements.items, vec!["w".to_string()]);
    assert_eq!(style.arbitrary.item, "10px");
    assert_eq!(style.arbitrary.as_str(), "10px");
    assert_eq!(style.arbitrary.as_class(), "10px");
    assert!(!style.arbitrary.is_empty());
    assert_eq!(style.variants[0].as_view(), vec!["hover"]);
    assert!(!style.is_self_reference());
    assert!(AstStyle::parse("&").unwrap().is_self_reference());
}

#[test]
fn repeated_variants_collapse() {
    let style = AstStyle::parse("hover:hover:flex").unwrap();
    assert_eq!(style.variants.len(), 1);
}

#[test]
fn aspect_and_columns_tables() {
    let a = TailwindAspect::parse(&words(&["video"])).unwrap();
    assert_eq!(a.kind, "video");
    assert_eq!(a.ratio, "16/9");
    assert!(TailwindAspect::parse(&words(&["round"])).is_err());

    assert!(matches!(
        TailwindColumns::parse(&words(&["auto"])).unwrap(),
        TailwindColumns::Auto
    ));
    assert!(matches!(
        TailwindColumns::parse(&words(&["3xs"])).unwrap(),
        TailwindColumns::Size(16)
    ));
    assert!(matches!(
        TailwindColumns::parse(&words(&["4"])).unwrap(),
        TailwindColumns::Columns(4)
    ));
    assert!(TailwindColumns::parse(&words(&["wide"])).is_err());
}

#[test]
fn break_and_clear_tables() {
    assert!(matches!(
        TailwindBreak::parse_before(&words(&["avoid", "page"])).unwrap(),
        TailwindBreak::Before(s) if s == "avoid-page"
    ));
    assert!(matches!(
        TailwindBreak::parse_after(&words(&["column"])).unwrap(),
        TailwindBreak::After(s) if s == "column"
    ));
    assert!(matches!(
        TailwindBreak::parse_inside(&words(&["avoid", "column"])).unwrap(),
        TailwindBreak::Inside(s) if s == "avoid-column"
    ));
    assert!(TailwindBreak::parse_inside(&words(&["left"])).is_err());

    assert_eq!(
        TailwindClear::parse(&words(&["both"])).unwrap(),
        TailwindClear::Both
    );
    assert_eq!(
        TailwindClear::parse(&words(&["none"])).unwrap(),
        TailwindClear::Neither
    );
}

#[test]
fn zindex_signs_and_errors() {
    assert_eq!(
        TailWindZIndex::parse(&words(&["5"]), false).unwrap(),
        TailWindZIndex::Positive(5)
    );
    assert_eq!(
        TailWindZIndex::parse(&words(&["5"]), true).unwrap(),
        TailWindZIndex::Negative(5)
    );
    assert_eq!(
        TailWindZIndex::parse(&words(&["auto"]), true).unwrap(),
        TailWindZIndex::Auto
    );
    assert!(matches!(
        TailWindZIndex::parse(&words(&["many"]), false),
        Err(TailwindError::Value { .. })
    ));
}

#[test]
fn sizing_scale_and_fractions() {
    let w = TailwindSizing::parse_width(&words(&["4"]), &arb("")).unwrap();
    let attrs = w.attributes();
    assert_eq!(attrs.len(), 1);
    assert_eq!(attrs.key_at(0), "width");
    assert_eq!(attrs.value_at(0), "1em");

    let half = SizingUnit::parse(&words(&["1/2"]), &arb("")).unwrap();
    assert_eq!(half.get_properties(), "calc(1 / 2 * 100%)");

    let half_step = SizingUnit::parse(&words(&["0.5"]), &arb("")).unwrap();
    assert_eq!(half_step.get_properties(), "0.125em");
    let step = SizingUnit::parse(&words(&["2.5"]), &arb("")).unwrap();
    assert_eq!(step.get_properties(), "0.625em");

    let raw = SizingUnit::parse(&words(&[]), &arb("2.5rem")).unwrap();
    assert_eq!(raw.get_properties(), "2.5rem");

    assert_eq!(
        SizingUnit::parse(&words(&["auto"]), &arb("")).unwrap().get_properties(),
        "auto"
    );
    assert_eq!(
        SizingUnit::parse(&words(&["full"]), &arb("")).unwrap().get_properties(),
        "100%"
    );
    assert!(SizingUnit::parse(&words(&["such", "wide"]), &arb("")).is_err());
    assert!(SizingUnit::parse(&words(&[]), &arb("12parsecs")).is_err());

    let h = TailwindSizing::parse_height_min(&words(&["px"]), &arb("")).unwrap();
    let attrs = h.attributes();
    assert_eq!(attrs.key_at(0), "min-height");
    assert_eq!(attrs.value_at(0), "1em");
}

#[test]
fn overflow_vocabulary() {
    assert!(TailwindOverflow::check_valid("scroll"));
    assert!(!TailwindOverflow::check_valid("overboard"));
    let o = TailwindOverflow::parse(&words(&["hidden"]), &arb(""), Some(true)).unwrap();
    let attrs = o.attributes();
    assert_eq!(attrs.key_at(0), "overflow-x");
    assert_eq!(attrs.value_at(0), "hidden");
    let o = TailwindOverflow::parse_arbitrary(&arb("clip visible"), None).unwrap();
    assert_eq!(o.attributes().value_at(0), "clip visible");
    assert!(matches!(
        TailwindOverflow::parse(&words(&["sideways"]), &arb(""), None),
        Err(TailwindError::Syntax { message }) if message == "overflow: sideways"
    ));
}

#[test]
fn keyword_and_integer_units() {
    let valid = vec!["start", "end"];
    let k = KeywordInstance::parse("snap", &words(&["start"]), &valid, &arb("")).unwrap();
    assert_eq!(k.pattern, "snap");
    assert!(matches!(k.value, StandardValue::Keyword(s) if s == "start"));
    assert!(matches!(
        KeywordInstance::parse("snap", &words(&["middle"]), &valid, &arb("")),
        Err(TailwindError::Syntax { message }) if message == "snap: middle"
    ));
    assert!(matches!(
        KeywordInstance::parse("snap", &words(&[]), &valid, &arb("")),
        Err(TailwindError::Value { message }) if message == "snap"
    ));

    let sv = StandardValue::parser("x", &words(&[]), &valid, &arb("raw")).unwrap();
    assert_eq!(sv.get_value(), "raw");
    assert_eq!(sv.write_class("snap"), "snap-raw");

    assert!(matches!(
        IntegerOnly::parser("order", &words(&["7"]), &arb("")).unwrap(),
        IntegerOnly::Number(7)
    ));
    assert!(matches!(
        IntegerOnly::parser("order", &words(&["7", "8"]), &arb("")),
        Err(TailwindError::Value { .. })
    ));
    assert_eq!(arb("12").as_integer().unwrap(), 12);
    assert!(arb("1.5").as_integer().is_err());
}

#[test]
fn snap_routes_to_the_three_properties() {
    let k = TailwindSnap::adapt(&words(&["center"]), &arb("")).unwrap();
    assert_eq!(k.pattern, "scroll-snap-align");
    let k = TailwindSnap::adapt(&words(&["always"]), &arb("")).unwrap();
    assert_eq!(k.pattern, "scroll-snap-stop");
    let k = TailwindSnap::adapt(&words(&["both"]), &arb("")).unwrap();
    assert_eq!(k.pattern, "scroll-snap-type");
    assert!(TailwindSnap::adapt(&words(&["sw"]), &arb("")).is_err());
}

#[test]
fn background_image_keywords() {
    assert!(BackgroundImage::check_valid("none"));
    assert!(!BackgroundImage::check_valid("tartan"));
    let b = BackgroundImage::parse(&words(&["none"]), &arb("")).unwrap();
    assert_eq!(b.get_properties(), "none");
    let b = BackgroundImage::parse(&words(&[]), &arb("url(x.png)")).unwrap();
    assert_eq!(b.get_properties(), "url(x.png)");
    assert!(BackgroundImage::parse(&words(&["plaid"]), &arb("")).is_err());
}

#[test]
fn breakpoints_register_and_shadow() {
    let mut bps = BreakPointSystem::builtin();
    assert_eq!(bps.get("sm").unwrap().width, 640);
    assert_eq!(bps.get("2xl").unwrap().width, 1536);
    assert!(bps.get("mobile").is_none());
    let old = bps.register("sm".to_string(), 700);
    assert_eq!(old.unwrap().width, 640);
    assert_eq!(bps.get("sm").unwrap().width, 700);
    assert!(bps.register("huge".to_string(), 2000).is_none());
    assert_eq!(bps.get("huge").unwrap().width, 2000);
}

#[test]
fn class_names_are_escaped() {
    assert_eq!(normalize_class_name("mt-4"), "mt-4");
    assert_eq!(normalize_class_name("a b"), "a_b");
    assert_eq!(normalize_class_name("w-[3px]"), "w-\\[3px\\]");
    assert_eq!(normalize_class_name("hover:x"), "hover\\:x");
}

#[test]
fn error_messages_name_the_stage() {
    let e = TailwindError::UnknownVariant {
        name: "wiggle".to_string(),
    };
    assert_eq!(e.message(), "unknown variant: wiggle");
    let e = TailwindError::UnknownInstruction {
        path: vec!["totally".to_string(), "bogus".to_string()],
        arbitrary: "x".to_string(),
    };
    assert_eq!(e.message(), "unknown instructions: totally-bogus + [x]");
    assert!(e.is_unknown_instruction());
    assert!(!e.is_syntax());
}

#[test]
fn build_config_maps_the_flags() {
    let app = TailwindApp {
        mode: Some(Mode::Inline),
        minify: Some(true),
        dry_run: true,
        obfuscate: None,
        workspace: None,
    };
    let (config, builder) = app.build_config();
    assert_eq!(config.mode, CssInlineMode::Inline);
    assert!(config.minify);
    assert!(config.dry_run);
    assert!(!config.obfuscate);
    assert_eq!(builder.bundle.len(), 0);
    assert_eq!(Mode::default(), Mode::Normal);

    let app = TailwindApp {
        mode: None,
        minify: None,
        dry_run: false,
        obfuscate: Some(true),
        workspace: None,
    };
    let (config, builder) = app.build_config();
    assert_eq!(config.mode, CssInlineMode::Normal);
    assert!(config.obfuscate);
    assert!(builder.bundle.obfuscate);
}

#[test]
fn dispatcher_covers_the_families() {
    let mut b = tailwind_css::builder::CLIConfig::default().builder();
    let cases: &[(&str, &str)] = &[
        ("aspect-video", ".tw-0{aspect-ratio:16/9;}"),
        ("columns-3xs", ".tw-1{columns:16rem;}"),
        ("break-before-page", ".tw-2{break-before:page;}"),
        ("box-border", ".tw-3{box-sizing:border-box;}"),
        ("clear-left", ".tw-4{clear:left;}"),
        ("overflow-y-auto", ".tw-5{overflow-y:auto;}"),
        ("float-right", ".tw-6{float:right;}"),
        ("table-fixed", ".tw-7{table-layout:fixed;}"),
        ("outline-offset-2", ".tw-8{outline-offset:2px;}"),
        ("text-center", ".tw-9{text-align:center;}"),
        ("font-bold", ".tw-10{font-weight:700;}"),
        ("leading-7", ".tw-11{line-height:1.75rem;}"),
        ("border-dotted", ".tw-12{border-style:dotted;}"),
        ("flex-1", ".tw-13{flex:1 1 0%;}"),
        ("grow", ".tw-14{flex-grow:1;}"),
        ("sr-only", ""),
    ];
    let mut css_expect = String::new();
    for (token, expected) in cases {
        if *token == "sr-only" {
            continue;
        }
        let style = AstStyle::parse(token).unwrap();
        for flat in style.expand() {
            b.trace(&flat).unwrap();
        }
        css_expect.push_str(expected);
    }
    assert_eq!(b.to_css(), css_expect);
    let sr = AstStyle::parse("sr-only").unwrap();
    let flats = sr.expand();
    assert!(b.trace(&flats[0]).is_ok());
    assert!(b.to_css().contains("position:absolute;"));
}
