use tailwind_css::ast::{merge_important, merge_negative, AstStyle};
use tailwind_css::builder::{CLIConfig, TailwindBuilder};
use tailwind_css::error::TailwindError;

fn parse(s: &str) -> AstStyle {
    AstStyle::parse(s).unwrap()
}

fn builder() -> TailwindBuilder {
    CLIConfig::default().builder()
}

fn trace_token(builder: &mut TailwindBuilder, token: &str) -> Vec<String> {
    let style = parse(token);
    let mut names = Vec::new();
    for flat in style.expand() {
        names.push(builder.trace(&flat).unwrap());
    }
    names
}

#[test]
fn round_trip_simple_tokens() {
    for token in [
        "mt-4",
        "-mt-4",
        "hover:bg-red-500",
        "w-[3px]!",
        "not-hover:flex",
        "focus:first-child::w-1/2",
        "sm:flex(row wrap)",
        "hover:(& text-red)",
        "a(b c(d &))!",
    ] {
        let rendered = parse(token).to_class();
        assert_eq!(rendered, token);
    }
}

#[test]
fn group_flattening_is_deterministic() {
    let flats = parse("flex(row wrap)").expand();
    assert_eq!(flats.len(), 2);
    assert_eq!(flats[0].to_class(), "flex-row");
    assert_eq!(flats[1].to_class(), "flex-wrap");

    let carried = parse("sm:-flex(row wrap)!").expand();
    assert_eq!(carried.len(), 2);
    assert_eq!(carried[0].to_class(), "sm:-flex-row!");
    assert_eq!(carried[1].to_class(), "sm:-flex-wrap!");
}

#[test]
fn self_reference_takes_the_head_alone() {
    let flats = parse("hover:(& text-red)").expand();
    assert_eq!(flats.len(), 2);
    assert_eq!(flats[0].to_class(), "hover:");
    assert_eq!(flats[1].to_class(), "hover:text-red");
}

#[test]
fn negation_cancels_and_importance_sticks() {
    assert_eq!(merge_negative(false, false), false);
    assert_eq!(merge_negative(true, false), true);
    assert_eq!(merge_negative(false, true), true);
    assert_eq!(merge_negative(true, true), false);

    assert_eq!(merge_important(false, false), false);
    assert_eq!(merge_important(true, false), true);
    assert_eq!(merge_important(false, true), true);
    assert_eq!(merge_important(true, true), true);

    let flats = parse("-a(-b c)").expand();
    assert_eq!(flats[0].to_class(), "a-b");
    assert_eq!(flats[1].to_class(), "-a-c");
}

#[test]
fn importance_reaches_every_leaf() {
    let flats = parse("hover:flex(row wrap)!").expand();
    assert_eq!(flats.len(), 2);
    for flat in &flats {
        assert!(flat.important);
    }
    let nested = parse("a(b! c)").expand();
    assert!(nested[0].important);
    assert!(!nested[1].important);
}

#[test]
fn dedup_shares_one_rule() {
    let mut b = builder();
    let first = trace_token(&mut b, "font-md");
    let second = trace_token(&mut b, "font-base");
    assert_eq!(first, second);
    assert_eq!(b.bundle.len(), 1);

    let again = trace_token(&mut b, "font-md");
    assert_eq!(again, first);
    assert_eq!(b.bundle.len(), 1);
}

#[test]
fn importance_escalates_in_place() {
    let mut b = builder();
    let first = trace_token(&mut b, "font-md");
    assert!(!b.bundle.entries[0].important);
    let second = trace_token(&mut b, "font-md!");
    assert_eq!(first, second);
    assert_eq!(b.bundle.len(), 1);
    assert!(b.bundle.entries[0].important);
    assert!(b.to_css().contains("!important"));

    let third = trace_token(&mut b, "font-md");
    assert_eq!(third, first);
    assert_eq!(b.bundle.len(), 1);
    assert!(b.bundle.entries[0].important);
}

#[test]
fn unknown_instruction_keeps_the_path() {
    let style = parse("totally-bogus");
    let err = style.get_instance().unwrap_err();
    match err {
        TailwindError::UnknownInstruction { path, arbitrary } => {
            assert_eq!(path, vec!["totally".to_string(), "bogus".to_string()]);
            assert_eq!(arbitrary, "");
        }
        other => panic!("wrong error kind: {:?}", other),
    }
}

#[test]
fn concrete_scenario_orders_and_wraps() {
    let mut b = builder();
    let mut all_names = Vec::new();
    for token in ["mt-4", "-mt-4", "hover:bg-red-500", "sm:flex(row wrap)"] {
        all_names.extend(trace_token(&mut b, token));
    }
    assert_eq!(all_names, vec!["tw-0", "tw-1", "tw-2", "tw-3", "tw-4"]);
    assert_eq!(b.bundle.len(), 5);
    let css = b.to_css();
    assert_eq!(
        css,
        ".tw-0{margin-top:1em;}\
         .tw-1{margin-top:-1em;}\
         .tw-2:hover{background-color:#ef4444;}\
         @media(min-width:640px){.tw-3{flex-direction:row;}}\
         @media(min-width:640px){.tw-4{flex-wrap:wrap;}}"
    );
}

#[test]
fn decimal_scale_steps_resolve() {
    let mut b = builder();
    trace_token(&mut b, "mt-0.5");
    assert_eq!(b.to_css(), ".tw-0{margin-top:0.125em;}");
}

#[test]
fn variant_order_does_not_split_rules() {
    let mut b = builder();
    let first = trace_token(&mut b, "hover:focus:font-md");
    let second = trace_token(&mut b, "focus:hover:font-md");
    assert_eq!(first, second);
    assert_eq!(b.bundle.len(), 1);
}

#[test]
fn variant_context_partitions_rules() {
    let mut b = builder();
    trace_token(&mut b, "font-md");
    trace_token(&mut b, "hover:font-md");
    assert_eq!(b.bundle.len(), 2);
}

#[test]
fn unknown_variant_and_breakpoint_conflict() {
    let mut b = builder();
    let style = parse("wiggle:flex");
    let flat = &style.expand()[0];
    assert!(matches!(
        b.trace(flat),
        Err(TailwindError::UnknownVariant { .. })
    ));

    let style = parse("sm:md:flex");
    let flat = &style.expand()[0];
    assert!(matches!(b.trace(flat), Err(TailwindError::Conflict { .. })));
}

#[test]
fn obfuscated_names_come_from_the_digest() {
    let mut b = TailwindBuilder::new(true);
    let a = trace_token(&mut b, "mt-4");
    let c = trace_token(&mut b, "mt-8");
    assert_ne!(a, c);
    assert!(a[0].starts_with("tw-"));
    assert!(a[0].len() > 3);
    // interning the same key again reuses the digest-derived name
    let again = trace_token(&mut b, "mt-4");
    assert_eq!(a, again);
}
