use vstd::prelude::*;
use crate::ast::{clone_string, clone_strings, AstStyle};
use crate::css::CssAttributes;
use crate::error::TailwindError;
use crate::modules::{
    aspect_spec, break_inside_spec, break_side_spec, clear_spec, columns_spec,
    int_text, overflow_keyword, sizing_parse_ok, spacing_edge_spec, tail_strings,
    BackgroundImage, Palette, SpacingEdge, TailWindZIndex, TailwindAspect,
    TailwindBackgroundColor, TailwindBackgroundImage, TailwindBreak, TailwindClear,
    TailwindColor, TailwindColumns, TailwindFontSize, TailwindFontSmoothing, TailwindOverflow,
    TailwindRight, TailwindScreenReader, TailwindSizing, TailwindSizingKind, TailwindSpacing,
};
use crate::text::{dec_digits, digits_value, join_seq, join_strings, string_eq};
use crate::units::{standard_value_text, KeywordInstance, StandardValue, TailwindArbitrary};

verus! {

/// One resolved CSS-producing instance: the closed set of property families
/// the dispatcher can select.
#[derive(Debug)]
pub enum CssInstance {
    Aspect(TailwindAspect),
    Columns(TailwindColumns),
    Break(TailwindBreak),
    ZIndex(TailWindZIndex),
    Clear(TailwindClear),
    Overflow(TailwindOverflow),
    Right(TailwindRight),
    Sizing(TailwindSizing),
    Spacing(TailwindSpacing),
    BgImage(TailwindBackgroundImage),
    BgColor(TailwindBackgroundColor),
    TextColor(crate::modules::TailwindTextColor),
    FontSize(TailwindFontSize),
    Smoothing(TailwindFontSmoothing),
    Reader(TailwindScreenReader),
    Keyword(KeywordInstance),
}

/// Whether `r` is a keyword instance writing exactly the pair `(prop, val)`.
pub open spec fn is_kw(r: Result<CssInstance, TailwindError>, prop: Seq<char>, val: Seq<char>)
    -> bool {
    r matches Ok(i) && i matches CssInstance::Keyword(k) && k.pattern@ == prop
        && standard_value_text(k.value) == val
}

/// Whether `r` routes a keyword table outcome: the pair where the table
/// gives one, and where it gives none a syntax error carrying the joined
/// suffix `p`.
pub open spec fn kw_route(
    r: Result<CssInstance, TailwindError>,
    o: Option<(Seq<char>, Seq<char>)>,
    p: Seq<Seq<char>>,
) -> bool {
    match o {
        Option::Some(pv) => is_kw(r, pv.0, pv.1),
        Option::None => r matches Err(e) && e matches TailwindError::Syntax { message }
            && message@ == join_seq(p, "-"@),
    }
}

// ---------------------------------------------------------------------------
// The keyword tables of the adaptors.
// ---------------------------------------------------------------------------

/// The border suffix table: styles, collapsing and color keywords.
pub open spec fn border_spec(p: Seq<Seq<char>>) -> Option<(Seq<char>, Seq<char>)> {
    if p.len() == 1 && (p[0] == "solid"@ || p[0] == "dashed"@ || p[0] == "dotted"@ || p[0]
        == "double"@ || p[0] == "hidden"@ || p[0] == "none"@) {
        Some(("border-style"@, p[0]))
    } else if p.len() == 1 && (p[0] == "collapse"@ || p[0] == "separate"@) {
        Some(("border-collapse"@, p[0]))
    } else if p.len() == 1 && p[0] == "inherit"@ {
        Some(("border-color"@, "inherit"@))
    } else if p.len() == 1 && p[0] == "current"@ {
        Some(("border-color"@, "currentColor"@))
    } else if p.len() == 1 && p[0] == "transparent"@ {
        Some(("border-color"@, "transparent"@))
    } else if p.len() == 1 && p[0] == "black"@ {
        Some(("border-color"@, "#000000"@))
    } else if p.len() == 1 && p[0] == "white"@ {
        Some(("border-color"@, "#ffffff"@))
    } else {
        None
    }
}

/// The divide suffix table: the shared border styles.
pub open spec fn divide_spec(p: Seq<Seq<char>>) -> Option<(Seq<char>, Seq<char>)> {
    if p.len() == 1 && (p[0] == "solid"@ || p[0] == "dashed"@ || p[0] == "dotted"@ || p[0]
        == "double"@ || p[0] == "none"@) {
        Some(("border-style"@, p[0]))
    } else {
        None
    }
}

/// The outline suffix table: styles, the offset, and a bare width.
pub open spec fn outline_spec(p: Seq<Seq<char>>) -> Option<(Seq<char>, Seq<char>)> {
    if p.len() == 1 && (p[0] == "none"@ || p[0] == "dashed"@ || p[0] == "dotted"@ || p[0]
        == "double"@ || p[0] == "hidden"@) {
        Some(("outline-style"@, p[0]))
    } else if p.len() == 2 && p[0] == "offset"@ && int_text(p[1]) {
        Some(("outline-offset"@, dec_digits(digits_value(p[1])) + "px"@))
    } else if p.len() == 1 && int_text(p[0]) {
        Some(("outline-width"@, dec_digits(digits_value(p[0])) + "px"@))
    } else {
        None
    }
}

/// The ring suffix table: only the offset width is understood.
pub open spec fn ring_spec(p: Seq<Seq<char>>, arb: Seq<char>) -> Option<(Seq<char>, Seq<char>)> {
    if p.len() == 2 && p[0] == "offset"@ && int_text(p[1]) {
        Some(("--tw-ring-offset-width"@, dec_digits(digits_value(p[1])) + "px"@))
    } else if p.len() == 1 && p[0] == "offset"@ && arb.len() > 0 {
        Some(("--tw-ring-offset-width"@, arb))
    } else {
        None
    }
}

/// The shadow suffix table: only an arbitrary shadow is understood.
pub open spec fn shadow_spec(p: Seq<Seq<char>>, arb: Seq<char>) -> Option<(Seq<char>, Seq<char>)> {
    if p.len() == 0 && arb.len() > 0 {
        Some(("box-shadow"@, arb))
    } else {
        None
    }
}

/// The box suffix table: decoration breaking and sizing.
pub open spec fn box_spec(p: Seq<Seq<char>>) -> Option<(Seq<char>, Seq<char>)> {
    if p.len() == 2 && p[0] == "decoration"@ && p[1] == "clone"@ {
        Some(("box-decoration-break"@, "clone"@))
    } else if p.len() == 2 && p[0] == "decoration"@ && p[1] == "slice"@ {
        Some(("box-decoration-break"@, "slice"@))
    } else if p.len() == 1 && p[0] == "border"@ {
        Some(("box-sizing"@, "border-box"@))
    } else if p.len() == 1 && p[0] == "content"@ {
        Some(("box-sizing"@, "content-box"@))
    } else {
        None
    }
}

/// The flex suffix table: the display value, directions, wrapping, the
/// shorthands, a bare factor, and an arbitrary shorthand.
pub open spec fn flex_spec(p: Seq<Seq<char>>, arb: Seq<char>) -> Option<(Seq<char>, Seq<char>)> {
    if p.len() == 0 && arb.len() == 0 {
        Some(("display"@, "flex"@))
    } else if p.len() == 0 {
        Some(("flex"@, arb))
    } else if p.len() == 1 && p[0] == "row"@ {
        Some(("flex-direction"@, "row"@))
    } else if p.len() == 2 && p[0] == "row"@ && p[1] == "reverse"@ {
        Some(("flex-direction"@, "row-reverse"@))
    } else if p.len() == 1 && p[0] == "col"@ {
        Some(("flex-direction"@, "column"@))
    } else if p.len() == 2 && p[0] == "col"@ && p[1] == "reverse"@ {
        Some(("flex-direction"@, "column-reverse"@))
    } else if p.len() == 1 && p[0] == "wrap"@ {
        Some(("flex-wrap"@, "wrap"@))
    } else if p.len() == 2 && p[0] == "wrap"@ && p[1] == "reverse"@ {
        Some(("flex-wrap"@, "wrap-reverse"@))
    } else if p.len() == 1 && p[0] == "nowrap"@ {
        Some(("flex-wrap"@, "nowrap"@))
    } else if p.len() == 1 && p[0] == "auto"@ {
        Some(("flex"@, "1 1 auto"@))
    } else if p.len() == 1 && p[0] == "initial"@ {
        Some(("flex"@, "0 1 auto"@))
    } else if p.len() == 1 && p[0] == "none"@ {
        Some(("flex"@, "none"@))
    } else if p.len() == 1 && int_text(p[0]) {
        Some(("flex"@, dec_digits(digits_value(p[0])) + " "@ + dec_digits(digits_value(p[0]))
            + " 0%"@))
    } else {
        None
    }
}

/// The list suffix table: marker types and positions.
pub open spec fn list_spec(p: Seq<Seq<char>>) -> Option<(Seq<char>, Seq<char>)> {
    if p.len() == 1 && (p[0] == "none"@ || p[0] == "disc"@ || p[0] == "decimal"@) {
        Some(("list-style-type"@, p[0]))
    } else if p.len() == 1 && (p[0] == "inside"@ || p[0] == "outside"@) {
        Some(("list-style-position"@, p[0]))
    } else {
        None
    }
}

/// The table suffix table: the display values and the layout.
pub open spec fn table_spec(p: Seq<Seq<char>>) -> Option<(Seq<char>, Seq<char>)> {
    if p.len() == 0 {
        Some(("display"@, "table"@))
    } else if p.len() == 1 && p[0] == "caption"@ {
        Some(("display"@, "table-caption"@))
    } else if p.len() == 1 && (p[0] == "auto"@ || p[0] == "fixed"@) {
        Some(("table-layout"@, p[0]))
    } else {
        None
    }
}

/// The float suffix table.
pub open spec fn float_spec(p: Seq<Seq<char>>) -> Option<(Seq<char>, Seq<char>)> {
    if p.len() == 1 && (p[0] == "left"@ || p[0] == "right"@ || p[0] == "none"@) {
        Some(("float"@, p[0]))
    } else {
        None
    }
}

/// The font family stacks.
pub open spec fn font_family_spec(t: Seq<char>) -> Option<Seq<char>> {
    if t == "sans"@ {
        Some("ui-sans-serif, system-ui, sans-serif"@)
    } else if t == "serif"@ {
        Some("ui-serif, serif"@)
    } else if t == "mono"@ {
        Some("ui-monospace, monospace"@)
    } else {
        None
    }
}

/// Whether `t` names a font size step.
pub open spec fn font_size_keyword(t: Seq<char>) -> bool {
    t == "xs"@ || t == "sm"@ || t == "md"@ || t == "base"@ || t == "lg"@ || t == "xl"@ || t
        == "2xl"@ || t == "3xl"@ || t == "4xl"@ || t == "5xl"@ || t == "6xl"@ || t == "7xl"@ || t
        == "8xl"@ || t == "9xl"@
}

/// The font weight each weight keyword names.
pub open spec fn font_weight_spec(t: Seq<char>) -> Option<Seq<char>> {
    if t == "thin"@ {
        Some("100"@)
    } else if t == "extralight"@ {
        Some("200"@)
    } else if t == "light"@ {
        Some("300"@)
    } else if t == "normal"@ {
        Some("400"@)
    } else if t == "medium"@ {
        Some("500"@)
    } else if t == "semibold"@ {
        Some("600"@)
    } else if t == "bold"@ {
        Some("700"@)
    } else if t == "extrabold"@ {
        Some("800"@)
    } else if t == "black"@ {
        Some("900"@)
    } else {
        None
    }
}

/// How a font suffix routes: a family stack, a size step (the sampled scale
/// maps every step to the base size), or a weight.
pub open spec fn font_route(r: Result<CssInstance, TailwindError>, p: Seq<Seq<char>>) -> bool {
    if p.len() == 1 && font_family_spec(p[0]) is Some {
        is_kw(r, "font-family"@, font_family_spec(p[0])->Some_0)
    } else if p.len() == 1 && font_size_keyword(p[0]) {
        r matches Ok(i) && i matches CssInstance::FontSize(f) && f.size_quarters == 3
            && f.height_quarters == 4
    } else if p.len() == 1 && font_weight_spec(p[0]) is Some {
        is_kw(r, "font-weight"@, font_weight_spec(p[0])->Some_0)
    } else {
        r matches Err(e) && e matches TailwindError::Syntax { message } && message@ == join_seq(
            p,
            "-"@,
        )
    }
}

/// How a text suffix routes: an alignment, a color keyword, or a themed
/// color with its weight.
pub open spec fn text_route(r: Result<CssInstance, TailwindError>, p: Seq<Seq<char>>) -> bool {
    if p.len() == 1 && (p[0] == "left"@ || p[0] == "center"@ || p[0] == "right"@ || p[0]
        == "justify"@) {
        is_kw(r, "text-align"@, p[0])
    } else if p.len() == 1 && p[0] == "inherit"@ {
        r matches Ok(i) && i matches CssInstance::TextColor(c) && c.color is Inherit
    } else if p.len() == 1 && p[0] == "current"@ {
        r matches Ok(i) && i matches CssInstance::TextColor(c) && c.color is Current
    } else if p.len() == 1 && p[0] == "transparent"@ {
        r matches Ok(i) && i matches CssInstance::TextColor(c) && c.color is Transparent
    } else if p.len() == 1 && p[0] == "black"@ {
        r matches Ok(i) && i matches CssInstance::TextColor(c) && c.color is Black
    } else if p.len() == 1 && p[0] == "white"@ {
        r matches Ok(i) && i matches CssInstance::TextColor(c) && c.color is White
    } else if p.len() == 2 && int_text(p[1]) {
        r matches Ok(i) && i matches CssInstance::TextColor(c) && c.color
            matches TailwindColor::Themed { name, weight } && name@ == p[0] && weight
            == digits_value(p[1])
    } else if p.len() == 2 {
        r matches Err(e) && e matches TailwindError::Value { message } && message@ == p[1]
    } else {
        r matches Err(e) && e matches TailwindError::Syntax { message } && message@ == join_seq(
            p,
            "-"@,
        )
    }
}

/// How a background suffix routes: the arbitrary image, `none`, a color
/// keyword, or a themed color with its weight.
pub open spec fn bg_route(
    r: Result<CssInstance, TailwindError>,
    p: Seq<Seq<char>>,
    arb: Seq<char>,
) -> bool {
    if p.len() == 0 && arb.len() > 0 {
        r matches Ok(i) && i matches CssInstance::BgImage(b) && b.kind
            matches BackgroundImage::Arbitrary(a) && a.item@ == arb
    } else if p.len() == 1 && p[0] == "none"@ {
        r matches Ok(i) && i matches CssInstance::BgImage(b) && b.kind
            matches BackgroundImage::Standard(s) && s@ == "none"@
    } else if p.len() == 1 && p[0] == "inherit"@ {
        r matches Ok(i) && i matches CssInstance::BgColor(b) && b.color is Inherit
    } else if p.len() == 1 && p[0] == "current"@ {
        r matches Ok(i) && i matches CssInstance::BgColor(b) && b.color is Current
    } else if p.len() == 1 && p[0] == "transparent"@ {
        r matches Ok(i) && i matches CssInstance::BgColor(b) && b.color is Transparent
    } else if p.len() == 1 && p[0] == "black"@ {
        r matches Ok(i) && i matches CssInstance::BgColor(b) && b.color is Black
    } else if p.len() == 1 && p[0] == "white"@ {
        r matches Ok(i) && i matches CssInstance::BgColor(b) && b.color is White
    } else if p.len() == 2 && int_text(p[1]) {
        r matches Ok(i) && i matches CssInstance::BgColor(b) && b.color
            matches TailwindColor::Themed { name, weight } && name@ == p[0] && weight
            == digits_value(p[1])
    } else if p.len() == 2 {
        r matches Err(e) && e matches TailwindError::Value { message } && message@ == p[1]
    } else {
        r matches Err(e) && e matches TailwindError::Syntax { message } && message@ == join_seq(
            p,
            "-"@,
        )
    }
}

/// The tracking (letter spacing) table.
pub open spec fn tracking_spec(p: Seq<Seq<char>>, arb: Seq<char>) -> Option<(Seq<char>, Seq<char>)> {
    if p.len() == 0 && arb.len() > 0 {
        Some(("letter-spacing"@, arb))
    } else if p.len() == 1 && p[0] == "tighter"@ {
        Some(("letter-spacing"@, "-0.05em"@))
    } else if p.len() == 1 && p[0] == "tight"@ {
        Some(("letter-spacing"@, "-0.025em"@))
    } else if p.len() == 1 && p[0] == "normal"@ {
        Some(("letter-spacing"@, "0em"@))
    } else if p.len() == 1 && p[0] == "wide"@ {
        Some(("letter-spacing"@, "0.025em"@))
    } else if p.len() == 1 && p[0] == "wider"@ {
        Some(("letter-spacing"@, "0.05em"@))
    } else if p.len() == 1 && p[0] == "widest"@ {
        Some(("letter-spacing"@, "0.1em"@))
    } else {
        None
    }
}

/// The leading (line height) table.
pub open spec fn leading_spec(p: Seq<Seq<char>>, arb: Seq<char>) -> Option<(Seq<char>, Seq<char>)> {
    if p.len() == 0 && arb.len() > 0 {
        Some(("line-height"@, arb))
    } else if p.len() == 1 && p[0] == "none"@ {
        Some(("line-height"@, "1"@))
    } else if p.len() == 1 && p[0] == "tight"@ {
        Some(("line-height"@, "1.25"@))
    } else if p.len() == 1 && p[0] == "snug"@ {
        Some(("line-height"@, "1.375"@))
    } else if p.len() == 1 && p[0] == "normal"@ {
        Some(("line-height"@, "1.5"@))
    } else if p.len() == 1 && p[0] == "relaxed"@ {
        Some(("line-height"@, "1.625"@))
    } else if p.len() == 1 && p[0] == "loose"@ {
        Some(("line-height"@, "2"@))
    } else if p.len() == 1 && int_text(p[0]) {
        Some(("line-height"@, crate::css::quarters_text(digits_value(p[0])) + "rem"@))
    } else {
        None
    }
}

/// The underline offset table.
pub open spec fn underline_offset_spec(p: Seq<Seq<char>>, arb: Seq<char>) -> Option<
    (Seq<char>, Seq<char>),
> {
    if p.len() == 0 && arb.len() > 0 {
        Some(("text-underline-offset"@, arb))
    } else if p.len() == 1 && p[0] == "auto"@ {
        Some(("text-underline-offset"@, "auto"@))
    } else if p.len() == 1 && int_text(p[0]) {
        Some(("text-underline-offset"@, dec_digits(digits_value(p[0])) + "px"@))
    } else {
        None
    }
}

/// The brightness filter table.
pub open spec fn brightness_spec(p: Seq<Seq<char>>, arb: Seq<char>) -> Option<
    (Seq<char>, Seq<char>),
> {
    if p.len() == 0 && arb.len() > 0 {
        Some(("filter"@, "brightness("@ + arb + ")"@))
    } else if p.len() == 1 && int_text(p[0]) {
        Some(("filter"@, "brightness("@ + dec_digits(digits_value(p[0])) + "%)"@))
    } else {
        None
    }
}

/// The drop shadow filter table: only an arbitrary value is understood.
pub open spec fn drop_shadow_spec(p: Seq<Seq<char>>, arb: Seq<char>) -> Option<
    (Seq<char>, Seq<char>),
> {
    if p.len() == 0 && arb.len() > 0 {
        Some(("filter"@, "drop-shadow("@ + arb + ")"@))
    } else {
        None
    }
}

/// A growth factor table shared by grow and shrink: a bare keyword means 1.
pub open spec fn factor_spec(p: Seq<Seq<char>>, arb: Seq<char>, prop: Seq<char>) -> Option<
    (Seq<char>, Seq<char>),
> {
    if p.len() == 0 && arb.len() > 0 {
        Some((prop, arb))
    } else if p.len() == 0 {
        Some((prop, "1"@))
    } else if p.len() == 1 && int_text(p[0]) {
        Some((prop, dec_digits(digits_value(p[0]))))
    } else {
        None
    }
}

/// The order table, signed by the class.
pub open spec fn order_spec(p: Seq<Seq<char>>, arb: Seq<char>, neg: bool) -> Option<
    (Seq<char>, Seq<char>),
> {
    if p.len() == 0 && arb.len() > 0 {
        Some(("order"@, arb))
    } else if p.len() == 1 && int_text(p[0]) {
        if neg {
            Some(("order"@, "-"@ + dec_digits(digits_value(p[0]))))
        } else {
            Some(("order"@, dec_digits(digits_value(p[0]))))
        }
    } else {
        None
    }
}


// ---------------------------------------------------------------------------
// Routes that wrap whole subsystems.
// ---------------------------------------------------------------------------

/// How an overflow suffix with an optional leading axis routes.
pub open spec fn overflow_route(
    r: Result<CssInstance, TailwindError>,
    p: Seq<Seq<char>>,
    arb: Seq<char>,
) -> bool {
    if p.len() >= 1 && p[0] == "x"@ {
        overflow_ok(r, p.skip(1), arb, Some(true))
    } else if p.len() >= 1 && p[0] == "y"@ {
        overflow_ok(r, p.skip(1), arb, Some(false))
    } else {
        overflow_ok(r, p, arb, None)
    }
}

/// What an overflow resolution on one axis must yield.
pub open spec fn overflow_ok(
    r: Result<CssInstance, TailwindError>,
    p: Seq<Seq<char>>,
    arb: Seq<char>,
    axis: Option<bool>,
) -> bool {
    if p.len() == 0 && arb.len() > 0 {
        r matches Ok(i) && i matches CssInstance::Overflow(o) && (o.axis == axis) && (o.kind
            matches StandardValue::Arbitrary(a) && a.item@ == arb)
    } else if p.len() == 0 {
        r matches Err(e) && e matches TailwindError::Value { message } && message@ == "overflow"@
    } else {
        let joined = join_seq(p, "-"@);
        if overflow_keyword(joined) {
            r matches Ok(i) && i matches CssInstance::Overflow(o) && (o.axis == axis) && (o.kind
                matches StandardValue::Keyword(s) && s@ == joined)
        } else {
            r matches Err(e) && e matches TailwindError::Syntax { message } && message@
                == "overflow"@ + ": "@ + joined
        }
    }
}

/// How a z-index suffix routes, signed by the class.
pub open spec fn zindex_route(
    r: Result<CssInstance, TailwindError>,
    p: Seq<Seq<char>>,
    neg: bool,
) -> bool {
    if crate::modules::zindex_spec(p, neg) is Some {
        r matches Ok(i) && i matches CssInstance::ZIndex(z) && z == crate::modules::zindex_spec(
            p,
            neg,
        )->Some_0
    } else if p.len() != 1 {
        r matches Err(e) && e matches TailwindError::Syntax { message } && message@ == join_seq(
            p,
            "-"@,
        )
    } else {
        r matches Err(e) && e matches TailwindError::Value { message } && message@ == p[0]
    }
}

/// How a sizing suffix routes for one extent.
pub open spec fn sizing_route(
    r: Result<CssInstance, TailwindError>,
    p: Seq<Seq<char>>,
    arb: Seq<char>,
    k: TailwindSizingKind,
) -> bool {
    if sizing_parse_ok(p, arb) {
        r matches Ok(i) && i matches CssInstance::Sizing(s) && s.kind == k
            && crate::modules::sizing_unit_route(s.size, p, arb)
    } else {
        r matches Err(e) && crate::modules::sizing_error(e, p, arb)
    }
}

/// How a spacing suffix routes for one code letter.
pub open spec fn spacing_route(
    r: Result<CssInstance, TailwindError>,
    code: Seq<char>,
    p: Seq<Seq<char>>,
    arb: Seq<char>,
    margin: bool,
    neg: bool,
) -> bool {
    if spacing_edge_spec(code) is Some && sizing_parse_ok(p, arb) {
        r matches Ok(i) && i matches CssInstance::Spacing(s) && s.margin == margin && s.negative
            == neg && s.edge == spacing_edge_spec(code)->Some_0
            && crate::modules::sizing_unit_route(s.size, p, arb)
    } else if spacing_edge_spec(code) is None {
        r matches Err(e) && e matches TailwindError::Syntax { message } && message@ == code
    } else {
        r matches Err(e) && crate::modules::sizing_error(e, p, arb)
    }
}

/// The whole dispatch table: each head of the element path selects its
/// family, in this order, and a head no arm knows is an unknown instruction
/// carrying the path and the arbitrary text verbatim.
pub open spec fn dispatch_route(
    r: Result<CssInstance, TailwindError>,
    p: Seq<Seq<char>>,
    arb: Seq<char>,
    neg: bool,
) -> bool {
    if p.len() == 0 {
        unknown_route(r, p, arb)
    } else if head_layout(p[0]) {
        layout_route(r, p, arb, neg)
    } else if head_flexbox(p[0]) {
        flexbox_route(r, p, arb, neg)
    } else if head_typography(p[0]) {
        typography_route(r, p, arb)
    } else if head_misc(p[0]) {
        misc_route(r, p, arb)
    } else {
        unknown_route(r, p, arb)
    }
}

/// The heads the layout family owns.
pub open spec fn head_layout(h: Seq<char>) -> bool {
    h == "aspect"@ || h == "container"@ || h == "columns"@ || h == "break"@ || h == "box"@ || h
        == "block"@ || h == "inline"@ || h == "float"@ || h == "clear"@ || h == "isolate"@ || h
        == "isolation"@ || h == "object"@ || h == "overflow"@ || h == "overscroll"@ || h
        == "static"@ || h == "fixed"@ || h == "absolute"@ || h == "relative"@ || h == "sticky"@
        || h == "visible"@ || h == "invisible"@ || h == "inset"@ || h == "s"@
}

/// The heads the flexbox, spacing and sizing families own.
pub open spec fn head_flexbox(h: Seq<char>) -> bool {
    h == "flex"@ || h == "grow"@ || h == "shrink"@ || h == "order"@ || h == "p"@ || h == "pl"@
        || h == "pr"@ || h == "pm"@ || h == "pt"@ || h == "px"@ || h == "py"@ || h == "m"@ || h
        == "ml"@ || h == "mr"@ || h == "mm"@ || h == "mt"@ || h == "mx"@ || h == "my"@ || h
        == "space"@ || h == "w"@ || h == "min"@ || h == "max"@ || h == "h"@
}

/// The heads the typography and background families own.
pub open spec fn head_typography(h: Seq<char>) -> bool {
    h == "font"@ || h == "text"@ || h == "antialiased"@ || h == "subpixel"@ || h == "italic"@
        || h == "not"@ || h == "tracking"@ || h == "leading"@ || h == "list"@ || h == "underline"@
        || h == "bg"@
}

/// The heads the border, effect and table families own.
pub open spec fn head_misc(h: Seq<char>) -> bool {
    h == "border"@ || h == "divide"@ || h == "outline"@ || h == "ring"@ || h == "shadow"@ || h
        == "brightness"@ || h == "drop"@ || h == "table"@ || h == "sr"@
}

/// The layout arms of the dispatch table.
pub open spec fn layout_route(
    r: Result<CssInstance, TailwindError>,
    p: Seq<Seq<char>>,
    arb: Seq<char>,
    neg: bool,
) -> bool {
    if p.len() == 0 {
        unknown_route(r, p, arb)
    } else if p[0] == "aspect"@ {
        aspect_route(r, p.skip(1))
    } else if p.len() == 1 && p[0] == "container"@ {
        is_kw(r, "width"@, "100%"@)
    } else if p[0] == "columns"@ {
        columns_route(r, p.skip(1))
    } else if p.len() >= 2 && p[0] == "break"@ && p[1] == "before"@ {
        break_route(r, p.skip(2), 0)
    } else if p.len() >= 2 && p[0] == "break"@ && p[1] == "inside"@ {
        break_route(r, p.skip(2), 2)
    } else if p.len() >= 2 && p[0] == "break"@ && p[1] == "after"@ {
        break_route(r, p.skip(2), 1)
    } else if p[0] == "box"@ {
        kw_route(r, box_spec(p.skip(1)), p.skip(1))
    } else if p.len() == 1 && p[0] == "block"@ {
        is_kw(r, "display"@, "block"@)
    } else if p.len() == 2 && p[0] == "inline"@ && p[1] == "flex"@ {
        is_kw(r, "display"@, "inline-flex"@)
    } else if p.len() == 2 && p[0] == "inline"@ && p[1] == "block"@ {
        is_kw(r, "display"@, "inline-block"@)
    } else if p[0] == "float"@ {
        kw_route(r, float_spec(p.skip(1)), p.skip(1))
    } else if p[0] == "clear"@ {
        clear_route(r, p.skip(1))
    } else if p.len() == 1 && p[0] == "isolate"@ {
        is_kw(r, "isolation"@, "isolate"@)
    } else if p.len() == 2 && p[0] == "isolation"@ && p[1] == "auto"@ {
        is_kw(r, "isolation"@, "auto"@)
    } else if p[0] == "object"@ {
        r matches Err(e) && e matches TailwindError::Syntax { message } && message@ == join_seq(
            p.skip(1),
            "-"@,
        )
    } else if p[0] == "overflow"@ {
        overflow_route(r, p.skip(1), arb)
    } else if p[0] == "overscroll"@ {
        r matches Err(e) && e matches TailwindError::Syntax { message } && message@ == join_seq(
            p.skip(1),
            "-"@,
        )
    } else if p.len() == 1 && (p[0] == "static"@ || p[0] == "fixed"@ || p[0] == "absolute"@
        || p[0] == "relative"@ || p[0] == "sticky"@) {
        is_kw(r, "position"@, p[0])
    } else if p.len() == 1 && p[0] == "visible"@ {
        is_kw(r, "visibility"@, "visible"@)
    } else if p.len() == 1 && p[0] == "invisible"@ {
        is_kw(r, "visibility"@, "hidden"@)
    } else if p[0] == "inset"@ {
        zindex_route(r, p.skip(1), neg)
    } else if p[0] == "s"@ {
        zindex_route(r, p.skip(1), neg)
    } else {
        unknown_route(r, p, arb)
    }
}

/// The flexbox, spacing and sizing arms of the dispatch table.
pub open spec fn flexbox_route(
    r: Result<CssInstance, TailwindError>,
    p: Seq<Seq<char>>,
    arb: Seq<char>,
    neg: bool,
) -> bool {
    if p.len() == 0 {
        unknown_route(r, p, arb)
    } else if p[0] == "flex"@ {
        kw_route(r, flex_spec(p.skip(1), arb), p.skip(1))
    } else if p[0] == "grow"@ {
        kw_route(r, factor_spec(p.skip(1), arb, "flex-grow"@), p.skip(1))
    } else if p[0] == "shrink"@ {
        kw_route(r, factor_spec(p.skip(1), arb, "flex-shrink"@), p.skip(1))
    } else if p[0] == "order"@ {
        kw_route(r, order_spec(p.skip(1), arb, neg), p.skip(1))
    } else if p[0] == "p"@ || p[0] == "pl"@ || p[0] == "pr"@ || p[0] == "pm"@ || p[0] == "pt"@
        || p[0] == "px"@ || p[0] == "py"@ {
        spacing_route(r, p[0], p.skip(1), arb, false, false)
    } else if p[0] == "m"@ || p[0] == "ml"@ || p[0] == "mr"@ || p[0] == "mm"@ || p[0] == "mt"@
        || p[0] == "mx"@ || p[0] == "my"@ {
        spacing_route(r, p[0], p.skip(1), arb, true, neg)
    } else if p.len() >= 2 && p[0] == "space"@ && p[1] == "x"@ {
        space_route(r, p.skip(2), arb, true)
    } else if p.len() >= 2 && p[0] == "space"@ && p[1] == "y"@ {
        space_route(r, p.skip(2), arb, false)
    } else if p[0] == "w"@ {
        sizing_route(r, p.skip(1), arb, TailwindSizingKind::Width)
    } else if p.len() >= 2 && p[0] == "min"@ && p[1] == "w"@ {
        sizing_route(r, p.skip(2), arb, TailwindSizingKind::MinWidth)
    } else if p.len() >= 2 && p[0] == "max"@ && p[1] == "w"@ {
        sizing_route(r, p.skip(2), arb, TailwindSizingKind::MaxWidth)
    } else if p[0] == "h"@ {
        sizing_route(r, p.skip(1), arb, TailwindSizingKind::Height)
    } else if p.len() >= 2 && p[0] == "min"@ && p[1] == "h"@ {
        sizing_route(r, p.skip(2), arb, TailwindSizingKind::MinHeight)
    } else if p.len() >= 2 && p[0] == "max"@ && p[1] == "h"@ {
        sizing_route(r, p.skip(2), arb, TailwindSizingKind::MaxHeight)
    } else {
        unknown_route(r, p, arb)
    }
}

/// The typography and background arms of the dispatch table.
pub open spec fn typography_route(
    r: Result<CssInstance, TailwindError>,
    p: Seq<Seq<char>>,
    arb: Seq<char>,
) -> bool {
    if p.len() == 0 {
        unknown_route(r, p, arb)
    } else if p[0] == "font"@ {
        font_route(r, p.skip(1))
    } else if p[0] == "text"@ {
        text_route(r, p.skip(1))
    } else if p.len() == 1 && p[0] == "antialiased"@ {
        r matches Ok(i) && i matches CssInstance::Smoothing(s) && !s.subpixel
    } else if p.len() == 2 && p[0] == "subpixel"@ && p[1] == "antialiased"@ {
        r matches Ok(i) && i matches CssInstance::Smoothing(s) && s.subpixel
    } else if p.len() == 1 && p[0] == "italic"@ {
        is_kw(r, "font-style"@, "italic"@)
    } else if p.len() == 2 && p[0] == "not"@ && p[1] == "italic"@ {
        is_kw(r, "font-style"@, "normal"@)
    } else if p.len() == 3 && p[0] == "not"@ && p[1] == "sr"@ && p[2] == "only"@ {
        r matches Ok(i) && i matches CssInstance::Reader(s) && !s.sr_only
    } else if p[0] == "tracking"@ {
        kw_route(r, tracking_spec(p.skip(1), arb), p.skip(1))
    } else if p[0] == "leading"@ {
        kw_route(r, leading_spec(p.skip(1), arb), p.skip(1))
    } else if p[0] == "list"@ {
        kw_route(r, list_spec(p.skip(1)), p.skip(1))
    } else if p.len() >= 2 && p[0] == "underline"@ && p[1] == "offset"@ {
        kw_route(r, underline_offset_spec(p.skip(2), arb), p.skip(2))
    } else if p[0] == "bg"@ {
        bg_route(r, p.skip(1), arb)
    } else {
        unknown_route(r, p, arb)
    }
}

/// The border, effect and table arms of the dispatch table.
pub open spec fn misc_route(
    r: Result<CssInstance, TailwindError>,
    p: Seq<Seq<char>>,
    arb: Seq<char>,
) -> bool {
    if p.len() == 0 {
        unknown_route(r, p, arb)
    } else if p[0] == "border"@ {
        kw_route(r, border_spec(p.skip(1)), p.skip(1))
    } else if p[0] == "divide"@ {
        kw_route(r, divide_spec(p.skip(1)), p.skip(1))
    } else if p[0] == "outline"@ {
        kw_route(r, outline_spec(p.skip(1)), p.skip(1))
    } else if p[0] == "ring"@ {
        kw_route(r, ring_spec(p.skip(1), arb), p.skip(1))
    } else if p[0] == "shadow"@ {
        kw_route(r, shadow_spec(p.skip(1), arb), p.skip(1))
    } else if p[0] == "brightness"@ {
        kw_route(r, brightness_spec(p.skip(1), arb), p.skip(1))
    } else if p.len() >= 2 && p[0] == "drop"@ && p[1] == "shadow"@ {
        kw_route(r, drop_shadow_spec(p.skip(2), arb), p.skip(2))
    } else if p[0] == "table"@ {
        kw_route(r, table_spec(p.skip(1)), p.skip(1))
    } else if p.len() == 2 && p[0] == "sr"@ && p[1] == "only"@ {
        r matches Ok(i) && i matches CssInstance::Reader(s) && s.sr_only
    } else {
        unknown_route(r, p, arb)
    }
}

/// An unmatched path fails with an unknown-instruction error carrying the
/// path and the arbitrary text verbatim, never a panic.
pub open spec fn unknown_route(
    r: Result<CssInstance, TailwindError>,
    p: Seq<Seq<char>>,
    arb: Seq<char>,
) -> bool {
    r matches Err(e) && e matches TailwindError::UnknownInstruction { path, arbitrary }
        && path.deep_view() == p && arbitrary@ == arb
}

pub open spec fn aspect_route(r: Result<CssInstance, TailwindError>, p: Seq<Seq<char>>) -> bool {
    if aspect_spec(p) is Some {
        r matches Ok(i) && i matches CssInstance::Aspect(a) && a.kind@ == aspect_spec(
            p,
        )->Some_0.0 && a.ratio@ == aspect_spec(p)->Some_0.1
    } else {
        r matches Err(e) && e matches TailwindError::Syntax { message } && message@ == join_seq(
            p,
            "-"@,
        )
    }
}

pub open spec fn columns_route(r: Result<CssInstance, TailwindError>, p: Seq<Seq<char>>) -> bool {
    if columns_spec(p) is Some {
        r matches Ok(i) && i matches CssInstance::Columns(c) && c == columns_spec(p)->Some_0
    } else if p.len() != 1 {
        r matches Err(e) && e matches TailwindError::Syntax { message } && message@ == join_seq(
            p,
            "-"@,
        )
    } else {
        r matches Err(e) && e matches TailwindError::Value { message } && message@ == p[0]
    }
}

/// Break routing: `side` 0 is before, 1 is after, 2 is inside.
pub open spec fn break_route(
    r: Result<CssInstance, TailwindError>,
    p: Seq<Seq<char>>,
    side: int,
) -> bool {
    if side == 2 {
        if break_inside_spec(p) is Some {
            r matches Ok(i) && i matches CssInstance::Break(b) && b
                matches TailwindBreak::Inside(s) && s@ == break_inside_spec(p)->Some_0
        } else {
            r matches Err(e) && e matches TailwindError::Syntax { message } && message@
                == join_seq(p, "-"@)
        }
    } else if side == 0 {
        if break_side_spec(p) is Some {
            r matches Ok(i) && i matches CssInstance::Break(b) && b
                matches TailwindBreak::Before(s) && s@ == break_side_spec(p)->Some_0
        } else {
            r matches Err(e) && e matches TailwindError::Syntax { message } && message@
                == join_seq(p, "-"@)
        }
    } else {
        if break_side_spec(p) is Some {
            r matches Ok(i) && i matches CssInstance::Break(b) && b
                matches TailwindBreak::After(s) && s@ == break_side_spec(p)->Some_0
        } else {
            r matches Err(e) && e matches TailwindError::Syntax { message } && message@
                == join_seq(p, "-"@)
        }
    }
}

pub open spec fn clear_route(r: Result<CssInstance, TailwindError>, p: Seq<Seq<char>>) -> bool {
    if clear_spec(p) is Some {
        r matches Ok(i) && i matches CssInstance::Clear(c) && c == clear_spec(p)->Some_0
    } else {
        r matches Err(e) && e matches TailwindError::Syntax { message } && message@ == join_seq(
            p,
            "-"@,
        )
    }
}

pub open spec fn space_route(
    r: Result<CssInstance, TailwindError>,
    p: Seq<Seq<char>>,
    arb: Seq<char>,
    x_axis: bool,
) -> bool {
    if sizing_parse_ok(p, arb) {
        r matches Ok(i) && i matches CssInstance::Spacing(s) && s.margin && !s.negative && s.edge
            == (if x_axis {
            SpacingEdge::Left
        } else {
            SpacingEdge::Top
        }) && crate::modules::sizing_unit_route(s.size, p, arb)
    } else {
        r matches Err(e) && crate::modules::sizing_error(e, p, arb)
    }
}



// ---------------------------------------------------------------------------
// Which inputs the dispatch accepts, and which keyword pair it writes: the
// success and keyword projections of the route relation.
// ---------------------------------------------------------------------------

/// Whether an overflow suffix (after its optional axis) is accepted.
pub open spec fn overflow_cond(p: Seq<Seq<char>>, arb: Seq<char>) -> bool {
    if p.len() >= 1 && p[0] == "x"@ {
        overflow_axis_cond(p.skip(1), arb)
    } else if p.len() >= 1 && p[0] == "y"@ {
        overflow_axis_cond(p.skip(1), arb)
    } else {
        overflow_axis_cond(p, arb)
    }
}

pub open spec fn overflow_axis_cond(p: Seq<Seq<char>>, arb: Seq<char>) -> bool {
    if p.len() == 0 {
        arb.len() > 0
    } else {
        overflow_keyword(join_seq(p, "-"@))
    }
}

/// Whether the layout family accepts the path.
pub open spec fn layout_ok(p: Seq<Seq<char>>, arb: Seq<char>, neg: bool) -> bool {
    if p.len() == 0 {
        false
    } else if p[0] == "aspect"@ {
        aspect_spec(p.skip(1)) is Some
    } else if p.len() == 1 && p[0] == "container"@ {
        true
    } else if p[0] == "columns"@ {
        columns_spec(p.skip(1)) is Some
    } else if p.len() >= 2 && p[0] == "break"@ && p[1] == "before"@ {
        break_side_spec(p.skip(2)) is Some
    } else if p.len() >= 2 && p[0] == "break"@ && p[1] == "inside"@ {
        break_inside_spec(p.skip(2)) is Some
    } else if p.len() >= 2 && p[0] == "break"@ && p[1] == "after"@ {
        break_side_spec(p.skip(2)) is Some
    } else if p[0] == "box"@ {
        box_spec(p.skip(1)) is Some
    } else if p.len() == 1 && p[0] == "block"@ {
        true
    } else if p.len() == 2 && p[0] == "inline"@ && p[1] == "flex"@ {
        true
    } else if p.len() == 2 && p[0] == "inline"@ && p[1] == "block"@ {
        true
    } else if p[0] == "float"@ {
        float_spec(p.skip(1)) is Some
    } else if p[0] == "clear"@ {
        clear_spec(p.skip(1)) is Some
    } else if p.len() == 1 && p[0] == "isolate"@ {
        true
    } else if p.len() == 2 && p[0] == "isolation"@ && p[1] == "auto"@ {
        true
    } else if p[0] == "object"@ {
        false
    } else if p[0] == "overflow"@ {
        overflow_cond(p.skip(1), arb)
    } else if p[0] == "overscroll"@ {
        false
    } else if p.len() == 1 && (p[0] == "static"@ || p[0] == "fixed"@ || p[0] == "absolute"@
        || p[0] == "relative"@ || p[0] == "sticky"@) {
        true
    } else if p.len() == 1 && p[0] == "visible"@ {
        true
    } else if p.len() == 1 && p[0] == "invisible"@ {
        true
    } else if p[0] == "inset"@ {
        crate::modules::zindex_spec(p.skip(1), neg) is Some
    } else if p[0] == "s"@ {
        crate::modules::zindex_spec(p.skip(1), neg) is Some
    } else {
        false
    }
}

/// Whether the flexbox, spacing and sizing families accept the path.
pub open spec fn flexbox_ok(p: Seq<Seq<char>>, arb: Seq<char>, neg: bool) -> bool {
    if p.len() == 0 {
        false
    } else if p[0] == "flex"@ {
        flex_spec(p.skip(1), arb) is Some
    } else if p[0] == "grow"@ {
        factor_spec(p.skip(1), arb, "flex-grow"@) is Some
    } else if p[0] == "shrink"@ {
        factor_spec(p.skip(1), arb, "flex-shrink"@) is Some
    } else if p[0] == "order"@ {
        order_spec(p.skip(1), arb, neg) is Some
    } else if p[0] == "p"@ || p[0] == "pl"@ || p[0] == "pr"@ || p[0] == "pm"@ || p[0] == "pt"@
        || p[0] == "px"@ || p[0] == "py"@ {
        sizing_parse_ok(p.skip(1), arb)
    } else if p[0] == "m"@ || p[0] == "ml"@ || p[0] == "mr"@ || p[0] == "mm"@ || p[0] == "mt"@
        || p[0] == "mx"@ || p[0] == "my"@ {
        sizing_parse_ok(p.skip(1), arb)
    } else if p.len() >= 2 && p[0] == "space"@ && p[1] == "x"@ {
        sizing_parse_ok(p.skip(2), arb)
    } else if p.len() >= 2 && p[0] == "space"@ && p[1] == "y"@ {
        sizing_parse_ok(p.skip(2), arb)
    } else if p[0] == "w"@ {
        sizing_parse_ok(p.skip(1), arb)
    } else if p.len() >= 2 && p[0] == "min"@ && p[1] == "w"@ {
        sizing_parse_ok(p.skip(2), arb)
    } else if p.len() >= 2 && p[0] == "max"@ && p[1] == "w"@ {
        sizing_parse_ok(p.skip(2), arb)
    } else if p[0] == "h"@ {
        sizing_parse_ok(p.skip(1), arb)
    } else if p.len() >= 2 && p[0] == "min"@ && p[1] == "h"@ {
        sizing_parse_ok(p.skip(2), arb)
    } else if p.len() >= 2 && p[0] == "max"@ && p[1] == "h"@ {
        sizing_parse_ok(p.skip(2), arb)
    } else {
        false
    }
}

/// Whether a text suffix is accepted.
pub open spec fn text_cond(p: Seq<Seq<char>>) -> bool {
    if p.len() == 1 && (p[0] == "left"@ || p[0] == "center"@ || p[0] == "right"@ || p[0]
        == "justify"@) {
        true
    } else if p.len() == 1 && (p[0] == "inherit"@ || p[0] == "current"@ || p[0] == "transparent"@
        || p[0] == "black"@ || p[0] == "white"@) {
        true
    } else {
        p.len() == 2 && int_text(p[1])
    }
}

/// Whether a background suffix is accepted.
pub open spec fn bg_cond(p: Seq<Seq<char>>, arb: Seq<char>) -> bool {
    if p.len() == 0 {
        arb.len() > 0
    } else if p.len() == 1 && (p[0] == "none"@ || p[0] == "inherit"@ || p[0] == "current"@
        || p[0] == "transparent"@ || p[0] == "black"@ || p[0] == "white"@) {
        true
    } else {
        p.len() == 2 && int_text(p[1])
    }
}

/// Whether the typography and background families accept the path.
pub open spec fn typography_ok(p: Seq<Seq<char>>, arb: Seq<char>) -> bool {
    if p.len() == 0 {
        false
    } else if p[0] == "font"@ {
        p.skip(1).len() == 1 && (font_family_spec(p.skip(1)[0]) is Some || font_size_keyword(
            p.skip(1)[0],
        ) || font_weight_spec(p.skip(1)[0]) is Some)
    } else if p[0] == "text"@ {
        text_cond(p.skip(1))
    } else if p.len() == 1 && p[0] == "antialiased"@ {
        true
    } else if p.len() == 2 && p[0] == "subpixel"@ && p[1] == "antialiased"@ {
        true
    } else if p.len() == 1 && p[0] == "italic"@ {
        true
    } else if p.len() == 2 && p[0] == "not"@ && p[1] == "italic"@ {
        true
    } else if p.len() == 3 && p[0] == "not"@ && p[1] == "sr"@ && p[2] == "only"@ {
        true
    } else if p[0] == "tracking"@ {
        tracking_spec(p.skip(1), arb) is Some
    } else if p[0] == "leading"@ {
        leading_spec(p.skip(1), arb) is Some
    } else if p[0] == "list"@ {
        list_spec(p.skip(1)) is Some
    } else if p.len() >= 2 && p[0] == "underline"@ && p[1] == "offset"@ {
        underline_offset_spec(p.skip(2), arb) is Some
    } else if p[0] == "bg"@ {
        bg_cond(p.skip(1), arb)
    } else {
        false
    }
}

/// Whether the border, effect and table families accept the path.
pub open spec fn misc_ok(p: Seq<Seq<char>>, arb: Seq<char>) -> bool {
    if p.len() == 0 {
        false
    } else if p[0] == "border"@ {
        border_spec(p.skip(1)) is Some
    } else if p[0] == "divide"@ {
        divide_spec(p.skip(1)) is Some
    } else if p[0] == "outline"@ {
        outline_spec(p.skip(1)) is Some
    } else if p[0] == "ring"@ {
        ring_spec(p.skip(1), arb) is Some
    } else if p[0] == "shadow"@ {
        shadow_spec(p.skip(1), arb) is Some
    } else if p[0] == "brightness"@ {
        brightness_spec(p.skip(1), arb) is Some
    } else if p.len() >= 2 && p[0] == "drop"@ && p[1] == "shadow"@ {
        drop_shadow_spec(p.skip(2), arb) is Some
    } else if p[0] == "table"@ {
        table_spec(p.skip(1)) is Some
    } else if p.len() == 2 && p[0] == "sr"@ && p[1] == "only"@ {
        true
    } else {
        false
    }
}

/// Which inputs the whole dispatch accepts: resolution succeeds on exactly
/// these, a pure function of the flat style's path, arbitrary value and
/// sign.
pub open spec fn dispatch_ok(p: Seq<Seq<char>>, arb: Seq<char>, neg: bool) -> bool {
    if p.len() == 0 {
        false
    } else if head_layout(p[0]) {
        layout_ok(p, arb, neg)
    } else if head_flexbox(p[0]) {
        flexbox_ok(p, arb, neg)
    } else if head_typography(p[0]) {
        typography_ok(p, arb)
    } else if head_misc(p[0]) {
        misc_ok(p, arb)
    } else {
        false
    }
}

/// The route relation decides success: any result it accepts is `Ok`
/// exactly on the inputs `dispatch_ok` names.
pub proof fn lemma_dispatch_resolution(
    r: Result<CssInstance, TailwindError>,
    p: Seq<Seq<char>>,
    arb: Seq<char>,
    neg: bool,
)
    requires
        dispatch_route(r, p, arb, neg),
    ensures
        r is Ok <==> dispatch_ok(p, arb, neg),
{
    if p.len() == 0 {
    } else if head_layout(p[0]) {
        lemma_layout_resolution(r, p, arb, neg);
    } else if head_flexbox(p[0]) {
        lemma_flexbox_resolution(r, p, arb, neg);
    } else if head_typography(p[0]) {
        lemma_typography_resolution(r, p, arb);
    } else if head_misc(p[0]) {
        lemma_misc_resolution(r, p, arb);
    }
}

#[verifier::rlimit(100)]
#[verifier::spinoff_prover]
proof fn lemma_layout_resolution(
    r: Result<CssInstance, TailwindError>,
    p: Seq<Seq<char>>,
    arb: Seq<char>,
    neg: bool,
)
    requires
        p.len() > 0,
        layout_route(r, p, arb, neg),
    ensures
        r is Ok <==> layout_ok(p, arb, neg),
{
}

#[verifier::rlimit(100)]
#[verifier::spinoff_prover]
proof fn lemma_flexbox_resolution(
    r: Result<CssInstance, TailwindError>,
    p: Seq<Seq<char>>,
    arb: Seq<char>,
    neg: bool,
)
    requires
        p.len() > 0,
        flexbox_route(r, p, arb, neg),
    ensures
        r is Ok <==> flexbox_ok(p, arb, neg),
{
    reveal_strlit("p");
    reveal_strlit("pl");
    reveal_strlit("pr");
    reveal_strlit("pm");
    reveal_strlit("pt");
    reveal_strlit("px");
    reveal_strlit("py");
    reveal_strlit("m");
    reveal_strlit("ml");
    reveal_strlit("mr");
    reveal_strlit("mm");
    reveal_strlit("mt");
    reveal_strlit("mx");
    reveal_strlit("my");
    assert("p"@.len() == 1 && "m"@.len() == 1);
    assert("pl"@.len() == 2 && "pl"@[1] == 'l');
    assert("pr"@.len() == 2 && "pr"@[1] == 'r');
    assert("pm"@.len() == 2 && "pm"@[1] == 'm');
    assert("pt"@.len() == 2 && "pt"@[1] == 't');
    assert("px"@.len() == 2 && "px"@[1] == 'x');
    assert("py"@.len() == 2 && "py"@[1] == 'y');
    assert("ml"@.len() == 2 && "ml"@[1] == 'l');
    assert("mr"@.len() == 2 && "mr"@[1] == 'r');
    assert("mm"@.len() == 2 && "mm"@[1] == 'm');
    assert("mt"@.len() == 2 && "mt"@[1] == 't');
    assert("mx"@.len() == 2 && "mx"@[1] == 'x');
    assert("my"@.len() == 2 && "my"@[1] == 'y');
}

#[verifier::rlimit(100)]
#[verifier::spinoff_prover]
proof fn lemma_typography_resolution(
    r: Result<CssInstance, TailwindError>,
    p: Seq<Seq<char>>,
    arb: Seq<char>,
)
    requires
        p.len() > 0,
        typography_route(r, p, arb),
    ensures
        r is Ok <==> typography_ok(p, arb),
{
}

#[verifier::rlimit(100)]
#[verifier::spinoff_prover]
proof fn lemma_misc_resolution(
    r: Result<CssInstance, TailwindError>,
    p: Seq<Seq<char>>,
    arb: Seq<char>,
)
    requires
        p.len() > 0,
        misc_route(r, p, arb),
    ensures
        r is Ok <==> misc_ok(p, arb),
{
}


/// The keyword pair an accepted layout path writes, where its arm is a
/// keyword arm.
pub open spec fn layout_table(p: Seq<Seq<char>>, arb: Seq<char>) -> Option<(Seq<char>, Seq<char>)> {
    if p.len() == 0 {
        None
    } else if p[0] == "aspect"@ {
        None
    } else if p.len() == 1 && p[0] == "container"@ {
        Some(("width"@, "100%"@))
    } else if p[0] == "columns"@ {
        None
    } else if p.len() >= 2 && p[0] == "break"@ {
        None
    } else if p[0] == "box"@ {
        box_spec(p.skip(1))
    } else if p.len() == 1 && p[0] == "block"@ {
        Some(("display"@, "block"@))
    } else if p.len() == 2 && p[0] == "inline"@ && p[1] == "flex"@ {
        Some(("display"@, "inline-flex"@))
    } else if p.len() == 2 && p[0] == "inline"@ && p[1] == "block"@ {
        Some(("display"@, "inline-block"@))
    } else if p[0] == "float"@ {
        float_spec(p.skip(1))
    } else if p[0] == "clear"@ {
        None
    } else if p.len() == 1 && p[0] == "isolate"@ {
        Some(("isolation"@, "isolate"@))
    } else if p.len() == 2 && p[0] == "isolation"@ && p[1] == "auto"@ {
        Some(("isolation"@, "auto"@))
    } else if p[0] == "object"@ || p[0] == "overflow"@ || p[0] == "overscroll"@ {
        None
    } else if p.len() == 1 && (p[0] == "static"@ || p[0] == "fixed"@ || p[0] == "absolute"@
        || p[0] == "relative"@ || p[0] == "sticky"@) {
        Some(("position"@, p[0]))
    } else if p.len() == 1 && p[0] == "visible"@ {
        Some(("visibility"@, "visible"@))
    } else if p.len() == 1 && p[0] == "invisible"@ {
        Some(("visibility"@, "hidden"@))
    } else {
        None
    }
}

/// The keyword pair an accepted flexbox path writes, where its arm is a
/// keyword arm.
pub open spec fn flexbox_table(p: Seq<Seq<char>>, arb: Seq<char>, neg: bool) -> Option<
    (Seq<char>, Seq<char>),
> {
    if p.len() == 0 {
        None
    } else if p[0] == "flex"@ {
        flex_spec(p.skip(1), arb)
    } else if p[0] == "grow"@ {
        factor_spec(p.skip(1), arb, "flex-grow"@)
    } else if p[0] == "shrink"@ {
        factor_spec(p.skip(1), arb, "flex-shrink"@)
    } else if p[0] == "order"@ {
        order_spec(p.skip(1), arb, neg)
    } else {
        None
    }
}

/// The keyword pair an accepted typography path writes, where its arm is a
/// keyword arm.
pub open spec fn typography_table(p: Seq<Seq<char>>, arb: Seq<char>) -> Option<
    (Seq<char>, Seq<char>),
> {
    if p.len() == 0 {
        None
    } else if p[0] == "font"@ {
        if p.skip(1).len() == 1 && font_family_spec(p.skip(1)[0]) is Some {
            Some(("font-family"@, font_family_spec(p.skip(1)[0])->Some_0))
        } else if p.skip(1).len() == 1 && font_size_keyword(p.skip(1)[0]) {
            None
        } else if p.skip(1).len() == 1 && font_weight_spec(p.skip(1)[0]) is Some {
            Some(("font-weight"@, font_weight_spec(p.skip(1)[0])->Some_0))
        } else {
            None
        }
    } else if p[0] == "text"@ {
        if p.skip(1).len() == 1 && (p.skip(1)[0] == "left"@ || p.skip(1)[0] == "center"@
            || p.skip(1)[0] == "right"@ || p.skip(1)[0] == "justify"@) {
            Some(("text-align"@, p.skip(1)[0]))
        } else {
            None
        }
    } else if p.len() == 1 && p[0] == "antialiased"@ {
        None
    } else if p.len() == 2 && p[0] == "subpixel"@ && p[1] == "antialiased"@ {
        None
    } else if p.len() == 1 && p[0] == "italic"@ {
        Some(("font-style"@, "italic"@))
    } else if p.len() == 2 && p[0] == "not"@ && p[1] == "italic"@ {
        Some(("font-style"@, "normal"@))
    } else if p.len() == 3 && p[0] == "not"@ && p[1] == "sr"@ && p[2] == "only"@ {
        None
    } else if p[0] == "tracking"@ {
        tracking_spec(p.skip(1), arb)
    } else if p[0] == "leading"@ {
        leading_spec(p.skip(1), arb)
    } else if p[0] == "list"@ {
        list_spec(p.skip(1))
    } else if p.len() >= 2 && p[0] == "underline"@ && p[1] == "offset"@ {
        underline_offset_spec(p.skip(2), arb)
    } else {
        None
    }
}

/// The keyword pair an accepted border, effect or table path writes.
pub open spec fn misc_table(p: Seq<Seq<char>>, arb: Seq<char>) -> Option<(Seq<char>, Seq<char>)> {
    if p.len() == 0 {
        None
    } else if p[0] == "border"@ {
        border_spec(p.skip(1))
    } else if p[0] == "divide"@ {
        divide_spec(p.skip(1))
    } else if p[0] == "outline"@ {
        outline_spec(p.skip(1))
    } else if p[0] == "ring"@ {
        ring_spec(p.skip(1), arb)
    } else if p[0] == "shadow"@ {
        shadow_spec(p.skip(1), arb)
    } else if p[0] == "brightness"@ {
        brightness_spec(p.skip(1), arb)
    } else if p.len() >= 2 && p[0] == "drop"@ && p[1] == "shadow"@ {
        drop_shadow_spec(p.skip(2), arb)
    } else if p[0] == "table"@ {
        table_spec(p.skip(1))
    } else {
        None
    }
}

/// The keyword pair the dispatch writes, where the selected arm is a
/// keyword arm; the property block of such a resolution is exactly this
/// pair.
pub open spec fn dispatch_table(p: Seq<Seq<char>>, arb: Seq<char>, neg: bool) -> Option<
    (Seq<char>, Seq<char>),
> {
    if p.len() == 0 {
        None
    } else if head_layout(p[0]) {
        layout_table(p, arb)
    } else if head_flexbox(p[0]) {
        flexbox_table(p, arb, neg)
    } else if head_typography(p[0]) {
        typography_table(p, arb)
    } else if head_misc(p[0]) {
        misc_table(p, arb)
    } else {
        None
    }
}

/// Where the dispatch's arm is a keyword arm, the result is exactly that
/// keyword instance.
pub proof fn lemma_dispatch_table(
    r: Result<CssInstance, TailwindError>,
    p: Seq<Seq<char>>,
    arb: Seq<char>,
    neg: bool,
)
    requires
        dispatch_route(r, p, arb, neg),
    ensures
        dispatch_table(p, arb, neg) matches Some(pv) ==> is_kw(r, pv.0, pv.1),
{
    if p.len() == 0 {
    } else if head_layout(p[0]) {
        lemma_layout_table(r, p, arb, neg);
    } else if head_flexbox(p[0]) {
        lemma_flexbox_table(r, p, arb, neg);
    } else if head_typography(p[0]) {
        lemma_typography_table(r, p, arb);
    } else if head_misc(p[0]) {
        lemma_misc_table(r, p, arb);
    }
}

#[verifier::rlimit(100)]
#[verifier::spinoff_prover]
proof fn lemma_layout_table(
    r: Result<CssInstance, TailwindError>,
    p: Seq<Seq<char>>,
    arb: Seq<char>,
    neg: bool,
)
    requires
        p.len() > 0,
        layout_route(r, p, arb, neg),
    ensures
        layout_table(p, arb) matches Some(pv) ==> is_kw(r, pv.0, pv.1),
{
}

#[verifier::rlimit(100)]
#[verifier::spinoff_prover]
proof fn lemma_flexbox_table(
    r: Result<CssInstance, TailwindError>,
    p: Seq<Seq<char>>,
    arb: Seq<char>,
    neg: bool,
)
    requires
        p.len() > 0,
        flexbox_route(r, p, arb, neg),
    ensures
        flexbox_table(p, arb, neg) matches Some(pv) ==> is_kw(r, pv.0, pv.1),
{
}

#[verifier::rlimit(100)]
#[verifier::spinoff_prover]
proof fn lemma_typography_table(
    r: Result<CssInstance, TailwindError>,
    p: Seq<Seq<char>>,
    arb: Seq<char>,
)
    requires
        p.len() > 0,
        typography_route(r, p, arb),
    ensures
        typography_table(p, arb) matches Some(pv) ==> is_kw(r, pv.0, pv.1),
{
}

#[verifier::rlimit(100)]
#[verifier::spinoff_prover]
proof fn lemma_misc_table(
    r: Result<CssInstance, TailwindError>,
    p: Seq<Seq<char>>,
    arb: Seq<char>,
)
    requires
        p.len() > 0,
        misc_route(r, p, arb),
    ensures
        misc_table(p, arb) matches Some(pv) ==> is_kw(r, pv.0, pv.1),
{
}

// ---------------------------------------------------------------------------
// The executable adaptors and the dispatcher.
// ---------------------------------------------------------------------------

/// A keyword instance from a property and an owned value text.
fn kwv(property: &str, value: String) -> (r: CssInstance)
    ensures
        is_kw(Ok::<CssInstance, TailwindError>(r), property@, value@),
{
    CssInstance::Keyword(KeywordInstance {
        pattern: property.to_owned(),
        value: StandardValue::Keyword(value),
    })
}

/// The error an adaptor gives a suffix it does not know: a syntax error
/// carrying the joined suffix.
fn unknown_suffix(pattern: &Vec<String>) -> (r: TailwindError)
    ensures
        r matches TailwindError::Syntax { message } && message@ == join_seq(
            pattern.deep_view(),
            "-"@,
        ),
{
    TailwindError::Syntax { message: join_strings(pattern, "-") }
}

/// Reads `p[i]` as a whole number where it is one.
fn digits_at(p: &Vec<String>, i: usize) -> (r: Option<usize>)
    requires
        i < p@.len(),
    ensures
        r matches Some(n) ==> int_text(p.deep_view()[i as int]) && n == digits_value(
            p.deep_view()[i as int],
        ),
        r is None ==> !int_text(p.deep_view()[i as int]),
{
    crate::text::parse_usize(p[i].as_str())
}

impl AstStyle {
    /// Resolves the border suffixes.
    pub fn border_adaptor(pattern: &Vec<String>) -> (r: Result<CssInstance, TailwindError>)
        ensures
            kw_route(r, border_spec(pattern.deep_view()), pattern.deep_view()),
    {
        if pattern.len() == 1 {
            let s = &pattern[0];
            if string_eq(s, "solid") || string_eq(s, "dashed") || string_eq(s, "dotted")
                || string_eq(s, "double") || string_eq(s, "hidden") || string_eq(s, "none") {
                return Ok(kwv("border-style", clone_string(s)));
            }
            if string_eq(s, "collapse") || string_eq(s, "separate") {
                return Ok(kwv("border-collapse", clone_string(s)));
            }
            if string_eq(s, "inherit") {
                return Ok(kwv("border-color", "inherit".to_owned()));
            }
            if string_eq(s, "current") {
                return Ok(kwv("border-color", "currentColor".to_owned()));
            }
            if string_eq(s, "transparent") {
                return Ok(kwv("border-color", "transparent".to_owned()));
            }
            if string_eq(s, "black") {
                return Ok(kwv("border-color", "#000000".to_owned()));
            }
            if string_eq(s, "white") {
                return Ok(kwv("border-color", "#ffffff".to_owned()));
            }
        }
        Err(unknown_suffix(pattern))
    }

    /// Resolves the divide suffixes.
    pub fn divide_adaptor(pattern: &Vec<String>) -> (r: Result<CssInstance, TailwindError>)
        ensures
            kw_route(r, divide_spec(pattern.deep_view()), pattern.deep_view()),
    {
        if pattern.len() == 1 {
            let s = &pattern[0];
            if string_eq(s, "solid") || string_eq(s, "dashed") || string_eq(s, "dotted")
                || string_eq(s, "double") || string_eq(s, "none") {
                return Ok(kwv("border-style", clone_string(s)));
            }
        }
        Err(unknown_suffix(pattern))
    }

    /// Resolves the outline suffixes.
    pub fn outline_adaptor(pattern: &Vec<String>) -> (r: Result<CssInstance, TailwindError>)
        ensures
            kw_route(r, outline_spec(pattern.deep_view()), pattern.deep_view()),
    {
        if pattern.len() == 1 {
            let s = &pattern[0];
            if string_eq(s, "none") || string_eq(s, "dashed") || string_eq(s, "dotted")
                || string_eq(s, "double") || string_eq(s, "hidden") {
                return Ok(kwv("outline-style", clone_string(s)));
            }
        }
        if pattern.len() == 2 && string_eq(&pattern[0], "offset") {
            match digits_at(pattern, 1) {
                Some(n) => {
                    let mut v = crate::text::fmt_usize(n);
                    v.append("px");
                    return Ok(kwv("outline-offset", v));
                },
                None => {
                    return Err(unknown_suffix(pattern));
                },
            }
        }
        if pattern.len() == 1 {
            match digits_at(pattern, 0) {
                Some(n) => {
                    let mut v = crate::text::fmt_usize(n);
                    v.append("px");
                    return Ok(kwv("outline-width", v));
                },
                None => {
                    return Err(unknown_suffix(pattern));
                },
            }
        }
        Err(unknown_suffix(pattern))
    }

    /// Resolves the ring suffixes.
    pub fn ring_adaptor(pattern: &Vec<String>, arbitrary: &TailwindArbitrary) -> (r: Result<
        CssInstance,
        TailwindError,
    >)
        ensures
            kw_route(r, ring_spec(pattern.deep_view(), arbitrary.item@), pattern.deep_view()),
    {
        if pattern.len() == 2 && string_eq(&pattern[0], "offset") {
            match digits_at(pattern, 1) {
                Some(n) => {
                    let mut v = crate::text::fmt_usize(n);
                    v.append("px");
                    return Ok(kwv("--tw-ring-offset-width", v));
                },
                None => {
                    return Err(unknown_suffix(pattern));
                },
            }
        }
        if pattern.len() == 1 && string_eq(&pattern[0], "offset") && !arbitrary.is_empty() {
            return Ok(kwv("--tw-ring-offset-width", arbitrary.get_class()));
        }
        Err(unknown_suffix(pattern))
    }

    /// Resolves the shadow suffixes.
    pub fn shadow_adaptor(pattern: &Vec<String>, arbitrary: &TailwindArbitrary) -> (r: Result<
        CssInstance,
        TailwindError,
    >)
        ensures
            kw_route(r, shadow_spec(pattern.deep_view(), arbitrary.item@), pattern.deep_view()),
    {
        if pattern.len() == 0 && !arbitrary.is_empty() {
            return Ok(kwv("box-shadow", arbitrary.get_class()));
        }
        Err(unknown_suffix(pattern))
    }

    /// Resolves the box suffixes.
    pub fn box_adaptor(pattern: &Vec<String>) -> (r: Result<CssInstance, TailwindError>)
        ensures
            kw_route(r, box_spec(pattern.deep_view()), pattern.deep_view()),
    {
        if pattern.len() == 2 && string_eq(&pattern[0], "decoration") {
            if string_eq(&pattern[1], "clone") {
                return Ok(kwv("box-decoration-break", "clone".to_owned()));
            }
            if string_eq(&pattern[1], "slice") {
                return Ok(kwv("box-decoration-break", "slice".to_owned()));
            }
            return Err(unknown_suffix(pattern));
        }
        if pattern.len() == 1 && string_eq(&pattern[0], "border") {
            return Ok(kwv("box-sizing", "border-box".to_owned()));
        }
        if pattern.len() == 1 && string_eq(&pattern[0], "content") {
            return Ok(kwv("box-sizing", "content-box".to_owned()));
        }
        Err(unknown_suffix(pattern))
    }

    /// Resolves the flex suffixes.
    pub fn flex_adaptor(pattern: &Vec<String>, arbitrary: &TailwindArbitrary) -> (r: Result<
        CssInstance,
        TailwindError,
    >)
        ensures
            kw_route(r, flex_spec(pattern.deep_view(), arbitrary.item@), pattern.deep_view()),
    {
        if pattern.len() == 0 {
            if arbitrary.is_empty() {
                return Ok(kwv("display", "flex".to_owned()));
            }
            return Ok(kwv("flex", arbitrary.get_class()));
        }
        if pattern.len() == 1 && string_eq(&pattern[0], "row") {
            return Ok(kwv("flex-direction", "row".to_owned()));
        }
        if pattern.len() == 2 && string_eq(&pattern[0], "row") && string_eq(&pattern[1], "reverse")
        {
            return Ok(kwv("flex-direction", "row-reverse".to_owned()));
        }
        if pattern.len() == 1 && string_eq(&pattern[0], "col") {
            return Ok(kwv("flex-direction", "column".to_owned()));
        }
        if pattern.len() == 2 && string_eq(&pattern[0], "col") && string_eq(&pattern[1], "reverse")
        {
            return Ok(kwv("flex-direction", "column-reverse".to_owned()));
        }
        if pattern.len() == 1 && string_eq(&pattern[0], "wrap") {
            return Ok(kwv("flex-wrap", "wrap".to_owned()));
        }
        if pattern.len() == 2 && string_eq(&pattern[0], "wrap") && string_eq(&pattern[1], "reverse")
        {
            return Ok(kwv("flex-wrap", "wrap-reverse".to_owned()));
        }
        if pattern.len() == 1 && string_eq(&pattern[0], "nowrap") {
            return Ok(kwv("flex-wrap", "nowrap".to_owned()));
        }
        if pattern.len() == 1 && string_eq(&pattern[0], "auto") {
            return Ok(kwv("flex", "1 1 auto".to_owned()));
        }
        if pattern.len() == 1 && string_eq(&pattern[0], "initial") {
            return Ok(kwv("flex", "0 1 auto".to_owned()));
        }
        if pattern.len() == 1 && string_eq(&pattern[0], "none") {
            return Ok(kwv("flex", "none".to_owned()));
        }
        if pattern.len() == 1 {
            match digits_at(pattern, 0) {
                Some(n) => {
                    let mut v = crate::text::fmt_usize(n);
                    v.append(" ");
                    let d = crate::text::fmt_usize(n);
                    v.append(d.as_str());
                    v.append(" 0%");
                    return Ok(kwv("flex", v));
                },
                None => {
                    return Err(unknown_suffix(pattern));
                },
            }
        }
        Err(unknown_suffix(pattern))
    }

    /// Resolves the list suffixes.
    pub fn list_adaptor(pattern: &Vec<String>) -> (r: Result<CssInstance, TailwindError>)
        ensures
            kw_route(r, list_spec(pattern.deep_view()), pattern.deep_view()),
    {
        if pattern.len() == 1 {
            let s = &pattern[0];
            if string_eq(s, "none") || string_eq(s, "disc") || string_eq(s, "decimal") {
                return Ok(kwv("list-style-type", clone_string(s)));
            }
            if string_eq(s, "inside") || string_eq(s, "outside") {
                return Ok(kwv("list-style-position", clone_string(s)));
            }
        }
        Err(unknown_suffix(pattern))
    }

    /// Resolves the table suffixes.
    pub fn table_adaptor(pattern: &Vec<String>) -> (r: Result<CssInstance, TailwindError>)
        ensures
            kw_route(r, table_spec(pattern.deep_view()), pattern.deep_view()),
    {
        if pattern.len() == 0 {
            return Ok(kwv("display", "table".to_owned()));
        }
        if pattern.len() == 1 && string_eq(&pattern[0], "caption") {
            return Ok(kwv("display", "table-caption".to_owned()));
        }
        if pattern.len() == 1 && (string_eq(&pattern[0], "auto") || string_eq(&pattern[0], "fixed"))
        {
            return Ok(kwv("table-layout", clone_string(&pattern[0])));
        }
        Err(unknown_suffix(pattern))
    }

    /// Resolves the float suffixes.
    pub fn float_adaptor(pattern: &Vec<String>) -> (r: Result<CssInstance, TailwindError>)
        ensures
            kw_route(r, float_spec(pattern.deep_view()), pattern.deep_view()),
    {
        if pattern.len() == 1 {
            let s = &pattern[0];
            if string_eq(s, "left") || string_eq(s, "right") || string_eq(s, "none") {
                return Ok(kwv("float", clone_string(s)));
            }
        }
        Err(unknown_suffix(pattern))
    }

    /// Resolves the object suffixes; the vocabulary holds none yet.
    pub fn object_adaptor(pattern: &Vec<String>) -> (r: Result<CssInstance, TailwindError>)
        ensures
            r matches Err(e) && e matches TailwindError::Syntax { message } && message@
                == join_seq(pattern.deep_view(), "-"@),
    {
        Err(unknown_suffix(pattern))
    }

    /// Resolves the overflow suffixes, with an optional leading axis.
    pub fn overflow_adaptor(pattern: &Vec<String>, arbitrary: &TailwindArbitrary) -> (r: Result<
        CssInstance,
        TailwindError,
    >)
        ensures
            overflow_route(r, pattern.deep_view(), arbitrary.item@),
    {
        if pattern.len() >= 1 && string_eq(&pattern[0], "x") {
            let rest = tail_strings(pattern, 1);
            return Self::overflow_on(&rest, arbitrary, Some(true));
        }
        if pattern.len() >= 1 && string_eq(&pattern[0], "y") {
            let rest = tail_strings(pattern, 1);
            return Self::overflow_on(&rest, arbitrary, Some(false));
        }
        Self::overflow_on(pattern, arbitrary, None)
    }

    /// Resolves an overflow suffix on one axis.
    fn overflow_on(pattern: &Vec<String>, arbitrary: &TailwindArbitrary, axis: Option<bool>) -> (r:
        Result<CssInstance, TailwindError>)
        ensures
            overflow_ok(r, pattern.deep_view(), arbitrary.item@, axis),
    {
        match TailwindOverflow::parse(pattern, arbitrary, axis) {
            Ok(o) => Ok(CssInstance::Overflow(o)),
            Err(e) => Err(e),
        }
    }

    /// Resolves the overscroll suffixes; the vocabulary holds none yet.
    pub fn overscroll_adaptor(pattern: &Vec<String>) -> (r: Result<CssInstance, TailwindError>)
        ensures
            r matches Err(e) && e matches TailwindError::Syntax { message } && message@
                == join_seq(pattern.deep_view(), "-"@),
    {
        Err(unknown_suffix(pattern))
    }

    /// Resolves the font suffixes: families, the size steps and weights.
    pub fn font_adaptor(pattern: &Vec<String>) -> (r: Result<CssInstance, TailwindError>)
        ensures
            font_route(r, pattern.deep_view()),
    {
        if pattern.len() == 1 {
            let s = &pattern[0];
            if string_eq(s, "sans") {
                return Ok(kwv("font-family", "ui-sans-serif, system-ui, sans-serif".to_owned()));
            }
            if string_eq(s, "serif") {
                return Ok(kwv("font-family", "ui-serif, serif".to_owned()));
            }
            if string_eq(s, "mono") {
                return Ok(kwv("font-family", "ui-monospace, monospace".to_owned()));
            }
            if string_eq(s, "xs") || string_eq(s, "sm") || string_eq(s, "md") || string_eq(
                s,
                "base",
            ) || string_eq(s, "lg") || string_eq(s, "xl") || string_eq(s, "2xl") || string_eq(
                s,
                "3xl",
            ) || string_eq(s, "4xl") || string_eq(s, "5xl") || string_eq(s, "6xl") || string_eq(
                s,
                "7xl",
            ) || string_eq(s, "8xl") || string_eq(s, "9xl") {
                return Ok(CssInstance::FontSize(TailwindFontSize::new(3, 4)));
            }
            if string_eq(s, "thin") {
                return Ok(kwv("font-weight", "100".to_owned()));
            }
            if string_eq(s, "extralight") {
                return Ok(kwv("font-weight", "200".to_owned()));
            }
            if string_eq(s, "light") {
                return Ok(kwv("font-weight", "300".to_owned()));
            }
            if string_eq(s, "normal") {
                return Ok(kwv("font-weight", "400".to_owned()));
            }
            if string_eq(s, "medium") {
                return Ok(kwv("font-weight", "500".to_owned()));
            }
            if string_eq(s, "semibold") {
                return Ok(kwv("font-weight", "600".to_owned()));
            }
            if string_eq(s, "bold") {
                return Ok(kwv("font-weight", "700".to_owned()));
            }
            if string_eq(s, "extrabold") {
                return Ok(kwv("font-weight", "800".to_owned()));
            }
            if string_eq(s, "black") {
                return Ok(kwv("font-weight", "900".to_owned()));
            }
        }
        Err(unknown_suffix(pattern))
    }

    /// Resolves the text suffixes: alignment and colors.
    pub fn text_adaptor(pattern: &Vec<String>) -> (r: Result<CssInstance, TailwindError>)
        ensures
            text_route(r, pattern.deep_view()),
    {
        if pattern.len() == 1 {
            let s = &pattern[0];
            if string_eq(s, "left") || string_eq(s, "center") || string_eq(s, "right")
                || string_eq(s, "justify") {
                return Ok(kwv("text-align", clone_string(s)));
            }
            if string_eq(s, "inherit") {
                return Ok(CssInstance::TextColor(crate::modules::TailwindTextColor::new(
                    TailwindColor::Inherit,
                )));
            }
            if string_eq(s, "current") {
                return Ok(CssInstance::TextColor(crate::modules::TailwindTextColor::new(
                    TailwindColor::Current,
                )));
            }
            if string_eq(s, "transparent") {
                return Ok(CssInstance::TextColor(crate::modules::TailwindTextColor::new(
                    TailwindColor::Transparent,
                )));
            }
            if string_eq(s, "black") {
                return Ok(CssInstance::TextColor(crate::modules::TailwindTextColor::new(
                    TailwindColor::Black,
                )));
            }
            if string_eq(s, "white") {
                return Ok(CssInstance::TextColor(crate::modules::TailwindTextColor::new(
                    TailwindColor::White,
                )));
            }
        }
        if pattern.len() == 2 {
            match TailwindColor::parse(pattern[0].as_str(), pattern[1].as_str()) {
                Ok(c) => {
                    return Ok(CssInstance::TextColor(crate::modules::TailwindTextColor::new(c)));
                },
                Err(e) => {
                    return Err(e);
                },
            }
        }
        Err(unknown_suffix(pattern))
    }

    /// Resolves the background suffixes: the arbitrary image, `none`, and
    /// colors.
    pub fn bg_adaptor(pattern: &Vec<String>, arbitrary: &TailwindArbitrary) -> (r: Result<
        CssInstance,
        TailwindError,
    >)
        ensures
            bg_route(r, pattern.deep_view(), arbitrary.item@),
    {
        if pattern.len() == 0 && !arbitrary.is_empty() {
            match TailwindBackgroundImage::parse_arbitrary(arbitrary) {
                Ok(b) => {
                    return Ok(CssInstance::BgImage(b));
                },
                Err(e) => {
                    return Err(e);
                },
            }
        }
        if pattern.len() == 1 {
            let s = &pattern[0];
            if string_eq(s, "none") {
                return Ok(CssInstance::BgImage(TailwindBackgroundImage {
                    kind: BackgroundImage::Standard("none".to_owned()),
                }));
            }
            if string_eq(s, "inherit") {
                return Ok(CssInstance::BgColor(TailwindBackgroundColor::new(
                    TailwindColor::Inherit,
                )));
            }
            if string_eq(s, "current") {
                return Ok(CssInstance::BgColor(TailwindBackgroundColor::new(
                    TailwindColor::Current,
                )));
            }
            if string_eq(s, "transparent") {
                return Ok(CssInstance::BgColor(TailwindBackgroundColor::new(
                    TailwindColor::Transparent,
                )));
            }
            if string_eq(s, "black") {
                return Ok(CssInstance::BgColor(TailwindBackgroundColor::new(
                    TailwindColor::Black,
                )));
            }
            if string_eq(s, "white") {
                return Ok(CssInstance::BgColor(TailwindBackgroundColor::new(
                    TailwindColor::White,
                )));
            }
        }
        if pattern.len() == 2 {
            match TailwindColor::parse(pattern[0].as_str(), pattern[1].as_str()) {
                Ok(c) => {
                    return Ok(CssInstance::BgColor(TailwindBackgroundColor::new(c)));
                },
                Err(e) => {
                    return Err(e);
                },
            }
        }
        Err(unknown_suffix(pattern))
    }
}


/// Resolves a keyword table whose values may be computed from digits or the
/// arbitrary value.
fn table_kw(pattern: &Vec<String>, arbitrary: &TailwindArbitrary, which: u8) -> (r: Result<
    CssInstance,
    TailwindError,
>)
    requires
        which < 7,
    ensures
        which == 0 ==> kw_route(r, tracking_spec(pattern.deep_view(), arbitrary.item@), pattern.deep_view()),
        which == 1 ==> kw_route(r, leading_spec(pattern.deep_view(), arbitrary.item@), pattern.deep_view()),
        which == 2 ==> kw_route(r, underline_offset_spec(pattern.deep_view(), arbitrary.item@), pattern.deep_view()),
        which == 3 ==> kw_route(r, brightness_spec(pattern.deep_view(), arbitrary.item@), pattern.deep_view()),
        which == 4 ==> kw_route(r, drop_shadow_spec(pattern.deep_view(), arbitrary.item@), pattern.deep_view()),
        which == 5 ==> kw_route(r, factor_spec(pattern.deep_view(), arbitrary.item@, "flex-grow"@), pattern.deep_view()),
        which == 6 ==> kw_route(
            r,
            factor_spec(pattern.deep_view(), arbitrary.item@, "flex-shrink"@),
            pattern.deep_view(),
        ),
{
    if which == 0 {
        if pattern.len() == 0 && !arbitrary.is_empty() {
            return Ok(kwv("letter-spacing", arbitrary.get_class()));
        }
        if pattern.len() == 1 {
            let s = &pattern[0];
            if string_eq(s, "tighter") {
                return Ok(kwv("letter-spacing", "-0.05em".to_owned()));
            }
            if string_eq(s, "tight") {
                return Ok(kwv("letter-spacing", "-0.025em".to_owned()));
            }
            if string_eq(s, "normal") {
                return Ok(kwv("letter-spacing", "0em".to_owned()));
            }
            if string_eq(s, "wide") {
                return Ok(kwv("letter-spacing", "0.025em".to_owned()));
            }
            if string_eq(s, "wider") {
                return Ok(kwv("letter-spacing", "0.05em".to_owned()));
            }
            if string_eq(s, "widest") {
                return Ok(kwv("letter-spacing", "0.1em".to_owned()));
            }
        }
        return Err(unknown_suffix(pattern));
    }
    if which == 1 {
        if pattern.len() == 0 && !arbitrary.is_empty() {
            return Ok(kwv("line-height", arbitrary.get_class()));
        }
        if pattern.len() == 1 {
            let s = &pattern[0];
            if string_eq(s, "none") {
                return Ok(kwv("line-height", "1".to_owned()));
            }
            if string_eq(s, "tight") {
                return Ok(kwv("line-height", "1.25".to_owned()));
            }
            if string_eq(s, "snug") {
                return Ok(kwv("line-height", "1.375".to_owned()));
            }
            if string_eq(s, "normal") {
                return Ok(kwv("line-height", "1.5".to_owned()));
            }
            if string_eq(s, "relaxed") {
                return Ok(kwv("line-height", "1.625".to_owned()));
            }
            if string_eq(s, "loose") {
                return Ok(kwv("line-height", "2".to_owned()));
            }
            match digits_at(pattern, 0) {
                Some(n) => {
                    let mut v = crate::css::fmt_quarters(n);
                    v.append("rem");
                    return Ok(kwv("line-height", v));
                },
                None => {
                    return Err(unknown_suffix(pattern));
                },
            }
        }
        return Err(unknown_suffix(pattern));
    }
    if which == 2 {
        if pattern.len() == 0 && !arbitrary.is_empty() {
            return Ok(kwv("text-underline-offset", arbitrary.get_class()));
        }
        if pattern.len() == 1 && string_eq(&pattern[0], "auto") {
            return Ok(kwv("text-underline-offset", "auto".to_owned()));
        }
        if pattern.len() == 1 {
            match digits_at(pattern, 0) {
                Some(n) => {
                    let mut v = crate::text::fmt_usize(n);
                    v.append("px");
                    return Ok(kwv("text-underline-offset", v));
                },
                None => {
                    return Err(unknown_suffix(pattern));
                },
            }
        }
        return Err(unknown_suffix(pattern));
    }
    if which == 3 {
        if pattern.len() == 0 && !arbitrary.is_empty() {
            let mut v = String::new();
            v.append("brightness(");
            let a = arbitrary.get_class();
            v.append(a.as_str());
            v.append(")");
            return Ok(kwv("filter", v));
        }
        if pattern.len() == 1 {
            match digits_at(pattern, 0) {
                Some(n) => {
                    let mut v = String::new();
                    v.append("brightness(");
                    let d = crate::text::fmt_usize(n);
                    v.append(d.as_str());
                    v.append("%)");
                    return Ok(kwv("filter", v));
                },
                None => {
                    return Err(unknown_suffix(pattern));
                },
            }
        }
        return Err(unknown_suffix(pattern));
    }
    if which == 4 {
        if pattern.len() == 0 && !arbitrary.is_empty() {
            let mut v = String::new();
            v.append("drop-shadow(");
            let a = arbitrary.get_class();
            v.append(a.as_str());
            v.append(")");
            return Ok(kwv("filter", v));
        }
        return Err(unknown_suffix(pattern));
    }
    let prop: &str = if which == 5 {
        "flex-grow"
    } else {
        "flex-shrink"
    };
    if pattern.len() == 0 {
        if !arbitrary.is_empty() {
            return Ok(kwv(prop, arbitrary.get_class()));
        }
        return Ok(kwv(prop, "1".to_owned()));
    }
    if pattern.len() == 1 {
        match digits_at(pattern, 0) {
            Some(n) => {
                return Ok(kwv(prop, crate::text::fmt_usize(n)));
            },
            None => {
                return Err(unknown_suffix(pattern));
            },
        }
    }
    Err(unknown_suffix(pattern))
}

/// Resolves the order suffix, signed by the class.
fn order_kw(pattern: &Vec<String>, arbitrary: &TailwindArbitrary, neg: bool) -> (r: Result<
    CssInstance,
    TailwindError,
>)
    ensures
        kw_route(r, order_spec(pattern.deep_view(), arbitrary.item@, neg), pattern.deep_view()),
{
    if pattern.len() == 0 && !arbitrary.is_empty() {
        return Ok(kwv("order", arbitrary.get_class()));
    }
    if pattern.len() == 1 {
        match digits_at(pattern, 0) {
            Some(n) => {
                if neg {
                    let mut v = String::new();
                    v.append("-");
                    let d = crate::text::fmt_usize(n);
                    v.append(d.as_str());
                    return Ok(kwv("order", v));
                }
                return Ok(kwv("order", crate::text::fmt_usize(n)));
            },
            None => {
                return Err(unknown_suffix(pattern));
            },
        }
    }
    Err(unknown_suffix(pattern))
}

/// Whether `h` is a head the layout family owns.
fn is_head_layout(h: &String) -> (r: bool)
    ensures
        r == head_layout(h@),
{
    string_eq(h, "aspect") || string_eq(h, "container") || string_eq(h, "columns") || string_eq(
        h,
        "break",
    ) || string_eq(h, "box") || string_eq(h, "block") || string_eq(h, "inline") || string_eq(
        h,
        "float",
    ) || string_eq(h, "clear") || string_eq(h, "isolate") || string_eq(h, "isolation")
        || string_eq(h, "object") || string_eq(h, "overflow") || string_eq(h, "overscroll")
        || string_eq(h, "static") || string_eq(h, "fixed") || string_eq(h, "absolute")
        || string_eq(h, "relative") || string_eq(h, "sticky") || string_eq(h, "visible")
        || string_eq(h, "invisible") || string_eq(h, "inset") || string_eq(h, "s")
}

/// Whether `h` is a head the flexbox, spacing and sizing families own.
fn is_head_flexbox(h: &String) -> (r: bool)
    ensures
        r == head_flexbox(h@),
{
    string_eq(h, "flex") || string_eq(h, "grow") || string_eq(h, "shrink") || string_eq(h, "order")
        || string_eq(h, "p") || string_eq(h, "pl") || string_eq(h, "pr") || string_eq(h, "pm")
        || string_eq(h, "pt") || string_eq(h, "px") || string_eq(h, "py") || string_eq(h, "m")
        || string_eq(h, "ml") || string_eq(h, "mr") || string_eq(h, "mm") || string_eq(h, "mt")
        || string_eq(h, "mx") || string_eq(h, "my") || string_eq(h, "space") || string_eq(h, "w")
        || string_eq(h, "min") || string_eq(h, "max") || string_eq(h, "h")
}

/// Whether `h` is a head the typography and background families own.
fn is_head_typography(h: &String) -> (r: bool)
    ensures
        r == head_typography(h@),
{
    string_eq(h, "font") || string_eq(h, "text") || string_eq(h, "antialiased") || string_eq(
        h,
        "subpixel",
    ) || string_eq(h, "italic") || string_eq(h, "not") || string_eq(h, "tracking") || string_eq(
        h,
        "leading",
    ) || string_eq(h, "list") || string_eq(h, "underline") || string_eq(h, "bg")
}

/// Whether `h` is a head the border, effect and table families own.
fn is_head_misc(h: &String) -> (r: bool)
    ensures
        r == head_misc(h@),
{
    string_eq(h, "border") || string_eq(h, "divide") || string_eq(h, "outline") || string_eq(
        h,
        "ring",
    ) || string_eq(h, "shadow") || string_eq(h, "brightness") || string_eq(h, "drop")
        || string_eq(h, "table") || string_eq(h, "sr")
}

/// The unknown-instruction error for the path `p`.
fn unknown_instruction_of(p: &Vec<String>, arbitrary: &TailwindArbitrary) -> (r: TailwindError)
    ensures
        r matches TailwindError::UnknownInstruction { path, arbitrary: a } && path.deep_view()
            == p.deep_view() && a@ == arbitrary.item@,
{
    TailwindError::UnknownInstruction {
        path: clone_strings(p),
        arbitrary: arbitrary.get_class(),
    }
}

/// Resolves the layout family arms.
#[verifier::rlimit(60)]
fn resolve_layout(p: &Vec<String>, arbitrary: &TailwindArbitrary, neg: bool) -> (r: Result<
    CssInstance,
    TailwindError,
>)
    ensures
        layout_route(r, p.deep_view(), arbitrary.item@, neg),
{
    if p.len() == 0 {
        return Err(unknown_instruction_of(p, arbitrary));
    }
    let head = &p[0];
    if string_eq(head, "aspect") {
        let rest = tail_strings(p, 1);
        return match TailwindAspect::parse(&rest) {
            Ok(a) => Ok(CssInstance::Aspect(a)),
            Err(e) => Err(e),
        };
    }
    if p.len() == 1 && string_eq(head, "container") {
        return Ok(kwv("width", "100%".to_owned()));
    }
    if string_eq(head, "columns") {
        let rest = tail_strings(p, 1);
        return match TailwindColumns::parse(&rest) {
            Ok(c) => Ok(CssInstance::Columns(c)),
            Err(e) => Err(e),
        };
    }
    if p.len() >= 2 && string_eq(head, "break") && string_eq(&p[1], "before") {
        let rest = tail_strings(p, 2);
        return match TailwindBreak::parse_before(&rest) {
            Ok(b) => Ok(CssInstance::Break(b)),
            Err(e) => Err(e),
        };
    }
    if p.len() >= 2 && string_eq(head, "break") && string_eq(&p[1], "inside") {
        let rest = tail_strings(p, 2);
        return match TailwindBreak::parse_inside(&rest) {
            Ok(b) => Ok(CssInstance::Break(b)),
            Err(e) => Err(e),
        };
    }
    if p.len() >= 2 && string_eq(head, "break") && string_eq(&p[1], "after") {
        let rest = tail_strings(p, 2);
        return match TailwindBreak::parse_after(&rest) {
            Ok(b) => Ok(CssInstance::Break(b)),
            Err(e) => Err(e),
        };
    }
    if string_eq(head, "box") {
        let rest = tail_strings(p, 1);
        return AstStyle::box_adaptor(&rest);
    }
    if p.len() == 1 && string_eq(head, "block") {
        return Ok(kwv("display", "block".to_owned()));
    }
    if p.len() == 2 && string_eq(head, "inline") && string_eq(&p[1], "flex") {
        return Ok(kwv("display", "inline-flex".to_owned()));
    }
    if p.len() == 2 && string_eq(head, "inline") && string_eq(&p[1], "block") {
        return Ok(kwv("display", "inline-block".to_owned()));
    }
    if string_eq(head, "float") {
        let rest = tail_strings(p, 1);
        return AstStyle::float_adaptor(&rest);
    }
    if string_eq(head, "clear") {
        let rest = tail_strings(p, 1);
        return match TailwindClear::parse(&rest) {
            Ok(c) => Ok(CssInstance::Clear(c)),
            Err(e) => Err(e),
        };
    }
    if p.len() == 1 && string_eq(head, "isolate") {
        return Ok(kwv("isolation", "isolate".to_owned()));
    }
    if p.len() == 2 && string_eq(head, "isolation") && string_eq(&p[1], "auto") {
        return Ok(kwv("isolation", "auto".to_owned()));
    }
    if string_eq(head, "object") {
        let rest = tail_strings(p, 1);
        return AstStyle::object_adaptor(&rest);
    }
    if string_eq(head, "overflow") {
        let rest = tail_strings(p, 1);
        return AstStyle::overflow_adaptor(&rest, arbitrary);
    }
    if string_eq(head, "overscroll") {
        let rest = tail_strings(p, 1);
        return AstStyle::overscroll_adaptor(&rest);
    }
    if p.len() == 1 && (string_eq(head, "static") || string_eq(head, "fixed") || string_eq(
        head,
        "absolute",
    ) || string_eq(head, "relative") || string_eq(head, "sticky")) {
        return Ok(kwv("position", clone_string(head)));
    }
    if p.len() == 1 && string_eq(head, "visible") {
        return Ok(kwv("visibility", "visible".to_owned()));
    }
    if p.len() == 1 && string_eq(head, "invisible") {
        return Ok(kwv("visibility", "hidden".to_owned()));
    }
    if string_eq(head, "inset") {
        let rest = tail_strings(p, 1);
        return match TailWindZIndex::parse(&rest, neg) {
            Ok(z) => Ok(CssInstance::ZIndex(z)),
            Err(e) => Err(e),
        };
    }
    if string_eq(head, "s") {
        let rest = tail_strings(p, 1);
        return match TailWindZIndex::parse(&rest, neg) {
            Ok(z) => Ok(CssInstance::ZIndex(z)),
            Err(e) => Err(e),
        };
    }
    Err(unknown_instruction_of(p, arbitrary))
}

/// Resolves the flexbox, spacing and sizing family arms.
#[verifier::rlimit(60)]
fn resolve_flexbox(p: &Vec<String>, arbitrary: &TailwindArbitrary, neg: bool) -> (r: Result<
    CssInstance,
    TailwindError,
>)
    ensures
        flexbox_route(r, p.deep_view(), arbitrary.item@, neg),
{
    if p.len() == 0 {
        return Err(unknown_instruction_of(p, arbitrary));
    }
    let head = &p[0];
    if string_eq(head, "flex") {
        let rest = tail_strings(p, 1);
        return AstStyle::flex_adaptor(&rest, arbitrary);
    }
    if string_eq(head, "grow") {
        let rest = tail_strings(p, 1);
        return table_kw(&rest, arbitrary, 5);
    }
    if string_eq(head, "shrink") {
        let rest = tail_strings(p, 1);
        return table_kw(&rest, arbitrary, 6);
    }
    if string_eq(head, "order") {
        let rest = tail_strings(p, 1);
        return order_kw(&rest, arbitrary, neg);
    }
    if string_eq(head, "p") || string_eq(head, "pl") || string_eq(head, "pr") || string_eq(
        head,
        "pm",
    ) || string_eq(head, "pt") || string_eq(head, "px") || string_eq(head, "py") {
        let rest = tail_strings(p, 1);
        return match TailwindSpacing::parse_padding(&rest, head.as_str(), arbitrary) {
            Ok(s) => Ok(CssInstance::Spacing(s)),
            Err(e) => Err(e),
        };
    }
    if string_eq(head, "m") || string_eq(head, "ml") || string_eq(head, "mr") || string_eq(
        head,
        "mm",
    ) || string_eq(head, "mt") || string_eq(head, "mx") || string_eq(head, "my") {
        let rest = tail_strings(p, 1);
        return match TailwindSpacing::parse_margin(&rest, head.as_str(), arbitrary, neg) {
            Ok(s) => Ok(CssInstance::Spacing(s)),
            Err(e) => Err(e),
        };
    }
    if p.len() >= 2 && string_eq(head, "space") && string_eq(&p[1], "x") {
        let rest = tail_strings(p, 2);
        return match TailwindSpacing::parse_space(&rest, true, arbitrary) {
            Ok(s) => Ok(CssInstance::Spacing(s)),
            Err(e) => Err(e),
        };
    }
    if p.len() >= 2 && string_eq(head, "space") && string_eq(&p[1], "y") {
        let rest = tail_strings(p, 2);
        return match TailwindSpacing::parse_space(&rest, false, arbitrary) {
            Ok(s) => Ok(CssInstance::Spacing(s)),
            Err(e) => Err(e),
        };
    }
    if string_eq(head, "w") {
        let rest = tail_strings(p, 1);
        return match TailwindSizing::parse_width(&rest, arbitrary) {
            Ok(s) => Ok(CssInstance::Sizing(s)),
            Err(e) => Err(e),
        };
    }
    if p.len() >= 2 && string_eq(head, "min") && string_eq(&p[1], "w") {
        let rest = tail_strings(p, 2);
        return match TailwindSizing::parse_width_min(&rest, arbitrary) {
            Ok(s) => Ok(CssInstance::Sizing(s)),
            Err(e) => Err(e),
        };
    }
    if p.len() >= 2 && string_eq(head, "max") && string_eq(&p[1], "w") {
        let rest = tail_strings(p, 2);
        return match TailwindSizing::parse_width_max(&rest, arbitrary) {
            Ok(s) => Ok(CssInstance::Sizing(s)),
            Err(e) => Err(e),
        };
    }
    if string_eq(head, "h") {
        let rest = tail_strings(p, 1);
        return match TailwindSizing::parse_height(&rest, arbitrary) {
            Ok(s) => Ok(CssInstance::Sizing(s)),
            Err(e) => Err(e),
        };
    }
    if p.len() >= 2 && string_eq(head, "min") && string_eq(&p[1], "h") {
        let rest = tail_strings(p, 2);
        return match TailwindSizing::parse_height_min(&rest, arbitrary) {
            Ok(s) => Ok(CssInstance::Sizing(s)),
            Err(e) => Err(e),
        };
    }
    if p.len() >= 2 && string_eq(head, "max") && string_eq(&p[1], "h") {
        let rest = tail_strings(p, 2);
        return match TailwindSizing::parse_height_max(&rest, arbitrary) {
            Ok(s) => Ok(CssInstance::Sizing(s)),
            Err(e) => Err(e),
        };
    }
    Err(unknown_instruction_of(p, arbitrary))
}

/// Resolves the typography and background family arms.
#[verifier::rlimit(60)]
fn resolve_typography(p: &Vec<String>, arbitrary: &TailwindArbitrary) -> (r: Result<
    CssInstance,
    TailwindError,
>)
    ensures
        typography_route(r, p.deep_view(), arbitrary.item@),
{
    if p.len() == 0 {
        return Err(unknown_instruction_of(p, arbitrary));
    }
    let head = &p[0];
    if string_eq(head, "font") {
        let rest = tail_strings(p, 1);
        return AstStyle::font_adaptor(&rest);
    }
    if string_eq(head, "text") {
        let rest = tail_strings(p, 1);
        return AstStyle::text_adaptor(&rest);
    }
    if p.len() == 1 && string_eq(head, "antialiased") {
        return Ok(CssInstance::Smoothing(TailwindFontSmoothing::new(false)));
    }
    if p.len() == 2 && string_eq(head, "subpixel") && string_eq(&p[1], "antialiased") {
        return Ok(CssInstance::Smoothing(TailwindFontSmoothing::new(true)));
    }
    if p.len() == 1 && string_eq(head, "italic") {
        return Ok(kwv("font-style", "italic".to_owned()));
    }
    if p.len() == 2 && string_eq(head, "not") && string_eq(&p[1], "italic") {
        return Ok(kwv("font-style", "normal".to_owned()));
    }
    if p.len() == 3 && string_eq(head, "not") && string_eq(&p[1], "sr") && string_eq(&p[2], "only")
    {
        return Ok(CssInstance::Reader(TailwindScreenReader::new(false)));
    }
    if string_eq(head, "tracking") {
        let rest = tail_strings(p, 1);
        return table_kw(&rest, arbitrary, 0);
    }
    if string_eq(head, "leading") {
        let rest = tail_strings(p, 1);
        return table_kw(&rest, arbitrary, 1);
    }
    if string_eq(head, "list") {
        let rest = tail_strings(p, 1);
        return AstStyle::list_adaptor(&rest);
    }
    if p.len() >= 2 && string_eq(head, "underline") && string_eq(&p[1], "offset") {
        let rest = tail_strings(p, 2);
        return table_kw(&rest, arbitrary, 2);
    }
    if string_eq(head, "bg") {
        let rest = tail_strings(p, 1);
        return AstStyle::bg_adaptor(&rest, arbitrary);
    }
    Err(unknown_instruction_of(p, arbitrary))
}

/// Resolves the border, effect and table family arms.
#[verifier::rlimit(60)]
fn resolve_misc(p: &Vec<String>, arbitrary: &TailwindArbitrary) -> (r: Result<
    CssInstance,
    TailwindError,
>)
    ensures
        misc_route(r, p.deep_view(), arbitrary.item@),
{
    if p.len() == 0 {
        return Err(unknown_instruction_of(p, arbitrary));
    }
    let head = &p[0];
    if string_eq(head, "border") {
        let rest = tail_strings(p, 1);
        return AstStyle::border_adaptor(&rest);
    }
    if string_eq(head, "divide") {
        let rest = tail_strings(p, 1);
        return AstStyle::divide_adaptor(&rest);
    }
    if string_eq(head, "outline") {
        let rest = tail_strings(p, 1);
        return AstStyle::outline_adaptor(&rest);
    }
    if string_eq(head, "ring") {
        let rest = tail_strings(p, 1);
        return AstStyle::ring_adaptor(&rest, arbitrary);
    }
    if string_eq(head, "shadow") {
        let rest = tail_strings(p, 1);
        return AstStyle::shadow_adaptor(&rest, arbitrary);
    }
    if string_eq(head, "brightness") {
        let rest = tail_strings(p, 1);
        return table_kw(&rest, arbitrary, 3);
    }
    if p.len() >= 2 && string_eq(head, "drop") && string_eq(&p[1], "shadow") {
        let rest = tail_strings(p, 2);
        return table_kw(&rest, arbitrary, 4);
    }
    if string_eq(head, "table") {
        let rest = tail_strings(p, 1);
        return AstStyle::table_adaptor(&rest);
    }
    if p.len() == 2 && string_eq(head, "sr") && string_eq(&p[1], "only") {
        return Ok(CssInstance::Reader(TailwindScreenReader::new(true)));
    }
    Err(unknown_instruction_of(p, arbitrary))
}

impl AstStyle {
    /// Resolves this style's element path and arbitrary value to one CSS
    /// instance, by the dispatch table: the first one or two path entries
    /// select the property family, the rest and the arbitrary value are read
    /// by that family, and an unmatched path is an unknown-instruction
    /// error carrying the path verbatim. No input panics.
    pub fn get_instance(&self) -> (r: Result<CssInstance, TailwindError>)
        ensures
            dispatch_route(
                r,
                self.elements.items.deep_view(),
                self.arbitrary.item@,
                self.elements.negative,
            ),
    {
        let p = &self.elements.items;
        let arbitrary = TailwindArbitrary { item: clone_string(&self.arbitrary.item) };
        let neg = self.elements.negative;
        if p.len() == 0 {
            return Err(unknown_instruction_of(p, &arbitrary));
        }
        let head = &p[0];
        if is_head_layout(head) {
            return resolve_layout(p, &arbitrary, neg);
        }
        if is_head_flexbox(head) {
            return resolve_flexbox(p, &arbitrary, neg);
        }
        if is_head_typography(head) {
            return resolve_typography(p, &arbitrary);
        }
        if is_head_misc(head) {
            return resolve_misc(p, &arbitrary);
        }
        Err(unknown_instruction_of(p, &arbitrary))
    }
}


impl CssInstance {
    /// The ordered property block this instance writes, with palette
    /// lookups taken from `palette`. Every block is well formed; the
    /// contents per family are those the family's own `attributes` writes.
    pub fn attributes(&self, palette: &Palette) -> (r: CssAttributes)
        ensures
            r.wf(),
            self matches CssInstance::Keyword(k) ==> r.view_pairs() =~= seq![
                (k.pattern@, standard_value_text(k.value)),
            ],
            self matches CssInstance::Aspect(a) ==> r.view_pairs() =~= seq![
                ("aspect-ratio"@, a.ratio@),
            ],
            self matches CssInstance::Columns(c) ==> r.view_pairs()
                =~= crate::modules::columns_pairs(*c),
            self matches CssInstance::Break(b) ==> r.view_pairs() =~= crate::modules::break_pairs(
                *b,
            ),
            self matches CssInstance::ZIndex(z) ==> r.view_pairs()
                =~= crate::modules::zindex_pairs(*z),
            self matches CssInstance::Clear(c) ==> r.view_pairs() =~= crate::modules::clear_pairs(
                *c,
            ),
            self matches CssInstance::Overflow(o) ==> r.view_pairs()
                =~= crate::modules::overflow_pairs(*o),
            self matches CssInstance::Right(x) ==> r.view_pairs().len() == 1
                && r.view_pairs()[0].0 == "right"@ && (crate::modules::sizing_bounded(x.kind)
                ==> r.view_pairs()[0].1 == (if x.negative {
                "-"@
            } else {
                Seq::<char>::empty()
            }) + crate::modules::sizing_text(x.kind)),
            self matches CssInstance::Sizing(s) ==> r.view_pairs().len() == 1
                && r.view_pairs()[0].0 == crate::modules::sizing_property(s.kind) && (
            crate::modules::sizing_bounded(s.size) ==> r.view_pairs()[0].1
                == crate::modules::sizing_text(s.size)),
            self matches CssInstance::Spacing(s) ==> r.view_pairs().len() >= 1
                && r.view_pairs()[0].0 == crate::modules::spacing_property(
                s.margin,
                s.edge,
                true,
            ) && (crate::modules::sizing_bounded(s.size) ==> forall|i: int|
                0 <= i < r.view_pairs().len() ==> #[trigger] r.view_pairs()[i].1 == (if s
                    .negative {
                    "-"@
                } else {
                    Seq::<char>::empty()
                }) + crate::modules::sizing_text(s.size)),
            self matches CssInstance::BgImage(b) ==> r.view_pairs()
                =~= crate::modules::bg_image_pairs(*b),
            self matches CssInstance::BgColor(b) ==> r.view_pairs() =~= seq![
                ("background-color"@, crate::modules::color_text(
                    b.color,
                    crate::modules::palette_view(*palette),
                )),
            ],
            self matches CssInstance::TextColor(c) ==> r.view_pairs() =~= seq![
                ("color"@, crate::modules::color_text(
                    c.color,
                    crate::modules::palette_view(*palette),
                )),
            ],
            self matches CssInstance::FontSize(f) ==> r.view_pairs() =~= seq![
                ("font-size"@, crate::css::quarters_text(f.size_quarters as nat) + "rem"@),
                ("line-height"@, crate::css::quarters_text(f.height_quarters as nat) + "rem"@),
            ],
            self matches CssInstance::Smoothing(s) ==> (!s.subpixel ==> r.view_pairs() =~= seq![
                ("-webkit-font-smoothing"@, "antialiased"@),
                ("-moz-osx-font-smoothing"@, "grayscale"@),
            ]) && (s.subpixel ==> r.view_pairs() =~= seq![
                ("-webkit-font-smoothing"@, "auto"@),
                ("-moz-osx-font-smoothing"@, "auto"@),
            ]),
            self matches CssInstance::Reader(s) ==> (s.sr_only ==> r.view_pairs() =~= seq![
                ("position"@, "absolute"@),
                ("width"@, "1px"@),
                ("height"@, "1px"@),
                ("margin"@, "-1px"@),
                ("overflow"@, "hidden"@),
                ("white-space"@, "nowrap"@),
            ]) && (!s.sr_only ==> r.view_pairs() =~= seq![
                ("position"@, "static"@),
                ("width"@, "auto"@),
                ("height"@, "auto"@),
                ("margin"@, "0"@),
                ("overflow"@, "visible"@),
                ("white-space"@, "normal"@),
            ]),
    {
        match self {
            CssInstance::Aspect(a) => a.attributes(),
            CssInstance::Columns(c) => c.attributes(),
            CssInstance::Break(b) => b.attributes(),
            CssInstance::ZIndex(z) => z.attributes(),
            CssInstance::Clear(c) => c.attributes(),
            CssInstance::Overflow(o) => o.attributes(),
            CssInstance::Right(x) => x.attributes(),
            CssInstance::Sizing(s) => s.attributes(),
            CssInstance::Spacing(s) => s.attributes(),
            CssInstance::BgImage(b) => b.attributes(),
            CssInstance::BgColor(b) => b.attributes(palette),
            CssInstance::TextColor(c) => c.attributes(palette),
            CssInstance::FontSize(f) => f.attributes(),
            CssInstance::Smoothing(s) => s.attributes(),
            CssInstance::Reader(s) => s.attributes(),
            CssInstance::Keyword(k) => {
                let mut out = CssAttributes::new();
                out.insert(clone_string(&k.pattern), k.value.get_properties().to_owned());
                proof {
                    assert(out.view_pairs() =~= seq![
                        (k.pattern@, standard_value_text(k.value)),
                    ]);
                }
                out
            },
        }
    }
}


impl AstStyle {
    /// The property block this style resolves to, or an empty block where
    /// resolution fails: a failing class contributes nothing and never
    /// aborts the pass. Where the dispatch selects a keyword arm, the block
    /// is exactly that arm's pair.
    pub fn attributes(&self, palette: &Palette) -> (r: CssAttributes)
        ensures
            r.wf(),
            !dispatch_ok(
                self.elements.items.deep_view(),
                self.arbitrary.item@,
                self.elements.negative,
            ) ==> r.view_pairs().len() == 0,
            dispatch_table(
                self.elements.items.deep_view(),
                self.arbitrary.item@,
                self.elements.negative,
            ) matches Some(pv) ==> r.view_pairs() =~= seq![pv],
    {
        let ghost p = self.elements.items.deep_view();
        let ghost arb = self.arbitrary.item@;
        let ghost neg = self.elements.negative;
        match self.get_instance() {
            Ok(instance) => {
                proof {
                    lemma_dispatch_resolution(
                        Result::<CssInstance, TailwindError>::Ok(instance),
                        p,
                        arb,
                        neg,
                    );
                    lemma_dispatch_table(
                        Result::<CssInstance, TailwindError>::Ok(instance),
                        p,
                        arb,
                        neg,
                    );
                }
                instance.attributes(palette)
            },
            Err(e) => {
                proof {
                    lemma_dispatch_resolution(
                        Result::<CssInstance, TailwindError>::Err(e),
                        p,
                        arb,
                        neg,
                    );
                    lemma_dispatch_table(
                        Result::<CssInstance, TailwindError>::Err(e),
                        p,
                        arb,
                        neg,
                    );
                }
                CssAttributes::new()
            },
        }
    }
}

} // verus!
