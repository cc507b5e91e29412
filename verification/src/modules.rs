use vstd::prelude::*;
use crate::ast::clone_string;
use crate::css::{is_length_text, quarters_text, CssAttributes, LengthUnit};
use crate::error::TailwindError;
use crate::text::{
    all_digits, dec_digits, digits_value, fmt_usize, join_seq, join_strings, str_eq, string_eq,
};
use crate::units::{KeywordInstance, StandardValue, TailwindArbitrary};

verus! {

// ---------------------------------------------------------------------------
// Aspect ratio
// ---------------------------------------------------------------------------

/// `aspect-auto`, `aspect-square` or `aspect-video`.
#[derive(Debug)]
pub struct TailwindAspect {
    /// The keyword written in the class.
    pub kind: String,
    /// The ratio text written into the property.
    pub ratio: String,
}

/// The kind and ratio an aspect suffix names.
pub open spec fn aspect_spec(p: Seq<Seq<char>>) -> Option<(Seq<char>, Seq<char>)> {
    if p.len() == 1 && p[0] == "auto"@ {
        Some(("auto"@, "auto"@))
    } else if p.len() == 1 && p[0] == "square"@ {
        Some(("square"@, "1/1"@))
    } else if p.len() == 1 && p[0] == "video"@ {
        Some(("video"@, "16/9"@))
    } else {
        None
    }
}

impl TailwindAspect {
    /// Reads an aspect-ratio suffix; any other suffix is a syntax error.
    pub fn parse(kind: &Vec<String>) -> (r: Result<TailwindAspect, TailwindError>)
        ensures
            aspect_spec(kind.deep_view()) matches Some(v) ==> (r matches Ok(a) && a.kind@ == v.0
                && a.ratio@ == v.1),
            aspect_spec(kind.deep_view()) is None ==> (r matches Err(e) && e
                matches TailwindError::Syntax { message } && message@ == join_seq(
                kind.deep_view(),
                "-"@,
            )),
    {
        if kind.len() == 1 && string_eq(&kind[0], "auto") {
            Ok(TailwindAspect { kind: "auto".to_owned(), ratio: "auto".to_owned() })
        } else if kind.len() == 1 && string_eq(&kind[0], "square") {
            Ok(TailwindAspect { kind: "square".to_owned(), ratio: "1/1".to_owned() })
        } else if kind.len() == 1 && string_eq(&kind[0], "video") {
            Ok(TailwindAspect { kind: "video".to_owned(), ratio: "16/9".to_owned() })
        } else {
            Err(TailwindError::Syntax { message: join_strings(kind, "-") })
        }
    }

    /// The one property this instance writes.
    pub fn attributes(&self) -> (r: CssAttributes)
        ensures
            r.view_pairs() =~= seq![("aspect-ratio"@, self.ratio@)],
            r.wf(),
    {
        let mut out = CssAttributes::new();
        out.insert("aspect-ratio".to_owned(), clone_string(&self.ratio));
        out
    }
}

// ---------------------------------------------------------------------------
// Columns
// ---------------------------------------------------------------------------

/// `columns-auto`, a size keyword, or a plain column count.
#[derive(Debug)]
pub enum TailwindColumns {
    Auto,
    /// A width in `rem`.
    Size(usize),
    /// A plain count of columns.
    Columns(usize),
}

/// The width in rem a columns size keyword names.
pub open spec fn columns_size_spec(w: Seq<char>) -> Option<usize> {
    if w == "3xs"@ {
        Some(16usize)
    } else if w == "2xs"@ {
        Some(18usize)
    } else if w == "xs"@ {
        Some(20usize)
    } else if w == "sm"@ {
        Some(24usize)
    } else if w == "md"@ {
        Some(28usize)
    } else if w == "lg"@ {
        Some(32usize)
    } else if w == "xl"@ {
        Some(36usize)
    } else if w == "2xl"@ {
        Some(42usize)
    } else if w == "3xl"@ {
        Some(48usize)
    } else if w == "4xl"@ {
        Some(56usize)
    } else if w == "5xl"@ {
        Some(64usize)
    } else if w == "6xl"@ {
        Some(72usize)
    } else if w == "7xl"@ {
        Some(80usize)
    } else {
        None
    }
}

/// What a columns suffix resolves to.
pub open spec fn columns_spec(p: Seq<Seq<char>>) -> Option<TailwindColumns> {
    if p.len() != 1 {
        None
    } else if p[0] == "auto"@ {
        Some(TailwindColumns::Auto)
    } else if columns_size_spec(p[0]) is Some {
        Some(TailwindColumns::Size(columns_size_spec(p[0])->Some_0))
    } else if p[0].len() > 0 && all_digits(p[0]) && digits_value(p[0]) <= usize::MAX {
        Some(TailwindColumns::Columns(digits_value(p[0]) as usize))
    } else {
        None
    }
}

impl TailwindColumns {
    /// Reads a columns suffix: `auto`, a size keyword, or a whole number.
    pub fn parse(kind: &Vec<String>) -> (r: Result<TailwindColumns, TailwindError>)
        ensures
            columns_spec(kind.deep_view()) matches Some(v) ==> (r matches Ok(c) && c == v),
            columns_spec(kind.deep_view()) is None && kind.deep_view().len() != 1 ==> (r
                matches Err(e) && e matches TailwindError::Syntax { message } && message@
                == join_seq(kind.deep_view(), "-"@)),
            columns_spec(kind.deep_view()) is None && kind.deep_view().len() == 1 ==> (r
                matches Err(e) && e matches TailwindError::Value { message } && message@
                == kind.deep_view()[0]),
    {
        if kind.len() != 1 {
            return Err(TailwindError::Syntax { message: join_strings(kind, "-") });
        }
        let name = &kind[0];
        if string_eq(name, "auto") {
            return Ok(TailwindColumns::Auto);
        }
        let w: usize = if string_eq(name, "3xs") {
            16
        } else if string_eq(name, "2xs") {
            18
        } else if string_eq(name, "xs") {
            20
        } else if string_eq(name, "sm") {
            24
        } else if string_eq(name, "md") {
            28
        } else if string_eq(name, "lg") {
            32
        } else if string_eq(name, "xl") {
            36
        } else if string_eq(name, "2xl") {
            42
        } else if string_eq(name, "3xl") {
            48
        } else if string_eq(name, "4xl") {
            56
        } else if string_eq(name, "5xl") {
            64
        } else if string_eq(name, "6xl") {
            72
        } else if string_eq(name, "7xl") {
            80
        } else {
            0
        };
        if w != 0 {
            return Ok(TailwindColumns::Size(w));
        }
        match crate::text::parse_usize(name.as_str()) {
            Some(n) => Ok(TailwindColumns::Columns(n)),
            None => Err(TailwindError::Value { message: clone_string(name) }),
        }
    }

    /// The one property this instance writes.
    pub fn attributes(&self) -> (r: CssAttributes)
        ensures
            self is Auto ==> r.view_pairs() =~= seq![("columns"@, "auto"@)],
            self matches TailwindColumns::Size(w) ==> r.view_pairs() =~= seq![
                ("columns"@, dec_digits(w as nat) + "rem"@),
            ],
            self matches TailwindColumns::Columns(n) ==> r.view_pairs() =~= seq![
                ("columns"@, dec_digits(n as nat)),
            ],
            r.wf(),
    {
        let mut out = CssAttributes::new();
        match self {
            TailwindColumns::Auto => {
                out.insert("columns".to_owned(), "auto".to_owned());
            },
            TailwindColumns::Size(w) => {
                let mut v = fmt_usize(*w);
                v.append("rem");
                out.insert("columns".to_owned(), v);
            },
            TailwindColumns::Columns(n) => {
                out.insert("columns".to_owned(), fmt_usize(*n));
            },
        }
        out
    }
}

// ---------------------------------------------------------------------------
// Break before / after / inside
// ---------------------------------------------------------------------------

/// A `break-before`, `break-after` or `break-inside` rule.
#[derive(Debug)]
pub enum TailwindBreak {
    Before(String),
    After(String),
    Inside(String),
}

/// The keyword a break-before or break-after suffix names.
pub open spec fn break_side_spec(p: Seq<Seq<char>>) -> Option<Seq<char>> {
    if p.len() == 1 && p[0] == "auto"@ {
        Some("auto"@)
    } else if p.len() == 1 && p[0] == "avoid"@ {
        Some("avoid"@)
    } else if p.len() == 1 && p[0] == "all"@ {
        Some("all"@)
    } else if p.len() == 2 && p[0] == "avoid"@ && p[1] == "page"@ {
        Some("avoid-page"@)
    } else if p.len() == 1 && p[0] == "page"@ {
        Some("page"@)
    } else if p.len() == 1 && p[0] == "left"@ {
        Some("left"@)
    } else if p.len() == 1 && p[0] == "right"@ {
        Some("right"@)
    } else if p.len() == 1 && p[0] == "column"@ {
        Some("column"@)
    } else {
        None
    }
}

/// The keyword a break-inside suffix names.
pub open spec fn break_inside_spec(p: Seq<Seq<char>>) -> Option<Seq<char>> {
    if p.len() == 1 && p[0] == "auto"@ {
        Some("auto"@)
    } else if p.len() == 1 && p[0] == "avoid"@ {
        Some("avoid"@)
    } else if p.len() == 2 && p[0] == "avoid"@ && p[1] == "page"@ {
        Some("avoid-page"@)
    } else if p.len() == 2 && p[0] == "avoid"@ && p[1] == "column"@ {
        Some("avoid-column"@)
    } else {
        None
    }
}

/// Reads one of the side keywords shared by break-before and break-after.
fn parse_break_side(kind: &Vec<String>) -> (r: Result<String, TailwindError>)
    ensures
        break_side_spec(kind.deep_view()) matches Some(v) ==> (r matches Ok(s) && s@ == v),
        break_side_spec(kind.deep_view()) is None ==> (r matches Err(e) && e
            matches TailwindError::Syntax { message } && message@ == join_seq(
            kind.deep_view(),
            "-"@,
        )),
{
    if kind.len() == 1 && string_eq(&kind[0], "auto") {
        Ok("auto".to_owned())
    } else if kind.len() == 1 && string_eq(&kind[0], "avoid") {
        Ok("avoid".to_owned())
    } else if kind.len() == 1 && string_eq(&kind[0], "all") {
        Ok("all".to_owned())
    } else if kind.len() == 2 && string_eq(&kind[0], "avoid") && string_eq(&kind[1], "page") {
        Ok("avoid-page".to_owned())
    } else if kind.len() == 1 && string_eq(&kind[0], "page") {
        Ok("page".to_owned())
    } else if kind.len() == 1 && string_eq(&kind[0], "left") {
        Ok("left".to_owned())
    } else if kind.len() == 1 && string_eq(&kind[0], "right") {
        Ok("right".to_owned())
    } else if kind.len() == 1 && string_eq(&kind[0], "column") {
        Ok("column".to_owned())
    } else {
        Err(TailwindError::Syntax { message: join_strings(kind, "-") })
    }
}

impl TailwindBreak {
    /// Reads a `break-before` suffix.
    pub fn parse_before(kind: &Vec<String>) -> (r: Result<TailwindBreak, TailwindError>)
        ensures
            break_side_spec(kind.deep_view()) matches Some(v) ==> (r matches Ok(b) && b
                matches TailwindBreak::Before(s) && s@ == v),
            break_side_spec(kind.deep_view()) is None ==> (r matches Err(e) && e
                matches TailwindError::Syntax { message } && message@ == join_seq(
                kind.deep_view(),
                "-"@,
            )),
    {
        match parse_break_side(kind) {
            Ok(s) => Ok(TailwindBreak::Before(s)),
            Err(e) => Err(e),
        }
    }

    /// Reads a `break-after` suffix.
    pub fn parse_after(kind: &Vec<String>) -> (r: Result<TailwindBreak, TailwindError>)
        ensures
            break_side_spec(kind.deep_view()) matches Some(v) ==> (r matches Ok(b) && b
                matches TailwindBreak::After(s) && s@ == v),
            break_side_spec(kind.deep_view()) is None ==> (r matches Err(e) && e
                matches TailwindError::Syntax { message } && message@ == join_seq(
                kind.deep_view(),
                "-"@,
            )),
    {
        match parse_break_side(kind) {
            Ok(s) => Ok(TailwindBreak::After(s)),
            Err(e) => Err(e),
        }
    }

    /// Reads a `break-inside` suffix.
    pub fn parse_inside(kind: &Vec<String>) -> (r: Result<TailwindBreak, TailwindError>)
        ensures
            break_inside_spec(kind.deep_view()) matches Some(v) ==> (r matches Ok(b) && b
                matches TailwindBreak::Inside(s) && s@ == v),
            break_inside_spec(kind.deep_view()) is None ==> (r matches Err(e) && e
                matches TailwindError::Syntax { message } && message@ == join_seq(
                kind.deep_view(),
                "-"@,
            )),
    {
        if kind.len() == 1 && string_eq(&kind[0], "auto") {
            Ok(TailwindBreak::Inside("auto".to_owned()))
        } else if kind.len() == 1 && string_eq(&kind[0], "avoid") {
            Ok(TailwindBreak::Inside("avoid".to_owned()))
        } else if kind.len() == 2 && string_eq(&kind[0], "avoid") && string_eq(&kind[1], "page") {
            Ok(TailwindBreak::Inside("avoid-page".to_owned()))
        } else if kind.len() == 2 && string_eq(&kind[0], "avoid") && string_eq(&kind[1], "column") {
            Ok(TailwindBreak::Inside("avoid-column".to_owned()))
        } else {
            Err(TailwindError::Syntax { message: join_strings(kind, "-") })
        }
    }

    /// The one property this instance writes.
    pub fn attributes(&self) -> (r: CssAttributes)
        ensures
            self matches TailwindBreak::Before(s) ==> r.view_pairs() =~= seq![
                ("break-before"@, s@),
            ],
            self matches TailwindBreak::After(s) ==> r.view_pairs() =~= seq![("break-after"@, s@)],
            self matches TailwindBreak::Inside(s) ==> r.view_pairs() =~= seq![
                ("break-inside"@, s@),
            ],
            r.wf(),
    {
        let mut out = CssAttributes::new();
        match self {
            TailwindBreak::Before(s) => {
                out.insert("break-before".to_owned(), clone_string(s));
            },
            TailwindBreak::After(s) => {
                out.insert("break-after".to_owned(), clone_string(s));
            },
            TailwindBreak::Inside(s) => {
                out.insert("break-inside".to_owned(), clone_string(s));
            },
        }
        out
    }
}

// ---------------------------------------------------------------------------
// z-index and the shared placement scale
// ---------------------------------------------------------------------------

/// A `z-index` value: automatic, or a signed whole number.
#[derive(Debug, PartialEq, Eq, Structural)]
pub enum TailWindZIndex {
    Auto,
    Positive(usize),
    Negative(usize),
}

/// What a z-index suffix resolves to, given the sign of the class.
pub open spec fn zindex_spec(p: Seq<Seq<char>>, neg: bool) -> Option<TailWindZIndex> {
    if p.len() == 1 && p[0] == "auto"@ {
        Some(TailWindZIndex::Auto)
    } else if p.len() == 1 && p[0].len() > 0 && all_digits(p[0]) && digits_value(p[0])
        <= usize::MAX {
        if neg {
            Some(TailWindZIndex::Negative(digits_value(p[0]) as usize))
        } else {
            Some(TailWindZIndex::Positive(digits_value(p[0]) as usize))
        }
    } else {
        None
    }
}

impl TailWindZIndex {
    /// Reads a z-index suffix: `auto` or a whole number, signed by the
    /// class. Any other suffix is an error rather than a panic: an unknown
    /// path must fail gracefully.
    pub fn parse(kind: &Vec<String>, neg: bool) -> (r: Result<TailWindZIndex, TailwindError>)
        ensures
            zindex_spec(kind.deep_view(), neg) matches Some(v) ==> (r matches Ok(z) && z == v),
            zindex_spec(kind.deep_view(), neg) is None && kind.deep_view().len() != 1 ==> (r
                matches Err(e) && e matches TailwindError::Syntax { message } && message@
                == join_seq(kind.deep_view(), "-"@)),
            zindex_spec(kind.deep_view(), neg) is None && kind.deep_view().len() == 1 ==> (r
                matches Err(e) && e matches TailwindError::Value { message } && message@
                == kind.deep_view()[0]),
    {
        if kind.len() != 1 {
            return Err(TailwindError::Syntax { message: join_strings(kind, "-") });
        }
        if string_eq(&kind[0], "auto") {
            return Ok(TailWindZIndex::Auto);
        }
        Self::parse_number(kind[0].as_str(), neg)
    }

    /// Reads the numeric form of a z-index suffix.
    pub fn parse_number(input: &str, neg: bool) -> (r: Result<TailWindZIndex, TailwindError>)
        ensures
            (input@.len() > 0 && all_digits(input@) && digits_value(input@) <= usize::MAX) ==> (
            r matches Ok(z) && z == (if neg {
                TailWindZIndex::Negative(digits_value(input@) as usize)
            } else {
                TailWindZIndex::Positive(digits_value(input@) as usize)
            })),
            !(input@.len() > 0 && all_digits(input@) && digits_value(input@) <= usize::MAX) ==> (
            r matches Err(e) && e matches TailwindError::Value { message } && message@ == input@),
    {
        match crate::text::parse_usize(input) {
            Some(n) => {
                if neg {
                    Ok(TailWindZIndex::Negative(n))
                } else {
                    Ok(TailWindZIndex::Positive(n))
                }
            },
            None => Err(TailwindError::Value { message: input.to_owned() }),
        }
    }

    /// The one property this instance writes.
    pub fn attributes(&self) -> (r: CssAttributes)
        ensures
            self is Auto ==> r.view_pairs() =~= seq![("z-index"@, "auto"@)],
            self matches TailWindZIndex::Positive(n) ==> r.view_pairs() =~= seq![
                ("z-index"@, dec_digits(n as nat)),
            ],
            self matches TailWindZIndex::Negative(n) ==> r.view_pairs() =~= seq![
                ("z-index"@, "-"@ + dec_digits(n as nat)),
            ],
            r.wf(),
    {
        let mut out = CssAttributes::new();
        match self {
            TailWindZIndex::Auto => {
                out.insert("z-index".to_owned(), "auto".to_owned());
            },
            TailWindZIndex::Positive(n) => {
                out.insert("z-index".to_owned(), fmt_usize(*n));
            },
            TailWindZIndex::Negative(n) => {
                let mut v = String::new();
                v.append("-");
                let d = fmt_usize(*n);
                v.append(d.as_str());
                out.insert("z-index".to_owned(), v);
            },
        }
        out
    }
}

// ---------------------------------------------------------------------------
// Clear
// ---------------------------------------------------------------------------

/// A `clear` rule.
#[derive(Debug, PartialEq, Eq, Structural)]
pub enum TailwindClear {
    Left,
    Right,
    Both,
    Neither,
}

/// What a clear suffix resolves to; `none` clears nothing.
pub open spec fn clear_spec(p: Seq<Seq<char>>) -> Option<TailwindClear> {
    if p.len() == 1 && p[0] == "left"@ {
        Some(TailwindClear::Left)
    } else if p.len() == 1 && p[0] == "right"@ {
        Some(TailwindClear::Right)
    } else if p.len() == 1 && p[0] == "both"@ {
        Some(TailwindClear::Both)
    } else if p.len() == 1 && p[0] == "none"@ {
        Some(TailwindClear::Neither)
    } else {
        None
    }
}

impl TailwindClear {
    /// Reads a clear suffix.
    pub fn parse(kind: &Vec<String>) -> (r: Result<TailwindClear, TailwindError>)
        ensures
            clear_spec(kind.deep_view()) matches Some(v) ==> (r matches Ok(c) && c == v),
            clear_spec(kind.deep_view()) is None ==> (r matches Err(e) && e
                matches TailwindError::Syntax { message } && message@ == join_seq(
                kind.deep_view(),
                "-"@,
            )),
    {
        if kind.len() == 1 && string_eq(&kind[0], "left") {
            Ok(TailwindClear::Left)
        } else if kind.len() == 1 && string_eq(&kind[0], "right") {
            Ok(TailwindClear::Right)
        } else if kind.len() == 1 && string_eq(&kind[0], "both") {
            Ok(TailwindClear::Both)
        } else if kind.len() == 1 && string_eq(&kind[0], "none") {
            Ok(TailwindClear::Neither)
        } else {
            Err(TailwindError::Syntax { message: join_strings(kind, "-") })
        }
    }

    /// The keyword this rule writes.
    pub fn keyword(&self) -> (r: &'static str)
        ensures
            *self == TailwindClear::Left ==> r@ == "left"@,
            *self == TailwindClear::Right ==> r@ == "right"@,
            *self == TailwindClear::Both ==> r@ == "both"@,
            *self == TailwindClear::Neither ==> r@ == "none"@,
    {
        match self {
            TailwindClear::Left => "left",
            TailwindClear::Right => "right",
            TailwindClear::Both => "both",
            TailwindClear::Neither => "none",
        }
    }

    /// The one property this instance writes.
    pub fn attributes(&self) -> (r: CssAttributes)
        ensures
            r.view_pairs().len() == 1 && r.view_pairs()[0].0 == "clear"@,
            *self == TailwindClear::Left ==> r.view_pairs()[0].1 == "left"@,
            *self == TailwindClear::Right ==> r.view_pairs()[0].1 == "right"@,
            *self == TailwindClear::Both ==> r.view_pairs()[0].1 == "both"@,
            *self == TailwindClear::Neither ==> r.view_pairs()[0].1 == "none"@,
            r.wf(),
    {
        let mut out = CssAttributes::new();
        out.insert("clear".to_owned(), self.keyword().to_owned());
        out
    }
}

// ---------------------------------------------------------------------------
// Overflow
// ---------------------------------------------------------------------------

/// An `overflow`, `overflow-x` or `overflow-y` rule.
#[derive(Debug)]
pub struct TailwindOverflow {
    pub kind: StandardValue,
    /// No axis, the x axis (`true`) or the y axis (`false`).
    pub axis: Option<bool>,
}

impl TailwindOverflow {
    /// Reads an overflow suffix: a keyword of the overflow vocabulary, or
    /// the arbitrary value where the suffix is empty.
    pub fn parse(pattern: &Vec<String>, arbitrary: &TailwindArbitrary, axis: Option<bool>) -> (r:
        Result<TailwindOverflow, TailwindError>)
        ensures
            pattern@.len() == 0 && arbitrary.item@.len() > 0 ==> (r matches Ok(v) && v.kind
                matches StandardValue::Arbitrary(a) && a.item@ == arbitrary.item@ && v.axis
                == axis),
            pattern@.len() == 0 && arbitrary.item@.len() == 0 ==> (r matches Err(e) && e
                matches TailwindError::Value { message } && message@ == "overflow"@),
            pattern@.len() > 0 ==> ({
                let joined = join_seq(pattern.deep_view(), "-"@);
                if overflow_keyword(joined) {
                    r matches Ok(v) && v.kind matches StandardValue::Keyword(s) && s@ == joined
                        && v.axis == axis
                } else {
                    r matches Err(e) && e matches TailwindError::Syntax { message } && message@
                        == "overflow"@ + ": "@ + joined
                }
            }),
    {
        let valid = Self::valid_keywords();
        match StandardValue::parser("overflow", pattern, &valid, arbitrary) {
            Ok(kind) => Ok(TailwindOverflow { kind, axis }),
            Err(e) => Err(e),
        }
    }

    /// Takes the arbitrary value as the overflow text.
    pub fn parse_arbitrary(arbitrary: &TailwindArbitrary, axis: Option<bool>) -> (r: Result<
        TailwindOverflow,
        TailwindError,
    >)
        ensures
            arbitrary.item@.len() > 0 ==> (r matches Ok(v) && v.kind
                matches StandardValue::Arbitrary(a) && a.item@ == arbitrary.item@ && v.axis
                == axis),
            arbitrary.item@.len() == 0 ==> (r matches Err(e) && e
                matches TailwindError::Value { message } && message@ == "overflow"@),
    {
        match StandardValue::parse_arbitrary("overflow", arbitrary) {
            Ok(kind) => Ok(TailwindOverflow { kind, axis }),
            Err(e) => Err(e),
        }
    }

    /// The overflow keyword vocabulary.
    fn valid_keywords() -> (r: Vec<&'static str>)
        ensures
            forall|s: Seq<char>| r.deep_view().contains(s) <==> overflow_keyword(s),
    {
        let out: Vec<&'static str> = vec![
            "visible",
            "hidden",
            "clip",
            "scroll",
            "auto",
            "inherit",
            "initial",
            "revert",
            "unset",
        ];
        proof {
            assert forall|s: Seq<char>| out.deep_view().contains(s) implies overflow_keyword(
                s,
            ) by {
                let k = choose|k: int| 0 <= k < out.deep_view().len() && out.deep_view()[k] == s;
            };
            assert forall|s: Seq<char>| overflow_keyword(s) implies out.deep_view().contains(
                s,
            ) by {
                if s == "visible"@ {
                    assert(out.deep_view()[0] == s);
                } else if s == "hidden"@ {
                    assert(out.deep_view()[1] == s);
                } else if s == "clip"@ {
                    assert(out.deep_view()[2] == s);
                } else if s == "scroll"@ {
                    assert(out.deep_view()[3] == s);
                } else if s == "auto"@ {
                    assert(out.deep_view()[4] == s);
                } else if s == "inherit"@ {
                    assert(out.deep_view()[5] == s);
                } else if s == "initial"@ {
                    assert(out.deep_view()[6] == s);
                } else {
                    assert(out.deep_view()[8] == s || out.deep_view()[7] == s);
                }
            };
        }
        out
    }

    /// Whether `mode` is a valid overflow keyword.
    pub fn check_valid(mode: &str) -> (r: bool)
        ensures
            r == overflow_keyword(mode@),
    {
        let valid = Self::valid_keywords();
        crate::units::str_list_contains(&valid, mode)
    }

    /// The one property this instance writes, on the axis it names.
    pub fn attributes(&self) -> (r: CssAttributes)
        ensures
            self.axis is None ==> r.view_pairs() =~= seq![
                ("overflow"@, crate::units::standard_value_text(self.kind)),
            ],
            self.axis == Some(true) ==> r.view_pairs() =~= seq![
                ("overflow-x"@, crate::units::standard_value_text(self.kind)),
            ],
            self.axis == Some(false) ==> r.view_pairs() =~= seq![
                ("overflow-y"@, crate::units::standard_value_text(self.kind)),
            ],
            r.view_pairs().len() == 1,
            r.wf(),
    {
        let prop: &str = match self.axis {
            None => "overflow",
            Some(true) => "overflow-x",
            Some(false) => "overflow-y",
        };
        let mut out = CssAttributes::new();
        out.insert(prop.to_owned(), self.kind.get_properties().to_owned());
        out
    }
}


/// The property block each resolved instance writes, per family.
pub open spec fn columns_pairs(c: TailwindColumns) -> Seq<(Seq<char>, Seq<char>)> {
    match c {
        TailwindColumns::Auto => seq![("columns"@, "auto"@)],
        TailwindColumns::Size(w) => seq![("columns"@, dec_digits(w as nat) + "rem"@)],
        TailwindColumns::Columns(n) => seq![("columns"@, dec_digits(n as nat))],
    }
}

pub open spec fn break_pairs(b: TailwindBreak) -> Seq<(Seq<char>, Seq<char>)> {
    match b {
        TailwindBreak::Before(s) => seq![("break-before"@, s@)],
        TailwindBreak::After(s) => seq![("break-after"@, s@)],
        TailwindBreak::Inside(s) => seq![("break-inside"@, s@)],
    }
}

pub open spec fn zindex_pairs(z: TailWindZIndex) -> Seq<(Seq<char>, Seq<char>)> {
    match z {
        TailWindZIndex::Auto => seq![("z-index"@, "auto"@)],
        TailWindZIndex::Positive(n) => seq![("z-index"@, dec_digits(n as nat))],
        TailWindZIndex::Negative(n) => seq![("z-index"@, "-"@ + dec_digits(n as nat))],
    }
}

pub open spec fn clear_pairs(c: TailwindClear) -> Seq<(Seq<char>, Seq<char>)> {
    match c {
        TailwindClear::Left => seq![("clear"@, "left"@)],
        TailwindClear::Right => seq![("clear"@, "right"@)],
        TailwindClear::Both => seq![("clear"@, "both"@)],
        TailwindClear::Neither => seq![("clear"@, "none"@)],
    }
}

pub open spec fn overflow_pairs(o: TailwindOverflow) -> Seq<(Seq<char>, Seq<char>)> {
    match o.axis {
        Option::None => seq![("overflow"@, crate::units::standard_value_text(o.kind))],
        Option::Some(true) => seq![("overflow-x"@, crate::units::standard_value_text(o.kind))],
        Option::Some(false) => seq![("overflow-y"@, crate::units::standard_value_text(o.kind))],
    }
}

pub open spec fn bg_image_pairs(b: TailwindBackgroundImage) -> Seq<(Seq<char>, Seq<char>)> {
    match b.kind {
        BackgroundImage::Standard(s) => seq![("background-image"@, s@)],
        BackgroundImage::Arbitrary(a) => seq![("background-image"@, a.item@)],
    }
}

/// The overflow keyword vocabulary, as a predicate.
pub open spec fn overflow_keyword(s: Seq<char>) -> bool {
    s == "visible"@ || s == "hidden"@ || s == "clip"@ || s == "scroll"@ || s == "auto"@ || s
        == "inherit"@ || s == "initial"@ || s == "revert"@ || s == "unset"@
}


// ---------------------------------------------------------------------------
// Sizing
// ---------------------------------------------------------------------------

/// A size on the shared scale: content keywords, the full extent, a length,
/// or a fraction of the parent.
#[derive(Debug)]
pub enum SizingUnit {
    Min,
    Max,
    Auto,
    Full,
    Length(LengthUnit),
    Fraction(usize, usize),
}

/// Whether `t` is a plain whole number that fits the machine.
pub open spec fn int_text(t: Seq<char>) -> bool {
    t.len() > 0 && all_digits(t) && digits_value(t) <= usize::MAX
}

impl SizingUnit {
    /// Reads a sizing suffix: a scale keyword, `px` for one em, a bare
    /// number of quarter ems, a fraction, or the arbitrary value where the
    /// suffix is empty.
    pub fn parse(kind: &Vec<String>, arbitrary: &TailwindArbitrary) -> (r: Result<
        SizingUnit,
        TailwindError,
    >)
        ensures
            ({
                let p = kind.deep_view();
                if p.len() == 1 {
                    if p[0] == "min"@ {
                        r matches Ok(u) && u is Min
                    } else if p[0] == "max"@ {
                        r matches Ok(u) && u is Max
                    } else if p[0] == "auto"@ {
                        r matches Ok(u) && u is Auto
                    } else if p[0] == "full"@ {
                        r matches Ok(u) && u is Full
                    } else if p[0] == "px"@ {
                        r matches Ok(u) && u matches SizingUnit::Length(l) && l
                            matches LengthUnit::Em { value, shift } && value == 4 && shift == 0
                    } else {
                        sizing_value_ensures(r, p[0])
                    }
                } else if p.len() == 0 {
                    sizing_value_ensures(r, arbitrary.item@)
                } else {
                    r matches Err(e) && e matches TailwindError::Syntax { message } && message@
                        == join_seq(p, "-"@)
                }
            }),
    {
        if kind.len() == 1 {
            if string_eq(&kind[0], "min") {
                return Ok(SizingUnit::Min);
            }
            if string_eq(&kind[0], "max") {
                return Ok(SizingUnit::Max);
            }
            if string_eq(&kind[0], "auto") {
                return Ok(SizingUnit::Auto);
            }
            if string_eq(&kind[0], "full") {
                return Ok(SizingUnit::Full);
            }
            if string_eq(&kind[0], "px") {
                return Ok(SizingUnit::Length(LengthUnit::em(4)));
            }
            let single = TailwindArbitrary::of_str(kind[0].as_str());
            return Self::parse_arbitrary(&single);
        }
        if kind.len() == 0 {
            return Self::parse_arbitrary(arbitrary);
        }
        Err(TailwindError::Syntax { message: join_strings(kind, "-") })
    }

    /// Reads a bare value: first as a fraction, then as a number of quarter
    /// ems, then as a length.
    pub fn parse_arbitrary(arbitrary: &TailwindArbitrary) -> (r: Result<SizingUnit, TailwindError>)
        ensures
            sizing_value_ensures(r, arbitrary.item@),
    {
        match Self::maybe_fraction(arbitrary) {
            Ok(u) => Ok(u),
            Err(_) => match Self::maybe_no_unit(arbitrary) {
                Ok(u) => Ok(u),
                Err(_) => Self::maybe_length(arbitrary),
            },
        }
    }

    /// Reads the value as a length with a unit.
    fn maybe_length(arbitrary: &TailwindArbitrary) -> (r: Result<SizingUnit, TailwindError>)
        ensures
            is_length_text(arbitrary.item@) ==> (r matches Ok(u) && u
                matches SizingUnit::Length(l) && l matches LengthUnit::Raw { text } && text@
                == arbitrary.item@),
            !is_length_text(arbitrary.item@) ==> (r matches Err(e) && e
                matches TailwindError::Value { message } && message@ == arbitrary.item@),
    {
        match arbitrary.as_length() {
            Ok(l) => Ok(SizingUnit::Length(l)),
            Err(e) => Err(e),
        }
    }

    /// Reads the value as a bare decimal number of quarter ems.
    fn maybe_no_unit(arbitrary: &TailwindArbitrary) -> (r: Result<SizingUnit, TailwindError>)
        ensures
            crate::css::decimal_spec(arbitrary.item@) matches Some(d) ==> (r matches Ok(u) && u
                matches SizingUnit::Length(l) && l matches LengthUnit::Em { value, shift }
                && value == d.0 && shift == d.1),
            crate::css::decimal_spec(arbitrary.item@) is None ==> (r matches Err(e) && e
                matches TailwindError::Value { message } && message@ == arbitrary.item@),
    {
        match arbitrary.as_decimal() {
            Ok((value, shift)) => Ok(SizingUnit::Length(LengthUnit::Em { value, shift })),
            Err(e) => Err(e),
        }
    }

    /// Reads the value as a fraction of the parent.
    fn maybe_fraction(arbitrary: &TailwindArbitrary) -> (r: Result<SizingUnit, TailwindError>)
        ensures
            crate::css::fraction_spec(arbitrary.item@) matches Some(f) ==> (r matches Ok(u) && u
                matches SizingUnit::Fraction(a, b) && a == f.0 && b == f.1),
            crate::css::fraction_spec(arbitrary.item@) is None ==> (r matches Err(e)
                && e is Value),
    {
        match arbitrary.as_fraction() {
            Ok((a, b)) => Ok(SizingUnit::Fraction(a, b)),
            Err(e) => Err(e),
        }
    }

    /// The value text this size writes into a property.
    pub fn get_properties(&self) -> (r: String)
        ensures
            sizing_bounded(*self) ==> r@ == sizing_text(*self),
    {
        match self {
            SizingUnit::Min => "min-content".to_owned(),
            SizingUnit::Max => "max-content".to_owned(),
            SizingUnit::Auto => "auto".to_owned(),
            SizingUnit::Full => "100%".to_owned(),
            SizingUnit::Length(l) => l.get_properties(),
            SizingUnit::Fraction(a, b) => {
                let mut out = String::new();
                out.append("calc(");
                let da = fmt_usize(*a);
                out.append(da.as_str());
                out.append(" / ");
                let db = fmt_usize(*b);
                out.append(db.as_str());
                out.append(" * 100%)");
                out
            },
        }
    }
}


/// The value text a length writes.
pub open spec fn length_text(l: LengthUnit) -> Seq<char> {
    match l {
        LengthUnit::Em { value, shift } => crate::css::em_value_text(value as nat, shift as nat)
            + "em"@,
        LengthUnit::Raw { text } => text@,
    }
}

/// Whether a length's scaled value fits this machine's exact writer; every
/// length the sizing readers accept does.
pub open spec fn length_bounded(l: LengthUnit) -> bool {
    l matches LengthUnit::Em { value, shift } ==> value <= usize::MAX / 25 && shift <= 100
}

/// The value text a size writes.
pub open spec fn sizing_text(u: SizingUnit) -> Seq<char> {
    match u {
        SizingUnit::Min => "min-content"@,
        SizingUnit::Max => "max-content"@,
        SizingUnit::Auto => "auto"@,
        SizingUnit::Full => "100%"@,
        SizingUnit::Length(l) => length_text(l),
        SizingUnit::Fraction(a, b) => "calc("@ + dec_digits(a as nat) + " / "@ + dec_digits(
            b as nat,
        ) + " * 100%)"@,
    }
}

/// Whether a size's value fits the exact writer.
pub open spec fn sizing_bounded(u: SizingUnit) -> bool {
    u matches SizingUnit::Length(l) ==> length_bounded(l)
}

/// What reading a bare sizing value must yield: a fraction first, then a
/// number of quarter ems, then a length, and otherwise a value error.
pub open spec fn sizing_value_ensures(r: Result<SizingUnit, TailwindError>, t: Seq<char>) -> bool {
    &&& crate::css::fraction_spec(t) matches Some(f) ==> (r matches Ok(u) && u
        matches SizingUnit::Fraction(a, b) && a == f.0 && b == f.1)
    &&& crate::css::fraction_spec(t) is None && crate::css::decimal_spec(t) is Some ==> (r
        matches Ok(u) && u matches SizingUnit::Length(l) && (l
        matches LengthUnit::Em { value, shift } && value == crate::css::decimal_spec(
        t,
    )->Some_0.0 && shift == crate::css::decimal_spec(t)->Some_0.1))
    &&& crate::css::fraction_spec(t) is None && crate::css::decimal_spec(t) is None
        && is_length_text(t) ==> (r matches Ok(u) && u matches SizingUnit::Length(l) && l
        matches LengthUnit::Raw { text } && text@ == t)
    &&& crate::css::fraction_spec(t) is None && crate::css::decimal_spec(t) is None
        && !is_length_text(t) ==> (r matches Err(e) && e
        matches TailwindError::Value { message } && message@ == t)
}

/// Which extent a sizing rule constrains.
#[derive(Debug, PartialEq, Eq, Structural)]
pub enum TailwindSizingKind {
    Width,
    MinWidth,
    MaxWidth,
    Height,
    MinHeight,
    MaxHeight,
}

/// A width or height rule on the shared sizing scale.
#[derive(Debug)]
pub struct TailwindSizing {
    pub kind: TailwindSizingKind,
    pub size: SizingUnit,
}

impl TailwindSizing {
    /// Reads a `w-` suffix.
    pub fn parse_width(kind: &Vec<String>, arbitrary: &TailwindArbitrary) -> (r: Result<
        TailwindSizing,
        TailwindError,
    >)
        ensures
            r matches Ok(v) ==> v.kind == TailwindSizingKind::Width && sizing_unit_route(
                v.size,
                kind.deep_view(),
                arbitrary.item@,
            ),
            r matches Err(e) ==> sizing_error(e, kind.deep_view(), arbitrary.item@),
            r is Ok <==> sizing_parse_ok(kind.deep_view(), arbitrary.item@),
    {
        match SizingUnit::parse(kind, arbitrary) {
            Ok(size) => Ok(TailwindSizing { kind: TailwindSizingKind::Width, size }),
            Err(e) => Err(e),
        }
    }

    /// Reads a `max-w-` suffix.
    pub fn parse_width_max(kind: &Vec<String>, arbitrary: &TailwindArbitrary) -> (r: Result<
        TailwindSizing,
        TailwindError,
    >)
        ensures
            r matches Ok(v) ==> v.kind == TailwindSizingKind::MaxWidth && sizing_unit_route(
                v.size,
                kind.deep_view(),
                arbitrary.item@,
            ),
            r matches Err(e) ==> sizing_error(e, kind.deep_view(), arbitrary.item@),
            r is Ok <==> sizing_parse_ok(kind.deep_view(), arbitrary.item@),
    {
        match SizingUnit::parse(kind, arbitrary) {
            Ok(size) => Ok(TailwindSizing { kind: TailwindSizingKind::MaxWidth, size }),
            Err(e) => Err(e),
        }
    }

    /// Reads a `min-w-` suffix.
    pub fn parse_width_min(kind: &Vec<String>, arbitrary: &TailwindArbitrary) -> (r: Result<
        TailwindSizing,
        TailwindError,
    >)
        ensures
            r matches Ok(v) ==> v.kind == TailwindSizingKind::MinWidth && sizing_unit_route(
                v.size,
                kind.deep_view(),
                arbitrary.item@,
            ),
            r matches Err(e) ==> sizing_error(e, kind.deep_view(), arbitrary.item@),
            r is Ok <==> sizing_parse_ok(kind.deep_view(), arbitrary.item@),
    {
        match SizingUnit::parse(kind, arbitrary) {
            Ok(size) => Ok(TailwindSizing { kind: TailwindSizingKind::MinWidth, size }),
            Err(e) => Err(e),
        }
    }

    /// Reads an `h-` suffix.
    pub fn parse_height(kind: &Vec<String>, arbitrary: &TailwindArbitrary) -> (r: Result<
        TailwindSizing,
        TailwindError,
    >)
        ensures
            r matches Ok(v) ==> v.kind == TailwindSizingKind::Height && sizing_unit_route(
                v.size,
                kind.deep_view(),
                arbitrary.item@,
            ),
            r matches Err(e) ==> sizing_error(e, kind.deep_view(), arbitrary.item@),
            r is Ok <==> sizing_parse_ok(kind.deep_view(), arbitrary.item@),
    {
        match SizingUnit::parse(kind, arbitrary) {
            Ok(size) => Ok(TailwindSizing { kind: TailwindSizingKind::Height, size }),
            Err(e) => Err(e),
        }
    }

    /// Reads a `max-h-` suffix.
    pub fn parse_height_max(kind: &Vec<String>, arbitrary: &TailwindArbitrary) -> (r: Result<
        TailwindSizing,
        TailwindError,
    >)
        ensures
            r matches Ok(v) ==> v.kind == TailwindSizingKind::MaxHeight && sizing_unit_route(
                v.size,
                kind.deep_view(),
                arbitrary.item@,
            ),
            r matches Err(e) ==> sizing_error(e, kind.deep_view(), arbitrary.item@),
            r is Ok <==> sizing_parse_ok(kind.deep_view(), arbitrary.item@),
    {
        match SizingUnit::parse(kind, arbitrary) {
            Ok(size) => Ok(TailwindSizing { kind: TailwindSizingKind::MaxHeight, size }),
            Err(e) => Err(e),
        }
    }

    /// Reads a `min-h-` suffix.
    pub fn parse_height_min(kind: &Vec<String>, arbitrary: &TailwindArbitrary) -> (r: Result<
        TailwindSizing,
        TailwindError,
    >)
        ensures
            r matches Ok(v) ==> v.kind == TailwindSizingKind::MinHeight && sizing_unit_route(
                v.size,
                kind.deep_view(),
                arbitrary.item@,
            ),
            r matches Err(e) ==> sizing_error(e, kind.deep_view(), arbitrary.item@),
            r is Ok <==> sizing_parse_ok(kind.deep_view(), arbitrary.item@),
    {
        match SizingUnit::parse(kind, arbitrary) {
            Ok(size) => Ok(TailwindSizing { kind: TailwindSizingKind::MinHeight, size }),
            Err(e) => Err(e),
        }
    }

    /// The property name this rule writes.
    pub fn property(&self) -> (r: &'static str)
        ensures
            r@ == sizing_property(self.kind),
    {
        proof {
            reveal_strlit("width");
            reveal_strlit("min-width");
            reveal_strlit("max-width");
            reveal_strlit("height");
            reveal_strlit("min-height");
            reveal_strlit("max-height");
        }
        match self.kind {
            TailwindSizingKind::Width => "width",
            TailwindSizingKind::MinWidth => "min-width",
            TailwindSizingKind::MaxWidth => "max-width",
            TailwindSizingKind::Height => "height",
            TailwindSizingKind::MinHeight => "min-height",
            TailwindSizingKind::MaxHeight => "max-height",
        }
    }

    /// The one property this rule writes.
    pub fn attributes(&self) -> (r: CssAttributes)
        ensures
            r.view_pairs().len() == 1,
            r.view_pairs()[0].0 == sizing_property(self.kind),
            sizing_bounded(self.size) ==> r.view_pairs() =~= seq![
                (sizing_property(self.kind), sizing_text(self.size)),
            ],
            r.wf(),
    {
        let mut out = CssAttributes::new();
        let prop = self.property();
        out.insert(prop.to_owned(), self.size.get_properties());
        out
    }
}

/// The property name each sizing kind writes.
pub open spec fn sizing_property(k: TailwindSizingKind) -> Seq<char> {
    match k {
        TailwindSizingKind::Width => "width"@,
        TailwindSizingKind::MinWidth => "min-width"@,
        TailwindSizingKind::MaxWidth => "max-width"@,
        TailwindSizingKind::Height => "height"@,
        TailwindSizingKind::MinHeight => "min-height"@,
        TailwindSizingKind::MaxHeight => "max-height"@,
    }
}


/// What the size of an accepted sizing suffix must be: the keyword scale,
/// then a bare value read as a fraction, quarter ems, or a length.
pub open spec fn sizing_unit_route(u: SizingUnit, p: Seq<Seq<char>>, arb: Seq<char>) -> bool {
    if p.len() == 1 {
        if p[0] == "min"@ {
            u is Min
        } else if p[0] == "max"@ {
            u is Max
        } else if p[0] == "auto"@ {
            u is Auto
        } else if p[0] == "full"@ {
            u is Full
        } else if p[0] == "px"@ {
            u matches SizingUnit::Length(l) && (l matches LengthUnit::Em { value, shift } && value
                == 4 && shift == 0)
        } else {
            sizing_value_route(u, p[0])
        }
    } else if p.len() == 0 {
        sizing_value_route(u, arb)
    } else {
        false
    }
}

/// What a bare sizing value must be read as.
pub open spec fn sizing_value_route(u: SizingUnit, t: Seq<char>) -> bool {
    if crate::css::fraction_spec(t) is Some {
        u matches SizingUnit::Fraction(a, b) && a == crate::css::fraction_spec(t)->Some_0.0 && b
            == crate::css::fraction_spec(t)->Some_0.1
    } else if crate::css::decimal_spec(t) is Some {
        u matches SizingUnit::Length(l) && (l matches LengthUnit::Em { value, shift } && value
            == crate::css::decimal_spec(t)->Some_0.0 && shift == crate::css::decimal_spec(
            t,
        )->Some_0.1)
    } else if is_length_text(t) {
        u matches SizingUnit::Length(l) && l matches LengthUnit::Raw { text } && text@ == t
    } else {
        false
    }
}


/// The error an unacceptable sizing suffix gives: too many entries are a
/// syntax error carrying the joined suffix, a bad single value a value
/// error carrying that value's text.
pub open spec fn sizing_error(e: TailwindError, p: Seq<Seq<char>>, arb: Seq<char>) -> bool {
    if p.len() > 1 {
        e matches TailwindError::Syntax { message } && message@ == join_seq(p, "-"@)
    } else {
        let t = if p.len() == 1 {
            p[0]
        } else {
            arb
        };
        e matches TailwindError::Value { message } && message@ == t
    }
}

/// Whether a sizing suffix with this arbitrary text is accepted.
pub open spec fn sizing_parse_ok(p: Seq<Seq<char>>, arb: Seq<char>) -> bool {
    if p.len() == 1 {
        if p[0] == "min"@ || p[0] == "max"@ || p[0] == "auto"@ || p[0] == "full"@ || p[0]
            == "px"@ {
            true
        } else {
            sizing_value_ok(p[0])
        }
    } else if p.len() == 0 {
        sizing_value_ok(arb)
    } else {
        false
    }
}

/// Whether a bare sizing value of this text is accepted.
pub open spec fn sizing_value_ok(t: Seq<char>) -> bool {
    crate::css::fraction_spec(t) is Some || crate::css::decimal_spec(t) is Some
        || is_length_text(t)
}

// ---------------------------------------------------------------------------
// Placement: right
// ---------------------------------------------------------------------------

/// A `right` placement rule on the sizing scale, signed by the class.
#[derive(Debug)]
pub struct TailwindRight {
    pub negative: bool,
    pub kind: SizingUnit,
}

impl TailwindRight {
    /// Reads a `right-` suffix on the sizing scale.
    pub fn parse(kind: &Vec<String>, arbitrary: &TailwindArbitrary, negative: bool) -> (r: Result<
        TailwindRight,
        TailwindError,
    >)
        ensures
            r matches Ok(v) ==> v.negative == negative && sizing_unit_route(
                v.kind,
                kind.deep_view(),
                arbitrary.item@,
            ),
            r matches Err(e) ==> sizing_error(e, kind.deep_view(), arbitrary.item@),
            r is Ok <==> sizing_parse_ok(kind.deep_view(), arbitrary.item@),
    {
        match SizingUnit::parse(kind, arbitrary) {
            Ok(k) => Ok(TailwindRight { negative, kind: k }),
            Err(e) => Err(e),
        }
    }

    /// Reads the arbitrary value as the placement size.
    pub fn parse_arbitrary(arbitrary: &TailwindArbitrary, negative: bool) -> (r: Result<
        TailwindRight,
        TailwindError,
    >)
        ensures
            r matches Ok(v) ==> v.negative == negative,
            r matches Err(e) ==> (e matches TailwindError::Value { message } && message@
                == arbitrary.item@),
            r is Ok <==> sizing_value_ok(arbitrary.item@),
    {
        match SizingUnit::parse_arbitrary(arbitrary) {
            Ok(k) => Ok(TailwindRight { negative, kind: k }),
            Err(e) => Err(e),
        }
    }

    /// The one property this rule writes, negated where the class was.
    pub fn attributes(&self) -> (r: CssAttributes)
        ensures
            r.view_pairs().len() == 1,
            r.view_pairs()[0].0 == "right"@,
            sizing_bounded(self.kind) ==> r.view_pairs() =~= seq![
                ("right"@, (if self.negative {
                    "-"@
                } else {
                    Seq::<char>::empty()
                }) + sizing_text(self.kind)),
            ],
            self.negative ==> r.view_pairs()[0].1[0] == '-',
            r.wf(),
    {
        let mut out = CssAttributes::new();
        let mut v = String::new();
        if self.negative {
            v.append("-");
            proof {
                reveal_strlit("-");
            }
        }
        let t = self.kind.get_properties();
        v.append(t.as_str());
        proof {
            if self.negative {
                assert(v@[0] == '-');
            }
        }
        out.insert("right".to_owned(), v);
        out
    }
}


// ---------------------------------------------------------------------------
// Background image
// ---------------------------------------------------------------------------

/// A `background-image` value: a global keyword or a raw arbitrary value.
#[derive(Debug)]
pub enum BackgroundImage {
    Standard(String),
    Arbitrary(TailwindArbitrary),
}

/// The global keywords a background image accepts.
pub open spec fn bg_image_keyword(s: Seq<char>) -> bool {
    s == "inherit"@ || s == "initial"@ || s == "none"@ || s == "revert"@ || s == "unset"@
}

impl BackgroundImage {
    /// Reads a background-image suffix: empty takes the arbitrary value, a
    /// single global keyword stands as written.
    pub fn parse(pattern: &Vec<String>, arbitrary: &TailwindArbitrary) -> (r: Result<
        BackgroundImage,
        TailwindError,
    >)
        ensures
            ({
                let p = pattern.deep_view();
                if p.len() == 0 {
                    bg_arbitrary_ensures(r, arbitrary.item@)
                } else if p.len() == 1 && bg_image_keyword(p[0]) {
                    r matches Ok(b) && b matches BackgroundImage::Standard(s) && s@ == p[0]
                } else {
                    r matches Err(e) && e is Syntax
                }
            }),
    {
        if pattern.len() == 0 {
            return Self::parse_arbitrary(arbitrary);
        }
        if pattern.len() == 1 && Self::check_valid(pattern[0].as_str()) {
            return Ok(BackgroundImage::Standard(clone_string(&pattern[0])));
        }
        Err(TailwindError::Syntax { message: join_strings(pattern, "-") })
    }

    /// Takes the arbitrary value as the image text.
    pub fn parse_arbitrary(arbitrary: &TailwindArbitrary) -> (r: Result<
        BackgroundImage,
        TailwindError,
    >)
        ensures
            bg_arbitrary_ensures(r, arbitrary.item@),
    {
        if arbitrary.is_empty() {
            Err(TailwindError::Value { message: arbitrary.get_class() })
        } else {
            Ok(BackgroundImage::Arbitrary(TailwindArbitrary::new(arbitrary)))
        }
    }

    /// Whether `mode` is a global keyword a background image accepts.
    pub fn check_valid(mode: &str) -> (r: bool)
        ensures
            r == bg_image_keyword(mode@),
    {
        str_eq(mode, "inherit") || str_eq(mode, "initial") || str_eq(mode, "none") || str_eq(
            mode,
            "revert",
        ) || str_eq(mode, "unset")
    }

    /// The text this image writes into its property.
    pub fn get_properties(&self) -> (r: String)
        ensures
            self matches BackgroundImage::Standard(s) ==> r@ == s@,
            self matches BackgroundImage::Arbitrary(a) ==> r@ == a.item@,
    {
        match self {
            BackgroundImage::Standard(s) => clone_string(s),
            BackgroundImage::Arbitrary(a) => a.get_class(),
        }
    }
}

/// What taking a background image from an arbitrary value must yield.
pub open spec fn bg_arbitrary_ensures(
    r: Result<BackgroundImage, TailwindError>,
    t: Seq<char>,
) -> bool {
    if t.len() > 0 {
        r matches Ok(b) && b matches BackgroundImage::Arbitrary(a) && a.item@ == t
    } else {
        r matches Err(e) && e is Value
    }
}

/// A `background-image` rule.
#[derive(Debug)]
pub struct TailwindBackgroundImage {
    pub kind: BackgroundImage,
}

impl TailwindBackgroundImage {
    /// Reads a background-image suffix.
    pub fn parse(pattern: &Vec<String>, arbitrary: &TailwindArbitrary) -> (r: Result<
        TailwindBackgroundImage,
        TailwindError,
    >)
        ensures
            ({
                let p = pattern.deep_view();
                if p.len() == 0 {
                    (if arbitrary.item@.len() > 0 {
                        r matches Ok(b) && b.kind matches BackgroundImage::Arbitrary(a) && a.item@
                            == arbitrary.item@
                    } else {
                        r matches Err(e) && e is Value
                    })
                } else if p.len() == 1 && bg_image_keyword(p[0]) {
                    r matches Ok(b) && b.kind matches BackgroundImage::Standard(s) && s@ == p[0]
                } else {
                    r matches Err(e) && e is Syntax
                }
            }),
    {
        match BackgroundImage::parse(pattern, arbitrary) {
            Ok(kind) => Ok(TailwindBackgroundImage { kind }),
            Err(e) => Err(e),
        }
    }

    /// Takes the arbitrary value as the image.
    pub fn parse_arbitrary(arbitrary: &TailwindArbitrary) -> (r: Result<
        TailwindBackgroundImage,
        TailwindError,
    >)
        ensures
            arbitrary.item@.len() > 0 ==> (r matches Ok(b) && b.kind
                matches BackgroundImage::Arbitrary(a) && a.item@ == arbitrary.item@),
            arbitrary.item@.len() == 0 ==> (r matches Err(e) && e is Value),
    {
        match BackgroundImage::parse_arbitrary(arbitrary) {
            Ok(kind) => Ok(TailwindBackgroundImage { kind }),
            Err(e) => Err(e),
        }
    }

    /// The one property this rule writes.
    pub fn attributes(&self) -> (r: CssAttributes)
        ensures
            self.kind matches BackgroundImage::Standard(s) ==> r.view_pairs() =~= seq![
                ("background-image"@, s@),
            ],
            self.kind matches BackgroundImage::Arbitrary(a) ==> r.view_pairs() =~= seq![
                ("background-image"@, a.item@),
            ],
            r.wf(),
    {
        let mut out = CssAttributes::new();
        out.insert("background-image".to_owned(), self.kind.get_properties());
        out
    }
}

// ---------------------------------------------------------------------------
// Colors and the palette
// ---------------------------------------------------------------------------

/// One palette entry: a themed color name, its weight, and the hex text.
#[derive(Debug)]
pub struct PaletteEntry {
    pub name: String,
    pub weight: usize,
    pub hex: String,
}

/// The build-time color palette the resolvers look themed colors up in.
#[derive(Debug)]
pub struct Palette {
    pub entries: Vec<PaletteEntry>,
}

/// The palette as (name, weight, hex) triples.
pub open spec fn palette_view(p: Palette) -> Seq<(Seq<char>, nat, Seq<char>)> {
    Seq::new(p.entries@.len(), |i: int| (p.entries@[i].name@, p.entries@[i].weight as nat,
        p.entries@[i].hex@))
}

/// The hex text of the first palette entry with this name and weight.
pub open spec fn palette_lookup(
    ps: Seq<(Seq<char>, nat, Seq<char>)>,
    name: Seq<char>,
    weight: nat,
) -> Option<Seq<char>>
    decreases ps.len(),
{
    if ps.len() == 0 {
        None
    } else if ps[0].0 == name && ps[0].1 == weight {
        Some(ps[0].2)
    } else {
        palette_lookup(ps.drop_first(), name, weight)
    }
}

impl Palette {
    /// An empty palette.
    pub fn new() -> (r: Palette)
        ensures
            palette_view(r) =~= Seq::<(Seq<char>, nat, Seq<char>)>::empty(),
    {
        Palette { entries: Vec::new() }
    }

    /// Registers one themed color.
    pub fn register(&mut self, name: String, weight: usize, hex: String)
        ensures
            palette_view(*final(self)) =~= palette_view(*old(self)).push(
                (name@, weight as nat, hex@),
            ),
    {
        self.entries.push(PaletteEntry { name, weight, hex });
    }

    /// The handful of themed colors every build starts with.
    pub fn builtin() -> (r: Palette)
        ensures
            palette_view(r).len() == 8,
    {
        let mut p = Palette::new();
        p.register("red".to_owned(), 500, "#ef4444".to_owned());
        p.register("red".to_owned(), 600, "#dc2626".to_owned());
        p.register("blue".to_owned(), 500, "#3b82f6".to_owned());
        p.register("green".to_owned(), 500, "#22c55e".to_owned());
        p.register("gray".to_owned(), 100, "#f3f4f6".to_owned());
        p.register("gray".to_owned(), 500, "#6b7280".to_owned());
        p.register("gray".to_owned(), 900, "#111827".to_owned());
        p.register("yellow".to_owned(), 500, "#eab308".to_owned());
        p
    }

    /// Looks a themed color up.
    pub fn lookup(&self, name: &str, weight: usize) -> (r: Option<String>)
        ensures
            palette_lookup(palette_view(*self), name@, weight as nat) matches Some(h) ==> (r
                matches Some(s) && s@ == h),
            palette_lookup(palette_view(*self), name@, weight as nat) is None ==> r is None,
    {
        let ghost ps = palette_view(*self);
        proof {
            assert(ps.skip(0) =~= ps);
        }
        let mut i: usize = 0;
        while i < self.entries.len()
            invariant
                ps == palette_view(*self),
                0 <= i <= self.entries@.len(),
                ps.len() == self.entries@.len(),
                palette_lookup(ps, name@, weight as nat) == palette_lookup(
                    ps.skip(i as int),
                    name@,
                    weight as nat,
                ),
            decreases self.entries@.len() - i,
        {
            proof {
                assert(ps.skip(i as int)[0] == ps[i as int]);
                assert(ps.skip(i as int).drop_first() =~= ps.skip(i + 1));
            }
            if str_eq(self.entries[i].name.as_str(), name) && self.entries[i].weight == weight {
                return Some(clone_string(&self.entries[i].hex));
            }
            i += 1;
        }
        proof {
            assert(ps.skip(ps.len() as int).len() == 0);
        }
        None
    }
}

/// A color value: a global keyword, plain black or white, or a themed
/// palette color.
#[derive(Debug)]
pub enum TailwindColor {
    Inherit,
    Current,
    Transparent,
    Black,
    White,
    Themed { name: String, weight: usize },
}

impl TailwindColor {
    /// Reads a themed color from its name and weight suffix.
    pub fn parse(color: &str, weight: &str) -> (r: Result<TailwindColor, TailwindError>)
        ensures
            int_text(weight@) ==> (r matches Ok(c) && c matches TailwindColor::Themed {
                name,
                weight: w,
            } && name@ == color@ && w == digits_value(weight@)),
            !int_text(weight@) ==> (r matches Err(e) && e matches TailwindError::Value { message }
                && message@ == weight@),
    {
        match crate::text::parse_usize(weight) {
            Some(w) => Ok(TailwindColor::Themed { name: color.to_owned(), weight: w }),
            None => Err(TailwindError::Value { message: weight.to_owned() }),
        }
    }

    /// The value text this color writes, looked up in the palette; an
    /// unregistered themed color falls back to `currentColor`.
    pub fn get_properties(&self, palette: &Palette) -> (r: String)
        ensures
            r@ == color_text(*self, palette_view(*palette)),
    {
        match self {
            TailwindColor::Inherit => "inherit".to_owned(),
            TailwindColor::Current => "currentColor".to_owned(),
            TailwindColor::Transparent => "transparent".to_owned(),
            TailwindColor::Black => "#000000".to_owned(),
            TailwindColor::White => "#ffffff".to_owned(),
            TailwindColor::Themed { name, weight } => {
                match palette.lookup(name.as_str(), *weight) {
                    Some(h) => h,
                    None => "currentColor".to_owned(),
                }
            },
        }
    }
}


/// The value text a color writes, looked up in the palette; an
/// unregistered themed color falls back to `currentColor`.
pub open spec fn color_text(c: TailwindColor, ps: Seq<(Seq<char>, nat, Seq<char>)>) -> Seq<char> {
    match c {
        TailwindColor::Inherit => "inherit"@,
        TailwindColor::Current => "currentColor"@,
        TailwindColor::Transparent => "transparent"@,
        TailwindColor::Black => "#000000"@,
        TailwindColor::White => "#ffffff"@,
        TailwindColor::Themed { name, weight } => match palette_lookup(ps, name@, weight as nat) {
            Option::Some(h) => h,
            Option::None => "currentColor"@,
        },
    }
}

/// A `background-color` rule.
#[derive(Debug)]
pub struct TailwindBackgroundColor {
    pub color: TailwindColor,
}

impl TailwindBackgroundColor {
    /// Wraps a color as a background rule.
    pub fn new(color: TailwindColor) -> (r: TailwindBackgroundColor)
        ensures
            r.color == color,
    {
        TailwindBackgroundColor { color }
    }

    /// The one property this rule writes.
    pub fn attributes(&self, palette: &Palette) -> (r: CssAttributes)
        ensures
            r.view_pairs() =~= seq![
                ("background-color"@, color_text(self.color, palette_view(*palette))),
            ],
            r.wf(),
    {
        let mut out = CssAttributes::new();
        out.insert("background-color".to_owned(), self.color.get_properties(palette));
        out
    }
}

/// A text `color` rule.
#[derive(Debug)]
pub struct TailwindTextColor {
    pub color: TailwindColor,
}

impl TailwindTextColor {
    /// Wraps a color as a text-color rule.
    pub fn new(color: TailwindColor) -> (r: TailwindTextColor)
        ensures
            r.color == color,
    {
        TailwindTextColor { color }
    }

    /// The one property this rule writes.
    pub fn attributes(&self, palette: &Palette) -> (r: CssAttributes)
        ensures
            r.view_pairs() =~= seq![("color"@, color_text(self.color, palette_view(*palette)))],
            r.wf(),
    {
        let mut out = CssAttributes::new();
        out.insert("color".to_owned(), self.color.get_properties(palette));
        out
    }
}

// ---------------------------------------------------------------------------
// Keyword helper and scroll snapping
// ---------------------------------------------------------------------------

/// A keyword instance with a fixed property and value, for the dispatcher
/// arms whose resolution is a single known pair.
pub fn kw(property: &str, value: &str) -> (r: KeywordInstance)
    ensures
        r.pattern@ == property@,
        r.value matches StandardValue::Keyword(s) && s@ == value@,
{
    KeywordInstance { pattern: property.to_owned(), value: StandardValue::Keyword(value.to_owned()) }
}

/// The scroll snapping rules.
#[derive(Debug, Clone, Copy)]
pub struct TailwindSnap {}

/// Whether `r` is the keyword-instance outcome that `KeywordInstance::parse`
/// gives for the property `id`, the suffix `p`, the vocabulary `valid` and
/// the arbitrary text `arb`.
pub open spec fn keyword_instance_route(
    r: Result<KeywordInstance, TailwindError>,
    id: Seq<char>,
    p: Seq<Seq<char>>,
    valid: Seq<Seq<char>>,
    arb: Seq<char>,
) -> bool {
    if p.len() == 0 && arb.len() > 0 {
        r matches Ok(k) && k.pattern@ == id && (k.value matches StandardValue::Arbitrary(a)
            && a.item@ == arb)
    } else if p.len() == 0 {
        r matches Err(e) && e matches TailwindError::Value { message } && message@ == id
    } else {
        let joined = join_seq(p, "-"@);
        if valid.contains(joined) {
            r matches Ok(k) && k.pattern@ == id && (k.value matches StandardValue::Keyword(s)
                && s@ == joined)
        } else {
            r matches Err(e) && e matches TailwindError::Syntax { message } && message@ == id
                + ": "@ + joined
        }
    }
}

impl TailwindSnap {
    /// Routes a `snap-` suffix: a bare alignment or stop keyword stands as
    /// written, an `align`/`stop` head reads its own vocabulary, and any
    /// other suffix is read as a scroll-snap-type.
    pub fn adapt(pattern: &Vec<String>, arbitrary: &TailwindArbitrary) -> (r: Result<
        KeywordInstance,
        TailwindError,
    >)
        ensures
            ({
                let p = pattern.deep_view();
                let arb = arbitrary.item@;
                if p.len() == 1 && (p[0] == "start"@ || p[0] == "end"@ || p[0] == "center"@) {
                    r matches Ok(k) && k.pattern@ == "scroll-snap-align"@ && (k.value
                        matches StandardValue::Keyword(s) && s@ == p[0])
                } else if p.len() == 1 && (p[0] == "normal"@ || p[0] == "always"@) {
                    r matches Ok(k) && k.pattern@ == "scroll-snap-stop"@ && (k.value
                        matches StandardValue::Keyword(s) && s@ == p[0])
                } else if p.len() >= 1 && p[0] == "align"@ {
                    keyword_instance_route(
                        r,
                        "scroll-snap-align"@,
                        p.skip(1),
                        seq!["start"@, "end"@, "center"@, "none"@],
                        arb,
                    )
                } else if p.len() >= 1 && p[0] == "stop"@ {
                    keyword_instance_route(
                        r,
                        "scroll-snap-stop"@,
                        p.skip(1),
                        seq!["normal"@, "always"@],
                        arb,
                    )
                } else {
                    keyword_instance_route(
                        r,
                        "scroll-snap-type"@,
                        p,
                        seq!["x"@, "y"@, "both"@, "none"@, "mandatory"@, "proximity"@],
                        arb,
                    )
                }
            }),
    {
        if pattern.len() == 1 && (string_eq(&pattern[0], "start") || string_eq(&pattern[0], "end")
            || string_eq(&pattern[0], "center")) {
            return Ok(kw("scroll-snap-align", pattern[0].as_str()));
        }
        if pattern.len() == 1 && (string_eq(&pattern[0], "normal") || string_eq(
            &pattern[0],
            "always",
        )) {
            return Ok(kw("scroll-snap-stop", pattern[0].as_str()));
        }
        if pattern.len() >= 1 && string_eq(&pattern[0], "align") {
            let rest = tail_strings(pattern, 1);
            let valid: Vec<&str> = vec!["start", "end", "center", "none"];
            proof {
                assert(valid.deep_view() =~= seq!["start"@, "end"@, "center"@, "none"@]);
            }
            return KeywordInstance::parse("scroll-snap-align", &rest, &valid, arbitrary);
        }
        if pattern.len() >= 1 && string_eq(&pattern[0], "stop") {
            let rest = tail_strings(pattern, 1);
            let valid: Vec<&str> = vec!["normal", "always"];
            proof {
                assert(valid.deep_view() =~= seq!["normal"@, "always"@]);
            }
            return KeywordInstance::parse("scroll-snap-stop", &rest, &valid, arbitrary);
        }
        let valid: Vec<&str> = vec!["x", "y", "both", "none", "mandatory", "proximity"];
        proof {
            assert(valid.deep_view() =~= seq![
                "x"@,
                "y"@,
                "both"@,
                "none"@,
                "mandatory"@,
                "proximity"@,
            ]);
        }
        KeywordInstance::parse("scroll-snap-type", pattern, &valid, arbitrary)
    }
}

/// The entries of `v` from `from` on, as owned copies.
pub fn tail_strings(v: &Vec<String>, from: usize) -> (r: Vec<String>)
    requires
        from <= v@.len(),
    ensures
        r.deep_view() == v.deep_view().skip(from as int),
        r@.len() == v@.len() - from,
{
    let mut out: Vec<String> = Vec::new();
    let mut i: usize = from;
    while i < v.len()
        invariant
            from <= i <= v@.len(),
            out@.len() == i - from,
            forall|j: int| 0 <= j < out@.len() ==> out@[j]@ == v@[from + j]@,
        decreases v@.len() - i,
    {
        out.push(clone_string(&v[i]));
        i += 1;
    }
    proof {
        assert(out.deep_view() =~= v.deep_view().skip(from as int));
    }
    out
}


// ---------------------------------------------------------------------------
// Typography
// ---------------------------------------------------------------------------

/// A font size step: the size and line height in quarter rems.
#[derive(Debug, PartialEq, Eq, Structural)]
pub struct TailwindFontSize {
    pub size_quarters: usize,
    pub height_quarters: usize,
}

impl TailwindFontSize {
    /// A font size of `size / 4` rem with a line height of `height / 4`
    /// rem.
    pub fn new(size_quarters: usize, height_quarters: usize) -> (r: TailwindFontSize)
        ensures
            r.size_quarters == size_quarters,
            r.height_quarters == height_quarters,
    {
        TailwindFontSize { size_quarters, height_quarters }
    }

    /// The two properties this step writes.
    pub fn attributes(&self) -> (r: CssAttributes)
        ensures
            r.view_pairs() =~= seq![
                ("font-size"@, quarters_text(self.size_quarters as nat) + "rem"@),
                ("line-height"@, quarters_text(self.height_quarters as nat) + "rem"@),
            ],
            r.wf(),
    {
        proof {
            reveal_strlit("font-size");
            reveal_strlit("line-height");
        }
        assert("font-size"@.len() == 9);
        assert("line-height"@.len() == 11);
        assert("font-size"@ != "line-height"@);
        let mut out = CssAttributes::new();
        let mut fs = crate::css::fmt_quarters(self.size_quarters);
        fs.append("rem");
        let mut lh = crate::css::fmt_quarters(self.height_quarters);
        lh.append("rem");
        crate::css::push_fresh(&mut out, "font-size", fs);
        crate::css::push_fresh(&mut out, "line-height", lh);
        proof {
            assert(out.view_pairs() =~= seq![
                ("font-size"@, quarters_text(self.size_quarters as nat) + "rem"@),
                ("line-height"@, quarters_text(self.height_quarters as nat) + "rem"@),
            ]);
        }
        out
    }
}

/// Font smoothing: antialiased, or back to subpixel rendering.
#[derive(Debug, PartialEq, Eq, Structural)]
pub struct TailwindFontSmoothing {
    pub subpixel: bool,
}

impl TailwindFontSmoothing {
    /// Antialiased smoothing, or the subpixel default.
    pub fn new(subpixel: bool) -> (r: TailwindFontSmoothing)
        ensures
            r.subpixel == subpixel,
    {
        TailwindFontSmoothing { subpixel }
    }

    /// The two smoothing properties.
    pub fn attributes(&self) -> (r: CssAttributes)
        ensures
            !self.subpixel ==> r.view_pairs() =~= seq![
                ("-webkit-font-smoothing"@, "antialiased"@),
                ("-moz-osx-font-smoothing"@, "grayscale"@),
            ],
            self.subpixel ==> r.view_pairs() =~= seq![
                ("-webkit-font-smoothing"@, "auto"@),
                ("-moz-osx-font-smoothing"@, "auto"@),
            ],
            r.wf(),
    {
        proof {
            reveal_strlit("-webkit-font-smoothing");
            reveal_strlit("-moz-osx-font-smoothing");
            assert("-webkit-font-smoothing"@.len() == 22);
            assert("-moz-osx-font-smoothing"@.len() == 23);
            assert("-webkit-font-smoothing"@ != "-moz-osx-font-smoothing"@);
        }
        let mut out = CssAttributes::new();
        if self.subpixel {
            crate::css::push_fresh(&mut out, "-webkit-font-smoothing", "auto".to_owned());
            crate::css::push_fresh(&mut out, "-moz-osx-font-smoothing", "auto".to_owned());
        } else {
            crate::css::push_fresh(&mut out, "-webkit-font-smoothing", "antialiased".to_owned());
            crate::css::push_fresh(&mut out, "-moz-osx-font-smoothing", "grayscale".to_owned());
        }
        proof {
            if self.subpixel {
                assert(out.view_pairs() =~= seq![
                    ("-webkit-font-smoothing"@, "auto"@),
                    ("-moz-osx-font-smoothing"@, "auto"@),
                ]);
            } else {
                assert(out.view_pairs() =~= seq![
                    ("-webkit-font-smoothing"@, "antialiased"@),
                    ("-moz-osx-font-smoothing"@, "grayscale"@),
                ]);
            }
        }
        out
    }
}

/// The screen-reader-only rules: visually hidden but read aloud, or the
/// reverse of them.
#[derive(Debug, PartialEq, Eq, Structural)]
pub struct TailwindScreenReader {
    pub sr_only: bool,
}

impl TailwindScreenReader {
    /// Visually hidden (`true`) or restored (`false`).
    pub fn new(sr_only: bool) -> (r: TailwindScreenReader)
        ensures
            r.sr_only == sr_only,
    {
        TailwindScreenReader { sr_only }
    }

    /// The block of properties that hides an element visually, or undoes
    /// it.
    pub fn attributes(&self) -> (r: CssAttributes)
        ensures
            self.sr_only ==> r.view_pairs() =~= seq![
                ("position"@, "absolute"@),
                ("width"@, "1px"@),
                ("height"@, "1px"@),
                ("margin"@, "-1px"@),
                ("overflow"@, "hidden"@),
                ("white-space"@, "nowrap"@),
            ],
            !self.sr_only ==> r.view_pairs() =~= seq![
                ("position"@, "static"@),
                ("width"@, "auto"@),
                ("height"@, "auto"@),
                ("margin"@, "0"@),
                ("overflow"@, "visible"@),
                ("white-space"@, "normal"@),
            ],
            r.view_pairs().len() == 6,
            r.wf(),
    {
        proof {
            reveal_strlit("position");
            reveal_strlit("width");
            reveal_strlit("height");
            reveal_strlit("margin");
            reveal_strlit("overflow");
            reveal_strlit("white-space");
            assert("position"@.len() == 8);
            assert("width"@.len() == 5);
            assert("height"@.len() == 6);
            assert("margin"@.len() == 6);
            assert("overflow"@.len() == 8);
            assert("white-space"@.len() == 11);
            assert("height"@[0] == 'h' && "margin"@[0] == 'm');
            assert("position"@[0] == 'p' && "overflow"@[0] == 'o');
            assert("position"@ != "width"@ && "position"@ != "height"@ && "position"@
                != "margin"@ && "position"@ != "overflow"@ && "position"@ != "white-space"@);
            assert("width"@ != "height"@ && "width"@ != "margin"@ && "width"@ != "overflow"@
                && "width"@ != "white-space"@);
            assert("height"@ != "margin"@ && "height"@ != "overflow"@ && "height"@
                != "white-space"@);
            assert("margin"@ != "overflow"@ && "margin"@ != "white-space"@);
            assert("overflow"@ != "white-space"@);
        }
        let mut out = CssAttributes::new();
        if self.sr_only {
            crate::css::push_fresh(&mut out, "position", "absolute".to_owned());
            crate::css::push_fresh(&mut out, "width", "1px".to_owned());
            crate::css::push_fresh(&mut out, "height", "1px".to_owned());
            crate::css::push_fresh(&mut out, "margin", "-1px".to_owned());
            crate::css::push_fresh(&mut out, "overflow", "hidden".to_owned());
            crate::css::push_fresh(&mut out, "white-space", "nowrap".to_owned());
        } else {
            crate::css::push_fresh(&mut out, "position", "static".to_owned());
            crate::css::push_fresh(&mut out, "width", "auto".to_owned());
            crate::css::push_fresh(&mut out, "height", "auto".to_owned());
            crate::css::push_fresh(&mut out, "margin", "0".to_owned());
            crate::css::push_fresh(&mut out, "overflow", "visible".to_owned());
            crate::css::push_fresh(&mut out, "white-space", "normal".to_owned());
        }
        out
    }
}

// ---------------------------------------------------------------------------
// Spacing
// ---------------------------------------------------------------------------

/// Which edges a spacing rule touches.
#[derive(Debug, PartialEq, Eq, Structural)]
pub enum SpacingEdge {
    All,
    Left,
    Right,
    Top,
    Bottom,
    AxisX,
    AxisY,
}

/// A margin or padding rule on the sizing scale.
#[derive(Debug)]
pub struct TailwindSpacing {
    /// Margin (`true`) or padding (`false`).
    pub margin: bool,
    pub edge: SpacingEdge,
    pub size: SizingUnit,
    pub negative: bool,
}

/// The edge a spacing code letter names, once the leading `p` or `m` is
/// dropped: nothing for all edges, then `l`, `r`, `t`, `m`, `x` or `y`.
pub open spec fn spacing_edge_spec(code: Seq<char>) -> Option<SpacingEdge> {
    if code.len() == 1 {
        Some(SpacingEdge::All)
    } else if code.len() == 2 && code[1] == 'l' {
        Some(SpacingEdge::Left)
    } else if code.len() == 2 && code[1] == 'r' {
        Some(SpacingEdge::Right)
    } else if code.len() == 2 && code[1] == 't' {
        Some(SpacingEdge::Top)
    } else if code.len() == 2 && code[1] == 'm' {
        Some(SpacingEdge::Bottom)
    } else if code.len() == 2 && code[1] == 'x' {
        Some(SpacingEdge::AxisX)
    } else if code.len() == 2 && code[1] == 'y' {
        Some(SpacingEdge::AxisY)
    } else {
        None
    }
}

/// Reads the edge from a spacing code such as `p`, `pl` or `my`.
fn spacing_edge(code: &str) -> (r: Option<SpacingEdge>)
    ensures
        r == spacing_edge_spec(code@),
{
    let n = code.unicode_len();
    if n == 1 {
        Some(SpacingEdge::All)
    } else if n == 2 {
        let c = code.get_char(1);
        if c == 'l' {
            Some(SpacingEdge::Left)
        } else if c == 'r' {
            Some(SpacingEdge::Right)
        } else if c == 't' {
            Some(SpacingEdge::Top)
        } else if c == 'm' {
            Some(SpacingEdge::Bottom)
        } else if c == 'x' {
            Some(SpacingEdge::AxisX)
        } else if c == 'y' {
            Some(SpacingEdge::AxisY)
        } else {
            None
        }
    } else {
        None
    }
}

impl TailwindSpacing {
    /// Reads a padding suffix under the code `p`, `pl`, `pr`, `pt`, `pm`,
    /// `px` or `py`.
    pub fn parse_padding(pattern: &Vec<String>, code: &str, arbitrary: &TailwindArbitrary) -> (r:
        Result<TailwindSpacing, TailwindError>)
        ensures
            spacing_edge_spec(code@) is None ==> (r matches Err(e) && e
                matches TailwindError::Syntax { message } && message@ == code@),
            spacing_edge_spec(code@) matches Some(edge) ==> (r matches Ok(s) ==> (!s.margin
                && !s.negative && s.edge == edge && sizing_unit_route(
                s.size,
                pattern.deep_view(),
                arbitrary.item@,
            ))) && (r matches Err(e) ==> sizing_error(e, pattern.deep_view(), arbitrary.item@))
                && (r is Ok <==> sizing_parse_ok(pattern.deep_view(), arbitrary.item@)),
    {
        match spacing_edge(code) {
            Some(edge) => {
                match SizingUnit::parse(pattern, arbitrary) {
                    Ok(size) => Ok(TailwindSpacing { margin: false, edge, size, negative: false }),
                    Err(e) => Err(e),
                }
            },
            None => Err(TailwindError::Syntax { message: code.to_owned() }),
        }
    }

    /// Reads a margin suffix under the code `m`, `ml`, `mr`, `mt`, `mm`,
    /// `mx` or `my`, signed by the class.
    pub fn parse_margin(
        pattern: &Vec<String>,
        code: &str,
        arbitrary: &TailwindArbitrary,
        negative: bool,
    ) -> (r: Result<TailwindSpacing, TailwindError>)
        ensures
            spacing_edge_spec(code@) is None ==> (r matches Err(e) && e
                matches TailwindError::Syntax { message } && message@ == code@),
            spacing_edge_spec(code@) matches Some(edge) ==> (r matches Ok(s) ==> (s.margin
                && s.negative == negative && s.edge == edge && sizing_unit_route(
                s.size,
                pattern.deep_view(),
                arbitrary.item@,
            ))) && (r matches Err(e) ==> sizing_error(e, pattern.deep_view(), arbitrary.item@))
                && (r is Ok <==> sizing_parse_ok(pattern.deep_view(), arbitrary.item@)),
    {
        match spacing_edge(code) {
            Some(edge) => {
                match SizingUnit::parse(pattern, arbitrary) {
                    Ok(size) => Ok(TailwindSpacing { margin: true, edge, size, negative }),
                    Err(e) => Err(e),
                }
            },
            None => Err(TailwindError::Syntax { message: code.to_owned() }),
        }
    }

    /// Reads a `space-x` or `space-y` suffix: the margin laid between
    /// neighbouring children, kept here as a margin on the named axis.
    pub fn parse_space(pattern: &Vec<String>, x_axis: bool, arbitrary: &TailwindArbitrary) -> (r:
        Result<TailwindSpacing, TailwindError>)
        ensures
            r matches Ok(s) ==> (s.margin && !s.negative && s.edge == (if x_axis {
                SpacingEdge::Left
            } else {
                SpacingEdge::Top
            }) && sizing_unit_route(s.size, pattern.deep_view(), arbitrary.item@)),
            r matches Err(e) ==> sizing_error(e, pattern.deep_view(), arbitrary.item@),
            r is Ok <==> sizing_parse_ok(pattern.deep_view(), arbitrary.item@),
    {
        let edge = if x_axis {
            SpacingEdge::Left
        } else {
            SpacingEdge::Top
        };
        match SizingUnit::parse(pattern, arbitrary) {
            Ok(size) => Ok(TailwindSpacing { margin: true, edge, size, negative: false }),
            Err(e) => Err(e),
        }
    }

    /// The value text, negated where the class was.
    fn value_text(&self) -> (r: String)
        ensures
            sizing_bounded(self.size) ==> r@ == (if self.negative {
                "-"@
            } else {
                Seq::<char>::empty()
            }) + sizing_text(self.size),
            self.negative ==> r@.len() > 0 && r@[0] == '-',
    {
        let mut v = String::new();
        if self.negative {
            v.append("-");
            proof {
                reveal_strlit("-");
            }
        }
        let t = self.size.get_properties();
        v.append(t.as_str());
        proof {
            if self.negative {
                assert(v@[0] == '-');
            }
        }
        v
    }

    /// The one or two properties this rule writes: the base property for
    /// all edges, the edge suffix for one edge, and both sides for an axis.
    pub fn attributes(&self) -> (r: CssAttributes)
        ensures
            self.edge == SpacingEdge::All || self.edge == SpacingEdge::Left || self.edge
                == SpacingEdge::Right || self.edge == SpacingEdge::Top || self.edge
                == SpacingEdge::Bottom ==> r.view_pairs().len() == 1,
            self.edge == SpacingEdge::AxisX || self.edge == SpacingEdge::AxisY
                ==> r.view_pairs().len() == 2,
            r.view_pairs()[0].0 == spacing_property(self.margin, self.edge, true),
            r.view_pairs().len() == 2 ==> r.view_pairs()[1].0 == spacing_property(
                self.margin,
                self.edge,
                false,
            ),
            sizing_bounded(self.size) ==> forall|i: int|
                0 <= i < r.view_pairs().len() ==> #[trigger] r.view_pairs()[i].1 == (if self
                    .negative {
                    "-"@
                } else {
                    Seq::<char>::empty()
                }) + sizing_text(self.size),
            self.negative ==> r.view_pairs()[0].1[0] == '-',
            r.wf(),
    {
        let base: &str = if self.margin {
            "margin"
        } else {
            "padding"
        };
        let mut out = CssAttributes::new();
        proof {
            reveal_strlit("margin");
            reveal_strlit("padding");
            reveal_strlit("margin-left");
            reveal_strlit("padding-left");
            reveal_strlit("margin-right");
            reveal_strlit("padding-right");
            reveal_strlit("margin-top");
            reveal_strlit("padding-top");
            reveal_strlit("margin-bottom");
            reveal_strlit("padding-bottom");
        }
        match self.edge {
            SpacingEdge::All => {
                out.insert(base.to_owned(), self.value_text());
            },
            SpacingEdge::Left => {
                let mut k = base.to_owned();
                k.append("-left");
                out.insert(k, self.value_text());
            },
            SpacingEdge::Right => {
                let mut k = base.to_owned();
                k.append("-right");
                out.insert(k, self.value_text());
            },
            SpacingEdge::Top => {
                let mut k = base.to_owned();
                k.append("-top");
                out.insert(k, self.value_text());
            },
            SpacingEdge::Bottom => {
                let mut k = base.to_owned();
                k.append("-bottom");
                out.insert(k, self.value_text());
            },
            SpacingEdge::AxisX => {
                let mut k1 = base.to_owned();
                k1.append("-left");
                let mut k2 = base.to_owned();
                k2.append("-right");
                proof {
                    reveal_strlit("-left");
                    reveal_strlit("-right");
                    reveal_strlit("margin");
                    reveal_strlit("padding");
                    assert("-left"@.len() == 5);
                    assert("-right"@.len() == 6);
                    assert("margin"@.len() == 6);
                    assert("padding"@.len() == 7);
                    assert(k1@.len() != k2@.len());
                    assert(k1@ != k2@);
                }
                let v1 = self.value_text();
                let v2 = self.value_text();
                let ghost kk2 = k2@;
                let ghost vv2 = v2@;
                out.insert(k1, v1);
                proof {
                    crate::css::lemma_upsert_fresh(out.view_pairs(), kk2, vv2);
                }
                out.insert(k2, v2);
            },
            SpacingEdge::AxisY => {
                let mut k1 = base.to_owned();
                k1.append("-top");
                let mut k2 = base.to_owned();
                k2.append("-bottom");
                proof {
                    reveal_strlit("-top");
                    reveal_strlit("-bottom");
                    reveal_strlit("margin");
                    reveal_strlit("padding");
                    assert("-top"@.len() == 4);
                    assert("-bottom"@.len() == 7);
                    assert("margin"@.len() == 6);
                    assert("padding"@.len() == 7);
                    assert(k1@.len() != k2@.len());
                    assert(k1@ != k2@);
                }
                let v1 = self.value_text();
                let v2 = self.value_text();
                let ghost kk2 = k2@;
                let ghost vv2 = v2@;
                out.insert(k1, v1);
                proof {
                    crate::css::lemma_upsert_fresh(out.view_pairs(), kk2, vv2);
                }
                out.insert(k2, v2);
            },
        }
        out
    }
}

/// The property that a spacing rule writes on its first (`first`) or
/// second side.
pub open spec fn spacing_property(margin: bool, edge: SpacingEdge, first: bool) -> Seq<char> {
    let base = if margin {
        "margin"@
    } else {
        "padding"@
    };
    match edge {
        SpacingEdge::All => base,
        SpacingEdge::Left => base + "-left"@,
        SpacingEdge::Right => base + "-right"@,
        SpacingEdge::Top => base + "-top"@,
        SpacingEdge::Bottom => base + "-bottom"@,
        SpacingEdge::AxisX => if first {
            base + "-left"@
        } else {
            base + "-right"@
        },
        SpacingEdge::AxisY => if first {
            base + "-top"@
        } else {
            base + "-bottom"@
        },
    }
}




} // verus!
