use vstd::prelude::*;
use crate::ast::{clone_variants, variant_views, ASTVariant, AstStyle, VariantView};
use crate::breakpoints::{bp_lookup, BreakPointSystem};
use crate::bundle::CssBundle;
use crate::css::{normalize_class_name, normalized, CssInlineMode};
use crate::error::TailwindError;
use crate::modules::Palette;
use crate::text::{dec_digits, fmt_usize, join_seq, join_strings, str_eq};

verus! {

/// The pseudo-class names the overlay understands.
pub open spec fn known_pseudo_class(n: Seq<char>) -> bool {
    n == "hover"@ || n == "focus"@ || n == "active"@ || n == "visited"@ || n == "disabled"@ || n
        == "checked"@ || n == "first"@ || n == "last"@ || n == "odd"@ || n == "even"@ || n
        == "focus-within"@ || n == "focus-visible"@
}

/// The pseudo-element names the overlay understands.
pub open spec fn known_pseudo_element(n: Seq<char>) -> bool {
    n == "before"@ || n == "after"@ || n == "placeholder"@ || n == "selection"@ || n == "marker"@
        || n == "first-line"@ || n == "first-letter"@
}

/// Whether one variant is known to the overlay: a pseudo name of the right
/// kind, or (for a plain one-name variant) a registered breakpoint.
pub open spec fn variant_known(
    v: VariantView,
    bps: Seq<crate::breakpoints::BreakPointEntry>,
) -> bool {
    if v.pseudo {
        known_pseudo_element(join_seq(v.names, "-"@))
    } else {
        known_pseudo_class(join_seq(v.names, "-"@)) || (!v.not && v.names.len() == 1 && bp_lookup(
            bps,
            v.names[0],
        ) is Some)
    }
}

/// Whether one variant names a registered breakpoint.
pub open spec fn variant_is_breakpoint(
    v: VariantView,
    bps: Seq<crate::breakpoints::BreakPointEntry>,
) -> bool {
    !v.pseudo && !v.not && v.names.len() == 1 && bp_lookup(bps, v.names[0]) is Some
        && !known_pseudo_class(join_seq(v.names, "-"@))
}

/// How many of the variants name breakpoints.
pub open spec fn breakpoint_count(
    vs: Seq<VariantView>,
    bps: Seq<crate::breakpoints::BreakPointEntry>,
) -> nat
    decreases vs.len(),
{
    if vs.len() == 0 {
        0
    } else {
        breakpoint_count(vs.drop_last(), bps) + (if variant_is_breakpoint(vs.last(), bps) {
            1nat
        } else {
            0nat
        })
    }
}

/// A valid variant context: every variant known, at most one breakpoint.
pub open spec fn valid_context(
    vs: Seq<VariantView>,
    bps: Seq<crate::breakpoints::BreakPointEntry>,
) -> bool {
    (forall|i: int| 0 <= i < vs.len() ==> variant_known(#[trigger] vs[i], bps))
        && breakpoint_count(vs, bps) <= 1
}

/// Whether the joined name is a known pseudo-class.
fn is_known_pseudo_class(n: &str) -> (r: bool)
    ensures
        r == known_pseudo_class(n@),
{
    str_eq(n, "hover") || str_eq(n, "focus") || str_eq(n, "active") || str_eq(n, "visited")
        || str_eq(n, "disabled") || str_eq(n, "checked") || str_eq(n, "first") || str_eq(n, "last")
        || str_eq(n, "odd") || str_eq(n, "even") || str_eq(n, "focus-within") || str_eq(
        n,
        "focus-visible",
    )
}

/// Whether the joined name is a known pseudo-element.
fn is_known_pseudo_element(n: &str) -> (r: bool)
    ensures
        r == known_pseudo_element(n@),
{
    str_eq(n, "before") || str_eq(n, "after") || str_eq(n, "placeholder") || str_eq(n, "selection")
        || str_eq(n, "marker") || str_eq(n, "first-line") || str_eq(n, "first-letter")
}

/// The whole builder state of one run: the breakpoint registry, the color
/// palette and the rule registry.
#[derive(Debug)]
pub struct TailwindBuilder {
    pub breakpoints: BreakPointSystem,
    pub palette: Palette,
    pub bundle: CssBundle,
}

impl TailwindBuilder {
    /// A builder with the builtin breakpoints and palette.
    pub fn new(obfuscate: bool) -> (r: TailwindBuilder)
        ensures
            r.bundle.entries@.len() == 0,
            r.bundle.obfuscate == obfuscate,
    {
        TailwindBuilder {
            breakpoints: BreakPointSystem::builtin(),
            palette: Palette::builtin(),
            bundle: CssBundle::new(obfuscate),
        }
    }

    /// Checks the variant context of one flat style: every variant must be
    /// a known pseudo name or a registered breakpoint, and at most one
    /// breakpoint may stand on one class.
    pub fn validate_variants(&self, variants: &Vec<ASTVariant>) -> (r: Result<(), TailwindError>)
        ensures
            r is Ok <==> valid_context(variant_views(variants@), self.breakpoints.inner@),
            r matches Err(e) ==> (e is UnknownVariant || e is Conflict),
    {
        let ghost vs = variant_views(variants@);
        let ghost bps = self.breakpoints.inner@;
        let mut bp_count: usize = 0;
        let mut i: usize = 0;
        while i < variants.len()
            invariant
                vs == variant_views(variants@),
                bps == self.breakpoints.inner@,
                vs.len() == variants@.len(),
                0 <= i <= vs.len(),
                forall|j: int| 0 <= j < i ==> variant_known(#[trigger] vs[j], bps),
                bp_count == breakpoint_count(vs.take(i as int), bps),
                bp_count <= 1,
            decreases vs.len() - i,
        {
            proof {
                assert(vs.take(i + 1).drop_last() =~= vs.take(i as int));
                assert(vs.take(i + 1).last() == vs[i as int]);
            }
            let v = &variants[i];
            let joined = join_strings(&v.names, "-");
            if v.pseudo {
                if !is_known_pseudo_element(joined.as_str()) {
                    proof {
                        assert(!variant_known(vs[i as int], bps));
                    }
                    return Err(TailwindError::UnknownVariant { name: joined });
                }
            } else {
                let pseudo_hit = is_known_pseudo_class(joined.as_str());
                let mut bp_hit = false;
                if !v.not && v.names.len() == 1 {
                    if self.breakpoints.get(v.names[0].as_str()).is_some() {
                        bp_hit = true;
                    }
                }
                proof {
                    if v.names@.len() == 1 {
                        assert(vs[i as int].names[0] == v.names@[0]@);
                    }
                }
                if !pseudo_hit && !bp_hit {
                    proof {
                        assert(!variant_known(vs[i as int], bps));
                    }
                    return Err(TailwindError::UnknownVariant { name: joined });
                }
                if bp_hit && !pseudo_hit {
                    if bp_count >= 1 {
                        proof {
                            assert(variant_is_breakpoint(vs[i as int], bps));
                            lemma_breakpoint_count_grows(vs, bps, i as int);
                        }
                        return Err(TailwindError::Conflict { message: joined });
                    }
                    bp_count = bp_count + 1;
                }
            }
            i += 1;
        }
        proof {
            assert(vs.take(vs.len() as int) =~= vs);
        }
        Ok(())
    }

    /// Resolves one flat style and interns its rule, returning the output
    /// name the markup should use. It succeeds exactly where the variant
    /// context is valid and the dispatch table accepts the path; any failure
    /// is reported as the error of that stage and leaves the registry
    /// untouched. Existing entries persist: names, rules and sources are
    /// never changed, only an importance upgrade may land; at most one entry
    /// is added, and an added entry carries the style's canonical text,
    /// importance, variant context and the returned name.
    pub fn trace(&mut self, style: &AstStyle) -> (r: Result<String, TailwindError>)
        ensures
            final(self).breakpoints == old(self).breakpoints,
            final(self).bundle.obfuscate == old(self).bundle.obfuscate,
            r is Ok <==> valid_context(variant_views(style.variants@), old(self).breakpoints.inner@)
                && crate::instruction::dispatch_ok(
                style.elements.items.deep_view(),
                style.arbitrary.item@,
                style.elements.negative,
            ),
            r is Err ==> final(self).bundle.entries@ == old(self).bundle.entries@,
            old(self).bundle.entries@.len() <= final(self).bundle.entries@.len(),
            final(self).bundle.entries@.len() <= old(self).bundle.entries@.len() + 1,
            forall|i: int|
                0 <= i < old(self).bundle.entries@.len() ==> crate::bundle::entry_persists(
                    #[trigger] final(self).bundle.entries@[i],
                    old(self).bundle.entries@[i],
                ),
            r matches Ok(name) ==> exists|j: int|
                0 <= j < final(self).bundle.entries@.len()
                    && #[trigger] final(self).bundle.entries@[j].output_name@ == name@,
            r matches Ok(name) ==> (final(self).bundle.entries@.len() == old(
                self,
            ).bundle.entries@.len() + 1 ==> ({
                let added = final(self).bundle.entries@.last();
                &&& added.source_text@ == crate::display::render_style(
                    crate::ast::style_view(*style),
                )
                &&& added.important == style.important
                &&& added.output_name@ == name@
                &&& variant_views(added.variants@).to_set() == variant_views(
                    style.variants@,
                ).to_set()
            })),
    {
        match self.validate_variants(&style.variants) {
            Ok(()) => {},
            Err(e) => {
                return Err(e);
            },
        }
        let instance = match style.get_instance() {
            Ok(i) => i,
            Err(e) => {
                proof {
                    crate::instruction::lemma_dispatch_resolution(
                        Result::<crate::instruction::CssInstance, TailwindError>::Err(e),
                        style.elements.items.deep_view(),
                        style.arbitrary.item@,
                        style.elements.negative,
                    );
                }
                return Err(e);
            },
        };
        proof {
            crate::instruction::lemma_dispatch_resolution(
                Result::<crate::instruction::CssInstance, TailwindError>::Ok(instance),
                style.elements.items.deep_view(),
                style.arbitrary.item@,
                style.elements.negative,
            );
        }
        let attributes = instance.attributes(&self.palette);
        let source = style.to_class();
        let variants = clone_variants(&style.variants);
        let ghost vs_key = variant_views(variants@).to_set();
        let ghost ats_key = attributes.view_pairs().to_set();
        let ghost entries_before = self.bundle.entries@;
        let name = self.bundle.intern(source, variants, attributes, style.important);
        proof {
            crate::bundle::lemma_find_entry(entries_before, vs_key, ats_key);
            let f = crate::bundle::find_entry(entries_before, vs_key, ats_key);
            if f >= 0 {
                assert(self.bundle.entries@[f].output_name@ == name@);
            } else {
                assert(self.bundle.entries@.last().output_name@ == name@);
                assert(self.bundle.entries@[self.bundle.entries@.len() - 1].output_name@
                    == name@);
            }
        }
        Ok(name)
    }

    /// Writes the whole stylesheet of the registry: each entry's selector
    /// block, wrapped in its media query where its context holds a
    /// registered breakpoint.
    pub fn to_css(&self) -> (r: String)
        ensures
            r@ == css_text(self.bundle.entries@, self.breakpoints.inner@),
    {
        let ghost es = self.bundle.entries@;
        let ghost bps = self.breakpoints.inner@;
        let mut out = String::new();
        let n = self.bundle.entries.len();
        let mut i: usize = 0;
        while i < n
            invariant
                es == self.bundle.entries@,
                bps == self.breakpoints.inner@,
                n == es.len(),
                0 <= i <= n,
                out@ == css_text(es.take(i as int), bps),
            decreases n - i,
        {
            proof {
                assert(es.take(i + 1).drop_last() =~= es.take(i as int));
                assert(es.take(i + 1).last() == es[i as int]);
            }
            let piece = entry_css(&self.bundle.entries[i], &self.breakpoints);
            out.append(piece.as_str());
            i += 1;
        }
        proof {
            assert(es.take(n as int) =~= es);
        }
        out
    }
}

/// A longer prefix never counts fewer breakpoints.
proof fn lemma_breakpoint_count_monotone(
    vs: Seq<VariantView>,
    bps: Seq<crate::breakpoints::BreakPointEntry>,
    k: int,
)
    requires
        0 <= k <= vs.len(),
    ensures
        breakpoint_count(vs, bps) >= breakpoint_count(vs.take(k), bps),
    decreases vs.len() - k,
{
    if k == vs.len() {
        assert(vs.take(k) =~= vs);
    } else {
        lemma_breakpoint_count_monotone(vs, bps, k + 1);
        assert(vs.take(k + 1).drop_last() =~= vs.take(k));
    }
}

/// A breakpoint at `i` makes the whole count exceed the count before it.
proof fn lemma_breakpoint_count_grows(
    vs: Seq<VariantView>,
    bps: Seq<crate::breakpoints::BreakPointEntry>,
    i: int,
)
    requires
        0 <= i < vs.len(),
        variant_is_breakpoint(vs[i], bps),
    ensures
        breakpoint_count(vs, bps) >= breakpoint_count(vs.take(i), bps) + 1,
{
    assert(vs.take(i + 1).drop_last() =~= vs.take(i));
    assert(vs.take(i + 1).last() == vs[i]);
    assert(breakpoint_count(vs.take(i + 1), bps) == breakpoint_count(vs.take(i), bps) + 1);
    lemma_breakpoint_count_monotone(vs, bps, i + 1);
}

/// The selector fragment of one variant: `:` or `::`, the joined name, and
/// a `:not(...)` wrap for a negated variant. A breakpoint variant adds no
/// fragment.
pub open spec fn fragment_text(v: VariantView) -> Seq<char> {
    let base = (if v.pseudo {
        "::"@
    } else {
        ":"@
    }) + join_seq(v.names, "-"@);
    if v.not {
        ":not("@ + base + ")"@
    } else {
        base
    }
}

/// The selector fragments of a context, breakpoints left out.
pub open spec fn fragments_text(
    vs: Seq<VariantView>,
    bps: Seq<crate::breakpoints::BreakPointEntry>,
) -> Seq<char>
    decreases vs.len(),
{
    if vs.len() == 0 {
        Seq::empty()
    } else {
        fragments_text(vs.drop_last(), bps) + (if variant_is_breakpoint(vs.last(), bps) {
            Seq::<char>::empty()
        } else {
            fragment_text(vs.last())
        })
    }
}

/// The width of the first breakpoint variant of the context, if any.
pub open spec fn context_breakpoint(
    vs: Seq<VariantView>,
    bps: Seq<crate::breakpoints::BreakPointEntry>,
) -> Option<nat>
    decreases vs.len(),
{
    if vs.len() == 0 {
        None
    } else if variant_is_breakpoint(vs[0], bps) {
        Some(bp_lookup(bps, vs[0].names[0])->Some_0)
    } else {
        context_breakpoint(vs.drop_first(), bps)
    }
}

/// The property block of one entry: `key:value` pairs joined with `;`, each
/// marked `!important` where the entry is.
pub open spec fn block_text(ps: Seq<(Seq<char>, Seq<char>)>, important: bool) -> Seq<char>
    decreases ps.len(),
{
    if ps.len() == 0 {
        Seq::empty()
    } else {
        block_text(ps.drop_last(), important) + ps.last().0 + ":"@ + ps.last().1 + (if important {
            " !important"@
        } else {
            Seq::empty()
        }) + ";"@
    }
}

/// The whole rule of one entry: the class selector with its fragments and
/// block, wrapped in a media query where the context holds a breakpoint.
pub open spec fn entry_css_text(
    e: crate::bundle::ResolvedClass,
    bps: Seq<crate::breakpoints::BreakPointEntry>,
) -> Seq<char> {
    let vs = variant_views(e.variants@);
    let rule = "."@ + normalized(e.output_name@) + fragments_text(vs, bps) + "{"@ + block_text(
        e.attributes.view_pairs(),
        e.important,
    ) + "}"@;
    match context_breakpoint(vs, bps) {
        Option::Some(w) => "@media(min-width:"@ + dec_digits(w) + "px){"@ + rule + "}"@,
        Option::None => rule,
    }
}

/// The stylesheet of all entries, in insertion order.
pub open spec fn css_text(
    es: Seq<crate::bundle::ResolvedClass>,
    bps: Seq<crate::breakpoints::BreakPointEntry>,
) -> Seq<char>
    decreases es.len(),
{
    if es.len() == 0 {
        Seq::empty()
    } else {
        css_text(es.drop_last(), bps) + entry_css_text(es.last(), bps)
    }
}

/// Writes one entry's rule.
pub fn entry_css(e: &crate::bundle::ResolvedClass, bps: &BreakPointSystem) -> (r: String)
    ensures
        r@ == entry_css_text(*e, bps.inner@),
{
    let ghost vs = variant_views(e.variants@);
    let mut rule = String::new();
    rule.append(".");
    let name = normalize_class_name(e.output_name.as_str());
    rule.append(name.as_str());
    let frags = write_fragments(&e.variants, bps);
    rule.append(frags.as_str());
    rule.append("{");
    let block = write_block(&e.attributes, e.important);
    rule.append(block.as_str());
    rule.append("}");
    let bp = find_context_breakpoint(&e.variants, bps);
    match bp {
        Some(w) => {
            let mut out = String::new();
            out.append("@media(min-width:");
            let d = fmt_usize(w);
            out.append(d.as_str());
            out.append("px){");
            out.append(rule.as_str());
            out.append("}");
            out
        },
        None => rule,
    }
}

/// Writes the selector fragments of a context, breakpoints left out.
fn write_fragments(variants: &Vec<ASTVariant>, bps: &BreakPointSystem) -> (r: String)
    ensures
        r@ == fragments_text(variant_views(variants@), bps.inner@),
{
    let ghost vs = variant_views(variants@);
    let mut out = String::new();
    let mut i: usize = 0;
    while i < variants.len()
        invariant
            vs == variant_views(variants@),
            vs.len() == variants@.len(),
            0 <= i <= vs.len(),
            out@ == fragments_text(vs.take(i as int), bps.inner@),
        decreases vs.len() - i,
    {
        proof {
            assert(vs.take(i + 1).drop_last() =~= vs.take(i as int));
            assert(vs.take(i + 1).last() == vs[i as int]);
        }
        let v = &variants[i];
        let joined = join_strings(&v.names, "-");
        let mut bp_hit = false;
        if !v.pseudo && !v.not && v.names.len() == 1 && !is_known_pseudo_class(joined.as_str()) {
            if bps.get(v.names[0].as_str()).is_some() {
                bp_hit = true;
            }
        }
        proof {
            if v.names@.len() == 1 {
                assert(vs[i as int].names[0] == v.names@[0]@);
            }
        }
        if !bp_hit {
            let mut frag = String::new();
            if v.pseudo {
                frag.append("::");
            } else {
                frag.append(":");
            }
            frag.append(joined.as_str());
            if v.not {
                let mut wrapped = String::new();
                wrapped.append(":not(");
                wrapped.append(frag.as_str());
                wrapped.append(")");
                out.append(wrapped.as_str());
            } else {
                out.append(frag.as_str());
            }
        }
        i += 1;
    }
    proof {
        assert(vs.take(vs.len() as int) =~= vs);
    }
    out
}

/// The width of the first breakpoint variant of the context, if any.
fn find_context_breakpoint(variants: &Vec<ASTVariant>, bps: &BreakPointSystem) -> (r: Option<
    usize,
>)
    ensures
        r matches Some(w) ==> context_breakpoint(variant_views(variants@), bps.inner@) == Some(
            w as nat,
        ),
        r is None ==> context_breakpoint(variant_views(variants@), bps.inner@) is None,
{
    let ghost vs = variant_views(variants@);
    proof {
        assert(vs.skip(0) =~= vs);
    }
    let mut i: usize = 0;
    while i < variants.len()
        invariant
            vs == variant_views(variants@),
            vs.len() == variants@.len(),
            0 <= i <= vs.len(),
            context_breakpoint(vs, bps.inner@) == context_breakpoint(
                vs.skip(i as int),
                bps.inner@,
            ),
        decreases vs.len() - i,
    {
        proof {
            assert(vs.skip(i as int)[0] == vs[i as int]);
            assert(vs.skip(i as int).drop_first() =~= vs.skip(i + 1));
        }
        let v = &variants[i];
        let joined = join_strings(&v.names, "-");
        proof {
            if v.names@.len() == 1 {
                assert(vs[i as int].names[0] == v.names@[0]@);
            }
        }
        if !v.pseudo && !v.not && v.names.len() == 1 && !is_known_pseudo_class(joined.as_str()) {
            match bps.get(v.names[0].as_str()) {
                Some(b) => {
                    return Some(b.width);
                },
                None => {},
            }
        }
        i += 1;
    }
    proof {
        assert(vs.skip(vs.len() as int).len() == 0);
    }
    None
}

/// Writes the property block of one entry.
pub fn write_block(attributes: &crate::css::CssAttributes, important: bool) -> (r: String)
    ensures
        r@ == block_text(attributes.view_pairs(), important),
{
    let ghost ps = attributes.view_pairs();
    let mut out = String::new();
    let n = attributes.len();
    let mut i: usize = 0;
    while i < n
        invariant
            ps == attributes.view_pairs(),
            n == ps.len(),
            0 <= i <= n,
            out@ == block_text(ps.take(i as int), important),
        decreases n - i,
    {
        proof {
            assert(ps.take(i + 1).drop_last() =~= ps.take(i as int));
            assert(ps.take(i + 1).last() == ps[i as int]);
        }
        out.append(attributes.key_at(i).as_str());
        out.append(":");
        out.append(attributes.value_at(i).as_str());
        if important {
            out.append(" !important");
        }
        out.append(";");
        i += 1;
    }
    proof {
        assert(ps.take(n as int) =~= ps);
    }
    out
}

/// How the command line selects the output mode.
#[derive(Debug, Clone, Copy, PartialEq, Eq, Structural)]
pub enum Mode {
    Normal,
    Inline,
    Scope,
    Key,
    Value,
}

impl Default for Mode {
    /// The default output mode leaves the markup as written.
    fn default() -> (r: Mode)
        ensures
            r == Mode::Normal,
    {
        Mode::Normal
    }
}

/// The build configuration one run uses.
#[derive(Debug)]
pub struct CLIConfig {
    pub mode: CssInlineMode,
    pub minify: bool,
    pub dry_run: bool,
    pub obfuscate: bool,
    pub unused_symbols: Vec<String>,
}

impl Default for CLIConfig {
    /// A fresh configuration: plain output, no minification, a real run.
    fn default() -> (r: CLIConfig)
        ensures
            r.mode == CssInlineMode::Normal,
            !r.minify,
            !r.dry_run,
            !r.obfuscate,
            r.unused_symbols@.len() == 0,
    {
        CLIConfig {
            mode: CssInlineMode::Normal,
            minify: false,
            dry_run: false,
            obfuscate: false,
            unused_symbols: Vec::new(),
        }
    }
}

impl CLIConfig {
    /// The builder this configuration starts a run with.
    pub fn builder(&self) -> (r: TailwindBuilder)
        ensures
            r.bundle.entries@.len() == 0,
            r.bundle.obfuscate == self.obfuscate,
    {
        TailwindBuilder::new(self.obfuscate)
    }
}

/// The command-line surface of a run, as the library sees it: which flags
/// were given. Reading the flags and moving to the workspace are the
/// program's own work.
#[derive(Debug)]
pub struct TailwindApp {
    pub mode: Option<Mode>,
    pub minify: Option<bool>,
    pub dry_run: bool,
    pub obfuscate: Option<bool>,
    pub workspace: Option<String>,
}

impl TailwindApp {
    /// Builds the run configuration the flags select, and the builder that
    /// goes with it: the mode maps across, a given minify or obfuscate flag
    /// overrides the default, and a dry run is carried through.
    pub fn build_config(&self) -> (r: (CLIConfig, TailwindBuilder))
        ensures
            r.0.mode == (match self.mode {
                Some(Mode::Inline) => CssInlineMode::Inline,
                Some(Mode::Scope) => CssInlineMode::Scoped,
                Some(Mode::Key) => CssInlineMode::DataKey,
                Some(Mode::Value) => CssInlineMode::DataValue,
                _ => CssInlineMode::Normal,
            }),
            r.0.minify == (match self.minify {
                Some(s) => s,
                None => false,
            }),
            r.0.dry_run == self.dry_run,
            r.0.obfuscate == (match self.obfuscate {
                Some(s) => s,
                None => false,
            }),
            r.1.bundle.entries@.len() == 0,
            r.1.bundle.obfuscate == r.0.obfuscate,
    {
        let mut config = CLIConfig::default();
        config.mode = match self.mode {
            Some(Mode::Inline) => CssInlineMode::Inline,
            Some(Mode::Scope) => CssInlineMode::Scoped,
            Some(Mode::Key) => CssInlineMode::DataKey,
            Some(Mode::Value) => CssInlineMode::DataValue,
            _ => CssInlineMode::Normal,
        };
        match self.minify {
            Some(s) => {
                config.minify = s;
            },
            None => {},
        }
        config.dry_run = self.dry_run;
        match self.obfuscate {
            Some(s) => {
                config.obfuscate = s;
            },
            None => {},
        }
        let builder = config.builder();
        (config, builder)
    }
}

} // verus!
