use vstd::prelude::*;
use crate::text::str_eq;

verus! {

/// `variant:pseudo::-element-element-[arbitrary]!`, possibly carrying a
/// parenthesised group of child styles that share this style as their head.
#[derive(Debug)]
pub struct AstStyle {
    /// Whether the style ends with `!` and so outranks the normal cascade.
    pub important: bool,
    /// The variant prefixes, each ending with `:` or `::`. Kept in first
    /// appearance order without repetition; two styles whose variant lists
    /// hold the same members mean the same thing.
    pub variants: Vec<ASTVariant>,
    /// The sign and the hyphen-joined element path.
    pub elements: AstElements,
    /// The bracketed arbitrary value; an empty text means absent.
    pub arbitrary: AstArbitrary,
    /// The grouped children; empty for a plain style.
    pub children: Vec<AstStyle>,
}

/// `-[.+]`: a raw value that bypasses the keyword vocabulary.
#[derive(Debug)]
pub struct AstArbitrary {
    /// The arbitrary value text.
    pub item: String,
}

/// The signed element path of a style: `-e1-e2-e3`.
#[derive(Debug)]
pub struct AstElements {
    /// Whether the path starts with `-`, negating the produced value.
    pub negative: bool,
    /// The path entries, written joined with `-`.
    pub items: Vec<String>,
}

/// `(not-)?name-name(::|:)`: one variant prefix.
#[derive(Debug)]
pub struct ASTVariant {
    /// Whether the variant is negated with a leading `not-`.
    pub not: bool,
    /// Whether the variant ends with `::` (a pseudo-element) rather than `:`.
    pub pseudo: bool,
    /// The hyphen-joined name parts.
    pub names: Vec<String>,
}

/// The mathematical value of an `ASTVariant`.
#[verifier::ext_equal]
pub ghost struct VariantView {
    pub not: bool,
    pub pseudo: bool,
    pub names: Seq<Seq<char>>,
}

/// The mathematical value of an `AstStyle`.
#[verifier::ext_equal]
pub ghost struct StyleView {
    pub important: bool,
    pub negative: bool,
    pub variants: Seq<VariantView>,
    pub elements: Seq<Seq<char>>,
    pub arbitrary: Seq<char>,
    pub children: Seq<StyleView>,
}

pub open spec fn variant_view(v: ASTVariant) -> VariantView {
    VariantView { not: v.not, pseudo: v.pseudo, names: v.names.deep_view() }
}

pub open spec fn variant_views(vs: Seq<ASTVariant>) -> Seq<VariantView> {
    Seq::new(vs.len(), |i: int| variant_view(vs[i]))
}

pub open spec fn style_view(s: AstStyle) -> StyleView
    decreases s,
{
    StyleView {
        important: s.important,
        negative: s.elements.negative,
        variants: variant_views(s.variants@),
        elements: s.elements.items.deep_view(),
        arbitrary: s.arbitrary.item@,
        children: style_views(s.children@),
    }
}

pub open spec fn style_views(ss: Seq<AstStyle>) -> Seq<StyleView>
    decreases ss,
{
    if ss.len() == 0 {
        Seq::empty()
    } else {
        style_views(ss.drop_last()).push(style_view(ss.last()))
    }
}

/// `style_views` keeps the length.
pub broadcast proof fn lemma_style_views_len(ss: Seq<AstStyle>)
    ensures
        #[trigger] style_views(ss).len() == ss.len(),
    decreases ss.len(),
{
    if ss.len() > 0 {
        lemma_style_views_len(ss.drop_last());
    }
}

/// `style_views` maps indices through: entry `i` of the views is the view of
/// entry `i` of the styles.
pub broadcast proof fn lemma_style_views_index(ss: Seq<AstStyle>, i: int)
    requires
        0 <= i < ss.len(),
    ensures
        #[trigger] style_views(ss)[i] == style_view(ss[i]),
    decreases ss.len(),
{
    lemma_style_views_len(ss);
    if ss.len() > 0 && i < ss.len() - 1 {
        lemma_style_views_index(ss.drop_last(), i);
    }
}

/// The view of a style stripped of its children: the shape a head or a fully
/// expanded leaf has.
pub open spec fn leaf_of(v: StyleView) -> StyleView {
    StyleView { children: Seq::empty(), ..v }
}

/// A style whose whole element path is the single marker `&`: it stands for
/// the group head alone.
pub open spec fn is_self_ref(elements: Seq<Seq<char>>) -> bool {
    elements.len() == 1 && elements[0] == "&"@
}

/// The variants of a head followed by those of a child that the head does not
/// already hold, in first appearance order.
pub open spec fn merge_variant_seq(a: Seq<VariantView>, b: Seq<VariantView>) -> Seq<VariantView>
    decreases b.len(),
{
    if b.len() == 0 {
        a
    } else {
        let m = merge_variant_seq(a, b.drop_last());
        if m.contains(b.last()) {
            m
        } else {
            m.push(b.last())
        }
    }
}

/// How a head and one of its children combine into a single style:
/// importance is or-ed (sticky), the negative sign is xor-ed (a doubled
/// negation cancels), variants are united, the element paths are joined
/// unless the child is the self-reference marker `&`, and the child's
/// arbitrary value wins where it has one. The children are the child's own:
/// a combined group keeps expanding below itself.
pub open spec fn combine_view(head: StyleView, child: StyleView) -> StyleView {
    StyleView {
        important: head.important || child.important,
        negative: head.negative != child.negative,
        variants: merge_variant_seq(head.variants, child.variants),
        elements: if is_self_ref(child.elements) {
            head.elements
        } else {
            head.elements + child.elements
        },
        arbitrary: if child.arbitrary.len() > 0 {
            child.arbitrary
        } else {
            head.arbitrary
        },
        children: child.children,
    }
}

/// The flat leaves that expanding `s` under the head `head` produces, in
/// left-to-right depth-first order.
pub open spec fn flatten_from(head: StyleView, s: StyleView) -> Seq<StyleView>
    decreases s,
{
    let m = combine_view(head, s);
    if s.children.len() == 0 {
        seq![leaf_of(m)]
    } else {
        flatten_children(leaf_of(m), s.children)
    }
}

pub open spec fn flatten_children(head: StyleView, cs: Seq<StyleView>) -> Seq<StyleView>
    decreases cs,
{
    if cs.len() == 0 {
        Seq::empty()
    } else {
        flatten_children(head, cs.drop_last()) + flatten_from(head, cs.last())
    }
}

/// The head that expansion of a whole style starts from: nothing set.
pub open spec fn empty_head() -> StyleView {
    StyleView {
        important: false,
        negative: false,
        variants: Seq::empty(),
        elements: Seq::empty(),
        arbitrary: Seq::empty(),
        children: Seq::empty(),
    }
}

/// Whether a style marked important anywhere in a group chain stays important:
/// importance is combined by logical or, so it is sticky down the tree.
pub fn merge_important(lhs: bool, rhs: bool) -> (r: bool)
    ensures
        r == (lhs || rhs),
{
    lhs || rhs
}

/// How the negative sign of a head and a child combine: exclusive or, so a
/// doubled negation restores the positive sign. This single rule is used by
/// every merge in the crate.
pub fn merge_negative(lhs: bool, rhs: bool) -> (r: bool)
    ensures
        r == (lhs != rhs),
{
    match (lhs, rhs) {
        (true, true) => false,
        (false, false) => false,
        _ => true,
    }
}

/// A doubled negative cancels: merging the same sign twice restores whatever
/// sign the other side already had, and the merge is symmetric.
pub proof fn lemma_negation_cancellation(a: bool, b: bool)
    ensures
        (a != (a != b)) == b,
        (a != b) == (b != a),
{
}

impl AstArbitrary {
    /// The arbitrary text as an owned class fragment.
    pub fn as_class(&self) -> (r: String)
        ensures
            r@ == self.item@,
    {
        let mut out = String::new();
        out.append(self.item.as_str());
        out
    }

    /// The arbitrary text.
    pub fn as_str(&self) -> (r: &str)
        ensures
            r@ == self.item@,
    {
        self.item.as_str()
    }

    /// Whether no arbitrary value was written.
    pub fn is_empty(&self) -> (r: bool)
        ensures
            r == (self.item@.len() == 0),
    {
        self.item.as_str().is_empty()
    }
}

impl ASTVariant {
    /// The name parts as borrowed slices.
    pub fn as_view(&self) -> (r: Vec<&str>)
        ensures
            r.deep_view() == self.names.deep_view(),
    {
        let mut out: Vec<&str> = Vec::new();
        let mut i: usize = 0;
        while i < self.names.len()
            invariant
                0 <= i <= self.names@.len(),
                out@.len() == i,
                forall|j: int| 0 <= j < i ==> out@[j]@ == self.names@[j]@,
            decreases self.names@.len() - i,
        {
            out.push(self.names[i].as_str());
            i += 1;
        }
        proof {
            assert(out.deep_view() =~= self.names.deep_view());
        }
        out
    }
}

/// Whether two variants carry the same negation, separator and names.
pub fn variant_eq(a: &ASTVariant, b: &ASTVariant) -> (r: bool)
    ensures
        r == (variant_view(*a) == variant_view(*b)),
{
    if a.not != b.not || a.pseudo != b.pseudo {
        return false;
    }
    if a.names.len() != b.names.len() {
        assert(variant_view(*a).names.len() != variant_view(*b).names.len());
        return false;
    }
    let mut i: usize = 0;
    while i < a.names.len()
        invariant
            a.names@.len() == b.names@.len(),
            0 <= i <= a.names@.len(),
            forall|j: int| 0 <= j < i ==> a.names.deep_view()[j] == b.names.deep_view()[j],
        decreases a.names@.len() - i,
    {
        if !str_eq(a.names[i].as_str(), b.names[i].as_str()) {
            assert(variant_view(*a).names[i as int] != variant_view(*b).names[i as int]);
            return false;
        }
        i += 1;
    }
    proof {
        assert(variant_view(*a).names =~= variant_view(*b).names);
        assert(variant_view(*a) =~= variant_view(*b));
    }
    true
}

/// Whether `vs` already holds a variant equal to `v`.
pub fn contains_variant(vs: &Vec<ASTVariant>, v: &ASTVariant) -> (r: bool)
    ensures
        r == variant_views(vs@).contains(variant_view(*v)),
{
    let ghost target = variant_view(*v);
    let ghost all = variant_views(vs@);
    let mut i: usize = 0;
    while i < vs.len()
        invariant
            all == variant_views(vs@),
            target == variant_view(*v),
            0 <= i <= vs@.len(),
            forall|j: int| 0 <= j < i ==> all[j] != target,
        decreases vs@.len() - i,
    {
        if variant_eq(&vs[i], v) {
            assert(all[i as int] == target);
            assert(all.contains(target));
            return true;
        }
        i += 1;
    }
    proof {
        if all.contains(target) {
            let k = choose|k: int| 0 <= k < all.len() && all[k] == target;
            assert(all[k] != target);
        }
    }
    false
}

impl AstStyle {
    /// Whether this style is the self-reference marker `&`, standing for the
    /// group head alone.
    pub fn is_self_reference(&self) -> (r: bool)
        ensures
            r == is_self_ref(style_view(*self).elements),
    {
        if self.elements.items.len() != 1 {
            return false;
        }
        let r = str_eq(self.elements.items[0].as_str(), "&");
        proof {
            assert(style_view(*self).elements[0] == self.elements.items@[0]@);
        }
        r
    }

    /// Combines this style with the head `parent` it is grouped under: the
    /// merged style keeps this style's children and otherwise merges field by
    /// field as `combine_view` writes.
    pub fn expand_visit(&self, parent: &AstStyle) -> (r: AstStyle)
        ensures
            style_view(r) == combine_view(leaf_of(style_view(*parent)), style_view(*self)),
    {
        let important = merge_important(self.important, parent.important);
        let negative = merge_negative(parent.elements.negative, self.elements.negative);

        let mut variants: Vec<ASTVariant> = clone_variants(&parent.variants);
        let mut j: usize = 0;
        while j < self.variants.len()
            invariant
                0 <= j <= self.variants@.len(),
                variant_views(variants@) == merge_variant_seq(
                    variant_views(parent.variants@),
                    variant_views(self.variants@).take(j as int),
                ),
            decreases self.variants@.len() - j,
        {
            proof {
                assert(variant_views(self.variants@).take(j + 1).drop_last() =~= variant_views(
                    self.variants@,
                ).take(j as int));
                assert(variant_views(self.variants@).take(j + 1).last() == variant_view(
                    self.variants@[j as int],
                ));
            }
            if !contains_variant(&variants, &self.variants[j]) {
                let v = clone_variant(&self.variants[j]);
                let ghost before = variants@;
                variants.push(v);
                proof {
                    assert(variant_views(variants@) =~= variant_views(before).push(
                        variant_view(v),
                    ));
                }
            }
            j += 1;
        }
        proof {
            assert(variant_views(self.variants@).take(self.variants@.len() as int)
                =~= variant_views(self.variants@));
        }

        let self_ref = self.is_self_reference();
        let mut items: Vec<String> = clone_strings(&parent.elements.items);
        if !self_ref {
            let mut rest = clone_strings(&self.elements.items);
            items.append(&mut rest);
            proof {
                assert(items.deep_view() =~= parent.elements.items.deep_view()
                    + self.elements.items.deep_view());
            }
        }

        let arbitrary = if self.arbitrary.item.as_str().is_empty() {
            AstArbitrary { item: clone_string(&parent.arbitrary.item) }
        } else {
            AstArbitrary { item: clone_string(&self.arbitrary.item) }
        };

        let children: Vec<AstStyle> = clone_styles(&self.children);

        let r = AstStyle {
            important,
            variants,
            elements: AstElements { negative, items },
            arbitrary,
            children,
        };
        proof {
            assert(style_view(r) =~= combine_view(
                leaf_of(style_view(*parent)),
                style_view(*self),
            ));
        }
        r
    }
}

impl AstStyle {
    /// Expands every nested group into flat leaf styles, in left-to-right
    /// depth-first order, each leaf fully combining the chain of heads above
    /// it with its own fields.
    pub fn expand(&self) -> (r: Vec<AstStyle>)
        ensures
            style_views(r@) == flatten_from(empty_head(), style_view(*self)),
    {
        let head = AstStyle {
            important: false,
            variants: Vec::new(),
            elements: AstElements { negative: false, items: Vec::new() },
            arbitrary: AstArbitrary { item: String::new() },
            children: Vec::new(),
        };
        proof {
            assert(leaf_of(style_view(head)) =~= empty_head());
        }
        let mut out: Vec<AstStyle> = Vec::new();
        expand_into(self, &head, &mut out);
        proof {
            assert(style_views(out@) =~= flatten_from(empty_head(), style_view(*self)));
        }
        out
    }
}

/// Appends to `out` the flat leaves of `style` expanded under `head`.
fn expand_into(style: &AstStyle, head: &AstStyle, out: &mut Vec<AstStyle>)
    ensures
        style_views(final(out)@) == style_views(old(out)@) + flatten_from(
            leaf_of(style_view(*head)),
            style_view(*style),
        ),
    decreases *style,
{
    let ghost cv = combine_view(leaf_of(style_view(*head)), style_view(*style));
    let merged = style.expand_visit(head);
    if style.children.len() == 0 {
        let ghost before = out@;
        out.push(merged);
        proof {
            assert(leaf_of(style_view(merged)) =~= style_view(merged));
            assert(out@.drop_last() =~= before);
            assert(out@.last() == merged);
            assert(style_views(out@) == style_views(before).push(style_view(merged)));
            assert(style_views(out@) =~= style_views(before) + seq![leaf_of(cv)]);
        }
    } else {
        let mh = AstStyle {
            important: merged.important,
            variants: merged.variants,
            elements: merged.elements,
            arbitrary: merged.arbitrary,
            children: Vec::new(),
        };
        proof {
            assert(style_view(mh) =~= leaf_of(cv));
        }
        let ghost base = out@;
        let ghost kids = style_views(style.children@);
        proof {
            broadcast use lemma_style_views_len;

            assert(kids.take(0) =~= Seq::empty());
        }
        let mut i: usize = 0;
        while i < style.children.len()
            invariant
                0 <= i <= style.children@.len(),
                kids == style_views(style.children@),
                kids.len() == style.children@.len(),
                style_view(mh) == leaf_of(cv),
                style_views(out@) == style_views(base) + flatten_children(
                    leaf_of(cv),
                    kids.take(i as int),
                ),
            decreases style.children@.len() - i,
        {
            proof {
                broadcast use lemma_style_views_len, lemma_style_views_index;

                assert(decreases_to!(*style => style.children@[i as int]));
            }
            expand_into(&style.children[i], &mh, out);
            proof {
                broadcast use lemma_style_views_len, lemma_style_views_index;

                assert(kids.take(i + 1).drop_last() =~= kids.take(i as int));
                assert(kids.take(i + 1).last() == kids[i as int]);
            }
            i += 1;
        }
        proof {
            assert(kids.take(style.children@.len() as int) =~= kids);
            assert(flatten_from(leaf_of(style_view(*head)), style_view(*style))
                == flatten_children(leaf_of(cv), kids));
        }
    }
}

/// A group with exactly two plain children expands to exactly two leaves, in
/// the order the children are written, each combining the group head (and so
/// any variants, sign or importance it carries) with its own fields.
pub proof fn lemma_group_pair_expansion(head: StyleView, g: StyleView, c1: StyleView, c2: StyleView)
    requires
        g.children == seq![c1, c2],
        c1.children.len() == 0,
        c2.children.len() == 0,
    ensures
        flatten_from(head, g) == seq![
            leaf_of(combine_view(leaf_of(combine_view(head, g)), c1)),
            leaf_of(combine_view(leaf_of(combine_view(head, g)), c2)),
        ],
{
    let h = leaf_of(combine_view(head, g));
    let cs = g.children;
    assert(flatten_from(head, g) == flatten_children(h, cs));
    let pre = cs.drop_last();
    assert(cs.last() == c2);
    assert(flatten_children(h, cs) == flatten_children(h, pre) + flatten_from(h, c2));
    assert(pre.last() == c1);
    assert(flatten_children(h, pre) == flatten_children(h, pre.drop_last()) + flatten_from(
        h,
        c1,
    ));
    assert(pre.drop_last().len() == 0);
    assert(flatten_children(h, pre.drop_last()) == Seq::<StyleView>::empty());
    assert(flatten_from(h, c1) == seq![leaf_of(combine_view(h, c1))]);
    assert(flatten_from(h, c2) == seq![leaf_of(combine_view(h, c2))]);
    assert(flatten_from(head, g) =~= seq![
        leaf_of(combine_view(h, c1)),
        leaf_of(combine_view(h, c2)),
    ]);
}

/// The self-reference marker `&` takes the head alone: combining a head with
/// it appends no element, and a plain self-reference child expands to exactly
/// one leaf whose element path is the head's.
pub proof fn lemma_self_reference(head: StyleView, child: StyleView)
    requires
        is_self_ref(child.elements),
    ensures
        combine_view(head, child).elements == head.elements,
        child.children.len() == 0 ==> flatten_from(head, child) == seq![
            leaf_of(combine_view(head, child)),
        ],
{
}

/// Importance is sticky: once the head of an expansion or the style being
/// expanded is marked important, every flattened leaf is important.
pub proof fn lemma_importance_sticky(head: StyleView, s: StyleView, i: int)
    requires
        head.important || s.important,
        0 <= i < flatten_from(head, s).len(),
    ensures
        flatten_from(head, s)[i].important,
    decreases s,
{
    let m = combine_view(head, s);
    if s.children.len() == 0 {
    } else {
        lemma_importance_sticky_children(leaf_of(m), s.children, i);
    }
}

proof fn lemma_importance_sticky_children(head: StyleView, cs: Seq<StyleView>, i: int)
    requires
        head.important,
        0 <= i < flatten_children(head, cs).len(),
    ensures
        flatten_children(head, cs)[i].important,
    decreases cs,
{
    if cs.len() > 0 {
        let pre = flatten_children(head, cs.drop_last());
        if i < pre.len() {
            lemma_importance_sticky_children(head, cs.drop_last(), i);
        } else {
            lemma_importance_sticky(head, cs.last(), i - pre.len());
        }
    }
}

/// An owned copy of a string, with its characters unchanged.
pub fn clone_string(s: &String) -> (r: String)
    ensures
        r@ == s@,
{
    let mut out = String::new();
    out.append(s.as_str());
    out
}

/// An owned copy of a list of strings, with its characters unchanged.
pub fn clone_strings(ss: &Vec<String>) -> (r: Vec<String>)
    ensures
        r.deep_view() == ss.deep_view(),
        r@.len() == ss@.len(),
{
    let mut out: Vec<String> = Vec::new();
    let mut i: usize = 0;
    while i < ss.len()
        invariant
            0 <= i <= ss@.len(),
            out@.len() == i,
            forall|j: int| 0 <= j < i ==> out@[j]@ == ss@[j]@,
        decreases ss@.len() - i,
    {
        out.push(clone_string(&ss[i]));
        i += 1;
    }
    proof {
        assert(out.deep_view() =~= ss.deep_view());
    }
    out
}

/// An owned copy of a variant, with the same view.
pub fn clone_variant(v: &ASTVariant) -> (r: ASTVariant)
    ensures
        variant_view(r) == variant_view(*v),
{
    let r = ASTVariant { not: v.not, pseudo: v.pseudo, names: clone_strings(&v.names) };
    proof {
        assert(variant_view(r) =~= variant_view(*v));
    }
    r
}

/// An owned copy of a list of variants, with the same views.
pub fn clone_variants(vs: &Vec<ASTVariant>) -> (r: Vec<ASTVariant>)
    ensures
        variant_views(r@) == variant_views(vs@),
        r@.len() == vs@.len(),
{
    let mut out: Vec<ASTVariant> = Vec::new();
    let mut i: usize = 0;
    while i < vs.len()
        invariant
            0 <= i <= vs@.len(),
            out@.len() == i,
            forall|j: int| 0 <= j < i ==> variant_view(out@[j]) == variant_view(vs@[j]),
        decreases vs@.len() - i,
    {
        out.push(clone_variant(&vs[i]));
        i += 1;
    }
    proof {
        assert(variant_views(out@) =~= variant_views(vs@));
    }
    out
}

/// An owned copy of a style, with the same view.
pub fn clone_style(s: &AstStyle) -> (r: AstStyle)
    ensures
        style_view(r) == style_view(*s),
    decreases *s,
{
    let children = clone_styles(&s.children);
    let r = AstStyle {
        important: s.important,
        variants: clone_variants(&s.variants),
        elements: AstElements {
            negative: s.elements.negative,
            items: clone_strings(&s.elements.items),
        },
        arbitrary: AstArbitrary { item: clone_string(&s.arbitrary.item) },
        children,
    };
    proof {
        assert(style_view(r) =~= style_view(*s));
    }
    r
}

/// An owned copy of a list of styles, with the same views.
pub fn clone_styles(ss: &Vec<AstStyle>) -> (r: Vec<AstStyle>)
    ensures
        style_views(r@) == style_views(ss@),
        r@.len() == ss@.len(),
    decreases *ss,
{
    let mut out: Vec<AstStyle> = Vec::new();
    let mut i: usize = 0;
    while i < ss.len()
        invariant
            0 <= i <= ss@.len(),
            out@.len() == i,
            forall|j: int| 0 <= j < i ==> style_view(out@[j]) == style_view(ss@[j]),
        decreases ss@.len() - i,
    {
        proof {
            assert(decreases_to!(*ss => ss@[i as int]));
        }
        out.push(clone_style(&ss[i]));
        i += 1;
    }
    proof {
        broadcast use lemma_style_views_len, lemma_style_views_index;

        assert(style_views(out@) =~= style_views(ss@));
    }
    out
}

} // verus!
