use vstd::prelude::*;
use crate::ast::{ASTVariant, AstElements, AstStyle, StyleView, VariantView};
use crate::ast::{style_view, style_views, variant_view, variant_views};
use crate::ast::{lemma_style_views_index, lemma_style_views_len};
use crate::text::{join_seq, join_strings};

verus! {

/// The text of one variant prefix: `not-`, the names joined with `-`, and
/// the `:` or `::` ending.
pub open spec fn render_variant(v: VariantView) -> Seq<char> {
    (if v.not {
        "not-"@
    } else {
        Seq::empty()
    }) + join_seq(v.names, "-"@) + (if v.pseudo {
        "::"@
    } else {
        ":"@
    })
}

/// The text of a list of variant prefixes, in the order they are held.
pub open spec fn render_variants(vs: Seq<VariantView>) -> Seq<char>
    decreases vs.len(),
{
    if vs.len() == 0 {
        Seq::empty()
    } else {
        render_variants(vs.drop_last()) + render_variant(vs.last())
    }
}

/// The canonical text of a style: variants, then the sign, then the element
/// path joined with `-`, then `-[arbitrary]`, then the parenthesised
/// children joined with single spaces, then `!`.
pub open spec fn render_style(v: StyleView) -> Seq<char>
    decreases v,
{
    render_variants(v.variants) + (if v.negative {
        "-"@
    } else {
        Seq::empty()
    }) + join_seq(v.elements, "-"@) + (if v.arbitrary.len() > 0 {
        "-["@ + v.arbitrary + "]"@
    } else {
        Seq::empty()
    }) + (if v.children.len() > 0 {
        "("@ + render_children(v.children) + ")"@
    } else {
        Seq::empty()
    }) + (if v.important {
        "!"@
    } else {
        Seq::empty()
    })
}

pub open spec fn render_children(cs: Seq<StyleView>) -> Seq<char>
    decreases cs,
{
    if cs.len() == 0 {
        Seq::empty()
    } else if cs.len() == 1 {
        render_style(cs.last())
    } else {
        render_children(cs.drop_last()) + " "@ + render_style(cs.last())
    }
}

impl ASTVariant {
    /// Writes this variant as it stands in a token.
    pub fn to_class(&self) -> (r: String)
        ensures
            r@ == render_variant(variant_view(*self)),
    {
        let mut out = String::new();
        if self.not {
            out.append("not-");
        }
        let joined = join_strings(&self.names, "-");
        out.append(joined.as_str());
        if self.pseudo {
            out.append("::");
        } else {
            out.append(":");
        }
        out
    }
}

impl AstElements {
    /// Writes the element path joined with `-`, without the sign.
    pub fn to_class(&self) -> (r: String)
        ensures
            r@ == join_seq(self.items.deep_view(), "-"@),
    {
        join_strings(&self.items, "-")
    }
}

impl AstStyle {
    /// Writes this style back as a token in canonical form: variants first,
    /// then the sign, the element path, the bracketed arbitrary value, the
    /// grouped children and the importance mark.
    pub fn to_class(&self) -> (r: String)
        ensures
            r@ == render_style(style_view(*self)),
        decreases *self,
    {
        let mut out = String::new();
        let mut i: usize = 0;
        while i < self.variants.len()
            invariant
                0 <= i <= self.variants@.len(),
                out@ == render_variants(variant_views(self.variants@).take(i as int)),
            decreases self.variants@.len() - i,
        {
            proof {
                assert(variant_views(self.variants@).take(i + 1).drop_last() =~= variant_views(
                    self.variants@,
                ).take(i as int));
                assert(variant_views(self.variants@).take(i + 1).last() == variant_view(
                    self.variants@[i as int],
                ));
            }
            let piece = self.variants[i].to_class();
            out.append(piece.as_str());
            i += 1;
        }
        proof {
            assert(variant_views(self.variants@).take(self.variants@.len() as int)
                =~= variant_views(self.variants@));
        }
        if self.elements.negative {
            out.append("-");
        }
        let path = self.elements.to_class();
        out.append(path.as_str());
        if !self.arbitrary.item.as_str().is_empty() {
            out.append("-[");
            out.append(self.arbitrary.item.as_str());
            out.append("]");
        }
        if self.children.len() > 0 {
            out.append("(");
            let ghost kids = style_views(self.children@);
            proof {
                lemma_style_views_len(self.children@);
            }
            let mut c: usize = 0;
            let mut inner = String::new();
            while c < self.children.len()
                invariant
                    0 <= c <= self.children@.len(),
                    kids == style_views(self.children@),
                    kids.len() == self.children@.len(),
                    inner@ == render_children(kids.take(c as int)),
                decreases self.children@.len() - c,
            {
                proof {
                    lemma_style_views_index(self.children@, c as int);
                    assert(kids.take(c + 1).drop_last() =~= kids.take(c as int));
                    assert(kids.take(c + 1).last() == kids[c as int]);
                    assert(decreases_to!(*self => self.children@[c as int]));
                }
                if c > 0 {
                    inner.append(" ");
                }
                let piece = self.children[c].to_class();
                inner.append(piece.as_str());
                c += 1;
            }
            proof {
                assert(kids.take(self.children@.len() as int) =~= kids);
            }
            out.append(inner.as_str());
            out.append(")");
        }
        if self.important {
            out.append("!");
        }
        proof {
            lemma_style_views_len(self.children@);
            assert(out@ =~= render_style(style_view(*self)));
        }
        out
    }
}

} // verus!
