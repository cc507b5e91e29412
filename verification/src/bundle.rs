use vstd::prelude::*;
use crate::ast::{clone_string, variant_views, ASTVariant, VariantView};
use crate::css::CssAttributes;
use crate::display::render_variants;
use crate::text::{dec_digits, fmt_u64, fmt_usize, str_eq};

verus! {

/// What the digest of a key text is. Relies on xxh3 being a function of its
/// input bytes alone.
pub uninterp spec fn xxh3_of(s: Seq<char>) -> u64;

/// Relies on xxhash_rust::xxh3::xxh3_64: the 64-bit digest of the text's
/// bytes, a function of the text alone.
#[verifier::external_body]
fn xxh3_string(s: &str) -> (r: u64)
    ensures
        r == xxh3_of(s@),
{
    xxhash_rust::xxh3::xxh3_64(s.as_bytes())
}

/// One generated CSS rule, owned by the bundle for the build's lifetime.
#[derive(Debug)]
pub struct ResolvedClass {
    /// The canonical text of the expression that first produced the rule.
    pub source_text: String,
    /// The variant context: pseudo-states and at most one breakpoint.
    pub variants: Vec<ASTVariant>,
    /// The ordered property block.
    pub attributes: CssAttributes,
    /// Whether the rule outranks the normal cascade.
    pub important: bool,
    /// The digest of the key text, kept for hash-derived names.
    pub content_hash: u64,
    /// The stable name the rule is known by, assigned once.
    pub output_name: String,
}

/// Whether an entry holds this dedup key: the same variant context as a
/// set, the same property pairs as a set, order never mattering.
pub open spec fn entry_has_key(
    e: ResolvedClass,
    vs: Set<VariantView>,
    ats: Set<(Seq<char>, Seq<char>)>,
) -> bool {
    variant_views(e.variants@).to_set() == vs && e.attributes.view_pairs().to_set() == ats
}


/// How an existing entry may change while the registry lives: every field
/// is kept, and importance may only rise (an upgrade is never withdrawn).
/// Output names are assigned once and stay stable.
pub open spec fn entry_persists(now: ResolvedClass, was: ResolvedClass) -> bool {
    &&& now.output_name == was.output_name
    &&& now.variants == was.variants
    &&& now.attributes == was.attributes
    &&& now.source_text == was.source_text
    &&& now.content_hash == was.content_hash
    &&& (was.important ==> now.important)
}

/// The first entry holding the key, or -1.
pub open spec fn find_entry(
    entries: Seq<ResolvedClass>,
    vs: Set<VariantView>,
    ats: Set<(Seq<char>, Seq<char>)>,
) -> int
    decreases entries.len(),
{
    if entries.len() == 0 {
        -1
    } else if entry_has_key(entries[0], vs, ats) {
        0
    } else {
        let r = find_entry(entries.drop_first(), vs, ats);
        if r == -1 {
            -1
        } else {
            r + 1
        }
    }
}

/// `find_entry` finds what it says.
pub proof fn lemma_find_entry(
    entries: Seq<ResolvedClass>,
    vs: Set<VariantView>,
    ats: Set<(Seq<char>, Seq<char>)>,
)
    ensures
        find_entry(entries, vs, ats) == -1 ==> forall|i: int|
            0 <= i < entries.len() ==> !entry_has_key(entries[i], vs, ats),
        find_entry(entries, vs, ats) != -1 ==> 0 <= find_entry(entries, vs, ats) < entries.len()
            && entry_has_key(entries[find_entry(entries, vs, ats)], vs, ats) && forall|i: int|
            0 <= i < find_entry(entries, vs, ats) ==> !entry_has_key(entries[i], vs, ats),
    decreases entries.len(),
{
    if entries.len() > 0 && !entry_has_key(entries[0], vs, ats) {
        lemma_find_entry(entries.drop_first(), vs, ats);
        let rest = entries.drop_first();
        assert(forall|i: int| 0 <= i < rest.len() ==> rest[i] == entries[i + 1]);
        if find_entry(entries, vs, ats) == -1 {
            assert forall|i: int| 0 <= i < entries.len() implies !entry_has_key(
                entries[i],
                vs,
                ats,
            ) by {
                if i > 0 {
                    assert(rest[i - 1] == entries[i]);
                }
            };
        } else {
            let f = find_entry(rest, vs, ats);
            assert(find_entry(entries, vs, ats) == f + 1);
            assert(entries[f + 1] == rest[f]);
            assert forall|i: int| 0 <= i < f + 1 implies !entry_has_key(entries[i], vs, ats) by {
                if i > 0 {
                    assert(rest[i - 1] == entries[i]);
                }
            };
        }
    }
}

/// The canonical key text a rule is hashed by: the variant prefixes as
/// written, the property pairs, and the importance mark.
pub open spec fn bundle_key_text(
    vs: Seq<VariantView>,
    ps: Seq<(Seq<char>, Seq<char>)>,
    important: bool,
) -> Seq<char> {
    render_variants(vs) + "|"@ + attr_pairs_text(ps) + (if important {
        "!"@
    } else {
        Seq::empty()
    })
}

/// The property pairs written `key:value;` in order.
pub open spec fn attr_pairs_text(ps: Seq<(Seq<char>, Seq<char>)>) -> Seq<char>
    decreases ps.len(),
{
    if ps.len() == 0 {
        Seq::empty()
    } else {
        attr_pairs_text(ps.drop_last()) + ps.last().0 + ":"@ + ps.last().1 + ";"@
    }
}

/// Writes the property pairs as `key:value;` text, in order.
pub fn write_attr_pairs(attributes: &CssAttributes) -> (r: String)
    ensures
        r@ == attr_pairs_text(attributes.view_pairs()),
{
    let ghost ps = attributes.view_pairs();
    let mut out = String::new();
    let n = attributes.len();
    let mut i: usize = 0;
    while i < n
        invariant
            ps == attributes.view_pairs(),
            n == ps.len(),
            0 <= i <= n,
            out@ == attr_pairs_text(ps.take(i as int)),
        decreases n - i,
    {
        proof {
            assert(ps.take(i + 1).drop_last() =~= ps.take(i as int));
            assert(ps.take(i + 1).last() == ps[i as int]);
        }
        out.append(attributes.key_at(i).as_str());
        out.append(":");
        out.append(attributes.value_at(i).as_str());
        out.append(";");
        i += 1;
    }
    proof {
        assert(ps.take(n as int) =~= ps);
    }
    out
}

/// Writes the variant prefixes as they stand in a token, in order.
pub fn write_variants(variants: &Vec<ASTVariant>) -> (r: String)
    ensures
        r@ == render_variants(variant_views(variants@)),
{
    let ghost vs = variant_views(variants@);
    let mut out = String::new();
    let mut i: usize = 0;
    while i < variants.len()
        invariant
            vs == variant_views(variants@),
            vs.len() == variants@.len(),
            0 <= i <= vs.len(),
            out@ == render_variants(vs.take(i as int)),
        decreases vs.len() - i,
    {
        proof {
            assert(vs.take(i + 1).drop_last() =~= vs.take(i as int));
            assert(vs.take(i + 1).last() == vs[i as int]);
        }
        let piece = variants[i].to_class();
        out.append(piece.as_str());
        i += 1;
    }
    proof {
        assert(vs.take(vs.len() as int) =~= vs);
    }
    out
}

/// Whether two variant lists hold the same variants, in any order.
pub fn same_variant_set(a: &Vec<ASTVariant>, b: &Vec<ASTVariant>) -> (r: bool)
    ensures
        r == (variant_views(a@).to_set() == variant_views(b@).to_set()),
{
    let forward = variant_list_subset(a, b);
    let backward = variant_list_subset(b, a);
    proof {
        let sa = variant_views(a@).to_set();
        let sb = variant_views(b@).to_set();
        if forward && backward {
            assert(sa =~= sb);
        }
        if sa == sb {
            assert forall|i: int| 0 <= i < variant_views(a@).len() implies variant_views(
                b@,
            ).to_set().contains(variant_views(a@)[i]) by {
                assert(sa.contains(variant_views(a@)[i]));
            };
            assert forall|i: int| 0 <= i < variant_views(b@).len() implies variant_views(
                a@,
            ).to_set().contains(variant_views(b@)[i]) by {
                assert(sb.contains(variant_views(b@)[i]));
            };
        }
    }
    forward && backward
}

/// Whether every variant of `a` also stands in `b`.
fn variant_list_subset(a: &Vec<ASTVariant>, b: &Vec<ASTVariant>) -> (r: bool)
    ensures
        r == forall|i: int|
            0 <= i < variant_views(a@).len() ==> variant_views(b@).to_set().contains(
                variant_views(a@)[i],
            ),
{
    let mut i: usize = 0;
    while i < a.len()
        invariant
            0 <= i <= a@.len(),
            forall|j: int| 0 <= j < i ==> variant_views(b@).to_set().contains(
                variant_views(a@)[j],
            ),
        decreases a@.len() - i,
    {
        if !contains_variant_set(b, &a[i]) {
            proof {
                assert(variant_views(a@)[i as int] == variant_view_of(a@[i as int]));
                assert(!(forall|k: int|
                    0 <= k < variant_views(a@).len() ==> variant_views(b@).to_set().contains(
                        variant_views(a@)[k],
                    ))) by {
                    assert(0 <= i as int && (i as int) < variant_views(a@).len());
                    assert(!variant_views(b@).to_set().contains(variant_views(a@)[i as int]));
                };
            }
            return false;
        }
        i += 1;
    }
    true
}

/// Whether `vs` holds a variant with this view, as set membership.
fn contains_variant_set(vs: &Vec<ASTVariant>, v: &ASTVariant) -> (r: bool)
    ensures
        r == variant_views(vs@).to_set().contains(variant_view_of(*v)),
{
    let r = crate::ast::contains_variant(vs, v);
    proof {
        if variant_views(vs@).contains(variant_view_of(*v)) {
            assert(variant_views(vs@).to_set().contains(variant_view_of(*v)));
        }
        if variant_views(vs@).to_set().contains(variant_view_of(*v)) {
            assert(variant_views(vs@).contains(variant_view_of(*v)));
        }
    }
    r
}

/// The view of one variant.
pub open spec fn variant_view_of(v: ASTVariant) -> VariantView {
    crate::ast::variant_view(v)
}

/// Whether two attribute blocks hold the same pairs, in any order.
pub fn same_attr_set(a: &CssAttributes, b: &CssAttributes) -> (r: bool)
    ensures
        r == (a.view_pairs().to_set() == b.view_pairs().to_set()),
{
    let forward = attr_subset(a, b);
    let backward = attr_subset(b, a);
    proof {
        let sa = a.view_pairs().to_set();
        let sb = b.view_pairs().to_set();
        if forward && backward {
            assert(sa =~= sb);
        }
        if sa == sb {
            assert forall|i: int| 0 <= i < a.view_pairs().len() implies sb.contains(
                a.view_pairs()[i],
            ) by {
                assert(sa.contains(a.view_pairs()[i]));
            };
            assert forall|i: int| 0 <= i < b.view_pairs().len() implies sa.contains(
                b.view_pairs()[i],
            ) by {
                assert(sb.contains(b.view_pairs()[i]));
            };
        }
    }
    forward && backward
}

/// Whether every pair of `a` also stands in `b`.
fn attr_subset(a: &CssAttributes, b: &CssAttributes) -> (r: bool)
    ensures
        r == forall|i: int|
            0 <= i < a.view_pairs().len() ==> b.view_pairs().to_set().contains(a.view_pairs()[i]),
{
    let n = a.len();
    let mut i: usize = 0;
    while i < n
        invariant
            n == a.view_pairs().len(),
            0 <= i <= n,
            forall|j: int| 0 <= j < i ==> b.view_pairs().to_set().contains(a.view_pairs()[j]),
        decreases n - i,
    {
        if !attr_member(b, a.key_at(i), a.value_at(i)) {
            assert(!b.view_pairs().to_set().contains(a.view_pairs()[i as int]));
            return false;
        }
        i += 1;
    }
    true
}

/// Whether `b` holds the pair `(key, value)`.
fn attr_member(b: &CssAttributes, key: &String, value: &String) -> (r: bool)
    ensures
        r == b.view_pairs().to_set().contains((key@, value@)),
{
    let n = b.len();
    let mut i: usize = 0;
    while i < n
        invariant
            n == b.view_pairs().len(),
            0 <= i <= n,
            forall|j: int| 0 <= j < i ==> b.view_pairs()[j] != (key@, value@),
        decreases n - i,
    {
        if str_eq(b.key_at(i).as_str(), key.as_str()) && str_eq(
            b.value_at(i).as_str(),
            value.as_str(),
        ) {
            assert(b.view_pairs()[i as int] == (key@, value@));
            assert(b.view_pairs().to_set().contains((key@, value@)));
            return true;
        }
        i += 1;
    }
    proof {
        if b.view_pairs().to_set().contains((key@, value@)) {
            let k = choose|k: int|
                0 <= k < b.view_pairs().len() && b.view_pairs()[k] == (key@, value@);
            assert(b.view_pairs()[k] != (key@, value@));
        }
    }
    false
}

/// The per-build registry of generated rules: one entry per distinct
/// (variant context, property set) key, with stable output names.
#[derive(Debug)]
pub struct CssBundle {
    pub entries: Vec<ResolvedClass>,
    /// Whether output names are derived from the content digest rather
    /// than the entry's position.
    pub obfuscate: bool,
}

impl CssBundle {
    /// An empty registry.
    pub fn new(obfuscate: bool) -> (r: CssBundle)
        ensures
            r.entries@.len() == 0,
            r.obfuscate == obfuscate,
    {
        CssBundle { entries: Vec::new(), obfuscate }
    }

    /// How many rules the registry holds.
    pub fn len(&self) -> (r: usize)
        ensures
            r == self.entries@.len(),
    {
        self.entries.len()
    }

    /// Interns one resolved class. A class whose variant context and
    /// property set are already held shares the existing entry: its name is
    /// returned, the registry does not grow, and the entry becomes
    /// important when the new class is (importance dominates and is never
    /// withdrawn). A new key is appended with a fresh stable name: the
    /// entry position, or the content digest when names are obfuscated.
    pub fn intern(
        &mut self,
        source_text: String,
        variants: Vec<ASTVariant>,
        attributes: CssAttributes,
        important: bool,
    ) -> (name: String)
        ensures
            ({
                let vs = variant_views(variants@).to_set();
                let ats = attributes.view_pairs().to_set();
                let f = find_entry(old(self).entries@, vs, ats);
                &&& final(self).obfuscate == old(self).obfuscate
                &&& f >= 0 ==> {
                    &&& final(self).entries@.len() == old(self).entries@.len()
                    &&& name@ == old(self).entries@[f].output_name@
                    &&& final(self).entries@[f].important == (old(self).entries@[f].important
                        || important)
                    &&& final(self).entries@[f].output_name == old(self).entries@[f].output_name
                    &&& final(self).entries@[f].variants == old(self).entries@[f].variants
                    &&& final(self).entries@[f].attributes == old(self).entries@[f].attributes
                    &&& final(self).entries@[f].source_text == old(self).entries@[f].source_text
                    &&& final(self).entries@[f].content_hash == old(self).entries@[f].content_hash
                    &&& entry_has_key(final(self).entries@[f], vs, ats)
                    &&& forall|i: int|
                        0 <= i < old(self).entries@.len() && i != f ==> final(self).entries@[i]
                            == old(self).entries@[i]
                }
                &&& f == -1 ==> {
                    &&& final(self).entries@.len() == old(self).entries@.len() + 1
                    &&& forall|i: int|
                        0 <= i < old(self).entries@.len() ==> final(self).entries@[i] == old(
                            self,
                        ).entries@[i]
                    &&& entry_has_key(final(self).entries@.last(), vs, ats)
                    &&& final(self).entries@.last().important == important
                    &&& final(self).entries@.last().source_text@ == source_text@
                    &&& final(self).entries@.last().output_name@ == name@
                    &&& final(self).entries@.last().content_hash == xxh3_of(
                        bundle_key_text(
                            variant_views(variants@),
                            attributes.view_pairs(),
                            important,
                        ),
                    )
                    &&& name@ == (if old(self).obfuscate {
                        "tw-"@ + dec_digits(xxh3_of(
                            bundle_key_text(
                                variant_views(variants@),
                                attributes.view_pairs(),
                                important,
                            ),
                        ) as nat)
                    } else {
                        "tw-"@ + dec_digits(old(self).entries@.len() as nat)
                    })
                }
            }),
    {
        let ghost vs = variant_views(variants@).to_set();
        let ghost ats = attributes.view_pairs().to_set();
        let ghost before = self.entries@;
        let n = self.entries.len();
        let mut i: usize = 0;
        while i < n
            invariant
                before == self.entries@,
                before == old(self).entries@,
                self.obfuscate == old(self).obfuscate,
                n == before.len(),
                vs == variant_views(variants@).to_set(),
                ats == attributes.view_pairs().to_set(),
                0 <= i <= n,
                forall|j: int| 0 <= j < i ==> !entry_has_key(before[j], vs, ats),
            decreases n - i,
        {
            let hit_v = same_variant_set(&self.entries[i].variants, &variants);
            let hit_a = same_attr_set(&self.entries[i].attributes, &attributes);
            if hit_v && hit_a {
                proof {
                    assert(entry_has_key(before[i as int], vs, ats));
                    assert(find_entry(before, vs, ats) == i as int) by {
                        lemma_find_entry(before, vs, ats);
                        if find_entry(before, vs, ats) == -1 {
                            assert(!entry_has_key(before[i as int], vs, ats));
                        } else if find_entry(before, vs, ats) > i as int {
                            assert(!entry_has_key(before[i as int], vs, ats));
                        }
                    };
                }
                let name = clone_string(&self.entries[i].output_name);
                if important && !self.entries[i].important {
                    let ghost oldv = self.entries@;
                    let entry = self.entries.remove(i);
                    let upgraded = ResolvedClass {
                        source_text: entry.source_text,
                        variants: entry.variants,
                        attributes: entry.attributes,
                        important: true,
                        content_hash: entry.content_hash,
                        output_name: entry.output_name,
                    };
                    let ghost mid = self.entries@;
                    self.entries.insert(i, upgraded);
                    proof {
                        assert(mid == oldv.remove(i as int));
                        assert(self.entries@ == mid.insert(i as int, self.entries@[i as int]));
                        assert forall|j: int|
                            0 <= j < oldv.len() && j != i as int implies #[trigger] self
                            .entries@[j] == oldv[j] by {
                            if j < i as int {
                                assert(mid[j] == oldv[j]);
                            } else {
                                assert(mid[j - 1] == oldv[j]);
                            }
                        };
                    }
                }
                return name;
            }
            i += 1;
        }
        proof {
            assert(find_entry(before, vs, ats) == -1) by {
                lemma_find_entry(before, vs, ats);
                if find_entry(before, vs, ats) != -1 {
                    assert(entry_has_key(before[find_entry(before, vs, ats)], vs, ats));
                }
            };
        }
        let key_head = write_variants(&variants);
        let key_attrs = write_attr_pairs(&attributes);
        let mut key_text = key_head;
        key_text.append("|");
        key_text.append(key_attrs.as_str());
        if important {
            key_text.append("!");
        }
        proof {
            assert(key_text@ == bundle_key_text(
                variant_views(variants@),
                attributes.view_pairs(),
                important,
            ));
        }
        let hash = xxh3_string(key_text.as_str());
        let mut name = String::new();
        name.append("tw-");
        if self.obfuscate {
            let d = fmt_u64(hash);
            name.append(d.as_str());
        } else {
            let d = fmt_usize(n);
            name.append(d.as_str());
        }
        let entry = ResolvedClass {
            source_text,
            variants,
            attributes,
            important,
            content_hash: hash,
            output_name: clone_string(&name),
        };
        self.entries.push(entry);
        name
    }
}

} // verus!
