use vstd::prelude::*;
use crate::ast::{ASTVariant, AstArbitrary, AstElements, AstStyle, StyleView, VariantView};
use crate::ast::{style_view, style_views, variant_view, variant_views};
use crate::ast::lemma_style_views_len;
use crate::error::TailwindError;

verus! {

// ---------------------------------------------------------------------------
// The grammar, written over sequences of characters.
//
//   token    := '-'? variant* '-'? body '!'?
//   variant  := ('not-')? name ('-' name)* (':' | '::')
//   body     := elements | elements? group
//   elements := element ('-' element)* ('-[' text ']')?
//   group    := '(' token (' '+ token)* ')'
//
// A name is a run of letters and digits; an element may also hold the
// characters `&`, `/`, `.` and `%`. The sign may be written before or after
// the variants; the canonical place is after them.
// ---------------------------------------------------------------------------

/// Whether `c` may stand in a variant name.
pub open spec fn is_name_char(c: char) -> bool {
    (97 <= c as u32 && c as u32 <= 122) || (65 <= c as u32 && c as u32 <= 90) || (48 <= c as u32
        && c as u32 <= 57)
}

/// Whether `c` may stand in an element of a path.
pub open spec fn is_elem_char(c: char) -> bool {
    is_name_char(c) || c == '&' || c == '/' || c == '.' || c == '%'
}

/// The end of the run of name characters that starts at `i`.
pub open spec fn scan_name_end(s: Seq<char>, i: int) -> int
    decreases s.len() - i when 0 <= i <= s.len()
{
    if i < s.len() && is_name_char(s[i]) {
        scan_name_end(s, i + 1)
    } else {
        i
    }
}

/// The end of the run of element characters that starts at `i`.
pub open spec fn scan_elem_end(s: Seq<char>, i: int) -> int
    decreases s.len() - i when 0 <= i <= s.len()
{
    if i < s.len() && is_elem_char(s[i]) {
        scan_elem_end(s, i + 1)
    } else {
        i
    }
}

/// The first position at or after `i` holding `]`, or the length.
pub open spec fn scan_close(s: Seq<char>, i: int) -> int
    decreases s.len() - i when 0 <= i <= s.len()
{
    if i < s.len() && s[i] != ']' {
        scan_close(s, i + 1)
    } else {
        i
    }
}

/// The first position at or after `i` holding no space, or the length.
pub open spec fn scan_spaces(s: Seq<char>, i: int) -> int
    decreases s.len() - i when 0 <= i <= s.len()
{
    if i < s.len() && s[i] == ' ' {
        scan_spaces(s, i + 1)
    } else {
        i
    }
}

pub proof fn lemma_scan_name_bounds(s: Seq<char>, i: int)
    requires
        0 <= i <= s.len(),
    ensures
        i <= scan_name_end(s, i) <= s.len(),
    decreases s.len() - i,
{
    if i < s.len() && is_name_char(s[i]) {
        lemma_scan_name_bounds(s, i + 1);
    }
}

pub proof fn lemma_scan_elem_bounds(s: Seq<char>, i: int)
    requires
        0 <= i <= s.len(),
    ensures
        i <= scan_elem_end(s, i) <= s.len(),
    decreases s.len() - i,
{
    if i < s.len() && is_elem_char(s[i]) {
        lemma_scan_elem_bounds(s, i + 1);
    }
}

pub proof fn lemma_scan_close_bounds(s: Seq<char>, i: int)
    requires
        0 <= i <= s.len(),
    ensures
        i <= scan_close(s, i) <= s.len(),
    decreases s.len() - i,
{
    if i < s.len() && s[i] != ']' {
        lemma_scan_close_bounds(s, i + 1);
    }
}

pub proof fn lemma_scan_spaces_bounds(s: Seq<char>, i: int)
    requires
        0 <= i <= s.len(),
    ensures
        i <= scan_spaces(s, i) <= s.len(),
    decreases s.len() - i,
{
    if i < s.len() && s[i] == ' ' {
        lemma_scan_spaces_bounds(s, i + 1);
    }
}

/// Reads `name ('-' name)*` starting at `i`, the names collected after
/// `acc`. Fails when no name character stands at `i`.
pub open spec fn parse_name_list(s: Seq<char>, i: int, acc: Seq<Seq<char>>) -> Option<
    (Seq<Seq<char>>, int),
>
    decreases s.len() - i when 0 <= i <= s.len() via parse_name_list_dec
{
    let e = scan_name_end(s, i);
    if e == i {
        None
    } else {
        let acc2 = acc.push(s.subrange(i, e));
        if e + 1 < s.len() && s[e] == '-' && is_name_char(s[e + 1]) {
            parse_name_list(s, e + 1, acc2)
        } else {
            Some((acc2, e))
        }
    }
}

#[via_fn]
proof fn parse_name_list_dec(s: Seq<char>, i: int, acc: Seq<Seq<char>>) {
    lemma_scan_name_bounds(s, i);
}

/// On success the read names end strictly after `i`, within the string.
pub proof fn lemma_name_list_progress(s: Seq<char>, i: int, acc: Seq<Seq<char>>)
    requires
        0 <= i <= s.len(),
    ensures
        parse_name_list(s, i, acc) matches Some(r) ==> i < r.1 <= s.len(),
    decreases s.len() - i,
{
    lemma_scan_name_bounds(s, i);
    let e = scan_name_end(s, i);
    if e != i && e + 1 < s.len() && s[e] == '-' && is_name_char(s[e + 1]) {
        lemma_name_list_progress(s, e + 1, acc.push(s.subrange(i, e)));
    }
}

/// Reads one variant prefix, `('not-')? name ('-' name)* (':' | '::')`,
/// starting at `i`; `None` where none stands there.
pub open spec fn parse_variant(s: Seq<char>, i: int) -> Option<(VariantView, int)> {
    match parse_name_list(s, i, Seq::empty()) {
        Option::None => None,
        Option::Some((names, j)) => {
            if j < s.len() && s[j] == ':' {
                let pseudo = j + 1 < s.len() && s[j + 1] == ':';
                let k = if pseudo {
                    j + 2
                } else {
                    j + 1
                };
                let negated = names.len() >= 2 && names[0] == "not"@;
                let kept = if negated {
                    names.drop_first()
                } else {
                    names
                };
                Some((VariantView { not: negated, pseudo, names: kept }, k))
            } else {
                None
            }
        },
    }
}

pub proof fn lemma_variant_progress(s: Seq<char>, i: int)
    requires
        0 <= i <= s.len(),
    ensures
        parse_variant(s, i) matches Some(r) ==> i < r.1 <= s.len(),
{
    lemma_name_list_progress(s, i, Seq::empty());
}

/// Reads every variant prefix from `i` on, collected after `acc`, and the
/// position where the last one ends.
pub open spec fn parse_variants(s: Seq<char>, i: int, acc: Seq<VariantView>) -> (
    Seq<VariantView>,
    int,
)
    decreases s.len() - i when 0 <= i <= s.len() via parse_variants_dec
{
    match parse_variant(s, i) {
        Option::None => (acc, i),
        Option::Some((v, j)) => parse_variants(
            s,
            j,
            if acc.contains(v) {
                acc
            } else {
                acc.push(v)
            },
        ),
    }
}

#[via_fn]
proof fn parse_variants_dec(s: Seq<char>, i: int, acc: Seq<VariantView>) {
    lemma_variant_progress(s, i);
}

pub proof fn lemma_variants_progress(s: Seq<char>, i: int, acc: Seq<VariantView>)
    requires
        0 <= i <= s.len(),
    ensures
        i <= parse_variants(s, i, acc).1 <= s.len(),
    decreases s.len() - i,
{
    lemma_variant_progress(s, i);
    match parse_variant(s, i) {
        Option::None => {},
        Option::Some((v, j)) => {
            lemma_variants_progress(
                s,
                j,
                if acc.contains(v) {
                    acc
                } else {
                    acc.push(v)
                },
            );
        },
    }
}

/// Reads `element ('-' element)* ('-[' text ']')?` starting at `i`: the
/// elements collected after `acc`, then the arbitrary text (empty where none
/// is written), then the end position. Fails when no element character
/// stands at `i` and on an unterminated `[`.
pub open spec fn parse_elements(s: Seq<char>, i: int, acc: Seq<Seq<char>>) -> Option<
    (Seq<Seq<char>>, Seq<char>, int),
>
    decreases s.len() - i when 0 <= i <= s.len() via parse_elements_dec
{
    let e = scan_elem_end(s, i);
    if e == i {
        None
    } else {
        let acc2 = acc.push(s.subrange(i, e));
        if e + 1 < s.len() && s[e] == '-' && s[e + 1] == '[' {
            let c = scan_close(s, e + 2);
            if c < s.len() {
                Some((acc2, s.subrange(e + 2, c), c + 1))
            } else {
                None
            }
        } else if e + 1 < s.len() && s[e] == '-' && is_elem_char(s[e + 1]) {
            parse_elements(s, e + 1, acc2)
        } else {
            Some((acc2, Seq::empty(), e))
        }
    }
}

#[via_fn]
proof fn parse_elements_dec(s: Seq<char>, i: int, acc: Seq<Seq<char>>) {
    lemma_scan_elem_bounds(s, i);
}

pub proof fn lemma_elements_progress(s: Seq<char>, i: int, acc: Seq<Seq<char>>)
    requires
        0 <= i <= s.len(),
    ensures
        parse_elements(s, i, acc) matches Some(r) ==> i < r.2 <= s.len(),
    decreases s.len() - i,
{
    lemma_scan_elem_bounds(s, i);
    let e = scan_elem_end(s, i);
    if e != i {
        let acc2 = acc.push(s.subrange(i, e));
        if e + 1 < s.len() && s[e] == '-' && s[e + 1] == '[' {
            lemma_scan_close_bounds(s, e + 2);
        } else if e + 1 < s.len() && s[e] == '-' && is_elem_char(s[e + 1]) {
            lemma_elements_progress(s, e + 1, acc2);
        }
    }
}

/// Reads one whole token starting at `i`: sign, variants, body and the
/// trailing `!`.
pub open spec fn parse_token(s: Seq<char>, i: int) -> Option<(StyleView, int)>
    decreases s.len() - i, 0int when 0 <= i <= s.len() via parse_token_dec
{
    let neg_pre = i < s.len() && s[i] == '-';
    let i1 = if neg_pre {
        i + 1
    } else {
        i
    };
    let (vars, i2) = parse_variants(s, i1, Seq::empty());
    let neg_post = !neg_pre && i2 < s.len() && s[i2] == '-';
    let neg = neg_pre || neg_post;
    let i3 = if neg_post {
        i2 + 1
    } else {
        i2
    };
    if i3 < s.len() && s[i3] == '(' {
        parse_group_end(s, i3 + 1, neg, vars, Seq::empty())
    } else {
        match parse_elements(s, i3, Seq::empty()) {
            Option::None => None,
            Option::Some((els, arb, i4)) => {
                if i4 < s.len() && s[i4] == '(' {
                    if arb.len() == 0 {
                        parse_group_end(s, i4 + 1, neg, vars, els)
                    } else {
                        None
                    }
                } else {
                    let imp = i4 < s.len() && s[i4] == '!';
                    let i5 = if imp {
                        i4 + 1
                    } else {
                        i4
                    };
                    Some(
                        (
                            StyleView {
                                important: imp,
                                negative: neg,
                                variants: vars,
                                elements: els,
                                arbitrary: arb,
                                children: Seq::empty(),
                            },
                            i5,
                        ),
                    )
                }
            },
        }
    }
}

/// Reads the children of a group from `i` (just past the `(`) to the closing
/// `)` and the trailing `!`, and builds the group style.
pub open spec fn parse_group_end(
    s: Seq<char>,
    i: int,
    neg: bool,
    vars: Seq<VariantView>,
    els: Seq<Seq<char>>,
) -> Option<(StyleView, int)>
    decreases s.len() - i, 2int when 0 <= i <= s.len() via parse_group_end_dec
{
    match parse_children(s, i, Seq::empty()) {
        Option::None => None,
        Option::Some((kids, j)) => {
            let imp = j + 1 < s.len() && s[j + 1] == '!';
            let j2 = if imp {
                j + 2
            } else {
                j + 1
            };
            Some(
                (
                    StyleView {
                        important: imp,
                        negative: neg,
                        variants: vars,
                        elements: els,
                        arbitrary: Seq::empty(),
                        children: kids,
                    },
                    j2,
                ),
            )
        },
    }
}

/// Reads tokens separated by spaces until a `)`, collected after `acc`;
/// yields the position of the `)`. A group needs at least one child.
pub open spec fn parse_children(s: Seq<char>, i: int, acc: Seq<StyleView>) -> Option<
    (Seq<StyleView>, int),
>
    decreases s.len() - i, 1int when 0 <= i <= s.len() via parse_children_dec
{
    let k = scan_spaces(s, i);
    if k < s.len() && s[k] == ')' {
        if acc.len() > 0 {
            Some((acc, k))
        } else {
            None
        }
    } else {
        match parse_token(s, k) {
            Option::None => None,
            Option::Some((v, j)) => {
                if k < j <= s.len() {
                    parse_children(s, j, acc.push(v))
                } else {
                    None
                }
            },
        }
    }
}

#[via_fn]
proof fn parse_token_dec(s: Seq<char>, i: int) {
    let neg_pre = i < s.len() && s[i] == '-';
    let i1 = if neg_pre {
        i + 1
    } else {
        i
    };
    lemma_variants_progress(s, i1, Seq::empty());
    let (vars, i2) = parse_variants(s, i1, Seq::empty());
    let neg_post = !neg_pre && i2 < s.len() && s[i2] == '-';
    let i3 = if neg_post {
        i2 + 1
    } else {
        i2
    };
    lemma_elements_progress(s, i3, Seq::empty());
}

#[via_fn]
proof fn parse_group_end_dec(s: Seq<char>, i: int, neg: bool, vars: Seq<VariantView>, els: Seq<Seq<char>>) {
}

#[via_fn]
proof fn parse_children_dec(s: Seq<char>, i: int, acc: Seq<StyleView>) {
    lemma_scan_spaces_bounds(s, i);
}

/// On success a token ends strictly after where it began, within the string.
pub proof fn lemma_token_progress(s: Seq<char>, i: int)
    requires
        0 <= i <= s.len(),
    ensures
        parse_token(s, i) matches Some(r) ==> i < r.1 <= s.len(),
    decreases s.len() - i, 0int,
{
    let neg_pre = i < s.len() && s[i] == '-';
    let i1 = if neg_pre {
        i + 1
    } else {
        i
    };
    lemma_variants_progress(s, i1, Seq::empty());
    let (vars, i2) = parse_variants(s, i1, Seq::empty());
    let neg_post = !neg_pre && i2 < s.len() && s[i2] == '-';
    let neg = neg_pre || neg_post;
    let i3 = if neg_post {
        i2 + 1
    } else {
        i2
    };
    if i3 < s.len() && s[i3] == '(' {
        lemma_group_progress(s, i3 + 1, neg, vars, Seq::empty());
    } else {
        lemma_elements_progress(s, i3, Seq::empty());
        match parse_elements(s, i3, Seq::empty()) {
            Option::None => {},
            Option::Some((els, arb, i4)) => {
                if i4 < s.len() && s[i4] == '(' && arb.len() == 0 {
                    lemma_group_progress(s, i4 + 1, neg, vars, els);
                }
            },
        }
    }
}

pub proof fn lemma_group_progress(
    s: Seq<char>,
    i: int,
    neg: bool,
    vars: Seq<VariantView>,
    els: Seq<Seq<char>>,
)
    requires
        0 <= i <= s.len(),
    ensures
        parse_group_end(s, i, neg, vars, els) matches Some(r) ==> i < r.1 <= s.len(),
    decreases s.len() - i, 2int,
{
    lemma_children_progress(s, i, Seq::empty());
}

pub proof fn lemma_children_progress(s: Seq<char>, i: int, acc: Seq<StyleView>)
    requires
        0 <= i <= s.len(),
    ensures
        parse_children(s, i, acc) matches Some(r) ==> i <= r.1 < s.len(),
    decreases s.len() - i, 1int,
{
    lemma_scan_spaces_bounds(s, i);
    let k = scan_spaces(s, i);
    if k < s.len() && s[k] == ')' {
    } else {
        match parse_token(s, k) {
            Option::None => {},
            Option::Some((v, j)) => {
                if k < j <= s.len() {
                    lemma_children_progress(s, j, acc.push(v));
                }
            },
        }
    }
}


// ---------------------------------------------------------------------------
// The executable parser. Each function mirrors one of the grammar functions
// above and is proved to return exactly what it returns.
// ---------------------------------------------------------------------------

/// Whether `c` may stand in a variant name.
pub fn name_char(c: char) -> (r: bool)
    ensures
        r == is_name_char(c),
{
    let u = c as u32;
    (97 <= u && u <= 122) || (65 <= u && u <= 90) || (48 <= u && u <= 57)
}

/// Whether `c` may stand in an element of a path.
pub fn elem_char(c: char) -> (r: bool)
    ensures
        r == is_elem_char(c),
{
    name_char(c) || c == '&' || c == '/' || c == '.' || c == '%'
}

fn scan_name(s: &str, n: usize, i: usize) -> (r: usize)
    requires
        n == s@.len(),
        i <= n,
    ensures
        r == scan_name_end(s@, i as int),
        i <= r <= n,
    decreases n - i,
{
    if i < n && name_char(s.get_char(i)) {
        scan_name(s, n, i + 1)
    } else {
        i
    }
}

fn scan_elem(s: &str, n: usize, i: usize) -> (r: usize)
    requires
        n == s@.len(),
        i <= n,
    ensures
        r == scan_elem_end(s@, i as int),
        i <= r <= n,
    decreases n - i,
{
    if i < n && elem_char(s.get_char(i)) {
        scan_elem(s, n, i + 1)
    } else {
        i
    }
}

fn scan_bracket_close(s: &str, n: usize, i: usize) -> (r: usize)
    requires
        n == s@.len(),
        i <= n,
    ensures
        r == scan_close(s@, i as int),
        i <= r <= n,
    decreases n - i,
{
    if i < n && s.get_char(i) != ']' {
        scan_bracket_close(s, n, i + 1)
    } else {
        i
    }
}

fn skip_spaces(s: &str, n: usize, i: usize) -> (r: usize)
    requires
        n == s@.len(),
        i <= n,
    ensures
        r == scan_spaces(s@, i as int),
        i <= r <= n,
    decreases n - i,
{
    if i < n && s.get_char(i) == ' ' {
        skip_spaces(s, n, i + 1)
    } else {
        i
    }
}

fn px_name_list(s: &str, n: usize, i: usize) -> (r: Option<(Vec<String>, usize)>)
    requires
        n == s@.len(),
        i <= n,
    ensures
        r matches Some(p) ==> parse_name_list(s@, i as int, Seq::empty()) matches Some(q)
            && p.0.deep_view() == q.0 && p.1 == q.1 && p.1 <= n,
        r is None ==> parse_name_list(s@, i as int, Seq::empty()) is None,
{
    let ghost goal = parse_name_list(s@, i as int, Seq::empty());
    let mut acc: Vec<String> = Vec::new();
    let mut pos: usize = i;
    proof {
        assert(acc.deep_view() =~= Seq::<Seq<char>>::empty());
    }
    loop
        invariant
            n == s@.len(),
            i <= pos <= n,
            goal == parse_name_list(s@, i as int, Seq::empty()),
            parse_name_list(s@, pos as int, acc.deep_view()) == goal,
        decreases n - pos,
    {
        let e = scan_name(s, n, pos);
        if e == pos {
            return None;
        }
        let ghost before = acc.deep_view();
        let piece = s.substring_char(pos, e).to_owned();
        acc.push(piece);
        proof {
            assert(acc.deep_view() =~= before.push(s@.subrange(pos as int, e as int)));
        }
        if e < n && s.get_char(e) == '-' && e + 1 < n && name_char(s.get_char(e + 1)) {
            pos = e + 1;
        } else {
            proof {
                lemma_name_list_progress(s@, i as int, Seq::empty());
            }
            return Some((acc, e));
        }
    }
}

fn px_variant(s: &str, n: usize, i: usize) -> (r: Option<(ASTVariant, usize)>)
    requires
        n == s@.len(),
        i <= n,
    ensures
        r matches Some(p) ==> parse_variant(s@, i as int) matches Some(q) && variant_view(p.0)
            == q.0 && p.1 == q.1 && i < p.1 <= n,
        r is None ==> parse_variant(s@, i as int) is None,
{
    proof {
        lemma_variant_progress(s@, i as int);
    }
    match px_name_list(s, n, i) {
        None => None,
        Some((mut names, j)) => {
            if j < n && s.get_char(j) == ':' {
                let pseudo = j + 1 < n && s.get_char(j + 1) == ':';
                let k = if pseudo {
                    j + 2
                } else {
                    j + 1
                };
                let negated = names.len() >= 2 && crate::text::str_eq(names[0].as_str(), "not");
                proof {
                    reveal_strlit("not");
                }
                if negated {
                    let ghost before = names.deep_view();
                    names.remove(0);
                    proof {
                        assert(names.deep_view() =~= before.drop_first());
                    }
                }
                let v = ASTVariant { not: negated, pseudo, names };
                Some((v, k))
            } else {
                None
            }
        },
    }
}

fn px_variants(s: &str, n: usize, i: usize) -> (r: (Vec<ASTVariant>, usize))
    requires
        n == s@.len(),
        i <= n,
    ensures
        ({
            let q = parse_variants(s@, i as int, Seq::empty());
            variant_views(r.0@) == q.0 && r.1 == q.1 && i <= r.1 <= n
        }),
{
    let ghost goal = parse_variants(s@, i as int, Seq::empty());
    let mut acc: Vec<ASTVariant> = Vec::new();
    let mut pos: usize = i;
    proof {
        assert(variant_views(acc@) =~= Seq::<VariantView>::empty());
    }
    loop
        invariant
            n == s@.len(),
            i <= pos <= n,
            goal == parse_variants(s@, i as int, Seq::empty()),
            parse_variants(s@, pos as int, variant_views(acc@)) == goal,
        decreases n - pos,
    {
        proof {
            lemma_variant_progress(s@, pos as int);
        }
        match px_variant(s, n, pos) {
            None => {
                return (acc, pos);
            },
            Some((v, j)) => {
                if !crate::ast::contains_variant(&acc, &v) {
                    let ghost before = acc@;
                    acc.push(v);
                    proof {
                        assert(variant_views(acc@) =~= variant_views(before).push(
                            variant_view(v),
                        ));
                    }
                }
                pos = j;
            },
        }
    }
}

fn px_elements(s: &str, n: usize, i: usize) -> (r: Option<(Vec<String>, String, usize)>)
    requires
        n == s@.len(),
        i <= n,
    ensures
        r matches Some(p) ==> parse_elements(s@, i as int, Seq::empty()) matches Some(q)
            && p.0.deep_view() == q.0 && p.1@ == q.1 && p.2 == q.2 && i < p.2 <= n,
        r is None ==> parse_elements(s@, i as int, Seq::empty()) is None,
{
    proof {
        lemma_elements_progress(s@, i as int, Seq::empty());
    }
    let ghost goal = parse_elements(s@, i as int, Seq::empty());
    let mut acc: Vec<String> = Vec::new();
    let mut pos: usize = i;
    proof {
        assert(acc.deep_view() =~= Seq::<Seq<char>>::empty());
    }
    loop
        invariant
            n == s@.len(),
            i <= pos <= n,
            goal == parse_elements(s@, i as int, Seq::empty()),
            parse_elements(s@, pos as int, acc.deep_view()) == goal,
        decreases n - pos,
    {
        let e = scan_elem(s, n, pos);
        if e == pos {
            return None;
        }
        let ghost before = acc.deep_view();
        let piece = s.substring_char(pos, e).to_owned();
        acc.push(piece);
        proof {
            assert(acc.deep_view() =~= before.push(s@.subrange(pos as int, e as int)));
        }
        if e < n && s.get_char(e) == '-' && e + 1 < n && s.get_char(e + 1) == '[' {
            let c = scan_bracket_close(s, n, e + 2);
            if c < n {
                let arb = s.substring_char(e + 2, c).to_owned();
                proof {
                    lemma_elements_progress(s@, i as int, Seq::empty());
                }
                return Some((acc, arb, c + 1));
            } else {
                return None;
            }
        } else if e < n && s.get_char(e) == '-' && e + 1 < n && elem_char(s.get_char(e + 1)) {
            pos = e + 1;
        } else {
            let out = String::new();
            proof {
                lemma_elements_progress(s@, i as int, Seq::empty());
            }
            return Some((acc, out, e));
        }
    }
}

fn px_token(s: &str, n: usize, i: usize) -> (r: Option<(AstStyle, usize)>)
    requires
        n == s@.len(),
        i <= n,
    ensures
        r matches Some(p) ==> parse_token(s@, i as int) matches Some(q) && style_view(p.0)
            == q.0 && p.1 == q.1 && i < p.1 <= n,
        r is None ==> parse_token(s@, i as int) is None,
    decreases n - i, 0int,
{
    proof {
        lemma_token_progress(s@, i as int);
    }
    let neg_pre = i < n && s.get_char(i) == '-';
    let i1 = if neg_pre {
        i + 1
    } else {
        i
    };
    let (vars, i2) = px_variants(s, n, i1);
    let neg_post = !neg_pre && i2 < n && s.get_char(i2) == '-';
    let neg = neg_pre || neg_post;
    let i3 = if neg_post {
        i2 + 1
    } else {
        i2
    };
    if i3 < n && s.get_char(i3) == '(' {
        px_group_end(s, n, i3 + 1, neg, vars, Vec::new())
    } else {
        match px_elements(s, n, i3) {
            None => None,
            Some((els, arb, i4)) => {
                if i4 < n && s.get_char(i4) == '(' {
                    if arb.as_str().is_empty() {
                        px_group_end(s, n, i4 + 1, neg, vars, els)
                    } else {
                        None
                    }
                } else {
                    let imp = i4 < n && s.get_char(i4) == '!';
                    let i5 = if imp {
                        i4 + 1
                    } else {
                        i4
                    };
                    let style = AstStyle {
                        important: imp,
                        variants: vars,
                        elements: AstElements { negative: neg, items: els },
                        arbitrary: AstArbitrary { item: arb },
                        children: Vec::new(),
                    };
                    proof {
                        let q = parse_token(s@, i as int)->Some_0;
                        assert(style_view(style) =~= q.0);
                    }
                    Some((style, i5))
                }
            },
        }
    }
}

fn px_group_end(
    s: &str,
    n: usize,
    i: usize,
    neg: bool,
    vars: Vec<ASTVariant>,
    els: Vec<String>,
) -> (r: Option<(AstStyle, usize)>)
    requires
        n == s@.len(),
        i <= n,
    ensures
        r matches Some(p) ==> parse_group_end(
            s@,
            i as int,
            neg,
            variant_views(vars@),
            els.deep_view(),
        ) matches Some(q) && style_view(p.0) == q.0 && p.1 == q.1 && i < p.1 <= n,
        r is None ==> parse_group_end(s@, i as int, neg, variant_views(vars@), els.deep_view())
            is None,
    decreases n - i, 2int,
{
    proof {
        lemma_group_progress(s@, i as int, neg, variant_views(vars@), els.deep_view());
    }
    match px_children(s, n, i) {
        None => None,
        Some((kids, j)) => {
            let imp = j + 1 < n && s.get_char(j + 1) == '!';
            let j2 = if imp {
                j + 2
            } else {
                j + 1
            };
            let style = AstStyle {
                important: imp,
                variants: vars,
                elements: AstElements { negative: neg, items: els },
                arbitrary: AstArbitrary { item: String::new() },
                children: kids,
            };
            proof {
                let q = parse_group_end(
                    s@,
                    i as int,
                    neg,
                    variant_views(vars@),
                    els.deep_view(),
                )->Some_0;
                assert(style_view(style) =~= q.0);
            }
            Some((style, j2))
        },
    }
}

fn px_children(s: &str, n: usize, i: usize) -> (r: Option<(Vec<AstStyle>, usize)>)
    requires
        n == s@.len(),
        i <= n,
    ensures
        r matches Some(p) ==> parse_children(s@, i as int, Seq::empty()) matches Some(q)
            && style_views(p.0@) == q.0 && p.1 == q.1 && i <= p.1 < n,
        r is None ==> parse_children(s@, i as int, Seq::empty()) is None,
    decreases n - i, 1int,
{
    proof {
        lemma_children_progress(s@, i as int, Seq::empty());
    }
    let ghost goal = parse_children(s@, i as int, Seq::empty());
    let mut acc: Vec<AstStyle> = Vec::new();
    let mut pos: usize = i;
    proof {
        assert(style_views(acc@) =~= Seq::<StyleView>::empty());
    }
    loop
        invariant
            n == s@.len(),
            i <= pos <= n,
            goal == parse_children(s@, i as int, Seq::empty()),
            parse_children(s@, pos as int, style_views(acc@)) == goal,
        decreases n - pos,
    {
        let k = skip_spaces(s, n, pos);
        if k < n && s.get_char(k) == ')' {
            if acc.len() > 0 {
                proof {
                    crate::ast::lemma_style_views_len(acc@);
                }
                return Some((acc, k));
            } else {
                return None;
            }
        }
        proof {
            lemma_token_progress(s@, k as int);
        }
        match px_token(s, n, k) {
            None => {
                return None;
            },
            Some((v, j)) => {
                let ghost before = acc@;
                acc.push(v);
                proof {
                    crate::ast::lemma_style_views_len(before);
                    assert(acc@.drop_last() =~= before);
                    assert(acc@.last() == v);
                    assert(style_views(acc@) =~= style_views(before).push(style_view(v)));
                }
                pos = j;
            },
        }
    }
}

/// The value of a whole token string: the style it parses to, where the
/// grammar accepts it from its first to its last character.
pub open spec fn token_value(s: Seq<char>) -> Option<StyleView> {
    match parse_token(s, 0) {
        Option::None => None,
        Option::Some((v, j)) => {
            if j == s.len() {
                Some(v)
            } else {
                None
            }
        },
    }
}

impl AstStyle {
    /// Parses one utility token. Succeeds exactly where the grammar accepts
    /// the whole string, and then returns the style the grammar gives it; any
    /// leftover text, an empty body, or an unterminated bracket is a syntax
    /// error carrying the offending text.
    pub fn parse(input: &str) -> (r: Result<AstStyle, TailwindError>)
        ensures
            r matches Ok(v) ==> token_value(input@) == Some(style_view(v)),
            r is Err ==> token_value(input@) is None,
            r matches Err(e) ==> e is Syntax,
    {
        let n = input.unicode_len();
        match px_token(input, n, 0) {
            Some((style, end)) => {
                if end == n {
                    Ok(style)
                } else {
                    Err(TailwindError::syntax(input.to_owned()))
                }
            },
            None => Err(TailwindError::syntax(input.to_owned())),
        }
    }
}

} // verus!