use vstd::prelude::*;
use crate::ast::{StyleView, VariantView};
use crate::display::{render_style, render_variant, render_variants};
use crate::parser::{
    is_elem_char, is_name_char, parse_elements, parse_name_list, parse_token, parse_variant,
    parse_variants, scan_close, scan_elem_end, scan_name_end, token_value,
};
use crate::text::join_seq;

verus! {

// ---------------------------------------------------------------------------
// What a canonical flat token is: the image of `render_style` on flat styles
// of this well-formed shape. For these the grammar reads back exactly the
// style that was written.
// ---------------------------------------------------------------------------

/// A variant name: non-empty, name characters only.
pub open spec fn wf_name(nm: Seq<char>) -> bool {
    nm.len() > 0 && forall|k: int| 0 <= k < nm.len() ==> is_name_char(#[trigger] nm[k])
}

/// A path element: non-empty, element characters only.
pub open spec fn wf_elem(el: Seq<char>) -> bool {
    el.len() > 0 && forall|k: int| 0 <= k < el.len() ==> is_elem_char(#[trigger] el[k])
}

/// A variant that reads back as itself: its names are well formed, and a
/// plain variant does not begin with the name `not`, which the grammar
/// would fold into the negation flag.
pub open spec fn wf_variant(v: VariantView) -> bool {
    v.names.len() > 0 && (forall|k: int| 0 <= k < v.names.len() ==> wf_name(#[trigger] v.names[k]))
        && !(!v.not && v.names.len() >= 2 && v.names[0] == "not"@)
}

/// A flat style that reads back as itself: no children, a non-empty well
/// formed element path, well formed variants held without repetition, and
/// an arbitrary value that does not close its own bracket.
pub open spec fn wf_flat(v: StyleView) -> bool {
    &&& v.children.len() == 0
    &&& v.elements.len() > 0
    &&& forall|k: int| 0 <= k < v.elements.len() ==> wf_elem(#[trigger] v.elements[k])
    &&& forall|k: int| 0 <= k < v.variants.len() ==> wf_variant(#[trigger] v.variants[k])
    &&& forall|a: int, b: int|
        0 <= a < b < v.variants.len() ==> v.variants[a] != v.variants[b]
    &&& forall|k: int| 0 <= k < v.arbitrary.len() ==> v.arbitrary[k] != ']'
}

// ---------------------------------------------------------------------------
// Scans stop at the first character outside their class.
// ---------------------------------------------------------------------------

proof fn lemma_scan_name_stop(s: Seq<char>, i: int, j: int)
    requires
        0 <= i <= j <= s.len(),
        forall|p: int| i <= p < j ==> is_name_char(#[trigger] s[p]),
        j == s.len() || !is_name_char(s[j]),
    ensures
        scan_name_end(s, i) == j,
    decreases j - i,
{
    if i < j {
        lemma_scan_name_stop(s, i + 1, j);
    }
}

proof fn lemma_scan_elem_stop(s: Seq<char>, i: int, j: int)
    requires
        0 <= i <= j <= s.len(),
        forall|p: int| i <= p < j ==> is_elem_char(#[trigger] s[p]),
        j == s.len() || !is_elem_char(s[j]),
    ensures
        scan_elem_end(s, i) == j,
    decreases j - i,
{
    if i < j {
        lemma_scan_elem_stop(s, i + 1, j);
    }
}

proof fn lemma_scan_close_stop(s: Seq<char>, i: int, j: int)
    requires
        0 <= i <= j < s.len(),
        forall|p: int| i <= p < j ==> s[p] != ']',
        s[j] == ']',
    ensures
        scan_close(s, i) == j,
    decreases j - i,
{
    if i < j {
        lemma_scan_close_stop(s, i + 1, j);
    }
}

// ---------------------------------------------------------------------------
// Joined name lists read back as themselves.
// ---------------------------------------------------------------------------

/// `join_seq` taken apart at the front.
proof fn lemma_join_first(list: Seq<Seq<char>>, sep: Seq<char>)
    requires
        list.len() >= 2,
    ensures
        join_seq(list, sep) == list[0] + sep + join_seq(list.drop_first(), sep),
    decreases list.len(),
{
    if list.len() == 2 {
        assert(list.drop_last() =~= seq![list[0]]);
        assert(list.drop_first() =~= seq![list[1]]);
        assert(join_seq(list, sep) == join_seq(list.drop_last(), sep) + sep + list.last());
        assert(join_seq(seq![list[0]], sep) == list[0]);
        assert(join_seq(seq![list[1]], sep) == list[1]);
        assert(list.drop_first().last() == list[1]);
        assert(join_seq(list, sep) =~= list[0] + sep + join_seq(list.drop_first(), sep));
    } else {
        lemma_join_first(list.drop_last(), sep);
        assert(list.drop_last()[0] == list[0]);
        assert(list.drop_last().drop_first() =~= list.drop_first().drop_last());
        assert(join_seq(list, sep) == join_seq(list.drop_last(), sep) + sep + list.last());
        assert(join_seq(list.drop_last(), sep) == list[0] + sep + join_seq(
            list.drop_first().drop_last(),
            sep,
        ));
        assert(list.drop_first().len() >= 2 ==> join_seq(list.drop_first(), sep) == join_seq(
            list.drop_first().drop_last(),
            sep,
        ) + sep + list.drop_first().last());
        assert(list.drop_first().last() == list.last());
        assert(join_seq(list, sep) =~= list[0] + sep + join_seq(list.drop_first(), sep));
    }
}

/// A name list written at `i` reads back as itself: the names joined with
/// `-` stand at `i`, and what follows neither extends the last name nor
/// continues the list.
proof fn lemma_name_list_reads(
    s: Seq<char>,
    i: int,
    acc: Seq<Seq<char>>,
    names: Seq<Seq<char>>,
)
    requires
        names.len() > 0,
        forall|k: int| 0 <= k < names.len() ==> wf_name(#[trigger] names[k]),
        0 <= i,
        i + join_seq(names, "-"@).len() <= s.len(),
        s.subrange(i, i + join_seq(names, "-"@).len() as int) == join_seq(names, "-"@),
        ({
            let j = i + join_seq(names, "-"@).len() as int;
            j == s.len() || (!is_name_char(s[j]) && !(s[j] == '-' && j + 1 < s.len()
                && is_name_char(s[j + 1])))
        }),
    ensures
        parse_name_list(s, i, acc) == Some((acc + names, i + join_seq(names, "-"@).len() as int)),
    decreases names.len(),
{
    let joined = join_seq(names, "-"@);
    let j = i + joined.len() as int;
    if names.len() == 1 {
        assert(joined == names[0]);
        assert forall|p: int| i <= p < j implies is_name_char(#[trigger] s[p]) by {
            assert(s[p] == joined[p - i]);
            assert(joined[p - i] == names[0][p - i]);
        };
        lemma_scan_name_stop(s, i, j);
        assert(scan_name_end(s, i) == j);
        assert(j > i);
        assert(s.subrange(i, j) =~= names[0]);
        if j + 1 < s.len() && s[j] == '-' && is_name_char(s[j + 1]) {
            assert(false);
        }
        assert(parse_name_list(s, i, acc) == Some((acc.push(s.subrange(i, j)), j)));
        assert(acc.push(names[0]) =~= acc + names);
    } else {
        lemma_join_first(names, "-"@);
        assert(joined == names[0] + "-"@ + join_seq(names.drop_first(), "-"@));
        reveal_strlit("-");
        assert("-"@.len() == 1);
        assert("-"@[0] == '-');
        let e = i + names[0].len() as int;
        assert forall|p: int| i <= p < e implies is_name_char(#[trigger] s[p]) by {
            assert(s[p] == joined[p - i]);
            assert(joined[p - i] == names[0][p - i]);
        };
        assert(s[e] == joined[e - i]);
        assert(joined[names[0].len() as int] == '-');
        assert(!is_name_char('-')) by {
            assert(('-' as u32) == 45);
        };
        lemma_scan_name_stop(s, i, e);
        assert(scan_name_end(s, i) == e);
        assert(e > i);
        let rest = names.drop_first();
        assert(rest.len() >= 1);
        assert(wf_name(rest[0]));
        assert(s[e + 1] == joined[e + 1 - i]);
        assert(joined[names[0].len() as int + 1] == join_seq(rest, "-"@)[0]);
        assert(join_seq(rest, "-"@)[0] == rest[0][0]) by {
            if rest.len() == 1 {
            } else {
                lemma_join_first(rest, "-"@);
            }
        };
        assert(is_name_char(s[e + 1]));
        assert(e + 1 < s.len());
        assert(s.subrange(i, e) =~= names[0]);
        let acc2 = acc.push(names[0]);
        assert(s.subrange(e + 1, e + 1 + join_seq(rest, "-"@).len() as int) =~= join_seq(
            rest,
            "-"@,
        )) by {
            assert forall|q: int|
                0 <= q < join_seq(rest, "-"@).len() implies s.subrange(
                e + 1,
                e + 1 + join_seq(rest, "-"@).len() as int,
            )[q] == join_seq(rest, "-"@)[q] by {
                assert(s[e + 1 + q] == joined[e + 1 + q - i]);
                assert(joined[names[0].len() as int + 1 + q] == join_seq(rest, "-"@)[q]);
            };
        };
        lemma_name_list_reads(s, e + 1, acc2, rest);
        assert(parse_name_list(s, i, acc) == parse_name_list(s, e + 1, acc2));
        assert(acc2 + rest =~= acc + names);
        assert(e + 1 + join_seq(rest, "-"@).len() as int == j);
    }
}


// ---------------------------------------------------------------------------
// Variants read back as themselves, and a body starts no variant.
// ---------------------------------------------------------------------------

/// A rendered variant standing at `i` reads back as itself, provided the
/// character after it cannot turn its `:` ending into `::`.
proof fn lemma_variant_reads(s: Seq<char>, i: int, v: VariantView)
    requires
        wf_variant(v),
        0 <= i,
        i + render_variant(v).len() <= s.len(),
        s.subrange(i, i + render_variant(v).len() as int) == render_variant(v),
        !v.pseudo ==> (i + render_variant(v).len() == s.len() || s[i + render_variant(
            v,
        ).len() as int] != ':'),
    ensures
        parse_variant(s, i) == Some((v, i + render_variant(v).len() as int)),
{
    reveal_strlit("not-");
    reveal_strlit("not");
    reveal_strlit(":");
    reveal_strlit("::");
    reveal_strlit("-");
    assert("not-"@.len() == 4);
    assert("not"@.len() == 3);
    assert(":"@.len() == 1);
    assert("::"@.len() == 2);
    assert("-"@.len() == 1);
    assert(":"@[0] == ':');
    assert("::"@[0] == ':' && "::"@[1] == ':');
    let rv = render_variant(v);
    let names2 = if v.not {
        seq!["not"@] + v.names
    } else {
        v.names
    };
    assert(wf_name("not"@)) by {
        assert("not"@[0] == 'n' && "not"@[1] == 'o' && "not"@[2] == 't');
        assert(('n' as u32) == 110 && ('o' as u32) == 111 && ('t' as u32) == 116);
    };
    assert(forall|k: int| 0 <= k < names2.len() ==> wf_name(#[trigger] names2[k]));
    let joined2 = join_seq(names2, "-"@);
    assert(joined2 == (if v.not { "not-"@ } else { Seq::<char>::empty() }) + join_seq(
        v.names,
        "-"@,
    )) by {
        if v.not {
            if v.names.len() >= 1 {
                lemma_join_first(names2, "-"@);
                assert(names2.drop_first() =~= v.names);
                assert("not"@ + "-"@ =~= "not-"@);
                assert(joined2 =~= "not-"@ + join_seq(v.names, "-"@));
            }
        } else {
            assert(joined2 =~= Seq::<char>::empty() + join_seq(v.names, "-"@));
        }
    };
    let j = i + joined2.len() as int;
    assert(rv =~= joined2 + (if v.pseudo { "::"@ } else { ":"@ }));
    assert(s[j] == rv[j - i]);
    assert(s[j] == ':');
    assert(!is_name_char(':')) by {
        assert((':' as u32) == 58);
    };
    assert(s.subrange(i, j) =~= joined2) by {
        assert forall|q: int| 0 <= q < joined2.len() implies s.subrange(i, j)[q] == joined2[q] by {
            assert(s[i + q] == rv[q]);
            assert(rv[q] == joined2[q]);
        };
    };
    lemma_name_list_reads(s, i, Seq::empty(), names2);
    assert(parse_name_list(s, i, Seq::empty()) == Some(
        (Seq::empty() + names2, j),
    ));
    assert(Seq::<Seq<char>>::empty() + names2 =~= names2);
    if v.pseudo {
        assert(s[j + 1] == rv[j + 1 - i]);
        assert(s[j + 1] == ':');
        let negated = names2.len() >= 2 && names2[0] == "not"@;
        if v.not {
            assert(negated);
            assert(names2.drop_first() =~= v.names);
        } else {
            assert(!negated) by {
                if names2.len() >= 2 && names2[0] == "not"@ {
                    assert(v.names[0] == "not"@);
                }
            };
        }
        let got = parse_variant(s, i)->Some_0;
        assert(got.0 =~= v);
        assert(got.1 == i + rv.len());
    } else {
        assert(j + 1 == i + rv.len());
        assert(j + 1 == s.len() || s[j + 1] != ':');
        let negated = names2.len() >= 2 && names2[0] == "not"@;
        if v.not {
            assert(negated);
            assert(names2.drop_first() =~= v.names);
        } else {
            assert(!negated) by {
                if names2.len() >= 2 && names2[0] == "not"@ {
                    assert(v.names[0] == "not"@);
                }
            };
        }
        let got = parse_variant(s, i)->Some_0;
        assert(got.0 =~= v);
        assert(got.1 == i + rv.len());
    }
}

/// Every character a name scan passes is a name character.
proof fn lemma_scan_name_chars(s: Seq<char>, i: int)
    requires
        0 <= i <= s.len(),
    ensures
        i <= scan_name_end(s, i) <= s.len(),
        forall|p: int| i <= p < scan_name_end(s, i) ==> is_name_char(#[trigger] s[p]),
    decreases s.len() - i,
{
    if i < s.len() && is_name_char(s[i]) {
        lemma_scan_name_chars(s, i + 1);
    }
}

/// A name list started inside text that holds neither `:` nor `[` before
/// position `B` (where the text ends or a bracket opens) ends before any
/// colon: its end position never carries `:`.
proof fn lemma_name_list_stays(s: Seq<char>, i: int, acc: Seq<Seq<char>>, b: int)
    requires
        0 <= i <= b <= s.len(),
        forall|p: int| i <= p < b ==> s[p] != ':' && s[p] != '[',
        b == s.len() || s[b] == '[',
    ensures
        parse_name_list(s, i, acc) matches Some(r) ==> (r.1 == s.len() || s[r.1] != ':'),
    decreases b - i,
{
    lemma_scan_name_chars(s, i);
    let e = scan_name_end(s, i);
    assert(!is_name_char('[')) by {
        assert(('[' as u32) == 91);
    };
    assert(e <= b) by {
        if e > b {
            assert(is_name_char(s[b]));
        }
    };
    if e != i {
        if e + 1 < s.len() && s[e] == '-' && is_name_char(s[e + 1]) {
            assert(e < b) by {
                if e == b {
                    assert(s[b] == '[');
                }
            };
            lemma_name_list_stays(s, e + 1, acc.push(s.subrange(i, e)), b);
        } else {
            assert(parse_name_list(s, i, acc) == Some((acc.push(s.subrange(i, e)), e)));
            if e < s.len() {
                assert(s[e] != ':') by {
                    if e < b {
                    } else {
                        assert(s[e] == '[');
                    }
                };
            }
        }
    }
}

/// Inside such text no variant can start: the grammar finds no `:` ending.
proof fn lemma_no_variant(s: Seq<char>, i: int, b: int)
    requires
        0 <= i <= b <= s.len(),
        forall|p: int| i <= p < b ==> s[p] != ':' && s[p] != '[',
        b == s.len() || s[b] == '[',
    ensures
        parse_variant(s, i) is None,
{
    lemma_name_list_stays(s, i, Seq::empty(), b);
}


// ---------------------------------------------------------------------------
// Whole variant lists read back, in order and without repetition.
// ---------------------------------------------------------------------------

/// `render_variants` taken apart at the front.
proof fn lemma_render_variants_first(vs: Seq<VariantView>)
    requires
        vs.len() >= 1,
    ensures
        render_variants(vs) == render_variant(vs[0]) + render_variants(vs.drop_first()),
    decreases vs.len(),
{
    if vs.len() == 1 {
        assert(vs.drop_last() =~= Seq::<VariantView>::empty());
        assert(vs.drop_first() =~= Seq::<VariantView>::empty());
        assert(render_variants(vs) =~= render_variant(vs[0]) + render_variants(vs.drop_first()));
    } else {
        lemma_render_variants_first(vs.drop_last());
        assert(vs.drop_last()[0] == vs[0]);
        assert(vs.drop_last().drop_first() =~= vs.drop_first().drop_last());
        assert(vs.drop_first().last() == vs.last());
        assert(render_variants(vs) == render_variants(vs.drop_last()) + render_variant(vs.last()));
        assert(render_variants(vs.drop_first()) == render_variants(vs.drop_first().drop_last())
            + render_variant(vs.drop_first().last()));
        assert(render_variants(vs) =~= render_variant(vs[0]) + render_variants(vs.drop_first()));
    }
}

/// A well formed variant's text starts with a name character.
proof fn lemma_variant_first_char(v: VariantView)
    requires
        wf_variant(v),
    ensures
        render_variant(v).len() > 0,
        is_name_char(render_variant(v)[0]),
{
    reveal_strlit("not-");
    assert("not-"@.len() == 4);
    assert("not-"@[0] == 'n');
    assert(('n' as u32) == 110);
    let joined = join_seq(v.names, "-"@);
    assert(joined[0] == v.names[0][0]) by {
        if v.names.len() == 1 {
        } else {
            lemma_join_first(v.names, "-"@);
        }
    };
    if v.not {
        assert(render_variant(v)[0] == 'n');
    } else {
        assert(render_variant(v)[0] == joined[0]);
    }
}

/// A rendered list of distinct well formed variants at `i`, followed by
/// text that holds neither `:` nor `[` up to `b`, reads back as exactly
/// those variants appended to the accumulator, ending where the text does.
proof fn lemma_variants_read(
    s: Seq<char>,
    i: int,
    acc: Seq<VariantView>,
    vars: Seq<VariantView>,
    b: int,
)
    requires
        forall|k: int| 0 <= k < vars.len() ==> wf_variant(#[trigger] vars[k]),
        forall|x: int, y: int| 0 <= x < y < vars.len() ==> vars[x] != vars[y],
        forall|x: int, y: int| 0 <= x < acc.len() && 0 <= y < vars.len() ==> acc[x] != vars[y],
        0 <= i,
        i + render_variants(vars).len() <= b <= s.len(),
        s.subrange(i, i + render_variants(vars).len() as int) == render_variants(vars),
        forall|p: int|
            i + render_variants(vars).len() <= p < b ==> s[p] != ':' && #[trigger] s[p] != '[',
        b == s.len() || s[b] == '[',
    ensures
        parse_variants(s, i, acc) == (
            acc + vars,
            i + render_variants(vars).len() as int,
        ),
    decreases vars.len(),
{
    let m = i + render_variants(vars).len() as int;
    if vars.len() == 0 {
        lemma_no_variant(s, i, b);
        assert(acc + vars =~= acc);
    } else {
        lemma_render_variants_first(vars);
        let rv0 = render_variant(vars[0]);
        let rest = vars.drop_first();
        let rall = render_variants(vars);
        assert(rall == rv0 + render_variants(rest));
        assert(s.subrange(i, i + rv0.len() as int) =~= rv0) by {
            assert forall|q: int| 0 <= q < rv0.len() implies s.subrange(
                i,
                i + rv0.len() as int,
            )[q] == rv0[q] by {
                assert(s[i + q] == rall[q]);
                assert(rall[q] == rv0[q]);
            };
        };
        assert(!is_name_char(':')) by {
            assert((':' as u32) == 58);
        };
        if rest.len() >= 1 {
            lemma_render_variants_first(rest);
            lemma_variant_first_char(rest[0]);
            assert(s[i + rv0.len() as int] == rall[rv0.len() as int]);
            assert(rall[rv0.len() as int] == render_variants(rest)[0]);
            assert(render_variants(rest)[0] == render_variant(rest[0])[0]);
            assert(s[i + rv0.len() as int] != ':');
        } else {
            assert(i + rv0.len() as int == m);
            if m < s.len() && s[m] == ':' {
                assert(m < b ==> s[m] != ':');
                assert(m == b ==> s[b] == '[');
                assert(false);
            }
        }
        lemma_variant_reads(s, i, vars[0]);
        assert(parse_variant(s, i) == Some((vars[0], i + rv0.len() as int)));
        assert(!acc.contains(vars[0])) by {
            if acc.contains(vars[0]) {
                let x = choose|x: int| 0 <= x < acc.len() && acc[x] == vars[0];
                assert(acc[x] != vars[0]);
            }
        };
        let acc2 = acc.push(vars[0]);
        assert(s.subrange(i + rv0.len() as int, m) =~= render_variants(rest)) by {
            assert forall|q: int| 0 <= q < render_variants(rest).len() implies s.subrange(
                i + rv0.len() as int,
                m,
            )[q] == render_variants(rest)[q] by {
                assert(s[i + rv0.len() + q] == rall[rv0.len() + q]);
                assert(rall[rv0.len() + q] == render_variants(rest)[q]);
            };
        };
        assert(forall|x: int, y: int|
            0 <= x < acc2.len() && 0 <= y < rest.len() ==> acc2[x] != rest[y]) by {
            assert(forall|y: int| 0 <= y < rest.len() ==> rest[y] == vars[y + 1]);
        };
        assert(forall|x: int, y: int| 0 <= x < y < rest.len() ==> rest[x] != rest[y]) by {
            assert(forall|y: int| 0 <= y < rest.len() ==> rest[y] == vars[y + 1]);
        };
        lemma_variants_read(s, i + rv0.len() as int, acc2, rest, b);
        assert(acc2 + rest =~= acc + vars);
    }
}


// ---------------------------------------------------------------------------
// Element paths and bracketed values read back as themselves.
// ---------------------------------------------------------------------------

/// The text a flat body writes after the sign: the elements joined with
/// `-`, then `-[arb]` where an arbitrary value is present.
pub open spec fn body_text(els: Seq<Seq<char>>, arb: Seq<char>) -> Seq<char> {
    join_seq(els, "-"@) + (if arb.len() > 0 {
        "-["@ + arb + "]"@
    } else {
        Seq::<char>::empty()
    })
}

/// A rendered body at `i` reads back as its elements and arbitrary value,
/// provided what follows cannot extend it: the end of the string or a `!`.
proof fn lemma_elements_read(
    s: Seq<char>,
    i: int,
    acc: Seq<Seq<char>>,
    els: Seq<Seq<char>>,
    arb: Seq<char>,
)
    requires
        els.len() > 0,
        forall|k: int| 0 <= k < els.len() ==> wf_elem(#[trigger] els[k]),
        forall|k: int| 0 <= k < arb.len() ==> arb[k] != ']',
        0 <= i,
        i + body_text(els, arb).len() <= s.len(),
        s.subrange(i, i + body_text(els, arb).len() as int) == body_text(els, arb),
        ({
            let t = i + body_text(els, arb).len() as int;
            t == s.len() || s[t] == '!'
        }),
    ensures
        parse_elements(s, i, acc) == Some(
            (acc + els, arb, i + body_text(els, arb).len() as int),
        ),
    decreases els.len(),
{
    reveal_strlit("-");
    reveal_strlit("-[");
    reveal_strlit("]");
    assert("-"@.len() == 1 && "-"@[0] == '-');
    assert("-["@.len() == 2 && "-["@[0] == '-' && "-["@[1] == '[');
    assert("]"@.len() == 1 && "]"@[0] == ']');
    assert(!is_elem_char('-')) by {
        assert(('-' as u32) == 45);
        assert(('&' as u32) == 38 && ('/' as u32) == 47 && ('.' as u32) == 46 && ('%' as u32)
            == 37);
    };
    assert(!is_elem_char('!')) by {
        assert(('!' as u32) == 33);
        assert(('&' as u32) == 38 && ('/' as u32) == 47 && ('.' as u32) == 46 && ('%' as u32)
            == 37);
    };
    assert(!is_elem_char('[')) by {
        assert(('[' as u32) == 91);
        assert(('&' as u32) == 38 && ('/' as u32) == 47 && ('.' as u32) == 46 && ('%' as u32)
            == 37);
    };
    let body = body_text(els, arb);
    let t = i + body.len() as int;
    let joined = join_seq(els, "-"@);
    if els.len() == 1 {
        assert(joined == els[0]);
        let e = i + els[0].len() as int;
        assert forall|p: int| i <= p < e implies is_elem_char(#[trigger] s[p]) by {
            assert(s[p] == body[p - i]);
            assert(body[p - i] == els[0][p - i]);
        };
        if arb.len() > 0 {
            assert(s[e] == body[e - i]);
            assert(body[els[0].len() as int] == '-');
            assert(s[e + 1] == body[e + 1 - i]);
            assert(body[els[0].len() as int + 1] == '[');
            lemma_scan_elem_stop(s, i, e);
            assert(s.subrange(i, e) =~= els[0]);
            assert forall|p: int| e + 2 <= p < e + 2 + arb.len() implies #[trigger] s[p]
                != ']' by {
                assert(s[p] == body[p - i]);
                assert(body[p - i] == arb[p - i - els[0].len() - 2]);
            };
            assert(s[e + 2 + arb.len()] == body[e + 2 + arb.len() - i]);
            assert(body[els[0].len() as int + 2 + arb.len()] == ']');
            lemma_scan_close_stop(s, e + 2, e + 2 + arb.len() as int);
            let c = e + 2 + arb.len() as int;
            assert(s.subrange(e + 2, c) =~= arb) by {
                assert forall|q: int| 0 <= q < arb.len() implies s.subrange(e + 2, c)[q]
                    == arb[q] by {
                    assert(s[e + 2 + q] == body[els[0].len() + 2 + q]);
                    assert(body[els[0].len() as int + 2 + q] == arb[q]);
                };
            };
            assert(parse_elements(s, i, acc) == Some((acc.push(els[0]), arb, c + 1)));
            assert(acc.push(els[0]) =~= acc + els);
            assert(c + 1 == t);
        } else {
            assert(e == t);
            lemma_scan_elem_stop(s, i, e);
            assert(s.subrange(i, e) =~= els[0]);
            if e < s.len() {
                assert(s[e] == '!');
            }
            assert(parse_elements(s, i, acc) == Some((acc.push(els[0]), Seq::<char>::empty(), e)));
            assert(acc.push(els[0]) =~= acc + els);
        }
    } else {
        lemma_join_first(els, "-"@);
        assert(joined == els[0] + "-"@ + join_seq(els.drop_first(), "-"@));
        let e = i + els[0].len() as int;
        assert forall|p: int| i <= p < e implies is_elem_char(#[trigger] s[p]) by {
            assert(s[p] == body[p - i]);
            assert(body[p - i] == els[0][p - i]);
        };
        assert(s[e] == body[e - i]);
        assert(body[els[0].len() as int] == '-');
        lemma_scan_elem_stop(s, i, e);
        let rest = els.drop_first();
        assert(rest.len() >= 1);
        assert(wf_elem(rest[0]));
        assert(s[e + 1] == body[e + 1 - i]);
        assert(body[els[0].len() as int + 1] == join_seq(rest, "-"@)[0]);
        assert(join_seq(rest, "-"@)[0] == rest[0][0]) by {
            if rest.len() == 1 {
            } else {
                lemma_join_first(rest, "-"@);
            }
        };
        assert(is_elem_char(s[e + 1]));
        assert(s[e + 1] != '[');
        assert(s.subrange(i, e) =~= els[0]);
        let acc2 = acc.push(els[0]);
        assert(s.subrange(e + 1, e + 1 + body_text(rest, arb).len() as int) =~= body_text(
            rest,
            arb,
        )) by {
            assert forall|q: int| 0 <= q < body_text(rest, arb).len() implies s.subrange(
                e + 1,
                e + 1 + body_text(rest, arb).len() as int,
            )[q] == body_text(rest, arb)[q] by {
                assert(s[e + 1 + q] == body[els[0].len() + 1 + q]);
                assert(body[els[0].len() as int + 1 + q] == body_text(rest, arb)[q]);
            };
        };
        lemma_elements_read(s, e + 1, acc2, rest, arb);
        assert(parse_elements(s, i, acc) == parse_elements(s, e + 1, acc2));
        assert(acc2 + rest =~= acc + els);
        assert(e + 1 + body_text(rest, arb).len() as int == t);
    }
}


/// Every character of a joined well formed element path is an element
/// character or the separator.
proof fn lemma_join_elem_chars(els: Seq<Seq<char>>)
    requires
        els.len() > 0,
        forall|k: int| 0 <= k < els.len() ==> wf_elem(#[trigger] els[k]),
    ensures
        forall|q: int|
            0 <= q < join_seq(els, "-"@).len() ==> is_elem_char(#[trigger] join_seq(els, "-"@)[q])
                || join_seq(els, "-"@)[q] == '-',
    decreases els.len(),
{
    reveal_strlit("-");
    assert("-"@.len() == 1 && "-"@[0] == '-');
    let joined = join_seq(els, "-"@);
    if els.len() == 1 {
        assert(joined == els[0]);
    } else {
        lemma_join_first(els, "-"@);
        let rest = els.drop_first();
        lemma_join_elem_chars(rest);
        assert forall|q: int| 0 <= q < joined.len() implies is_elem_char(#[trigger] joined[q])
            || joined[q] == '-' by {
            if q < els[0].len() {
                assert(joined[q] == els[0][q]);
            } else if q == els[0].len() {
                assert(joined[q] == '-');
            } else {
                assert(joined[q] == join_seq(rest, "-"@)[q - els[0].len() - 1]);
            }
        };
    }
}

/// Round trip: the canonical text of a well formed flat style reads back as
/// exactly that style. Canonical tokens are the image of `render_style` on
/// these styles, so rendering what such a token parses to reproduces the
/// token.
#[verifier::rlimit(60)]
pub proof fn lemma_flat_round_trip(v: StyleView)
    requires
        wf_flat(v),
    ensures
        token_value(render_style(v)) == Some(v),
{
    reveal_strlit("-");
    reveal_strlit("!");
    reveal_strlit("-[");
    reveal_strlit("]");
    reveal_strlit("(");
    reveal_strlit(")");
    reveal_strlit(" ");
    assert("-"@.len() == 1 && "-"@[0] == '-');
    assert("!"@.len() == 1 && "!"@[0] == '!');
    assert("-["@.len() == 2 && "-["@[0] == '-' && "-["@[1] == '[');
    assert("]"@.len() == 1 && "]"@[0] == ']');
    assert(!is_name_char('-')) by {
        assert(('-' as u32) == 45);
    };
    assert(!is_elem_char('-') && !is_elem_char('!') && !is_elem_char('(') && !is_elem_char(':')
        && !is_elem_char('[')) by {
        assert(('-' as u32) == 45 && ('!' as u32) == 33 && ('(' as u32) == 40 && (':' as u32)
            == 58 && ('[' as u32) == 91);
        assert(('&' as u32) == 38 && ('/' as u32) == 47 && ('.' as u32) == 46 && ('%' as u32)
            == 37);
    };
    let s = render_style(v);
    let rv = render_variants(v.variants);
    let neg: Seq<char> = if v.negative {
        "-"@
    } else {
        Seq::empty()
    };
    let body = body_text(v.elements, v.arbitrary);
    let imp: Seq<char> = if v.important {
        "!"@
    } else {
        Seq::empty()
    };
    assert(s =~= rv + neg + body + imp);
    let m = rv.len() as int;
    let e0 = m + neg.len() as int;
    let t = e0 + body.len() as int;
    let joined = join_seq(v.elements, "-"@);
    lemma_join_elem_chars(v.elements);
    assert(joined[0] == v.elements[0][0]) by {
        if v.elements.len() == 1 {
        } else {
            lemma_join_first(v.elements, "-"@);
        }
    };
    assert(is_elem_char(joined[0]));
    let b = if v.arbitrary.len() > 0 {
        e0 + joined.len() as int + 1
    } else {
        s.len() as int
    };
    assert forall|p: int| m <= p < b implies s[p] != ':' && #[trigger] s[p] != '[' by {
        if p < e0 {
            assert(s[p] == '-');
        } else if p < e0 + joined.len() {
            assert(s[p] == body[p - e0]);
            assert(body[p - e0] == joined[p - e0]);
            assert(is_elem_char(s[p]) || s[p] == '-');
        } else if v.arbitrary.len() > 0 {
            assert(p == e0 + joined.len());
            assert(s[p] == body[p - e0]);
            assert(body[joined.len() as int] == '-');
        } else {
            assert(p >= t);
            assert(s[p] == imp[p - t]);
            assert(s[p] == '!');
        }
    };
    assert(b == s.len() || s[b] == '[') by {
        if v.arbitrary.len() > 0 {
            assert(s[b] == body[b - e0]);
            assert(body[joined.len() as int + 1] == '[');
        }
    };
    // The sign and the variants.
    let neg_pre = 0 < s.len() && s[0] == '-';
    if v.variants.len() > 0 {
        lemma_render_variants_first(v.variants);
        lemma_variant_first_char(v.variants[0]);
        assert(s[0] == rv[0]);
        assert(rv[0] == render_variant(v.variants[0])[0]);
        assert(is_name_char(s[0]));
        assert(!neg_pre);
        assert(s.subrange(0, m) =~= rv);
        lemma_variants_read(s, 0, Seq::empty(), v.variants, b);
        assert(parse_variants(s, 0, Seq::empty()) == (
            Seq::<VariantView>::empty() + v.variants,
            m,
        ));
        assert(Seq::<VariantView>::empty() + v.variants =~= v.variants);
        if v.negative {
            assert(s[m] == neg[0]);
            assert(s[m] == '-');
        } else {
            assert(s[m] == body[0]);
            assert(s[m] == joined[0]);
            assert(s[m] != '-');
        }
    } else {
        assert(rv =~= Seq::<char>::empty());
        assert(m == 0);
        if v.negative {
            assert(s[0] == neg[0]);
            assert(s[0] == '-');
            assert(neg_pre);
            assert(s.subrange(1, 1) =~= render_variants(Seq::<VariantView>::empty()));
            lemma_variants_read(s, 1, Seq::empty(), Seq::empty(), b);
            assert(parse_variants(s, 1, Seq::empty()) == (Seq::<VariantView>::empty(), 1int));
        } else {
            assert(s[0] == body[0]);
            assert(s[0] == joined[0]);
            assert(s[0] != '-');
            assert(!neg_pre);
            assert(s.subrange(0, 0) =~= render_variants(Seq::<VariantView>::empty()));
            lemma_variants_read(s, 0, Seq::empty(), Seq::empty(), b);
            assert(parse_variants(s, 0, Seq::empty()) == (Seq::<VariantView>::empty(), 0int));
        }
        assert(v.variants =~= Seq::<VariantView>::empty());
    }
    // The body.
    assert(s[e0] == body[0]);
    assert(s[e0] == joined[0]);
    assert(s[e0] != '(' && s[e0] != '-');
    assert(s.subrange(e0, t) =~= body) by {
        assert forall|q: int| 0 <= q < body.len() implies s.subrange(e0, t)[q] == body[q] by {
            assert(s[e0 + q] == body[q]);
        };
    };
    assert(t == s.len() || s[t] == '!') by {
        if v.important {
            assert(s[t] == imp[0]);
        }
    };
    lemma_elements_read(s, e0, Seq::empty(), v.elements, v.arbitrary);
    assert(parse_elements(s, e0, Seq::empty()) == Some(
        (Seq::<Seq<char>>::empty() + v.elements, v.arbitrary, t),
    ));
    assert(Seq::<Seq<char>>::empty() + v.elements =~= v.elements);
    // The importance mark and the end.
    if v.important {
        assert(s[t] == '!');
        assert(t + 1 == s.len());
    } else {
        assert(t == s.len());
    }
    if t < s.len() {
        assert(s[t] == '!');
        assert(s[t] != '(') by {
            assert(('!' as u32) == 33 && ('(' as u32) == 40);
        };
    }
    let got = parse_token(s, 0)->Some_0;
    assert(got.0.important == v.important);
    assert(got.0.negative == v.negative);
    assert(got.0.variants =~= v.variants);
    assert(got.0.elements =~= v.elements);
    assert(got.0.arbitrary =~= v.arbitrary);
    assert(got.0.children =~= v.children);
    assert(got.0 =~= v);
    assert(got.1 == s.len());
}

/// The round trip stated over the token text: a canonical token, one that is
/// the rendering of a well formed flat style, parses back to a style whose
/// rendering is the token itself.
pub proof fn lemma_canonical_round_trip(s: Seq<char>, v: StyleView)
    requires
        wf_flat(v),
        s == render_style(v),
    ensures
        token_value(s) matches Some(w) && render_style(w) == s,
{
    lemma_flat_round_trip(v);
}

} // verus!
