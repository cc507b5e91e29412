use vstd::prelude::*;
use crate::ast::clone_string;
use crate::error::TailwindError;
use crate::text::{char_digit, dec_digits, digit_char, digits_value, fmt_usize, str_eq};
use crate::units::TailwindArbitrary;

verus! {

/// How resolved styles are written back into the markup.
#[derive(Debug, Clone, Copy, PartialEq, Eq, Structural)]
pub enum CssInlineMode {
    /// Classes stay as written; the stylesheet is emitted separately.
    Normal,
    /// Properties are written onto the element's style attribute.
    Inline,
    /// Classes are replaced by stable generated names.
    Scoped,
    /// Properties are emitted as data-attribute selectors keyed by name.
    DataKey,
    /// Properties are emitted as data-attribute selectors keyed by value.
    DataValue,
}

/// One CSS property and its value text.
#[derive(Debug)]
pub struct CssAttribute {
    pub key: String,
    pub value: String,
}

/// The key and value characters of one attribute.
pub open spec fn attr_pair(a: CssAttribute) -> (Seq<char>, Seq<char>) {
    (a.key@, a.value@)
}

/// The key and value characters of a list of attributes.
pub open spec fn attr_pairs(s: Seq<CssAttribute>) -> Seq<(Seq<char>, Seq<char>)> {
    Seq::new(s.len(), |i: int| attr_pair(s[i]))
}

/// Whether no two entries write the same property.
pub open spec fn unique_keys(ps: Seq<(Seq<char>, Seq<char>)>) -> bool {
    forall|i: int, j: int| 0 <= i < j < ps.len() ==> ps[i].0 != ps[j].0
}

/// The first position whose key is `k`, or -1.
pub open spec fn find_key(ps: Seq<(Seq<char>, Seq<char>)>, k: Seq<char>) -> int
    decreases ps.len(),
{
    if ps.len() == 0 {
        -1
    } else if ps[0].0 == k {
        0
    } else {
        let r = find_key(ps.drop_first(), k);
        if r == -1 {
            -1
        } else {
            r + 1
        }
    }
}

/// `ps` with the value under `k` replaced, or with `(k, v)` appended where
/// no entry holds `k`: insertion order is kept, a later write to the same
/// property wins.
pub open spec fn upsert(ps: Seq<(Seq<char>, Seq<char>)>, k: Seq<char>, v: Seq<char>) -> Seq<
    (Seq<char>, Seq<char>),
> {
    let f = find_key(ps, k);
    if f == -1 {
        ps.push((k, v))
    } else {
        ps.update(f, (k, v))
    }
}

/// `find_key` finds what it says: a non-negative answer points at `k`, and
/// -1 means no entry holds `k`.
pub proof fn lemma_find_key(ps: Seq<(Seq<char>, Seq<char>)>, k: Seq<char>)
    ensures
        find_key(ps, k) == -1 ==> forall|i: int| 0 <= i < ps.len() ==> ps[i].0 != k,
        find_key(ps, k) != -1 ==> 0 <= find_key(ps, k) < ps.len() && ps[find_key(ps, k)].0 == k
            && forall|i: int| 0 <= i < find_key(ps, k) ==> ps[i].0 != k,
    decreases ps.len(),
{
    if ps.len() > 0 && ps[0].0 != k {
        lemma_find_key(ps.drop_first(), k);
        let rest = ps.drop_first();
        assert(forall|i: int| 0 <= i < rest.len() ==> rest[i] == ps[i + 1]);
        if find_key(ps, k) == -1 {
            assert forall|i: int| 0 <= i < ps.len() implies ps[i].0 != k by {
                if i > 0 {
                    assert(rest[i - 1] == ps[i]);
                }
            };
        } else {
            let f = find_key(rest, k);
            assert(find_key(ps, k) == f + 1);
            assert(ps[f + 1] == rest[f]);
            assert forall|i: int| 0 <= i < f + 1 implies ps[i].0 != k by {
                if i > 0 {
                    assert(rest[i - 1] == ps[i]);
                }
            };
        }
    }
}

/// An ordered mapping from CSS property names to value texts: entries keep
/// their insertion order and no property appears twice.
#[derive(Debug)]
pub struct CssAttributes {
    pub inner: Vec<CssAttribute>,
}

impl CssAttributes {
    /// The pairs held, in order.
    pub open spec fn view_pairs(&self) -> Seq<(Seq<char>, Seq<char>)> {
        attr_pairs(self.inner@)
    }

    /// Whether no property appears twice.
    pub open spec fn wf(&self) -> bool {
        unique_keys(self.view_pairs())
    }

    /// An empty mapping.
    pub fn new() -> (r: CssAttributes)
        ensures
            r.view_pairs() =~= Seq::<(Seq<char>, Seq<char>)>::empty(),
            r.wf(),
    {
        CssAttributes { inner: Vec::new() }
    }

    /// How many properties are held.
    pub fn len(&self) -> (r: usize)
        ensures
            r == self.view_pairs().len(),
    {
        self.inner.len()
    }

    /// The property name at `i`.
    pub fn key_at(&self, i: usize) -> (r: &String)
        requires
            i < self.view_pairs().len(),
        ensures
            r@ == self.view_pairs()[i as int].0,
    {
        &self.inner[i].key
    }

    /// The value text at `i`.
    pub fn value_at(&self, i: usize) -> (r: &String)
        requires
            i < self.view_pairs().len(),
        ensures
            r@ == self.view_pairs()[i as int].1,
    {
        &self.inner[i].value
    }

    /// Writes one property: a property already held takes the new value in
    /// place, a new one is appended.
    pub fn insert(&mut self, key: String, value: String)
        requires
            old(self).wf(),
        ensures
            final(self).view_pairs() == upsert(old(self).view_pairs(), key@, value@),
            final(self).wf(),
    {
        let ghost ps = self.view_pairs();
        proof {
            lemma_find_key(ps, key@);
        }
        let n = self.inner.len();
        let mut i: usize = 0;
        while i < n
            invariant
                n == self.inner@.len(),
                ps == self.view_pairs(),
                ps == old(self).view_pairs(),
                unique_keys(ps),
                0 <= i <= n,
                forall|j: int| 0 <= j < i ==> ps[j].0 != key@,
            decreases n - i,
        {
            if str_eq(self.inner[i].key.as_str(), key.as_str()) {
                proof {
                    assert(ps[i as int].0 == key@);
                    assert(find_key(ps, key@) == i as int) by {
                        lemma_find_key(ps, key@);
                        if find_key(ps, key@) == -1 {
                            assert(ps[i as int].0 != key@);
                        } else if find_key(ps, key@) > i as int {
                            assert(ps[i as int].0 != key@);
                        }
                    };
                }
                let ghost kk = key@;
                let ghost vv = value@;
                let ghost oldv = self.inner@;
                self.inner.remove(i);
                let ghost mid = self.inner@;
                self.inner.insert(i, CssAttribute { key, value });
                proof {
                    assert(mid == oldv.remove(i as int));
                    assert(self.inner@ == mid.insert(i as int, self.inner@[i as int]));
                    assert(self.inner@.len() == oldv.len());
                    assert forall|j: int|
                        0 <= j < oldv.len() && j != i as int implies #[trigger] self.inner@[j]
                        == oldv[j] by {
                        if j < i as int {
                            assert(mid[j] == oldv[j]);
                            assert(self.inner@[j] == mid[j]);
                        } else {
                            assert(mid[j - 1] == oldv[j]);
                            assert(self.inner@[j] == mid[j - 1]);
                        }
                    };
                    assert(attr_pair(self.inner@[i as int]) == (kk, vv));
                    assert forall|a: int|
                        0 <= a < self.view_pairs().len() implies #[trigger] self.view_pairs()[a].0
                        == ps[a].0 by {
                        if a != i as int {
                            assert(self.inner@[a] == oldv[a]);
                        }
                    };
                    assert(self.view_pairs() =~= upsert(ps, kk, vv));
                    assert(self.view_pairs() == upsert(old(self).view_pairs(), kk, vv));
                    assert forall|a: int, b: int|
                        0 <= a < b < self.view_pairs().len() implies self.view_pairs()[a].0
                        != self.view_pairs()[b].0 by {
                        assert(self.view_pairs()[a].0 == ps[a].0);
                        assert(self.view_pairs()[b].0 == ps[b].0);
                        assert(ps[a].0 != ps[b].0);
                    };
                    assert(self.wf());
                }
                return;
            }
            i += 1;
        }
        proof {
            assert(find_key(ps, key@) == -1) by {
                lemma_find_key(ps, key@);
                if find_key(ps, key@) != -1 {
                    assert(ps[find_key(ps, key@)].0 == key@);
                }
            };
        }
        self.inner.push(CssAttribute { key, value });
        proof {
            assert(self.view_pairs() =~= upsert(ps, key@, value@));
            assert forall|a: int, b: int|
                0 <= a < b < self.view_pairs().len() implies self.view_pairs()[a].0
                != self.view_pairs()[b].0 by {
                if b == self.view_pairs().len() - 1 {
                    lemma_find_key(ps, key@);
                }
            };
        }
    }

    /// Writes every property of `other`, in order, into this mapping.
    pub fn extend(&mut self, other: CssAttributes)
        requires
            old(self).wf(),
        ensures
            final(self).view_pairs() == upsert_all(
                old(self).view_pairs(),
                other.view_pairs(),
            ),
            final(self).wf(),
    {
        let ghost src = other.view_pairs();
        let ghost start = self.view_pairs();
        let n = other.inner.len();
        let mut i: usize = 0;
        while i < n
            invariant
                n == other.inner@.len(),
                src == other.view_pairs(),
                self.wf(),
                self.view_pairs() == upsert_all(start, src.take(i as int)),
                0 <= i <= n,
            decreases n - i,
        {
            proof {
                assert(src.take(i + 1).drop_last() =~= src.take(i as int));
                assert(src.take(i + 1).last() == src[i as int]);
            }
            let key = clone_string(&other.inner[i].key);
            let value = clone_string(&other.inner[i].value);
            self.insert(key, value);
            i += 1;
        }
        proof {
            assert(src.take(n as int) =~= src);
        }
    }
}

/// `base` with every pair of `adds` written over it, in order.
pub open spec fn upsert_all(
    base: Seq<(Seq<char>, Seq<char>)>,
    adds: Seq<(Seq<char>, Seq<char>)>,
) -> Seq<(Seq<char>, Seq<char>)>
    decreases adds.len(),
{
    if adds.len() == 0 {
        base
    } else {
        upsert(upsert_all(base, adds.drop_last()), adds.last().0, adds.last().1)
    }
}


/// Writing a property that no entry holds appends it.
pub proof fn lemma_upsert_fresh(ps: Seq<(Seq<char>, Seq<char>)>, k: Seq<char>, v: Seq<char>)
    requires
        forall|i: int| 0 <= i < ps.len() ==> ps[i].0 != k,
    ensures
        upsert(ps, k, v) == ps.push((k, v)),
{
    lemma_find_key(ps, k);
    if find_key(ps, k) != -1 {
        assert(ps[find_key(ps, k)].0 == k);
    }
}

/// Appends a property known not to be held yet.
pub fn push_fresh(out: &mut CssAttributes, key: &str, value: String)
    requires
        old(out).wf(),
        forall|i: int| 0 <= i < old(out).view_pairs().len() ==> old(out).view_pairs()[i].0
            != key@,
    ensures
        final(out).view_pairs() == old(out).view_pairs().push((key@, value@)),
        final(out).wf(),
{
    proof {
        lemma_upsert_fresh(out.view_pairs(), key@, value@);
    }
    out.insert(key.to_owned(), value);
}

/// The characters of `s` made safe for a class selector: a space becomes
/// `_`, letters, digits, `-` and `_` stay, and anything else is escaped
/// with a backslash.
pub open spec fn normalized(s: Seq<char>) -> Seq<char>
    decreases s.len(),
{
    if s.len() == 0 {
        Seq::empty()
    } else {
        normalized(s.drop_last()) + norm_char(s.last())
    }
}

pub open spec fn norm_char(c: char) -> Seq<char> {
    if c == ' ' {
        seq!['_']
    } else if c == '-' || c == '_' || crate::parser::is_name_char(c) {
        seq![c]
    } else {
        seq!['\\', c]
    }
}

/// Rewrites a source class text as a safe selector name.
pub fn normalize_class_name(name: &str) -> (r: String)
    ensures
        r@ == normalized(name@),
{
    let n = name.unicode_len();
    let mut out = String::new();
    let mut i: usize = 0;
    while i < n
        invariant
            n == name@.len(),
            0 <= i <= n,
            out@ == normalized(name@.take(i as int)),
        decreases n - i,
    {
        proof {
            assert(name@.take(i + 1).drop_last() =~= name@.take(i as int));
            assert(name@.take(i + 1).last() == name@[i as int]);
        }
        let c = name.get_char(i);
        if c == ' ' {
            out.append("_");
        } else if c == '-' || c == '_' || crate::parser::name_char(c) {
            let piece = name.substring_char(i, i + 1);
            proof {
                assert(piece@ =~= seq![name@[i as int]]);
            }
            out.append(piece);
        } else {
            out.append("\\");
            let piece = name.substring_char(i, i + 1);
            proof {
                assert(piece@ =~= seq![name@[i as int]]);
            }
            out.append(piece);
        }
        proof {
            reveal_strlit("_");
            reveal_strlit("\\");
        }
        i += 1;
    }
    proof {
        assert(name@.take(n as int) =~= name@);
    }
    out
}

/// The text of a whole number of quarters: the integer part, then `.25`,
/// `.5` or `.75` where a fraction remains.
pub open spec fn quarters_text(q: nat) -> Seq<char> {
    dec_digits(q / 4) + (if q % 4 == 0 {
        Seq::empty()
    } else if q % 4 == 1 {
        ".25"@
    } else if q % 4 == 2 {
        ".5"@
    } else {
        ".75"@
    })
}

/// Writes a number of quarters as a decimal value.
pub fn fmt_quarters(q: usize) -> (r: String)
    ensures
        r@ == quarters_text(q as nat),
{
    let mut out = fmt_usize(q / 4);
    let rem = q % 4;
    if rem == 1 {
        out.append(".25");
    } else if rem == 2 {
        out.append(".5");
    } else if rem == 3 {
        out.append(".75");
    }
    out
}

/// A CSS length: a decimal number of quarter `em`s from the numeric scale
/// (the number is `value / 10^shift`), or a raw text of number-and-unit
/// shape from an arbitrary value.
#[derive(Debug)]
pub enum LengthUnit {
    Em { value: usize, shift: usize },
    Raw { text: String },
}

/// The position after the leading run of digits and dots.
pub open spec fn scan_num_end(s: Seq<char>, i: int) -> int
    decreases s.len() - i when 0 <= i <= s.len()
{
    if i < s.len() && (char_digit(s[i]) < 10 || s[i] == '.') {
        scan_num_end(s, i + 1)
    } else {
        i
    }
}

/// How many dots `s` holds.
pub open spec fn dot_count(s: Seq<char>) -> nat
    decreases s.len(),
{
    if s.len() == 0 {
        0
    } else {
        dot_count(s.drop_last()) + (if s.last() == '.' {
            1nat
        } else {
            0nat
        })
    }
}

/// A decimal number: digits with at most one dot, neither first nor last.
pub open spec fn is_number_text(s: Seq<char>) -> bool {
    s.len() > 0 && (forall|i: int| 0 <= i < s.len() ==> char_digit(s[i]) < 10 || s[i] == '.')
        && dot_count(s) <= 1 && s[0] != '.' && s.last() != '.'
}

/// A known CSS unit suffix.
pub open spec fn is_unit_text(u: Seq<char>) -> bool {
    u == "px"@ || u == "em"@ || u == "rem"@ || u == "vh"@ || u == "vw"@ || u == "pt"@ || u
        == "pc"@ || u == "in"@ || u == "cm"@ || u == "mm"@ || u == "ex"@ || u == "ch"@ || u == "%"@
}

/// A CSS length text: a decimal number followed by a known unit.
pub open spec fn is_length_text(s: Seq<char>) -> bool {
    let k = scan_num_end(s, 0);
    is_number_text(s.take(k)) && is_unit_text(s.skip(k))
}


/// `n` zero characters.
pub open spec fn zeros(n: nat) -> Seq<char>
    decreases n,
{
    if n == 0 {
        Seq::empty()
    } else {
        zeros((n - 1) as nat).push('0')
    }
}

/// Whether `s` holds a decimal point.
pub open spec fn has_dot(s: Seq<char>) -> bool {
    exists|i: int| 0 <= i < s.len() && s[i] == '.'
}

/// The digit string `ds` with a decimal point `k` places from its right
/// end, zero padded on the left where it is too short.
pub open spec fn shift_decimal(ds: Seq<char>, k: nat) -> Seq<char> {
    if k == 0 {
        ds
    } else if ds.len() <= k {
        "0."@ + zeros((k - ds.len()) as nat) + ds
    } else {
        ds.take(ds.len() - k) + "."@ + ds.skip(ds.len() - k)
    }
}

/// `s` with trailing fraction zeros removed, and a then-bare decimal point
/// removed with them.
pub open spec fn trim_zeros(s: Seq<char>) -> Seq<char>
    decreases s.len(),
{
    if s.len() > 0 && s.last() == '0' && has_dot(s) {
        trim_zeros(s.drop_last())
    } else if s.len() > 0 && s.last() == '.' {
        s.drop_last()
    } else {
        s
    }
}

/// The text of `value / 10^shift` quarter ems: the digits of `25 * value`
/// with the point `shift + 2` places in, trimmed.
pub open spec fn em_value_text(value: nat, shift: nat) -> Seq<char> {
    trim_zeros(shift_decimal(dec_digits(25 * value), shift + 2))
}

/// Every character a decimal writer emits is a digit.
proof fn lemma_dec_digits_are_digits(n: nat)
    ensures
        forall|q: int|
            0 <= q < dec_digits(n).len() ==> char_digit(#[trigger] dec_digits(n)[q]) < 10,
    decreases n,
{
    if n < 10 {
        assert(char_digit(digit_char(n)) < 10);
        assert(dec_digits(n) == seq![digit_char(n)]);
    } else {
        lemma_dec_digits_are_digits(n / 10);
        assert(char_digit(digit_char(n % 10)) < 10);
        assert forall|q: int|
            0 <= q < dec_digits(n).len() implies char_digit(#[trigger] dec_digits(n)[q])
            < 10 by {
            if q < dec_digits(n / 10).len() {
                assert(dec_digits(n)[q] == dec_digits(n / 10)[q]);
            } else {
                assert(dec_digits(n)[q] == digit_char(n % 10));
            }
        };
    }
}

/// Writes `value / 10^shift` quarter ems as a decimal number. Values too
/// large to scale exactly on this machine are written as their plain
/// digits; no value the sizing readers accept is that large.
pub fn fmt_em(value: usize, shift: usize) -> (r: String)
    ensures
        value <= usize::MAX / 25 && shift <= 100 ==> r@ == em_value_text(
            value as nat,
            shift as nat,
        ),
{
    if value > usize::MAX / 25 || shift > 100 {
        return fmt_usize(value);
    }
    proof {
        reveal_strlit("0.");
        reveal_strlit("0");
        reveal_strlit(".");
        assert("0."@.len() == 2 && "0."@[0] == '0' && "0."@[1] == '.');
        assert("0"@.len() == 1 && "0"@[0] == '0');
        assert("."@.len() == 1 && "."@[0] == '.');
        lemma_dec_digits_are_digits(25 * value as nat);
    }
    let t = value * 25;
    proof {
        assert(25 * value as nat == t as nat);
    }
    let ds = fmt_usize(t);
    let n = ds.unicode_len();
    let k2 = shift + 2;
    let ghost full = shift_decimal(dec_digits(t as nat), k2 as nat);
    let mut out = String::new();
    let dot: usize;
    if n <= k2 {
        out.append("0.");
        dot = 1;
        let mut pad = k2 - n;
        proof {
            assert(out@ =~= "0."@ + zeros(0));
        }
        while pad > 0
            invariant
                pad <= k2 - n,
                out@ == "0."@ + zeros((k2 - n - pad) as nat),
            decreases pad,
        {
            let ghost progress = (k2 - n - pad) as nat;
            out.append("0");
            proof {
                reveal_strlit("0");
                assert("0"@.len() == 1 && "0"@[0] == '0');
                assert(zeros(progress + 1) =~= zeros(progress).push('0'));
                assert(out@ =~= "0."@ + zeros(progress + 1));
            }
            pad = pad - 1;
        }
        out.append(ds.as_str());
        proof {
            assert(out@ =~= full);
        }
    } else {
        let head = ds.substring_char(0, n - k2);
        let tail = ds.substring_char(n - k2, n);
        out.append(head);
        out.append(".");
        out.append(tail);
        dot = n - k2;
        proof {
            assert(out@ =~= full);
        }
    }
    proof {
        assert(out@[dot as int] == '.');
        assert forall|j: int| 0 <= j < out@.len() && j != dot as int implies #[trigger] out@[j]
            != '.' by {
            lemma_zeros_are_zero((k2 - n) as nat);
            assert(char_digit('.') >= 10) by {
                assert(('.' as u32) == 46);
            };
        };
    }
    let m = out.unicode_len();
    let mut cut = m;
    proof {
        assert(out@.take(m as int) =~= out@);
    }
    while cut > 0 && out.get_char(cut - 1) == '0' && cut - 1 > dot
        invariant
            0 <= dot < cut <= m,
            m == out@.len(),
            out@[dot as int] == '.',
            forall|j: int| 0 <= j < out@.len() && j != dot as int ==> #[trigger] out@[j] != '.',
            trim_zeros(out@) == trim_zeros(out@.take(cut as int)),
        decreases cut,
    {
        proof {
            let cur = out@.take(cut as int);
            assert(cur.last() == out@[cut - 1]);
            assert(has_dot(cur)) by {
                assert(cur[dot as int] == '.');
            };
            assert(cur.drop_last() =~= out@.take(cut - 1));
        }
        cut = cut - 1;
    }
    proof {
        let cur = out@.take(cut as int);
        if cut as int - 1 == dot as int {
            assert(cur.last() == '.');
            assert(!(cur.last() == '0' && has_dot(cur)));
            assert(trim_zeros(cur) == cur.drop_last());
            assert(cur.drop_last() =~= out@.take(cut - 1));
            assert(trim_zeros(out@.take(cut - 1)) == out@.take(cut - 1)) by {
                let fin = out@.take(cut - 1);
                if fin.len() > 0 {
                    assert(!has_dot(fin)) by {
                        if has_dot(fin) {
                            let q = choose|q: int| 0 <= q < fin.len() && fin[q] == '.';
                            assert(out@[q] == '.');
                        }
                    };
                    assert(fin.last() != '.') by {
                        assert(fin.last() == out@[cut - 2]);
                    };
                }
            };
        } else {
            assert(cur.len() > 0);
            assert(!(cur.last() == '0' && has_dot(cur)));
            assert(cur.last() != '.') by {
                assert(cur.last() == out@[cut - 1]);
            };
            assert(trim_zeros(cur) == cur);
        }
    }
    if cut > 0 && out.get_char(cut - 1) == '.' {
        cut = cut - 1;
    }
    let r = out.substring_char(0, cut);
    proof {
        assert(r@ =~= out@.take(cut as int));
        assert(r@ == em_value_text(value as nat, shift as nat));
    }
    r.to_owned()
}

/// Every character of `zeros` is a zero.
proof fn lemma_zeros_are_zero(n: nat)
    ensures
        forall|q: int| 0 <= q < zeros(n).len() ==> #[trigger] zeros(n)[q] == '0',
        zeros(n).len() == n,
    decreases n,
{
    if n > 0 {
        lemma_zeros_are_zero((n - 1) as nat);
    }
}

impl LengthUnit {
    /// A length of `quarters / 4` em.
    pub fn em(quarters: usize) -> (r: LengthUnit)
        ensures
            r matches LengthUnit::Em { value, shift } && value == quarters && shift == 0,
    {
        LengthUnit::Em { value: quarters, shift: 0 }
    }

    /// The value text this length writes into a property.
    pub fn get_properties(&self) -> (r: String)
        ensures
            self matches LengthUnit::Em { value, shift } ==> (*value <= usize::MAX / 25 && *shift
                <= 100 ==> r@ == em_value_text(*value as nat, *shift as nat) + "em"@),
            self matches LengthUnit::Raw { text } ==> r@ == text@,
    {
        match self {
            LengthUnit::Em { value, shift } => {
                let mut out = fmt_em(*value, *shift);
                out.append("em");
                out
            },
            LengthUnit::Raw { text } => clone_string(text),
        }
    }
}


/// The position after the leading run of digits.
pub open spec fn scan_digit_end(s: Seq<char>, i: int) -> int
    decreases s.len() - i when 0 <= i <= s.len()
{
    if i < s.len() && char_digit(s[i]) < 10 {
        scan_digit_end(s, i + 1)
    } else {
        i
    }
}

/// Every character before the end of a digit run is a digit, and the run
/// stays within the string.
pub proof fn lemma_scan_digit_chars(s: Seq<char>, i: int)
    requires
        0 <= i <= s.len(),
    ensures
        i <= scan_digit_end(s, i) <= s.len(),
        forall|j: int| i <= j < scan_digit_end(s, i) ==> char_digit(s[j]) < 10,
    decreases s.len() - i,
{
    if i < s.len() && char_digit(s[i]) < 10 {
        lemma_scan_digit_chars(s, i + 1);
    }
}

/// Every character before the end of a number run is a digit or a dot, and
/// the run stays within the string.
pub proof fn lemma_scan_num_chars(s: Seq<char>, i: int)
    requires
        0 <= i <= s.len(),
    ensures
        i <= scan_num_end(s, i) <= s.len(),
        forall|j: int| i <= j < scan_num_end(s, i) ==> char_digit(s[j]) < 10 || s[j] == '.',
    decreases s.len() - i,
{
    if i < s.len() && (char_digit(s[i]) < 10 || s[i] == '.') {
        lemma_scan_num_chars(s, i + 1);
    }
}


/// A plain decimal number of quarters: whole digits, or digits with one
/// interior point; the combined digits must scale by 25 on this machine.
/// The value is the combined digits, the shift how many stood after the
/// point.
pub open spec fn decimal_spec(s: Seq<char>) -> Option<(nat, nat)> {
    let k = scan_digit_end(s, 0);
    if k == s.len() && s.len() > 0 && digits_value(s) * 25 <= usize::MAX {
        Some((digits_value(s), 0))
    } else if 0 < k && k + 1 < s.len() && s[k] == '.' && scan_digit_end(s, k + 1) == s.len()
        && digits_value(s.take(k) + s.skip(k + 1)) * 25 <= usize::MAX {
        Some((digits_value(s.take(k) + s.skip(k + 1)), (s.len() - k - 1) as nat))
    } else {
        None
    }
}

impl TailwindArbitrary {
    /// Reads the text as a plain decimal number of quarters; any other
    /// shape is a value error.
    pub fn as_decimal(&self) -> (r: Result<(usize, usize), TailwindError>)
        ensures
            decimal_spec(self.item@) matches Some(v) ==> (r matches Ok(p) && p.0 == v.0 && p.1
                == v.1),
            decimal_spec(self.item@) is None ==> (r matches Err(e) && e
                matches TailwindError::Value { message } && message@ == self.item@),
    {
        let s = self.item.as_str();
        let n = s.unicode_len();
        let k = scan_digits_x(s, n, 0);
        proof {
            lemma_scan_digit_chars(s@, 0);
        }
        if k == n && n > 0 {
            match crate::text::parse_usize(s) {
                Some(v) => {
                    if v <= usize::MAX / 25 {
                        proof {
                            assert(crate::text::all_digits(s@));
                        }
                        return Ok((v, 0));
                    }
                    return Err(TailwindError::Value { message: clone_string(&self.item) });
                },
                None => {
                    return Err(TailwindError::Value { message: clone_string(&self.item) });
                },
            }
        }
        if 0 < k && k + 1 < n && s.get_char(k) == '.' {
            let e = scan_digits_x(s, n, k + 1);
            proof {
                lemma_scan_digit_chars(s@, k as int + 1);
            }
            if e == n {
                let mut digits = s.substring_char(0, k).to_owned();
                digits.append(s.substring_char(k + 1, n));
                proof {
                    assert(digits@ =~= s@.take(k as int) + s@.skip(k + 1));
                    assert(crate::text::all_digits(digits@)) by {
                        assert forall|q: int|
                            0 <= q < digits@.len() implies char_digit(#[trigger] digits@[q])
                            < 10 by {
                            if q < k as int {
                                assert(digits@[q] == s@[q]);
                            } else {
                                assert(digits@[q] == s@[q + 1]);
                            }
                        };
                    };
                }
                match crate::text::parse_usize(digits.as_str()) {
                    Some(v) => {
                        if v <= usize::MAX / 25 {
                            return Ok((v, n - k - 1));
                        }
                        return Err(TailwindError::Value { message: clone_string(&self.item) });
                    },
                    None => {
                        return Err(TailwindError::Value { message: clone_string(&self.item) });
                    },
                }
            }
        }
        Err(TailwindError::Value { message: clone_string(&self.item) })
    }
}

/// A fraction `a/b` written with plain digit runs on both sides.
pub open spec fn fraction_spec(s: Seq<char>) -> Option<(nat, nat)> {
    let k = scan_digit_end(s, 0);
    if 0 < k < s.len() && s[k] == '/' && s.len() - (k + 1) > 0 && crate::text::all_digits(
        s.skip(k + 1),
    ) && crate::text::digits_value(s.take(k)) <= usize::MAX && crate::text::digits_value(
        s.skip(k + 1),
    ) <= usize::MAX {
        Some((crate::text::digits_value(s.take(k)), crate::text::digits_value(s.skip(k + 1))))
    } else {
        None
    }
}

fn scan_digits_x(s: &str, n: usize, i: usize) -> (r: usize)
    requires
        n == s@.len(),
        i <= n,
    ensures
        r == scan_digit_end(s@, i as int),
        i <= r <= n,
    decreases n - i,
{
    if i < n {
        let u = s.get_char(i) as u32;
        if 48 <= u && u <= 57 {
            proof {
                assert(char_digit(s@[i as int]) < 10) by {
                    let c = s@[i as int];
                    if c as u32 == 48 { assert(c == '0'); }
                    if c as u32 == 49 { assert(c == '1'); }
                    if c as u32 == 50 { assert(c == '2'); }
                    if c as u32 == 51 { assert(c == '3'); }
                    if c as u32 == 52 { assert(c == '4'); }
                    if c as u32 == 53 { assert(c == '5'); }
                    if c as u32 == 54 { assert(c == '6'); }
                    if c as u32 == 55 { assert(c == '7'); }
                    if c as u32 == 56 { assert(c == '8'); }
                    if c as u32 == 57 { assert(c == '9'); }
                };
            }
            return scan_digits_x(s, n, i + 1);
        }
        proof {
            assert(char_digit(s@[i as int]) >= 10) by {
                let c = s@[i as int];
                assert((c as u32) < 48 || (c as u32) > 57);
                if c == '0' || c == '1' || c == '2' || c == '3' || c == '4' || c == '5' || c == '6'
                    || c == '7' || c == '8' || c == '9' {
                    assert(48 <= (c as u32) && (c as u32) <= 57);
                }
            };
        }
        i
    } else {
        i
    }
}

fn scan_nums_x(s: &str, n: usize, i: usize) -> (r: usize)
    requires
        n == s@.len(),
        i <= n,
    ensures
        r == scan_num_end(s@, i as int),
        i <= r <= n,
    decreases n - i,
{
    if i < n {
        let c = s.get_char(i);
        let u = c as u32;
        if (48 <= u && u <= 57) || c == '.' {
            proof {
                assert(char_digit(s@[i as int]) < 10 || s@[i as int] == '.') by {
                    let cc = s@[i as int];
                    if cc as u32 == 48 { assert(cc == '0'); }
                    if cc as u32 == 49 { assert(cc == '1'); }
                    if cc as u32 == 50 { assert(cc == '2'); }
                    if cc as u32 == 51 { assert(cc == '3'); }
                    if cc as u32 == 52 { assert(cc == '4'); }
                    if cc as u32 == 53 { assert(cc == '5'); }
                    if cc as u32 == 54 { assert(cc == '6'); }
                    if cc as u32 == 55 { assert(cc == '7'); }
                    if cc as u32 == 56 { assert(cc == '8'); }
                    if cc as u32 == 57 { assert(cc == '9'); }
                };
            }
            return scan_nums_x(s, n, i + 1);
        }
        proof {
            assert(!(char_digit(s@[i as int]) < 10 || s@[i as int] == '.')) by {
                let cc = s@[i as int];
                assert(cc != '.');
                if cc == '0' || cc == '1' || cc == '2' || cc == '3' || cc == '4' || cc == '5'
                    || cc == '6' || cc == '7' || cc == '8' || cc == '9' {
                    assert(48 <= (cc as u32) && (cc as u32) <= 57);
                }
            };
        }
        i
    } else {
        i
    }
}

/// Whether `u` is a known CSS unit suffix.
fn unit_text(u: &str) -> (r: bool)
    ensures
        r == is_unit_text(u@),
{
    str_eq(u, "px") || str_eq(u, "em") || str_eq(u, "rem") || str_eq(u, "vh") || str_eq(u, "vw")
        || str_eq(u, "pt") || str_eq(u, "pc") || str_eq(u, "in") || str_eq(u, "cm") || str_eq(
        u,
        "mm",
    ) || str_eq(u, "ex") || str_eq(u, "ch") || str_eq(u, "%")
}

impl TailwindArbitrary {
    /// Reads the text as a CSS length of number-and-unit shape; any other
    /// shape is a value error. Relied on by the sizing and placement
    /// resolvers.
    pub fn as_length(&self) -> (r: Result<LengthUnit, TailwindError>)
        ensures
            is_length_text(self.item@) ==> (r matches Ok(l) && l matches LengthUnit::Raw { text }
                && text@ == self.item@),
            !is_length_text(self.item@) ==> (r matches Err(e) && e
                matches TailwindError::Value { message } && message@ == self.item@),
    {
        let s = self.item.as_str();
        let n = s.unicode_len();
        let k = scan_nums_x(s, n, 0);
        proof {
            lemma_scan_num_chars(s@, 0);
        }
        if k == 0 || k == n {
            proof {
                reveal_strlit("px");
                reveal_strlit("em");
                reveal_strlit("rem");
                reveal_strlit("vh");
                reveal_strlit("vw");
                reveal_strlit("pt");
                reveal_strlit("pc");
                reveal_strlit("in");
                reveal_strlit("cm");
                reveal_strlit("mm");
                reveal_strlit("ex");
                reveal_strlit("ch");
                reveal_strlit("%");
                if k == 0 {
                    assert(!is_number_text(self.item@.take(0)));
                } else {
                    assert(self.item@.skip(k as int).len() == 0);
                    assert(!is_unit_text(self.item@.skip(k as int)));
                }
            }
            return Err(TailwindError::Value { message: crate::ast::clone_string(&self.item) });
        }
        let num = s.substring_char(0, k);
        proof {
            assert(num@ =~= s@.take(k as int));
        }
        let nn = num.unicode_len();
        if num.get_char(0) == '.' || num.get_char(nn - 1) == '.' {
            return Err(TailwindError::Value { message: crate::ast::clone_string(&self.item) });
        }
        let mut dots: usize = 0;
        let mut i: usize = 0;
        while i < nn
            invariant
                nn == num@.len(),
                0 <= i <= nn,
                dots == dot_count(num@.take(i as int)),
                dots <= i,
            decreases nn - i,
        {
            proof {
                assert(num@.take(i + 1).drop_last() =~= num@.take(i as int));
                assert(num@.take(i + 1).last() == num@[i as int]);
            }
            if num.get_char(i) == '.' {
                dots = dots + 1;
            }
            i += 1;
        }
        proof {
            assert(num@.take(nn as int) =~= num@);
        }
        if dots > 1 {
            return Err(TailwindError::Value { message: crate::ast::clone_string(&self.item) });
        }
        let unit = s.substring_char(k, n);
        proof {
            assert(unit@ =~= s@.skip(k as int));
        }
        if unit_text(unit) {
            proof {
                assert(is_number_text(s@.take(k as int)));
            }
            Ok(LengthUnit::Raw { text: crate::ast::clone_string(&self.item) })
        } else {
            Err(TailwindError::Value { message: crate::ast::clone_string(&self.item) })
        }
    }

    /// Reads the text as a fraction `a/b` of whole numbers; any other shape
    /// is a value error. Relied on by the sizing and placement resolvers.
    pub fn as_fraction(&self) -> (r: Result<(usize, usize), TailwindError>)
        ensures
            fraction_spec(self.item@) matches Some(v) ==> (r matches Ok(p) && p.0 == v.0 && p.1
                == v.1),
            fraction_spec(self.item@) is None ==> (r matches Err(e) && e
                matches TailwindError::Value { message } && message@ == self.item@),
    {
        let s = self.item.as_str();
        let n = s.unicode_len();
        let k = scan_digits_x(s, n, 0);
        proof {
            lemma_scan_digit_chars(s@, 0);
        }
        if k == 0 || k >= n {
            return Err(TailwindError::Value { message: crate::ast::clone_string(&self.item) });
        }
        if s.get_char(k) != '/' {
            return Err(TailwindError::Value { message: crate::ast::clone_string(&self.item) });
        }
        let num = s.substring_char(0, k);
        let den = s.substring_char(k + 1, n);
        proof {
            assert(num@ =~= s@.take(k as int));
            assert(den@ =~= s@.skip(k + 1));
            assert(crate::text::all_digits(num@));
        }
        match (crate::text::parse_usize(num), crate::text::parse_usize(den)) {
            (Some(a), Some(b)) => Ok((a, b)),
            _ => Err(TailwindError::Value { message: crate::ast::clone_string(&self.item) }),
        }
    }
}

} // verus!
