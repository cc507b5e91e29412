use vstd::prelude::*;

verus! {

/// The characters of `list` joined with the separator `sep` between
/// neighbouring entries.
pub open spec fn join_seq(list: Seq<Seq<char>>, sep: Seq<char>) -> Seq<char>
    decreases list.len(),
{
    if list.len() == 0 {
        Seq::empty()
    } else if list.len() == 1 {
        list[0]
    } else {
        join_seq(list.drop_last(), sep) + sep + list.last()
    }
}

/// The decimal digit characters of `n`, most significant first.
pub open spec fn dec_digits(n: nat) -> Seq<char>
    decreases n,
{
    if n < 10 {
        seq![digit_char(n)]
    } else {
        dec_digits(n / 10) + seq![digit_char(n % 10)]
    }
}

/// The character for one decimal digit.
pub open spec fn digit_char(d: nat) -> char {
    if d == 0 {
        '0'
    } else if d == 1 {
        '1'
    } else if d == 2 {
        '2'
    } else if d == 3 {
        '3'
    } else if d == 4 {
        '4'
    } else if d == 5 {
        '5'
    } else if d == 6 {
        '6'
    } else if d == 7 {
        '7'
    } else if d == 8 {
        '8'
    } else {
        '9'
    }
}

/// The numeric value of one decimal digit character, or 10 for any other
/// character.
pub open spec fn char_digit(c: char) -> nat {
    if c == '0' {
        0
    } else if c == '1' {
        1
    } else if c == '2' {
        2
    } else if c == '3' {
        3
    } else if c == '4' {
        4
    } else if c == '5' {
        5
    } else if c == '6' {
        6
    } else if c == '7' {
        7
    } else if c == '8' {
        8
    } else if c == '9' {
        9
    } else {
        10
    }
}

/// Whether every character of `s` is a decimal digit.
pub open spec fn all_digits(s: Seq<char>) -> bool {
    forall|i: int| 0 <= i < s.len() ==> char_digit(s[i]) < 10
}

/// The number written by the digit characters of `s`, most significant first.
pub open spec fn digits_value(s: Seq<char>) -> nat
    decreases s.len(),
{
    if s.len() == 0 {
        0
    } else {
        digits_value(s.drop_last()) * 10 + char_digit(s.last())
    }
}

/// Character-for-character equality of two string slices.
pub fn str_eq(a: &str, b: &str) -> (r: bool)
    ensures
        r == (a@ == b@),
{
    let n = a.unicode_len();
    let m = b.unicode_len();
    if n != m {
        assert(a@.len() != b@.len());
        return false;
    }
    let mut i: usize = 0;
    while i < n
        invariant
            n == a@.len(),
            n == b@.len(),
            0 <= i <= n,
            forall|j: int| 0 <= j < i ==> a@[j] == b@[j],
        decreases n - i,
    {
        if a.get_char(i) != b.get_char(i) {
            return false;
        }
        i += 1;
    }
    proof {
        assert(a@ =~= b@);
    }
    true
}

/// Equality of an owned string and a string slice.
pub fn string_eq(a: &String, b: &str) -> (r: bool)
    ensures
        r == (a@ == b@),
{
    str_eq(a.as_str(), b)
}

/// Joins the strings of `items` with `sep` between neighbouring entries.
pub fn join_strings(items: &Vec<String>, sep: &str) -> (r: String)
    ensures
        r@ == join_seq(items.deep_view(), sep@),
{
    let mut out = String::new();
    let ghost views = items.deep_view();
    assert(out@ =~= join_seq(views.take(0), sep@));
    let mut i: usize = 0;
    while i < items.len()
        invariant
            views == items.deep_view(),
            views.len() == items@.len(),
            forall|j: int| 0 <= j < items@.len() ==> views[j] == items@[j]@,
            0 <= i <= items@.len(),
            out@ == join_seq(views.take(i as int), sep@),
        decreases items@.len() - i,
    {
        if i > 0 {
            out.append(sep);
        }
        out.append(items[i].as_str());
        proof {
            let t = views.take(i + 1 as int);
            assert(t.drop_last() =~= views.take(i as int));
            assert(t.last() == views[i as int]);
        }
        i += 1;
    }
    proof {
        assert(views.take(items@.len() as int) =~= views);
    }
    out
}

/// Writes `n` in decimal.
pub fn fmt_usize(n: usize) -> (r: String)
    ensures
        r@ == dec_digits(n as nat),
    decreases n,
{
    if n < 10 {
        let d = digit_str(n);
        let mut out = String::new();
        out.append(d);
        out
    } else {
        let mut out = fmt_usize(n / 10);
        out.append(digit_str(n % 10));
        out
    }
}

/// Writes `n` in decimal.
pub fn fmt_u64(n: u64) -> (r: String)
    ensures
        r@ == dec_digits(n as nat),
    decreases n,
{
    if n < 10 {
        let d = digit_str((n % 10) as usize);
        let mut out = String::new();
        out.append(d);
        out
    } else {
        let mut out = fmt_u64(n / 10);
        out.append(digit_str((n % 10) as usize));
        out
    }
}

/// The one-character string for the decimal digit `d`.
pub fn digit_str(d: usize) -> (r: &'static str)
    requires
        d < 10,
    ensures
        r@ =~= seq![digit_char(d as nat)],
{
    let r = match d {
        0 => "0",
        1 => "1",
        2 => "2",
        3 => "3",
        4 => "4",
        5 => "5",
        6 => "6",
        7 => "7",
        8 => "8",
        _ => "9",
    };
    proof {
        reveal_strlit("0");
        reveal_strlit("1");
        reveal_strlit("2");
        reveal_strlit("3");
        reveal_strlit("4");
        reveal_strlit("5");
        reveal_strlit("6");
        reveal_strlit("7");
        reveal_strlit("8");
        reveal_strlit("9");
    }
    r
}

/// Reads `s` as an unsigned decimal number. Fails on an empty string, on any
/// character that is not a decimal digit, and on a value above `usize::MAX`.
pub fn parse_usize(s: &str) -> (r: Option<usize>)
    ensures
        r is Some ==> s@.len() > 0 && all_digits(s@) && digits_value(s@) <= usize::MAX
            && r->0 == digits_value(s@),
        r is None ==> s@.len() == 0 || !all_digits(s@) || digits_value(s@) > usize::MAX,
{
    let n = s.unicode_len();
    if n == 0 {
        return None;
    }
    let mut acc: usize = 0;
    let mut i: usize = 0;
    while i < n
        invariant
            n == s@.len(),
            0 <= i <= n,
            all_digits(s@.take(i as int)),
            acc == digits_value(s@.take(i as int)),
        decreases n - i,
    {
        let c = s.get_char(i);
        let v = c as u32;
        if v < 48 || v > 57 {
            proof {
                assert(char_digit(s@[i as int]) >= 10) by {
                    let cc = s@[i as int];
                    assert(cc == c);
                };
            }
            return None;
        }
        let d = (v - 48) as usize;
        proof {
            assert(char_digit(c) == d) by {
                let u = c as u32;
                if u == 48 { assert(c == '0'); }
                if u == 49 { assert(c == '1'); }
                if u == 50 { assert(c == '2'); }
                if u == 51 { assert(c == '3'); }
                if u == 52 { assert(c == '4'); }
                if u == 53 { assert(c == '5'); }
                if u == 54 { assert(c == '6'); }
                if u == 55 { assert(c == '7'); }
                if u == 56 { assert(c == '8'); }
                if u == 57 { assert(c == '9'); }
            };
        }
        if acc > usize::MAX / 10 {
            proof {
                if all_digits(s@) {
                    lemma_digits_value_grows(s@, i as int);
                }
            }
            return None;
        }
        let base = acc * 10;
        if base > usize::MAX - d {
            proof {
                if all_digits(s@) {
                    lemma_digits_value_grows(s@, i as int);
                }
            }
            return None;
        }
        acc = base + d;
        proof {
            assert(s@.take(i + 1 as int).drop_last() =~= s@.take(i as int));
            assert(s@.take(i + 1 as int).last() == s@[i as int]);
        }
        i += 1;
    }
    proof {
        assert(s@.take(n as int) =~= s@);
    }
    Some(acc)
}

/// A longer digit string can only write a larger number: the value of `s` is
/// at least `10 * v + d` where `v` is the value of the first `i` digits and
/// `d` the digit that follows them.
proof fn lemma_digits_value_grows(s: Seq<char>, i: int)
    requires
        0 <= i < s.len(),
        all_digits(s),
    ensures
        digits_value(s) >= digits_value(s.take(i)) * 10 + char_digit(s[i]),
    decreases s.len() - i,
{
    if i == s.len() - 1 {
        assert(s.take(i) =~= s.drop_last());
    } else {
        lemma_digits_value_grows(s, i + 1);
        assert(s.take(i + 1).drop_last() =~= s.take(i));
        assert(s.take(i + 1).last() == s[i]);
        assert(digits_value(s.take(i + 1)) == digits_value(s.take(i)) * 10 + char_digit(s[i]));
        assert(digits_value(s) >= digits_value(s.take(i + 1)) * 10 + char_digit(s[i + 1]));
        assert(digits_value(s.take(i + 1)) * 10 >= digits_value(s.take(i + 1)));
    }
}

} // verus!
