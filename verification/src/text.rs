//! Verified text primitives: decimal formatting and parsing of unsigned
//! integers, and splitting a string on a separator character. The codec,
//! the consensus parser and the URL builders are all stated over the spec
//! functions of this module.

use vstd::prelude::*;
use vstd::string::StrSliceExecFns;
use vstd::string::StringExecFns;

verus! {

/// True when `c` is an ASCII decimal digit.
pub open spec fn is_digit(c: char) -> bool {
    48 <= c as u32 <= 57
}

/// The numeric value of a digit character.
pub open spec fn digit_val(c: char) -> int {
    c as u32 - 48
}

/// The digit character of a value below ten.
pub open spec fn digit_of(d: int) -> char {
    if d == 0 { '0' }
    else if d == 1 { '1' }
    else if d == 2 { '2' }
    else if d == 3 { '3' }
    else if d == 4 { '4' }
    else if d == 5 { '5' }
    else if d == 6 { '6' }
    else if d == 7 { '7' }
    else if d == 8 { '8' }
    else { '9' }
}

/// True when `t` is a non-empty run of decimal digits.
pub open spec fn is_dec(t: Seq<char>) -> bool {
    t.len() > 0 && forall|i: int| 0 <= i < t.len() ==> is_digit(#[trigger] t[i])
}

/// The numeric value of a digit run, most significant digit first.
pub open spec fn dec_val(t: Seq<char>) -> int
    decreases t.len(),
{
    if t.len() == 0 {
        0
    } else {
        dec_val(t.drop_last()) * 10 + digit_val(t.last())
    }
}

/// The canonical decimal rendering of a non-negative integer.
pub open spec fn spec_dec(n: int) -> Seq<char>
    recommends
        n >= 0,
    decreases n,
{
    if n < 10 {
        seq![digit_of(n)]
    } else {
        spec_dec(n / 10).push(digit_of(n % 10))
    }
}

/// True when `t` is the canonical rendering of its own value:
/// digits only, no superfluous leading zero.
pub open spec fn is_canonical_dec(t: Seq<char>) -> bool {
    is_dec(t) && t == spec_dec(dec_val(t))
}

pub proof fn lemma_dec_val_push(t: Seq<char>, c: char)
    ensures
        dec_val(t.push(c)) == dec_val(t) * 10 + digit_val(c),
{
    assert(t.push(c).drop_last() =~= t);
    assert(t.push(c).last() == c);
}

pub proof fn lemma_dec_val_nonneg(t: Seq<char>)
    requires
        forall|i: int| 0 <= i < t.len() ==> is_digit(#[trigger] t[i]),
    ensures
        dec_val(t) >= 0,
    decreases t.len(),
{
    if t.len() > 0 {
        lemma_dec_val_nonneg(t.drop_last());
    }
}

/// Appending further digits can only increase a digit run's value.
pub proof fn lemma_dec_val_take_le(t: Seq<char>, k: int)
    requires
        0 <= k <= t.len(),
        forall|i: int| 0 <= i < t.len() ==> is_digit(#[trigger] t[i]),
    ensures
        dec_val(t) >= dec_val(t.take(k)),
    decreases t.len() - k,
{
    lemma_dec_val_nonneg(t.take(k));
    if k < t.len() {
        assert(t.take(k + 1).drop_last() =~= t.take(k));
        assert(t.take(k + 1).last() == t[k]);
        assert(dec_val(t.take(k + 1)) == dec_val(t.take(k)) * 10 + digit_val(t[k]));
        lemma_dec_val_take_le(t, k + 1);
    } else {
        assert(t.take(k) =~= t);
    }
}

/// Digit characters and digit values are inverses below ten.
pub proof fn lemma_digit_of_val(d: int)
    requires
        0 <= d < 10,
    ensures
        is_digit(digit_of(d)),
        digit_val(digit_of(d)) == d,
{
    if d == 0 {
        assert('0' as u32 == 48);
    } else if d == 1 {
        assert('1' as u32 == 49);
    } else if d == 2 {
        assert('2' as u32 == 50);
    } else if d == 3 {
        assert('3' as u32 == 51);
    } else if d == 4 {
        assert('4' as u32 == 52);
    } else if d == 5 {
        assert('5' as u32 == 53);
    } else if d == 6 {
        assert('6' as u32 == 54);
    } else if d == 7 {
        assert('7' as u32 == 55);
    } else if d == 8 {
        assert('8' as u32 == 56);
    } else {
        assert('9' as u32 == 57);
    }
}

/// The canonical rendering consists of digits and evaluates back to its input.
pub proof fn lemma_spec_dec_val(n: int)
    requires
        n >= 0,
    ensures
        spec_dec(n).len() >= 1,
        forall|i: int| 0 <= i < spec_dec(n).len() ==> is_digit(#[trigger] spec_dec(n)[i]),
        dec_val(spec_dec(n)) == n,
    decreases n,
{
    if n < 10 {
        lemma_digit_of_val(n);
        assert(spec_dec(n) =~= seq![digit_of(n)]);
        assert(spec_dec(n).drop_last() =~= Seq::<char>::empty());
        assert(spec_dec(n).last() == digit_of(n));
        assert(dec_val(Seq::<char>::empty()) == 0);
        assert(dec_val(spec_dec(n)) == dec_val(spec_dec(n).drop_last()) * 10 + digit_val(
            spec_dec(n).last(),
        ));
    } else {
        lemma_spec_dec_val(n / 10);
        lemma_dec_val_push(spec_dec(n / 10), digit_of(n % 10));
        lemma_digit_of_val(n % 10);
    }
}

/// The canonical rendering is canonical.
pub proof fn lemma_spec_dec_canonical(n: int)
    requires
        n >= 0,
    ensures
        is_canonical_dec(spec_dec(n)),
{
    lemma_spec_dec_val(n);
}

/// Digit values and digit characters are inverses below ten, read the
/// other way.
pub proof fn lemma_digit_of_digit_val(c: char)
    requires
        is_digit(c),
    ensures
        digit_of(digit_val(c)) == c,
{
    lemma_digit_of_val(0);
    lemma_digit_of_val(1);
    lemma_digit_of_val(2);
    lemma_digit_of_val(3);
    lemma_digit_of_val(4);
    lemma_digit_of_val(5);
    lemma_digit_of_val(6);
    lemma_digit_of_val(7);
    lemma_digit_of_val(8);
    lemma_digit_of_val(9);
    assert(digit_val(c) == c as u32 - 48);
    assert(c as u32 >= 48 && c as u32 <= 57);
}

/// The canonical rendering of ten or more opens with a nonzero digit
/// and has at least two of them.
pub proof fn lemma_spec_dec_no_leading_zero(n: int)
    requires
        n >= 1,
    ensures
        spec_dec(n)[0] != '0',
        n >= 10 ==> spec_dec(n).len() >= 2,
    decreases n,
{
    if n < 10 {
        lemma_digit_of_val(n);
        lemma_digit_of_val(0);
    } else {
        lemma_spec_dec_no_leading_zero(n / 10);
        lemma_spec_dec_val(n / 10);
        assert(spec_dec(n) == spec_dec(n / 10).push(digit_of(n % 10)));
        assert(spec_dec(n)[0] == spec_dec(n / 10)[0]);
    }
}

/// A digit run is canonical exactly when it carries no superfluous
/// leading zero: decimal renderings without one are unique.
pub proof fn lemma_canonical_iff_no_leading_zero(t: Seq<char>)
    requires
        is_dec(t),
    ensures
        is_canonical_dec(t) <==> (t.len() == 1 || t[0] != '0'),
    decreases t.len(),
{
    lemma_dec_val_nonneg(t);
    let v = dec_val(t);
    if t.len() == 1 {
        lemma_digit_of_digit_val(t[0]);
        assert(dec_val(t.drop_last()) == 0);
        assert(v == digit_val(t[0]));
        assert(spec_dec(v) =~= t);
    } else if t[0] == '0' {
        // Not canonical: the canonical rendering of its value either is
        // shorter or opens with a nonzero digit.
        if v == 0 {
            assert(spec_dec(v).len() == 1);
            assert(t != spec_dec(v));
        } else {
            lemma_spec_dec_no_leading_zero(v);
            assert(t != spec_dec(v));
        }
    } else {
        // No leading zero: rebuild the canonical rendering digit by
        // digit from the front.
        let tp = t.drop_last();
        let c = t.last();
        assert(forall|i: int| 0 <= i < tp.len() ==> tp[i] == t[i]);
        lemma_canonical_iff_no_leading_zero(tp);
        lemma_dec_val_nonneg(tp);
        let vp = dec_val(tp);
        assert(is_digit(t[0]));
        assert(tp[0] == t[0]);
        assert(digit_val(tp[0]) >= 1) by {
            assert(is_digit(tp[0]));
            lemma_digit_of_digit_val(tp[0]);
            if digit_val(tp[0]) == 0 {
                assert(tp[0] == digit_of(0));
                assert(false);
            }
        }
        assert(dec_val(tp.take(1)) == digit_val(tp[0])) by {
            assert(tp.take(1).drop_last() =~= Seq::<char>::empty());
            assert(tp.take(1).last() == tp[0]);
            assert(dec_val(Seq::<char>::empty()) == 0);
            assert(dec_val(tp.take(1)) == dec_val(tp.take(1).drop_last()) * 10 + digit_val(
                tp.take(1).last(),
            ));
        }
        lemma_dec_val_take_le(tp, 1);
        assert(vp >= 1);
        assert(v == vp * 10 + digit_val(c));
        assert(v >= 10) by (nonlinear_arith)
            requires
                vp >= 1,
                digit_val(c) >= 0,
                v == vp * 10 + digit_val(c),
        ;
        assert(v / 10 == vp && v % 10 == digit_val(c)) by (nonlinear_arith)
            requires
                v == vp * 10 + digit_val(c),
                0 <= digit_val(c) < 10,
                vp >= 0,
        ;
        assert(spec_dec(v) == spec_dec(vp).push(digit_of(digit_val(c))));
        lemma_digit_of_digit_val(c);
        assert(tp == spec_dec(vp));
        assert(spec_dec(v) =~= t);
    }
}

/// One digit character as a string slice.
fn digit_str(d: u64) -> (r: &'static str)
    requires
        d < 10,
    ensures
        r@ =~= seq![digit_of(d as int)],
{
    if d == 0 { proof { reveal_strlit("0"); } "0" }
    else if d == 1 { proof { reveal_strlit("1"); } "1" }
    else if d == 2 { proof { reveal_strlit("2"); } "2" }
    else if d == 3 { proof { reveal_strlit("3"); } "3" }
    else if d == 4 { proof { reveal_strlit("4"); } "4" }
    else if d == 5 { proof { reveal_strlit("5"); } "5" }
    else if d == 6 { proof { reveal_strlit("6"); } "6" }
    else if d == 7 { proof { reveal_strlit("7"); } "7" }
    else if d == 8 { proof { reveal_strlit("8"); } "8" }
    else { proof { reveal_strlit("9"); } "9" }
}

/// Render an unsigned integer in decimal.
pub fn u64_to_dec(n: u64) -> (r: String)
    ensures
        r@ == spec_dec(n as int),
    decreases n,
{
    if n < 10 {
        let r = digit_str(n).to_owned();
        proof {
            assert(r@ =~= spec_dec(n as int));
        }
        r
    } else {
        let mut r = u64_to_dec(n / 10);
        r.append(digit_str(n % 10));
        proof {
            assert(r@ =~= spec_dec(n as int));
        }
        r
    }
}

/// Parse a run of decimal digits as an unsigned integer, refusing the
/// empty string, any non-digit, and any value above `max`.
pub fn parse_dec_bounded(s: &str, max: u64) -> (r: Option<u64>)
    requires
        max <= 0xFFFF_FFFF,
    ensures
        r is Some <==> is_dec(s@) && dec_val(s@) <= max,
        r matches Some(v) ==> v as int == dec_val(s@),
{
    let n = s.unicode_len();
    if n == 0 {
        return None;
    }
    let mut acc: u64 = 0;
    let mut i: usize = 0;
    while i < n
        invariant
            0 <= i <= n,
            n == s@.len(),
            n > 0,
            max <= 0xFFFF_FFFF,
            forall|j: int| 0 <= j < i ==> is_digit(#[trigger] s@[j]),
            acc as int == dec_val(s@.take(i as int)),
            acc <= max,
        decreases n - i,
    {
        let c = s.get_char(i);
        let u = c as u32;
        if u < 48 || u > 57 {
            return None;
        }
        let d = (u - 48) as u64;
        let t = acc * 10 + d;
        proof {
            assert(s@.take(i + 1).drop_last() =~= s@.take(i as int));
            assert(s@.take(i + 1).last() == s@[i as int]);
        }
        if t > max {
            proof {
                if is_dec(s@) {
                    lemma_dec_val_take_le(s@, i + 1);
                }
            }
            return None;
        }
        acc = t;
        i += 1;
    }
    proof {
        assert(s@.take(n as int) =~= s@);
    }
    Some(acc)
}

/// Split a character sequence on a separator; empty fields are kept,
/// and the result always has one more field than there are separators.
pub open spec fn split_chars(s: Seq<char>, sep: char) -> Seq<Seq<char>>
    decreases s.len(),
{
    if s.len() == 0 {
        seq![Seq::<char>::empty()]
    } else if s[0] == sep {
        seq![Seq::<char>::empty()] + split_chars(s.drop_first(), sep)
    } else {
        let rest = split_chars(s.drop_first(), sep);
        seq![seq![s[0]] + rest[0]] + rest.drop_first()
    }
}

pub proof fn lemma_split_chars_len(s: Seq<char>, sep: char)
    ensures
        split_chars(s, sep).len() >= 1,
    decreases s.len(),
{
    if s.len() > 0 {
        lemma_split_chars_len(s.drop_first(), sep);
    }
}

/// A string without the separator splits into just itself.
pub proof fn lemma_split_chars_no_sep(s: Seq<char>, sep: char)
    requires
        forall|j: int| 0 <= j < s.len() ==> s[j] != sep,
    ensures
        split_chars(s, sep) == seq![s],
    decreases s.len(),
{
    if s.len() == 0 {
        assert(split_chars(s, sep) =~~= seq![s]);
    } else {
        lemma_split_chars_no_sep(s.drop_first(), sep);
        lemma_split_chars_len(s.drop_first(), sep);
        assert(split_chars(s, sep) =~~= seq![s]);
    }
}

/// Splitting at the first separator peels off the first field.
pub proof fn lemma_split_chars_first_sep(s: Seq<char>, sep: char, i: int)
    requires
        0 <= i < s.len(),
        s[i] == sep,
        forall|j: int| 0 <= j < i ==> s[j] != sep,
    ensures
        split_chars(s, sep) == seq![s.take(i)] + split_chars(s.skip(i + 1), sep),
    decreases i,
{
    if i == 0 {
        assert(s.take(0) =~= Seq::<char>::empty());
        assert(s.skip(1) =~= s.drop_first());
        assert(split_chars(s, sep) =~~= seq![s.take(0)] + split_chars(s.skip(1), sep));
    } else {
        let d = s.drop_first();
        lemma_split_chars_first_sep(d, sep, i - 1);
        lemma_split_chars_len(d.skip(i), sep);
        assert(d.take(i - 1) =~= s.take(i).drop_first());
        assert(d.skip(i) =~= s.skip(i + 1));
        assert(seq![s[0]] + split_chars(d, sep)[0] =~= s.take(i));
        assert(split_chars(s, sep) =~~= seq![s.take(i)] + split_chars(s.skip(i + 1), sep));
    }
}

/// Character-wise equality of two string slices.
pub fn str_eq(a: &str, b: &str) -> (r: bool)
    ensures
        r == (a@ == b@),
{
    let n = a.unicode_len();
    let m = b.unicode_len();
    if n != m {
        return false;
    }
    let mut i: usize = 0;
    while i < n
        invariant
            0 <= i <= n,
            n == a@.len(),
            n == b@.len(),
            forall|j: int| 0 <= j < i ==> a@[j] == b@[j],
        decreases n - i,
    {
        if a.get_char(i) != b.get_char(i) {
            return false;
        }
        i += 1;
    }
    proof {
        assert(a@ =~= b@);
    }
    true
}

/// Join fields with a separator; the inverse of `split_chars`.
pub open spec fn join_chars(parts: Seq<Seq<char>>, sep: char) -> Seq<char>
    decreases parts.len(),
{
    if parts.len() == 0 {
        Seq::<char>::empty()
    } else if parts.len() == 1 {
        parts[0]
    } else {
        parts[0] + seq![sep] + join_chars(parts.drop_first(), sep)
    }
}

/// Joining the fields of a split gives the original string back.
pub proof fn lemma_join_split_chars(s: Seq<char>, sep: char)
    ensures
        join_chars(split_chars(s, sep), sep) == s,
    decreases s.len(),
{
    if s.len() == 0 {
    } else if s[0] == sep {
        let d = s.drop_first();
        lemma_join_split_chars(d, sep);
        lemma_split_chars_len(d, sep);
        let parts = split_chars(s, sep);
        assert(parts.drop_first() =~~= split_chars(d, sep));
        assert(parts[0] + seq![sep] + join_chars(parts.drop_first(), sep) =~= s);
    } else {
        let d = s.drop_first();
        let rest = split_chars(d, sep);
        lemma_join_split_chars(d, sep);
        lemma_split_chars_len(d, sep);
        let parts = split_chars(s, sep);
        if rest.len() == 1 {
            assert(parts =~~= seq![seq![s[0]] + rest[0]]);
            assert(join_chars(rest, sep) == rest[0]);
            assert(seq![s[0]] + rest[0] =~= s);
        } else {
            assert(parts.drop_first() =~~= rest.drop_first());
            assert(join_chars(parts, sep) == parts[0] + seq![sep] + join_chars(
                rest.drop_first(),
                sep,
            ));
            assert(join_chars(rest, sep) == rest[0] + seq![sep] + join_chars(
                rest.drop_first(),
                sep,
            ));
            assert(parts[0] + seq![sep] + join_chars(rest.drop_first(), sep) =~= seq![s[0]] + (
            rest[0] + seq![sep] + join_chars(rest.drop_first(), sep)));
            assert(seq![s[0]] + join_chars(rest, sep) =~= s);
        }
    }
}

/// Split a string slice on a separator character, keeping empty fields,
/// exactly as `split_chars` describes.
pub fn split_str(s: &str, sep: char) -> (r: Vec<String>)
    ensures
        r.deep_view() == split_chars(s@, sep),
{
    let n = s.unicode_len();
    let mut r: Vec<String> = Vec::new();
    let mut start: usize = 0;
    let mut i: usize = 0;
    proof {
        assert(r.deep_view() =~~= Seq::<Seq<char>>::empty());
        assert(s@.skip(0) =~= s@);
        assert(r.deep_view() + split_chars(s@, sep) =~~= split_chars(s@, sep));
    }
    while i < n
        invariant
            0 <= start <= i <= n,
            n == s@.len(),
            forall|j: int| start <= j < i ==> s@[j] != sep,
            split_chars(s@, sep) == r.deep_view() + split_chars(s@.skip(start as int), sep),
        decreases n - i,
    {
        let c = s.get_char(i);
        if c == sep {
            let field = s.substring_char(start, i).to_owned();
            let ghost prev = r.deep_view();
            proof {
                let tail = s@.skip(start as int);
                assert(forall|j: int| 0 <= j < i - start ==> tail[j] != sep);
                assert(tail[i - start] == sep);
                lemma_split_chars_first_sep(tail, sep, i - start);
                assert(tail.take(i - start) =~= s@.subrange(start as int, i as int));
                assert(tail.skip(i - start + 1) =~= s@.skip(i + 1));
            }
            r.push(field);
            proof {
                assert(r.deep_view() =~~= prev.push(field@));
                assert(prev.push(field@) + split_chars(s@.skip(i + 1), sep) =~~= prev + (seq![
                    field@,
                ] + split_chars(s@.skip(i + 1), sep)));
            }
            start = i + 1;
        }
        i += 1;
    }
    let field = s.substring_char(start, n).to_owned();
    let ghost prev = r.deep_view();
    proof {
        let tail = s@.skip(start as int);
        assert(forall|j: int| 0 <= j < tail.len() ==> tail[j] != sep);
        lemma_split_chars_no_sep(tail, sep);
        assert(tail =~= s@.subrange(start as int, n as int));
    }
    r.push(field);
    proof {
        assert(r.deep_view() =~~= prev.push(field@));
        assert(prev.push(field@) =~~= prev + seq![field@]);
        assert(r.deep_view() =~~= split_chars(s@, sep));
    }
    r
}

} // verus!
