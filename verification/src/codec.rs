//! Decimal text encoding of the numeric wire-format fields.

use vstd::prelude::*;

verus! {

/// The decimal digit character for `d` in `0..10`.
pub open spec fn digit_char(d: int) -> char {
    if d == 0 {
        '0'
    } else if d == 1 {
        '1'
    } else if d == 2 {
        '2'
    } else if d == 3 {
        '3'
    } else if d == 4 {
        '4'
    } else if d == 5 {
        '5'
    } else if d == 6 {
        '6'
    } else if d == 7 {
        '7'
    } else if d == 8 {
        '8'
    } else {
        '9'
    }
}

pub open spec fn is_digit_char(c: char) -> bool {
    matches!(c, '0'|'1'|'2'|'3'|'4'|'5'|'6'|'7'|'8'|'9')
}

/// The value of a decimal digit character; 0 for anything else.
pub open spec fn digit_of(c: char) -> int {
    match c {
        '0' => 0,
        '1' => 1,
        '2' => 2,
        '3' => 3,
        '4' => 4,
        '5' => 5,
        '6' => 6,
        '7' => 7,
        '8' => 8,
        '9' => 9,
        _ => 0,
    }
}

/// The canonical decimal digit string of `n`: no sign, no leading zeros
/// (except for `n == 0` itself).
pub open spec fn dec_digits(n: nat) -> Seq<char>
    decreases n,
{
    if n < 10 {
        seq![digit_char(n as int)]
    } else {
        dec_digits(n / 10) + seq![digit_char((n % 10) as int)]
    }
}

/// `s` is a nonempty string of decimal digits.
pub open spec fn str_is_uint(s: Seq<char>) -> bool {
    s.len() > 0 && forall|i: int| 0 <= i < s.len() ==> is_digit_char(#[trigger] s[i])
}

/// The value of `s` read as a decimal digit string.
pub open spec fn uint_val(s: Seq<char>) -> int
    decreases s.len(),
{
    if s.len() == 0 {
        0
    } else {
        uint_val(s.drop_last()) * 10 + digit_of(s.last())
    }
}

/// `s` is an optional minus sign followed by a nonempty digit string.
pub open spec fn str_is_int(s: Seq<char>) -> bool {
    str_is_uint(s) || (s.len() >= 2 && s[0] == '-' && str_is_uint(s.subrange(1, s.len() as int)))
}

/// The signed value of `s`.
pub open spec fn int_val(s: Seq<char>) -> int {
    if s.len() > 0 && s[0] == '-' {
        -uint_val(s.subrange(1, s.len() as int))
    } else {
        uint_val(s)
    }
}

/// The canonical decimal string of the integer `v`.
pub open spec fn int_str(v: int) -> Seq<char> {
    if v < 0 {
        seq!['-'] + dec_digits((-v) as nat)
    } else {
        dec_digits(v as nat)
    }
}

proof fn lemma_digit_round_trip(d: int)
    requires
        0 <= d < 10,
    ensures
        digit_of(digit_char(d)) == d,
        is_digit_char(digit_char(d)),
{
}

pub proof fn lemma_uint_val_nonneg(s: Seq<char>)
    ensures
        uint_val(s) >= 0,
    decreases s.len(),
{
    if s.len() > 0 {
        lemma_uint_val_nonneg(s.drop_last());
    }
}

/// Reading more digits never shrinks the value: the value of a prefix is
/// a lower bound for the value of the whole string.
pub proof fn lemma_uint_val_prefix_le(s: Seq<char>, i: int)
    requires
        0 <= i <= s.len(),
    ensures
        uint_val(s.subrange(0, i)) <= uint_val(s),
    decreases s.len() - i,
{
    if i < s.len() {
        let t = s.subrange(0, i + 1);
        assert(t.drop_last() =~= s.subrange(0, i));
        lemma_uint_val_nonneg(s.subrange(0, i));
        lemma_uint_val_prefix_le(s, i + 1);
        assert(uint_val(s.subrange(0, i)) <= uint_val(t));
    } else {
        assert(s.subrange(0, i) =~= s);
    }
}

/// The canonical digit string of `n` is made of digits only and reads
/// back as `n`.
pub proof fn lemma_dec_digits_val(n: nat)
    ensures
        str_is_uint(dec_digits(n)),
        uint_val(dec_digits(n)) == n,
        forall|i: int|
            0 <= i < dec_digits(n).len() ==> is_digit_char(#[trigger] dec_digits(n)[i]),
    decreases n,
{
    if n < 10 {
        lemma_digit_round_trip(n as int);
        assert(uint_val(dec_digits(n)) == n) by {
            assert(uint_val(Seq::<char>::empty()) == 0);
            assert(dec_digits(n) == seq![digit_char(n as int)]);
            assert(dec_digits(n).drop_last() =~= Seq::<char>::empty());
            assert(dec_digits(n).last() == digit_char(n as int));
        }
    } else {
        lemma_dec_digits_val(n / 10);
        lemma_digit_round_trip((n % 10) as int);
        let d = dec_digits(n / 10);
        let whole = dec_digits(n);
        assert(whole == d + seq![digit_char((n % 10) as int)]);
        assert(whole.drop_last() =~= d);
        assert(whole.last() == digit_char((n % 10) as int));
        assert(uint_val(whole) == uint_val(d) * 10 + (n % 10));
        assert(n / 10 * 10 + n % 10 == n) by {
            vstd::arithmetic::div_mod::lemma_fundamental_div_mod(n as int, 10);
        };
        assert forall|i: int| 0 <= i < whole.len() implies is_digit_char(#[trigger] whole[i]) by {
            if i < d.len() {
                assert(whole[i] == d[i]);
            }
        }
    }
}

/// The canonical string of `v` is a well-formed signed decimal that
/// reads back as `v`, and contains no field separator.
pub proof fn lemma_int_str_val(v: int)
    requires
        v > i64::MIN,
    ensures
        str_is_int(int_str(v)),
        int_val(int_str(v)) == v,
        forall|i: int| 0 <= i < int_str(v).len() ==> #[trigger] int_str(v)[i] != '|',
{
    if v < 0 {
        lemma_dec_digits_val((-v) as nat);
        let s = int_str(v);
        let d = dec_digits((-v) as nat);
        assert(s == seq!['-'] + d);
        assert(s[0] == '-');
        assert(s.subrange(1, s.len() as int) =~= d);
        assert(forall|i: int| 0 <= i < s.len() ==> #[trigger] s[i] != '|') by {
            assert(forall|i: int| 1 <= i < s.len() ==> s[i] == d[i - 1]);
        }
    } else {
        lemma_dec_digits_val(v as nat);
    }
}

fn digit_literal(d: u64) -> (r: &'static str)
    requires
        d < 10,
    ensures
        r@ == seq![digit_char(d as int)],
{
    proof {
        reveal_strlit("0");
        reveal_strlit("1");
        reveal_strlit("2");
        reveal_strlit("3");
        reveal_strlit("4");
        reveal_strlit("5");
        reveal_strlit("6");
        reveal_strlit("7");
        reveal_strlit("8");
        reveal_strlit("9");
    }
    match d {
        0 => "0",
        1 => "1",
        2 => "2",
        3 => "3",
        4 => "4",
        5 => "5",
        6 => "6",
        7 => "7",
        8 => "8",
        _ => "9",
    }
}

/// Renders `n` as its canonical decimal digit string.
pub fn format_unsigned(n: u64) -> (r: String)
    ensures
        r@ == dec_digits(n as nat),
    decreases n,
{
    if n < 10 {
        String::from_str(digit_literal(n))
    } else {
        let mut r = format_unsigned(n / 10);
        r.append(digit_literal(n % 10));
        r
    }
}

/// Renders `v` as its canonical decimal string, with a leading minus
/// sign when `v` is negative.
pub fn format_signed(v: i64) -> (r: String)
    requires
        v > i64::MIN,
    ensures
        r@ == int_str(v as int),
{
    if v < 0 {
        let mut r = String::from_str("-");
        proof {
            reveal_strlit("-");
        }
        let digits = format_unsigned((-v) as u64);
        r.append(digits.as_str());
        r
    } else {
        format_unsigned(v as u64)
    }
}

/// Parses a nonempty all-digit string whose value is at most `max`;
/// anything else is rejected.
pub fn parse_unsigned(s: &str, max: u64) -> (r: Option<u64>)
    requires
        max <= 10_000_000_000_000_000,
    ensures
        match r {
            Some(v) => str_is_uint(s@) && uint_val(s@) <= max && v == uint_val(s@),
            None => !(str_is_uint(s@) && uint_val(s@) <= max),
        },
{
    let n: usize = s.unicode_len();
    if n == 0 {
        return None;
    }
    let mut val: u64 = 0;
    let mut i: usize = 0;
    while i < n
        invariant
            0 <= i <= n,
            n == s@.len(),
            max <= 10_000_000_000_000_000,
            val <= max,
            val == uint_val(s@.subrange(0, i as int)),
            forall|j: int| 0 <= j < i ==> is_digit_char(#[trigger] s@[j]),
        decreases n - i,
    {
        let c = s.get_char(i);
        let d: u64 = match c {
            '0' => 0,
            '1' => 1,
            '2' => 2,
            '3' => 3,
            '4' => 4,
            '5' => 5,
            '6' => 6,
            '7' => 7,
            '8' => 8,
            '9' => 9,
            _ => {
                return None;
            },
        };
        proof {
            assert(s@.subrange(0, i as int + 1).drop_last() =~= s@.subrange(0, i as int));
            assert(s@.subrange(0, i as int + 1).last() == s@[i as int]);
        }
        let next: u64 = val * 10 + d;
        if next > max {
            proof {
                lemma_uint_val_prefix_le(s@, i as int + 1);
            }
            return None;
        }
        val = next;
        i = i + 1;
    }
    proof {
        assert(s@.subrange(0, n as int) =~= s@);
    }
    Some(val)
}

/// Parses an optionally minus-signed decimal string whose magnitude is
/// at most `bound`; anything else is rejected.
pub fn parse_signed(s: &str, bound: i64) -> (r: Option<i64>)
    requires
        0 <= bound <= 10_000_000_000_000_000,
    ensures
        match r {
            Some(v) => str_is_int(s@) && -bound <= int_val(s@) <= bound && v == int_val(s@),
            None => !(str_is_int(s@) && -bound <= int_val(s@) <= bound),
        },
{
    let n: usize = s.unicode_len();
    if n >= 1 && s.get_char(0) == '-' {
        let rest = s.substring_char(1, n);
        proof {
            assert(rest@ =~= s@.subrange(1, s@.len() as int));
        }
        match parse_unsigned(rest, bound as u64) {
            Some(m) => Some(-(m as i64)),
            None => None,
        }
    } else {
        match parse_unsigned(s, bound as u64) {
            Some(m) => Some(m as i64),
            None => None,
        }
    }
}

/// The pieces of `s` between occurrences of the `'|'` separator, in
/// order; a separator at either end or two in a row contribute empty
/// pieces, as splitting on a character does.
pub open spec fn split_chars(s: Seq<char>) -> Seq<Seq<char>>
    decreases s.len(),
{
    if s.len() == 0 {
        seq![Seq::<char>::empty()]
    } else if s.last() == '|' {
        split_chars(s.drop_last()) + seq![Seq::<char>::empty()]
    } else {
        let rest = split_chars(s.drop_last());
        rest.update(rest.len() - 1, rest.last().push(s.last()))
    }
}

pub proof fn lemma_split_nonempty(s: Seq<char>)
    ensures
        split_chars(s).len() >= 1,
    decreases s.len(),
{
    if s.len() > 0 {
        lemma_split_nonempty(s.drop_last());
    }
}

/// Appending separator-free text only extends the last piece.
pub proof fn lemma_split_no_sep_append(s: Seq<char>, t: Seq<char>)
    requires
        forall|i: int| 0 <= i < t.len() ==> #[trigger] t[i] != '|',
    ensures
        split_chars(s + t) == split_chars(s).update(
            split_chars(s).len() - 1,
            split_chars(s).last() + t,
        ),
    decreases t.len(),
{
    lemma_split_nonempty(s);
    let sp = split_chars(s);
    if t.len() == 0 {
        assert(s + t =~= s);
        assert(sp.last() + t =~= sp.last());
        assert(sp.update(sp.len() - 1, sp.last()) =~= sp);
    } else {
        let t0 = t.drop_last();
        lemma_split_no_sep_append(s, t0);
        let u = s + t;
        assert(u.drop_last() =~= s + t0);
        assert(u.last() == t.last());
        assert(t.last() != '|');
        let rest = split_chars(s + t0);
        assert(split_chars(u) == rest.update(rest.len() - 1, rest.last().push(u.last())));
        assert(rest == sp.update(sp.len() - 1, sp.last() + t0));
        assert(rest.len() == sp.len());
        assert(rest.last() == sp.last() + t0);
        assert((sp.last() + t0).push(t.last()) =~= sp.last() + t);
        assert(split_chars(u) =~= sp.update(sp.len() - 1, sp.last() + t));
    }
}

/// Appending a separator opens a fresh empty last piece.
pub proof fn lemma_split_sep_append(s: Seq<char>)
    ensures
        split_chars(s + seq!['|']) == split_chars(s) + seq![Seq::<char>::empty()],
{
    let u = s + seq!['|'];
    assert(u.len() == s.len() + 1);
    assert(u.drop_last() =~= s);
    assert(u.last() == '|');
}

/// A separator-free string is a single piece.
pub proof fn lemma_split_single(t: Seq<char>)
    requires
        forall|i: int| 0 <= i < t.len() ==> #[trigger] t[i] != '|',
    ensures
        split_chars(t) == seq![t],
{
    lemma_split_no_sep_append(Seq::<char>::empty(), t);
    assert(Seq::<char>::empty() + t =~= t);
    assert(split_chars(Seq::<char>::empty()) == seq![Seq::<char>::empty()]);
    assert(split_chars(Seq::<char>::empty()).last() =~= Seq::<char>::empty());
    assert(Seq::<char>::empty() + t =~= t);
    assert(split_chars(t) == seq![Seq::<char>::empty()].update(0, Seq::<char>::empty() + t));
    assert(seq![Seq::<char>::empty()].update(0, Seq::<char>::empty() + t) =~= seq![
        Seq::<char>::empty() + t,
    ]);
    assert(Seq::<char>::empty() + t == t);
    assert(seq![Seq::<char>::empty() + t] =~= seq![t]);
}

} // verus!
