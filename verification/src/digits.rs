//! Decimal digit strings: how an unsigned number is written and read in
//! the persisted form. The writing is canonical (no sign, no leading
//! zero, a single `0` for zero), and reading accepts exactly that.

use vstd::prelude::*;
use vstd::string::StrSliceExecFns;
use vstd::string::StringExecFns;

verus! {

pub open spec fn is_digit(c: char) -> bool {
    '0' <= c <= '9'
}

/// The numeric value of a digit character (0 for anything else).
pub open spec fn digit_val(c: char) -> nat {
    if is_digit(c) {
        (c as nat - '0' as nat) as nat
    } else {
        0
    }
}

/// The digit character for a value below ten.
pub open spec fn digit_char(d: nat) -> char {
    if d == 0 {
        '0'
    } else if d == 1 {
        '1'
    } else if d == 2 {
        '2'
    } else if d == 3 {
        '3'
    } else if d == 4 {
        '4'
    } else if d == 5 {
        '5'
    } else if d == 6 {
        '6'
    } else if d == 7 {
        '7'
    } else if d == 8 {
        '8'
    } else {
        '9'
    }
}

/// The canonical decimal writing of `n`.
pub open spec fn dec_digits(n: nat) -> Seq<char>
    decreases n,
{
    if n < 10 {
        seq![digit_char(n)]
    } else {
        dec_digits(n / 10) + seq![digit_char(n % 10)]
    }
}

/// The number a digit string denotes.
pub open spec fn digits_value(s: Seq<char>) -> nat
    decreases s.len(),
{
    if s.len() == 0 {
        0
    } else {
        digits_value(s.drop_last()) * 10 + digit_val(s.last())
    }
}

/// Where the digit run beginning at `i` ends: the first position at or
/// after `i` that is past the end or holds a non-digit.
pub open spec fn digit_run_end(s: Seq<char>, i: int) -> int
    decreases s.len() - i,
{
    if 0 <= i < s.len() && is_digit(s[i]) {
        digit_run_end(s, i + 1)
    } else {
        i
    }
}

/// The text at `i` is a canonically written number that fits in `u64`:
/// it starts with a digit, a leading zero stands alone, and the whole
/// run's value is in range.
pub open spec fn valid_u64_at(s: Seq<char>, i: int) -> bool {
    &&& 0 <= i < s.len()
    &&& is_digit(s[i])
    &&& (s[i] == '0' ==> digit_run_end(s, i) == i + 1)
    &&& digits_value(s.subrange(i, digit_run_end(s, i))) <= u64::MAX
}

pub proof fn lemma_dec_digits_wf(n: nat)
    ensures
        dec_digits(n).len() >= 1,
        forall|k: int| 0 <= k < dec_digits(n).len() ==> is_digit(#[trigger] dec_digits(n)[k]),
        dec_digits(n)[0] == '0' ==> n == 0,
    decreases n,
{
    if n >= 10 {
        lemma_dec_digits_wf(n / 10);
    }
}

pub proof fn lemma_dec_digits_value(n: nat)
    ensures
        digits_value(dec_digits(n)) == n,
    decreases n,
{
    if n < 10 {
        assert(dec_digits(n).drop_last() =~= Seq::<char>::empty());
        assert(digits_value(Seq::<char>::empty()) == 0);
        assert(digit_val(digit_char(n)) == n);
    } else {
        lemma_dec_digits_value(n / 10);
        assert(dec_digits(n).drop_last() =~= dec_digits(n / 10));
        assert(digit_val(digit_char(n % 10)) == n % 10);
    }
}

/// Extending a run to the right never lowers its value.
pub proof fn lemma_digits_value_monotone(s: Seq<char>, i: int, a: int, b: int)
    requires
        0 <= i <= a <= b <= s.len(),
    ensures
        digits_value(s.subrange(i, a)) <= digits_value(s.subrange(i, b)),
    decreases b - a,
{
    if a < b {
        lemma_digits_value_monotone(s, i, a, b - 1);
        assert(s.subrange(i, b).drop_last() =~= s.subrange(i, b - 1));
        let v = digits_value(s.subrange(i, b - 1));
        assert(v <= v * 10) by (nonlinear_arith);
    }
}

pub proof fn lemma_digit_run_end_bounds(s: Seq<char>, i: int)
    requires
        0 <= i <= s.len(),
    ensures
        i <= digit_run_end(s, i) <= s.len(),
    decreases s.len() - i,
{
    if i < s.len() && is_digit(s[i]) {
        lemma_digit_run_end_bounds(s, i + 1);
    }
}

pub proof fn lemma_digit_run_digits(s: Seq<char>, i: int, k: int)
    requires
        0 <= i <= s.len(),
        i <= k < digit_run_end(s, i),
    ensures
        is_digit(s[k]),
    decreases s.len() - i,
{
    lemma_digit_run_end_bounds(s, i);
    if k > i {
        lemma_digit_run_digits(s, i + 1, k);
    }
}

/// A digit character is recovered from its value.
proof fn lemma_digit_char_roundtrip(c: char)
    requires
        is_digit(c),
    ensures
        digit_char(digit_val(c)) == c,
{
    if c == '0' {
    } else if c == '1' {
    } else if c == '2' {
    } else if c == '3' {
    } else if c == '4' {
    } else if c == '5' {
    } else if c == '6' {
    } else if c == '7' {
    } else if c == '8' {
    } else {
        assert(c == '9');
    }
}

/// A digit run that does not start with zero denotes a positive number.
proof fn lemma_digits_value_pos(ds: Seq<char>)
    requires
        ds.len() >= 1,
        forall|k: int| 0 <= k < ds.len() ==> is_digit(#[trigger] ds[k]),
        ds[0] != '0',
    ensures
        digits_value(ds) >= 1,
        ds.len() >= 2 ==> digits_value(ds) >= 10,
    decreases ds.len(),
{
    if ds.len() == 1 {
        assert(digits_value(ds.drop_last()) == 0);
    } else {
        lemma_digits_value_pos(ds.drop_last());
        let v = digits_value(ds.drop_last());
        assert(v * 10 >= 10) by (nonlinear_arith)
            requires
                v >= 1,
        ;
    }
}

/// A digit run without a leading zero is the canonical writing of its
/// own value.
pub proof fn lemma_digits_canonical(ds: Seq<char>)
    requires
        ds.len() >= 1,
        forall|k: int| 0 <= k < ds.len() ==> is_digit(#[trigger] ds[k]),
        ds[0] == '0' ==> ds.len() == 1,
    ensures
        ds == dec_digits(digits_value(ds)),
    decreases ds.len(),
{
    if ds.len() == 1 {
        assert(digits_value(ds.drop_last()) == 0);
        lemma_digit_char_roundtrip(ds[0]);
        assert(ds =~= dec_digits(digits_value(ds)));
    } else {
        let head = ds.drop_last();
        let v = digits_value(ds);
        let hv = digits_value(head);
        let d = digit_val(ds.last());
        lemma_digits_value_pos(head);
        assert(v == hv * 10 + d);
        assert(v / 10 == hv && v % 10 == d) by (nonlinear_arith)
            requires
                v == hv * 10 + d,
                0 <= d < 10,
        ;
        assert(v >= 10) by (nonlinear_arith)
            requires
                v == hv * 10 + d,
                hv >= 1,
                d >= 0,
        ;
        lemma_digits_canonical(head);
        lemma_digit_char_roundtrip(ds.last());
        assert(ds =~= dec_digits(v / 10) + seq![digit_char(v % 10)]);
    }
}

/// Where a run of digits is followed by a non-digit (or the end), the
/// run end is exactly there.
pub proof fn lemma_digit_run_of(s: Seq<char>, p: int, q: int)
    requires
        0 <= p <= q <= s.len(),
        forall|k: int| p <= k < q ==> is_digit(#[trigger] s[k]),
        q == s.len() || !is_digit(s[q]),
    ensures
        digit_run_end(s, p) == q,
    decreases q - p,
{
    if p < q {
        lemma_digit_run_of(s, p + 1, q);
    }
}

/// Exec mirror of `is_digit`.
fn is_digit_exec(c: char) -> (r: bool)
    ensures
        r == is_digit(c),
{
    '0' <= c && c <= '9'
}

/// Exec mirror of `digit_val`.
fn digit_val_exec(c: char) -> (r: u64)
    requires
        is_digit(c),
    ensures
        r == digit_val(c),
{
    if c == '0' {
        0
    } else if c == '1' {
        1
    } else if c == '2' {
        2
    } else if c == '3' {
        3
    } else if c == '4' {
        4
    } else if c == '5' {
        5
    } else if c == '6' {
        6
    } else if c == '7' {
        7
    } else if c == '8' {
        8
    } else {
        9
    }
}

/// The digit character for a value below ten, as a string slice.
fn digit_str(d: u64) -> (r: &'static str)
    requires
        d < 10,
    ensures
        r@ == seq![digit_char(d as nat)],
{
    if d == 0 {
        proof {
            reveal_strlit("0");
            assert("0"@ =~= seq![digit_char(0)]);
        }
        "0"
    } else if d == 1 {
        proof {
            reveal_strlit("1");
            assert("1"@ =~= seq![digit_char(1)]);
        }
        "1"
    } else if d == 2 {
        proof {
            reveal_strlit("2");
            assert("2"@ =~= seq![digit_char(2)]);
        }
        "2"
    } else if d == 3 {
        proof {
            reveal_strlit("3");
            assert("3"@ =~= seq![digit_char(3)]);
        }
        "3"
    } else if d == 4 {
        proof {
            reveal_strlit("4");
            assert("4"@ =~= seq![digit_char(4)]);
        }
        "4"
    } else if d == 5 {
        proof {
            reveal_strlit("5");
            assert("5"@ =~= seq![digit_char(5)]);
        }
        "5"
    } else if d == 6 {
        proof {
            reveal_strlit("6");
            assert("6"@ =~= seq![digit_char(6)]);
        }
        "6"
    } else if d == 7 {
        proof {
            reveal_strlit("7");
            assert("7"@ =~= seq![digit_char(7)]);
        }
        "7"
    } else if d == 8 {
        proof {
            reveal_strlit("8");
            assert("8"@ =~= seq![digit_char(8)]);
        }
        "8"
    } else {
        proof {
            reveal_strlit("9");
            assert("9"@ =~= seq![digit_char(9)]);
        }
        "9"
    }
}

/// Appends the canonical decimal writing of `n`.
pub fn append_u64(out: &mut String, n: u64)
    ensures
        final(out)@ == old(out)@ + dec_digits(n as nat),
    decreases n,
{
    if n >= 10 {
        append_u64(out, n / 10);
        out.append(digit_str(n % 10));
        proof {
            assert(out@ =~= old(out)@ + dec_digits(n as nat));
        }
    } else {
        out.append(digit_str(n));
        proof {
            assert(out@ =~= old(out)@ + dec_digits(n as nat));
        }
    }
}

/// Reads a canonically written `u64` beginning at `i`; `None` exactly
/// where no such number stands there. On success the returned position
/// is the end of the digit run and the value is the run's.
pub fn parse_u64(s: &str, i: usize) -> (r: Option<(u64, usize)>)
    requires
        i <= s@.len(),
    ensures
        r is Some <==> valid_u64_at(s@, i as int),
        match r {
            Some((n, j)) => {
                &&& i < j <= s@.len()
                &&& j == digit_run_end(s@, i as int)
                &&& n == digits_value(s@.subrange(i as int, j as int))
            },
            None => true,
        },
{
    let slen = s.unicode_len();
    if i >= slen {
        return None;
    }
    let c0 = s.get_char(i);
    if !is_digit_exec(c0) {
        return None;
    }
    proof {
        lemma_digit_run_end_bounds(s@, i + 1);
    }
    if c0 == '0' {
        if i + 1 < slen && is_digit_exec(s.get_char(i + 1)) {
            proof {
                lemma_digit_run_end_bounds(s@, i + 2);
            }
            return None;
        }
        proof {
            assert(digit_run_end(s@, i + 1) == i + 1);
            assert(digit_run_end(s@, i as int) == i + 1);
            assert(s@.subrange(i as int, i + 1).drop_last() =~= Seq::<char>::empty());
            assert(s@.subrange(i as int, i + 1).last() == s@[i as int]);
            assert(digits_value(Seq::<char>::empty()) == 0);
            assert(digits_value(s@.subrange(i as int, i + 1)) == 0);
        }
        return Some((0, i + 1));
    }
    let mut j = i;
    let mut acc: u64 = 0;
    proof {
        assert(s@.subrange(i as int, i as int) =~= Seq::<char>::empty());
        assert(digits_value(Seq::<char>::empty()) == 0);
    }
    while j < slen && is_digit_exec(s.get_char(j))
        invariant
            slen == s@.len(),
            i <= j <= slen,
            i < s@.len() && is_digit(s@[i as int]) && s@[i as int] != '0',
            acc == digits_value(s@.subrange(i as int, j as int)),
            digit_run_end(s@, i as int) == digit_run_end(s@, j as int),
        decreases slen - j,
    {
        let c = s.get_char(j);
        let d = digit_val_exec(c);
        let wide: u128 = (acc as u128) * 10 + (d as u128);
        proof {
            assert(s@.subrange(i as int, j + 1).drop_last() =~= s@.subrange(i as int, j as int));
        }
        if wide > u64::MAX as u128 {
            proof {
                lemma_digit_run_end_bounds(s@, j + 1);
                lemma_digits_value_monotone(
                    s@,
                    i as int,
                    j + 1,
                    digit_run_end(s@, i as int),
                );
            }
            return None;
        }
        acc = wide as u64;
        j = j + 1;
    }
    Some((acc, j))
}

} // verus!
