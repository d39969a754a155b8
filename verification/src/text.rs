//! Character and decimal-number machinery shared by the version and
//! constraint grammars: digit classification, the value of a digit run,
//! canonical decimal rendering, and the few string-building primitives
//! the formatters need.

use vstd::prelude::*;
use vstd::string::StrSliceExecFns;

verus! {

pub open spec fn is_digit(c: char) -> bool {
    c == '0' || c == '1' || c == '2' || c == '3' || c == '4' || c == '5' || c == '6' || c == '7'
        || c == '8' || c == '9'
}

pub open spec fn digit_val(c: char) -> nat {
    if c == '0' {
        0
    } else if c == '1' {
        1
    } else if c == '2' {
        2
    } else if c == '3' {
        3
    } else if c == '4' {
        4
    } else if c == '5' {
        5
    } else if c == '6' {
        6
    } else if c == '7' {
        7
    } else if c == '8' {
        8
    } else {
        9
    }
}

pub open spec fn digit_char(d: nat) -> char {
    if d == 0 {
        '0'
    } else if d == 1 {
        '1'
    } else if d == 2 {
        '2'
    } else if d == 3 {
        '3'
    } else if d == 4 {
        '4'
    } else if d == 5 {
        '5'
    } else if d == 6 {
        '6'
    } else if d == 7 {
        '7'
    } else if d == 8 {
        '8'
    } else {
        '9'
    }
}

pub open spec fn all_digits(s: Seq<char>) -> bool {
    forall|i: int| 0 <= i < s.len() ==> is_digit(#[trigger] s[i])
}

/// The numeric value of a digit sequence, most significant digit first.
pub open spec fn digits_val(s: Seq<char>) -> nat
    decreases s.len(),
{
    if s.len() == 0 {
        0
    } else {
        digits_val(s.drop_last()) * 10 + digit_val(s.last())
    }
}

/// Length of the maximal digit run in `s` starting at `i`.
pub open spec fn run_len(s: Seq<char>, i: int) -> nat
    decreases s.len() - i,
{
    if i < 0 || i >= s.len() || !is_digit(s[i]) {
        0
    } else {
        1 + run_len(s, i + 1)
    }
}

/// Canonical decimal rendering of a number, without leading zeros
/// (`dec_str(0)` is `"0"`).
pub open spec fn dec_str(n: nat) -> Seq<char>
    decreases n,
{
    if n < 10 {
        seq![digit_char(n)]
    } else {
        dec_str(n / 10) + seq![digit_char(n % 10)]
    }
}

pub proof fn lemma_digit_char_val(d: nat)
    requires
        d < 10,
    ensures
        is_digit(digit_char(d)),
        digit_val(digit_char(d)) == d,
{
}

pub proof fn lemma_dec_str_digits(n: nat)
    ensures
        dec_str(n).len() >= 1,
        all_digits(dec_str(n)),
        digits_val(dec_str(n)) == n,
    decreases n,
{
    if n < 10 {
        lemma_digit_char_val(n);
        assert(dec_str(n) =~= seq![digit_char(n)]);
        assert(dec_str(n).drop_last() =~= Seq::<char>::empty());
        assert(dec_str(n).last() == digit_char(n));
        assert(digits_val(Seq::<char>::empty()) == 0);
        assert(digits_val(dec_str(n)) == 0 * 10 + digit_val(digit_char(n)));
    } else {
        lemma_dec_str_digits(n / 10);
        lemma_digit_char_val(n % 10);
        let s = dec_str(n);
        assert(s =~= dec_str(n / 10) + seq![digit_char(n % 10)]);
        assert(s.drop_last() =~= dec_str(n / 10));
        assert(s.last() == digit_char(n % 10));
        assert(digits_val(s) == (n / 10) * 10 + n % 10);
        assert((n / 10) * 10 + n % 10 == n) by (nonlinear_arith);
    }
}

/// The maximal digit run starting at `i` is exactly `j - i` when every
/// character in `[i, j)` is a digit and `j` sits at the end or on a
/// non-digit.
pub proof fn lemma_run_len_exact(s: Seq<char>, i: int, j: int)
    requires
        0 <= i <= j <= s.len(),
        forall|k: int| i <= k < j ==> is_digit(#[trigger] s[k]),
        j == s.len() || !is_digit(s[j]),
    ensures
        run_len(s, i) == j - i,
    decreases j - i,
{
    if i == j {
    } else {
        lemma_run_len_exact(s, i + 1, j);
    }
}

/// A digit run's value only grows as the run extends.
pub proof fn lemma_digits_val_monotone(s: Seq<char>, t: Seq<char>)
    requires
        s.len() <= t.len(),
        forall|k: int| 0 <= k < s.len() ==> s[k] == t[k],
    ensures
        digits_val(s) <= digits_val(t),
    decreases t.len(),
{
    if s.len() == t.len() {
        assert(s =~= t);
    } else {
        lemma_digits_val_monotone(s, t.drop_last());
        assert(digits_val(t) == digits_val(t.drop_last()) * 10 + digit_val(t.last()));
        assert(digits_val(t.drop_last()) * 10 >= digits_val(t.drop_last())) by (nonlinear_arith);
    }
}

/// The characters of a string slice, in order.
pub fn str_to_chars(s: &str) -> (t: Vec<char>)
    ensures
        t@ == s@,
{
    let n = s.unicode_len();
    let mut t: Vec<char> = Vec::new();
    let mut j: usize = 0;
    while j < n
        invariant
            0 <= j <= n,
            n == s@.len(),
            t@ == s@.subrange(0, j as int),
        decreases n - j,
    {
        proof {
            assert(s@.subrange(0, j + 1) =~= s@.subrange(0, j as int) + seq![s@[j as int]]);
        }
        t.push(s.get_char(j));
        j += 1;
    }
    proof {
        assert(t@ =~= s@);
    }
    t
}

/// The characters of `t` between `a` and `b`.
pub fn sub_chars(t: &Vec<char>, a: usize, b: usize) -> (r: Vec<char>)
    requires
        a <= b <= t@.len(),
    ensures
        r@ == t@.subrange(a as int, b as int),
{
    let mut r: Vec<char> = Vec::new();
    let mut j = a;
    while j < b
        invariant
            a <= j <= b <= t@.len(),
            r@ == t@.subrange(a as int, j as int),
        decreases b - j,
    {
        proof {
            assert(t@.subrange(a as int, j + 1) =~= t@.subrange(a as int, j as int) + seq![
                t@[j as int],
            ]);
        }
        r.push(t[j]);
        j += 1;
    }
    r
}

/// Relies on `String::push`: appends the character at the end.
#[verifier::external_body]
pub fn push_char(s: &mut String, c: char)
    ensures
        final(s)@ == old(s)@ + seq![c],
{
    s.push(c)
}

/// Relies on `String`'s `FromIterator<char>`: the collected string holds
/// exactly the characters of the vector, in order.
#[verifier::external_body]
pub fn chars_to_string(v: &Vec<char>) -> (s: String)
    ensures
        s@ == v@,
{
    v.iter().collect()
}

/// Appends the canonical decimal rendering of `n`.
pub fn push_dec(n: u32, out: &mut String)
    ensures
        final(out)@ == old(out)@ + dec_str(n as nat),
    decreases n,
{
    if n >= 10 {
        push_dec(n / 10, out);
    }
    let d = n % 10;
    let c = if d == 0 {
        '0'
    } else if d == 1 {
        '1'
    } else if d == 2 {
        '2'
    } else if d == 3 {
        '3'
    } else if d == 4 {
        '4'
    } else if d == 5 {
        '5'
    } else if d == 6 {
        '6'
    } else if d == 7 {
        '7'
    } else if d == 8 {
        '8'
    } else {
        '9'
    };
    assert(c == digit_char((n % 10) as nat));
    push_char(out, c);
    proof {
        if n < 10 {
            assert(dec_str(n as nat) =~= seq![digit_char(n as nat)]);
            assert(n % 10 == n);
        } else {
            assert(dec_str(n as nat) =~= dec_str((n / 10) as nat) + seq![
                digit_char((n % 10) as nat),
            ]);
            assert(final(out)@ =~= old(out)@ + dec_str(n as nat));
        }
    }
}

pub fn is_digit_exec(c: char) -> (r: bool)
    ensures
        r == is_digit(c),
{
    c == '0' || c == '1' || c == '2' || c == '3' || c == '4' || c == '5' || c == '6' || c == '7'
        || c == '8' || c == '9'
}

/// Length of the maximal digit run in `t` starting at `i`.
pub fn run_len_exec(t: &Vec<char>, i: usize) -> (l: usize)
    requires
        i <= t@.len(),
    ensures
        i + l <= t@.len(),
        l == run_len(t@, i as int),
        forall|k: int| i <= k < i + l ==> is_digit(#[trigger] t@[k]),
{
    let mut j = i;
    while j < t.len() && is_digit_exec(t[j])
        invariant
            i <= j <= t@.len(),
            forall|k: int| i <= k < j ==> is_digit(#[trigger] t@[k]),
        decreases t@.len() - j,
    {
        j += 1;
    }
    proof {
        lemma_run_len_exact(t@, i as int, j as int);
    }
    j - i
}

/// The value of the digit run `t[i .. i + l]`, or `None` when it exceeds
/// the unsigned 32-bit range.
pub fn parse_digits(t: &Vec<char>, i: usize, l: usize) -> (r: Option<u32>)
    requires
        i + l <= t@.len(),
        forall|k: int| i <= k < i + l ==> is_digit(#[trigger] t@[k]),
    ensures
        r is Some <==> digits_val(t@.subrange(i as int, (i + l) as int)) <= u32::MAX,
        r matches Some(n) ==> n == digits_val(t@.subrange(i as int, (i + l) as int)),
{
    let len = t.len();
    assert(i + l <= len);
    let end = i + l;
    let mut acc: u32 = 0;
    let mut j = i;
    while j < end
        invariant
            end == i + l,
            i <= j <= i + l,
            i + l <= t@.len(),
            forall|k: int| i <= k < i + l ==> is_digit(#[trigger] t@[k]),
            acc == digits_val(t@.subrange(i as int, j as int)),
        decreases i + l - j,
    {
        let c = t[j];
        let d: u32 = if c == '0' {
            0
        } else if c == '1' {
            1
        } else if c == '2' {
            2
        } else if c == '3' {
            3
        } else if c == '4' {
            4
        } else if c == '5' {
            5
        } else if c == '6' {
            6
        } else if c == '7' {
            7
        } else if c == '8' {
            8
        } else {
            9
        };
        assert(d == digit_val(t@[j as int]));
        let step = match acc.checked_mul(10) {
            Some(m) => m.checked_add(d),
            None => None,
        };
        proof {
            let prefix = t@.subrange(i as int, j as int);
            let next = t@.subrange(i as int, j + 1);
            assert(next.drop_last() =~= prefix);
            assert(next.last() == t@[j as int]);
            assert(digits_val(next) == digits_val(prefix) * 10 + digit_val(t@[j as int]));
        }
        match step {
            Some(v) => {
                acc = v;
            },
            None => {
                proof {
                    let next = t@.subrange(i as int, j + 1);
                    let full = t@.subrange(i as int, (i + l) as int);
                    lemma_digits_val_monotone(next, full);
                }
                return None;
            },
        }
        j += 1;
    }
    Some(acc)
}

} // verus!
