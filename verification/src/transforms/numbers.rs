//! Footnote numbers: reading them from labels, writing them in decimal, and choosing the
//! next free one.
use vstd::prelude::*;

use crate::attribute_types::is_digit;
use crate::parser::grammar::digits_value;

verus! {

/// The decimal digits of `n`.
pub open spec fn decimal(n: nat) -> Seq<char>
    decreases n,
{
    if n < 10 {
        seq![digit_char(n)]
    } else {
        decimal(n / 10).push(digit_char(n % 10))
    }
}

/// The character of a decimal digit.
pub open spec fn digit_char(d: nat) -> char {
    if d == 0 { '0' } else if d == 1 { '1' } else if d == 2 { '2' } else if d == 3 { '3' }
    else if d == 4 { '4' } else if d == 5 { '5' } else if d == 6 { '6' } else if d == 7 { '7' }
    else if d == 8 { '8' } else { '9' }
}

fn digit_char_exec(d: usize) -> (c: char)
    requires
        d < 10,
    ensures
        c == digit_char(d as nat),
{
    if d == 0 { '0' } else if d == 1 { '1' } else if d == 2 { '2' } else if d == 3 { '3' }
    else if d == 4 { '4' } else if d == 5 { '5' } else if d == 6 { '6' } else if d == 7 { '7' }
    else if d == 8 { '8' } else { '9' }
}

/// Writes `n` in decimal, as `to_string` does.
pub fn decimal_exec(n: usize) -> (r: Vec<char>)
    ensures
        r@ == decimal(n as nat),
    decreases n,
{
    if n < 10 {
        let mut r: Vec<char> = Vec::new();
        r.push(digit_char_exec(n));
        assert(r@ =~= seq![digit_char(n as nat)]);
        r
    } else {
        let mut r = decimal_exec(n / 10);
        r.push(digit_char_exec(n % 10));
        r
    }
}

/// `pre` followed by `n` in decimal.
pub fn prefixed_decimal(pre: &[char], n: usize) -> (r: String)
    ensures
        r@ == pre@ + decimal(n as nat),
{
    let mut v: Vec<char> = Vec::new();
    let mut i: usize = 0;
    while i < pre.len()
        invariant
            i <= pre@.len(),
            v@ == pre@.subrange(0, i as int),
        decreases pre@.len() - i,
    {
        v.push(pre[i]);
        i += 1;
        assert(v@ =~= pre@.subrange(0, i as int));
    }
    let mut d = decimal_exec(n);
    let ghost vd = d@;
    v.append(&mut d);
    assert(v@ =~= pre@ + vd);
    crate::text::string_of(v.as_slice())
}

/// What reading a label as a footnote number gives: the number, or the message of the
/// error, as `str::parse::<NonZero<usize>>` words it.
pub enum LabelNumber {
    Number(nat),
    Invalid(Seq<char>),
}

pub open spec fn msg_empty() -> Seq<char> {
    seq!['c','a','n','n','o','t',' ','p','a','r','s','e',' ','i','n','t','e','g','e','r',' ','f','r','o','m',' ','e','m','p','t','y',' ','s','t','r','i','n','g']
}

pub open spec fn msg_invalid_digit() -> Seq<char> {
    seq!['i','n','v','a','l','i','d',' ','d','i','g','i','t',' ','f','o','u','n','d',' ','i','n',' ','s','t','r','i','n','g']
}

pub open spec fn msg_too_large() -> Seq<char> {
    seq!['n','u','m','b','e','r',' ','t','o','o',' ','l','a','r','g','e',' ','t','o',' ','f','i','t',' ','i','n',' ','t','a','r','g','e','t',' ','t','y','p','e']
}

pub open spec fn msg_zero() -> Seq<char> {
    seq!['n','u','m','b','e','r',' ','w','o','u','l','d',' ','b','e',' ','z','e','r','o',' ','f','o','r',' ','n','o','n','-','z','e','r','o',' ','t','y','p','e']
}

/// A label read as a positive number: an optional `+`, then decimal digits. A lone `+`
/// is an invalid digit.
pub open spec fn label_number(t: Seq<char>) -> LabelNumber {
    let start = if t.len() > 0 && t[0] == '+' { 1int } else { 0int };
    if t.len() == 0 {
        LabelNumber::Invalid(msg_empty())
    } else if t.len() == 1 && start == 1 {
        LabelNumber::Invalid(msg_invalid_digit())
    } else if !(forall|i: int| start <= i < t.len() ==> is_digit(#[trigger] t[i])) {
        LabelNumber::Invalid(msg_invalid_digit())
    } else if digits_value(t, start, t.len() as int) > usize::MAX {
        LabelNumber::Invalid(msg_too_large())
    } else if digits_value(t, start, t.len() as int) == 0 {
        LabelNumber::Invalid(msg_zero())
    } else {
        LabelNumber::Number(digits_value(t, start, t.len() as int) as nat)
    }
}

proof fn lemma_digits_value_prefix(s: Seq<char>, t: Seq<char>, from: int, to: int)
    requires
        0 <= from,
        to <= s.len(),
        to <= t.len(),
        forall|k: int| from <= k < to ==> s[k] == t[k],
    ensures
        digits_value(s, from, to) == digits_value(t, from, to),
    decreases to - from,
{
    if to > from {
        lemma_digits_value_prefix(s, t, from, to - 1);
    }
}

proof fn lemma_decimal(n: nat)
    ensures
        decimal(n).len() >= 1,
        forall|i: int| 0 <= i < decimal(n).len() ==> is_digit(#[trigger] decimal(n)[i]),
        digits_value(decimal(n), 0, decimal(n).len() as int) == n,
    decreases n,
{
    let d = n % 10;
    assert(digit_char(d) as int - '0' as int == d && is_digit(digit_char(d)));
    if n >= 10 {
        let s = decimal(n / 10);
        lemma_decimal(n / 10);
        let t = s.push(digit_char(d));
        assert forall|i: int| 0 <= i < t.len() implies is_digit(#[trigger] t[i]) by {
            if i < s.len() {
                assert(t[i] == s[i]);
            }
        }
        lemma_digits_value_prefix(t, s, 0, s.len() as int);
        assert(digits_value(t, 0, t.len() as int) == digits_value(t, 0, s.len() as int) * 10 + d);
        assert(n == (n / 10) * 10 + d);
    } else {
        assert(digits_value(decimal(n), 0, 0) == 0);
    }
}

/// Reading back the decimal digits that a footnote number is written in gives the
/// number; a zero is refused.
pub proof fn law_label_reads_back(n: nat)
    requires
        n <= usize::MAX,
    ensures
        n >= 1 ==> label_number(decimal(n)) == LabelNumber::Number(n),
        n == 0 ==> label_number(decimal(n)) == LabelNumber::Invalid(msg_zero()),
{
    lemma_decimal(n);
    let t = decimal(n);
    assert(t[0] != '+') by {
        assert(is_digit(t[0]));
    }
}

proof fn lemma_digits_value_step(t: Seq<char>, from: int, i: int)
    requires
        from <= i < t.len(),
    ensures
        digits_value(t, from, i + 1) == digits_value(t, from, i) * 10 + (t[i] as int - '0' as int),
{
}

proof fn lemma_digits_value_mono(t: Seq<char>, from: int, i: int, j: int)
    requires
        from <= i <= j <= t.len(),
        forall|k: int| from <= k < j ==> is_digit(#[trigger] t[k]),
    ensures
        0 <= digits_value(t, from, i) <= digits_value(t, from, j),
    decreases j - i,
{
    if i < j {
        lemma_digits_value_mono(t, from, i, j - 1);
        assert(is_digit(t[j - 1]));
    } else {
        lemma_digits_value_nonneg(t, from, i);
    }
}

proof fn lemma_digits_value_nonneg(t: Seq<char>, from: int, i: int)
    requires
        from <= i <= t.len(),
        forall|k: int| from <= k < i ==> is_digit(#[trigger] t[k]),
    ensures
        0 <= digits_value(t, from, i),
    decreases i - from,
{
    if i > from {
        lemma_digits_value_nonneg(t, from, i - 1);
        assert(is_digit(t[i - 1]));
    }
}

/// Reads a label as a positive number.
pub fn label_number_exec(t: &Vec<char>) -> (r: Result<usize, Vec<char>>)
    ensures
        match r {
            Ok(n) => label_number(t@) == LabelNumber::Number(n as nat),
            Err(m) => label_number(t@) == LabelNumber::Invalid(m@),
        },
{
    let start: usize = if t.len() > 0 && t[0] == '+' { 1 } else { 0 };
    if t.len() == 0 {
        let m = ['c','a','n','n','o','t',' ','p','a','r','s','e',' ','i','n','t','e','g','e','r',' ','f','r','o','m',' ','e','m','p','t','y',' ','s','t','r','i','n','g'];
        assert(m@ =~= msg_empty());
        return Err(crate::text::vec_of(&m));
    }
    if t.len() == 1 && start == 1 {
        let m = ['i','n','v','a','l','i','d',' ','d','i','g','i','t',' ','f','o','u','n','d',' ','i','n',' ','s','t','r','i','n','g'];
        assert(m@ =~= msg_invalid_digit());
        return Err(crate::text::vec_of(&m));
    }
    let mut i = start;
    while i < t.len()
        invariant
            start <= i <= t@.len(),
            start == (if t@.len() > 0 && t@[0] == '+' { 1int } else { 0int }),
            forall|k: int| start <= k < i ==> is_digit(#[trigger] t@[k]),
        decreases t@.len() - i,
    {
        if !('0' <= t[i] && t[i] <= '9') {
            assert(!is_digit(t@[i as int]));
            let m = ['i','n','v','a','l','i','d',' ','d','i','g','i','t',' ','f','o','u','n','d',' ','i','n',' ','s','t','r','i','n','g'];
            assert(m@ =~= msg_invalid_digit());
            return Err(crate::text::vec_of(&m));
        }
        i += 1;
    }
    let mut acc: usize = 0;
    let mut k = start;
    while k < t.len()
        invariant
            start <= k <= t@.len(),
            start == (if t@.len() > 0 && t@[0] == '+' { 1int } else { 0int }),
            forall|j: int| start <= j < t@.len() ==> is_digit(#[trigger] t@[j]),
            acc == digits_value(t@, start as int, k as int),
        decreases t@.len() - k,
    {
        let d = (t[k] as u32 - '0' as u32) as usize;
        proof {
            lemma_digits_value_step(t@, start as int, k as int);
        }
        if acc > (usize::MAX - d) / 10 {
            proof {
                assert(acc * 10 + d > usize::MAX) by (nonlinear_arith)
                    requires
                        acc > (usize::MAX - d) / 10,
                        d <= 9,
                ;
                lemma_digits_value_mono(t@, start as int, k + 1, t@.len() as int);
            }
            let m = ['n','u','m','b','e','r',' ','t','o','o',' ','l','a','r','g','e',' ','t','o',' ','f','i','t',' ','i','n',' ','t','a','r','g','e','t',' ','t','y','p','e'];
            assert(m@ =~= msg_too_large());
            return Err(crate::text::vec_of(&m));
        }
        assert(acc * 10 + d <= usize::MAX) by (nonlinear_arith)
            requires
                acc <= (usize::MAX - d) / 10,
                d <= 9,
        ;
        acc = acc * 10 + d;
        k += 1;
    }
    if acc == 0 {
        let m = ['n','u','m','b','e','r',' ','w','o','u','l','d',' ','b','e',' ','z','e','r','o',' ','f','o','r',' ','n','o','n','-','z','e','r','o',' ','t','y','p','e'];
        assert(m@ =~= msg_zero());
        return Err(crate::text::vec_of(&m));
    }
    Ok(acc)
}

/// The values of an association list.
pub open spec fn assoc_values(m: Seq<(Seq<char>, int)>) -> Seq<int> {
    m.map_values(|p: (Seq<char>, int)| p.1)
}

/// The least number from `c` on that no entry of `vals` holds, where it is below
/// `usize::MAX`; `usize::MAX` otherwise.
pub open spec fn first_free(vals: Seq<int>, c: int) -> int
    decreases usize::MAX - c,
{
    if c >= usize::MAX {
        c
    } else if vals.contains(c) {
        first_free(vals, c + 1)
    } else {
        c
    }
}

/// The number that an auto-numbered footnote gets is the least one, from `c` on, that no
/// footnote holds yet (short of `usize::MAX`).
pub proof fn law_first_free_is_least(vals: Seq<int>, c: int)
    requires
        c <= usize::MAX,
    ensures
        c <= first_free(vals, c) <= usize::MAX,
        first_free(vals, c) < usize::MAX ==> !vals.contains(first_free(vals, c)),
        forall|j: int| c <= j < first_free(vals, c) ==> vals.contains(j),
    decreases usize::MAX - c,
{
    if c < usize::MAX && vals.contains(c) {
        law_first_free_is_least(vals, c + 1);
    }
}

} // verus!
