//! Lines of a source text and the regions of indented lines that blocks span.
use vstd::prelude::*;

use crate::text::{is_whitespace, is_ws};

verus! {

/// Splits `s` into lines from `i` on; `cur` is the line read so far and `acc` the lines
/// before it. A final line without a line feed counts when it is not empty.
pub open spec fn lines_acc(s: Seq<char>, i: int, cur: Seq<char>, acc: Seq<Seq<char>>) -> Seq<Seq<char>>
    decreases s.len() - i,
{
    if i < 0 || i >= s.len() {
        if cur.len() > 0 {
            acc.push(cur)
        } else {
            acc
        }
    } else if s[i] == '\n' {
        lines_acc(s, i + 1, Seq::empty(), acc.push(cur))
    } else {
        lines_acc(s, i + 1, cur.push(s[i]), acc)
    }
}

/// The lines of `s`, without their line feeds.
pub open spec fn split_lines(s: Seq<char>) -> Seq<Seq<char>> {
    lines_acc(s, 0, Seq::empty(), Seq::empty())
}

/// Splits a text into lines.
pub fn split_lines_exec(s: &Vec<char>) -> (r: Vec<Vec<char>>)
    ensures
        lines_view(r@) == split_lines(s@),
{
    let mut acc: Vec<Vec<char>> = Vec::new();
    let mut cur: Vec<char> = Vec::new();
    let mut i: usize = 0;
    assert(lines_view(acc@) =~= Seq::<Seq<char>>::empty());
    while i < s.len()
        invariant
            i <= s@.len(),
            split_lines(s@) == lines_acc(s@, i as int, cur@, lines_view(acc@)),
        decreases s@.len() - i,
    {
        if s[i] == '\n' {
            let ghost before = lines_view(acc@);
            let line = cur;
            cur = Vec::new();
            acc.push(line);
            assert(lines_view(acc@) =~= before.push(line@));
            assert(cur@ =~= Seq::<char>::empty());
        } else {
            cur.push(s[i]);
        }
        i += 1;
    }
    if cur.len() > 0 {
        let ghost before = lines_view(acc@);
        acc.push(cur);
        assert(lines_view(acc@) =~= before.push(cur@));
    }
    acc
}

/// The views of a list of lines.
pub open spec fn lines_view(v: Seq<Vec<char>>) -> Seq<Seq<char>> {
    v.map_values(|l: Vec<char>| l@)
}

/// A line that holds only whitespace.
pub open spec fn blank(l: Seq<char>) -> bool {
    forall|i: int| 0 <= i < l.len() ==> is_ws(#[trigger] l[i])
}

pub fn is_blank(l: &Vec<char>) -> (r: bool)
    ensures
        r == blank(l@),
{
    let mut i: usize = 0;
    while i < l.len()
        invariant
            i <= l@.len(),
            forall|j: int| 0 <= j < i ==> is_ws(#[trigger] l@[j]),
        decreases l@.len() - i,
    {
        if !is_whitespace(l[i]) {
            return false;
        }
        i += 1;
    }
    true
}

/// The number of spaces that start at `k`.
pub open spec fn spaces_from(l: Seq<char>, k: int) -> int
    decreases l.len() - k,
{
    if 0 <= k < l.len() && l[k] == ' ' {
        1 + spaces_from(l, k + 1)
    } else {
        0
    }
}

/// The indentation of a line: its leading spaces.
pub open spec fn indent(l: Seq<char>) -> int {
    spaces_from(l, 0)
}

pub proof fn lemma_spaces_from(l: Seq<char>, k: int)
    ensures
        0 <= k <= l.len() ==> 0 <= spaces_from(l, k) <= l.len() - k,
        0 <= k <= l.len() ==> forall|j: int| k <= j < k + spaces_from(l, k) ==> l[j] == ' ',
    decreases l.len() - k,
{
    if 0 <= k < l.len() && l[k] == ' ' {
        lemma_spaces_from(l, k + 1);
    }
}

/// The number of spaces that start at `k`.
pub fn count_spaces(l: &Vec<char>, k: usize) -> (r: usize)
    requires
        k <= l@.len(),
    ensures
        r == spaces_from(l@, k as int),
        k + r <= l@.len(),
{
    let mut i = k;
    while i < l.len()
        invariant
            k <= i <= l@.len(),
            spaces_from(l@, k as int) == (i - k) + spaces_from(l@, i as int),
        decreases l@.len() - i,
    {
        if l[i] != ' ' {
            return i - k;
        }
        i += 1;
    }
    i - k
}

/// `l` without its first `k` characters; empty when it is shorter.
pub open spec fn dedent(l: Seq<char>, k: int) -> Seq<char> {
    if k <= l.len() {
        l.subrange(k, l.len() as int)
    } else {
        Seq::empty()
    }
}

/// The lines from `from` to `to`, each without its first `k` characters.
pub open spec fn dedent_lines(lines: Seq<Seq<char>>, from: int, to: int, k: int) -> Seq<Seq<char>> {
    Seq::new((to - from) as nat, |i: int| dedent(lines[from + i], k))
}

/// The first line at or after `j` that is not blank and indented less than `m`, or the
/// number of lines.
pub open spec fn indented_end(lines: Seq<Seq<char>>, j: int, m: int) -> int
    decreases lines.len() - j,
{
    if j < 0 || j >= lines.len() {
        lines.len() as int
    } else if !blank(lines[j]) && indent(lines[j]) < m {
        j
    } else {
        indented_end(lines, j + 1, m)
    }
}

/// `to`, moved back over blank lines, but not below `from`.
pub open spec fn trim_blank_end(lines: Seq<Seq<char>>, from: int, to: int) -> int
    decreases to - from,
{
    if to > from && to <= lines.len() && from >= 0 && blank(lines[to - 1]) {
        trim_blank_end(lines, from, to - 1)
    } else {
        to
    }
}

/// The first line at or after `j` that is not blank, or the number of lines.
pub open spec fn skip_blank(lines: Seq<Seq<char>>, j: int) -> int
    decreases lines.len() - j,
{
    if j < 0 || j >= lines.len() {
        lines.len() as int
    } else if blank(lines[j]) {
        skip_blank(lines, j + 1)
    } else {
        j
    }
}

/// The least indentation of the lines from `from` to `to` that are not blank; -1 where
/// all are blank.
pub open spec fn min_indent(lines: Seq<Seq<char>>, from: int, to: int) -> int
    decreases to - from,
{
    if from >= to || from < 0 || to > lines.len() {
        -1
    } else {
        let rest = min_indent(lines, from + 1, to);
        if blank(lines[from]) {
            rest
        } else if rest >= 0 && rest < indent(lines[from]) {
            rest
        } else {
            indent(lines[from])
        }
    }
}

pub proof fn lemma_indented_end_bounds(lines: Seq<Seq<char>>, j: int, m: int)
    requires
        0 <= j <= lines.len(),
    ensures
        j <= indented_end(lines, j, m) <= lines.len(),
    decreases lines.len() - j,
{
    if j < lines.len() && !(!blank(lines[j]) && indent(lines[j]) < m) {
        lemma_indented_end_bounds(lines, j + 1, m);
    }
}

pub proof fn lemma_trim_blank_end_bounds(lines: Seq<Seq<char>>, from: int, to: int)
    requires
        0 <= from <= to <= lines.len(),
    ensures
        from <= trim_blank_end(lines, from, to) <= to,
    decreases to - from,
{
    if to > from && blank(lines[to - 1]) {
        lemma_trim_blank_end_bounds(lines, from, to - 1);
    }
}

pub proof fn lemma_skip_blank_bounds(lines: Seq<Seq<char>>, j: int)
    requires
        0 <= j <= lines.len(),
    ensures
        j <= skip_blank(lines, j) <= lines.len(),
    decreases lines.len() - j,
{
    if j < lines.len() && blank(lines[j]) {
        lemma_skip_blank_bounds(lines, j + 1);
    }
}

/// The least indentation of the lines from `from` to `to` that are not blank; 0 where all
/// are blank.
pub fn min_indent_exec(lines: &Vec<Vec<char>>, from: usize, to: usize) -> (r: usize)
    requires
        from <= to <= lines@.len(),
    ensures
        r as int == if min_indent(lines_view(lines@), from as int, to as int) >= 0 {
            min_indent(lines_view(lines@), from as int, to as int)
        } else {
            0
        },
{
    let mut i = to;
    let mut acc: Option<usize> = None;
    while i > from
        invariant
            from <= i <= to <= lines@.len(),
            match acc {
                Some(a) => min_indent(lines_view(lines@), i as int, to as int) == a,
                None => min_indent(lines_view(lines@), i as int, to as int) == -1,
            },
        decreases i,
    {
        i -= 1;
        if !is_blank(&lines[i]) {
            let d = count_spaces(&lines[i], 0);
            acc = match acc {
                Some(a) => if a < d {
                    Some(a)
                } else {
                    Some(d)
                },
                None => Some(d),
            };
        }
    }
    match acc {
        Some(a) => a,
        None => 0,
    }
}

/// A copy of `l` without its first `k` characters; empty when it is shorter.
pub fn dedent_exec(l: &Vec<char>, k: usize) -> (r: Vec<char>)
    ensures
        r@ == dedent(l@, k as int),
{
    let mut r: Vec<char> = Vec::new();
    if k > l.len() {
        return r;
    }
    let mut i = k;
    while i < l.len()
        invariant
            k <= i <= l@.len(),
            r@ == l@.subrange(k as int, i as int),
        decreases l@.len() - i,
    {
        r.push(l[i]);
        i += 1;
        assert(r@ =~= l@.subrange(k as int, i as int));
    }
    r
}

/// Copies of the lines from `from` to `to`, each without its first `k` characters.
pub fn dedent_lines_exec(lines: &Vec<Vec<char>>, from: usize, to: usize, k: usize) -> (r: Vec<Vec<char>>)
    requires
        from <= to <= lines@.len(),
    ensures
        lines_view(r@) == dedent_lines(lines_view(lines@), from as int, to as int, k as int),
{
    let mut r: Vec<Vec<char>> = Vec::new();
    let mut i = from;
    while i < to
        invariant
            from <= i <= to <= lines@.len(),
            r@.len() == i - from,
            forall|m: int| 0 <= m < r@.len() ==> #[trigger] r@[m]@ == dedent(lines@[from + m]@, k as int),
        decreases to - i,
    {
        r.push(dedent_exec(&lines[i], k));
        i += 1;
    }
    assert(lines_view(r@) =~= dedent_lines(lines_view(lines@), from as int, to as int, k as int));
    r
}

pub fn indented_end_exec(lines: &Vec<Vec<char>>, j0: usize, m: usize) -> (r: usize)
    requires
        j0 <= lines@.len(),
    ensures
        r == indented_end(lines_view(lines@), j0 as int, m as int),
        j0 <= r <= lines@.len(),
{
    let mut j = j0;
    while j < lines.len()
        invariant
            j0 <= j <= lines@.len(),
            indented_end(lines_view(lines@), j0 as int, m as int) == indented_end(
                lines_view(lines@),
                j as int,
                m as int,
            ),
        decreases lines@.len() - j,
    {
        if !is_blank(&lines[j]) && count_spaces(&lines[j], 0) < m {
            return j;
        }
        j += 1;
    }
    j
}

pub fn trim_blank_end_exec(lines: &Vec<Vec<char>>, from: usize, to0: usize) -> (r: usize)
    requires
        from <= to0 <= lines@.len(),
    ensures
        r == trim_blank_end(lines_view(lines@), from as int, to0 as int),
        from <= r <= to0,
{
    let mut to = to0;
    while to > from
        invariant
            from <= to <= to0 <= lines@.len(),
            trim_blank_end(lines_view(lines@), from as int, to0 as int) == trim_blank_end(
                lines_view(lines@),
                from as int,
                to as int,
            ),
        decreases to,
    {
        if !is_blank(&lines[to - 1]) {
            return to;
        }
        to -= 1;
    }
    to
}

pub fn skip_blank_exec(lines: &Vec<Vec<char>>, j0: usize) -> (r: usize)
    requires
        j0 <= lines@.len(),
    ensures
        r == skip_blank(lines_view(lines@), j0 as int),
        j0 <= r <= lines@.len(),
        r < lines@.len() ==> !blank(lines@[r as int]@),
{
    let mut j = j0;
    while j < lines.len()
        invariant
            j0 <= j <= lines@.len(),
            skip_blank(lines_view(lines@), j0 as int) == skip_blank(lines_view(lines@), j as int),
        decreases lines@.len() - j,
    {
        if !is_blank(&lines[j]) {
            return j;
        }
        j += 1;
    }
    j
}

} // verus!
