//! Conversion of parsed blocks into a document tree with nested sections.
use vstd::prelude::*;

use crate::text::{is_ws, is_whitespace, push_char, str_to_chars};

verus! {

/// The characters that separate words of a name: whitespace and the information
/// separators U+001C to U+001F.
pub open spec fn is_name_sep(c: char) -> bool {
    is_ws(c) || ('\u{1c}' <= c && c <= '\u{1f}')
}

/// Reads `s` from `i` on, having produced `acc`; `pending` tells whether a separator was
/// seen since the last word character.
pub open spec fn normalize_from(s: Seq<char>, i: int, acc: Seq<char>, pending: bool) -> Seq<char>
    decreases s.len() - i,
{
    if i >= s.len() {
        acc
    } else if is_name_sep(s[i]) {
        normalize_from(s, i + 1, acc, acc.len() > 0)
    } else {
        let acc2 = if pending {
            acc.push(' ')
        } else {
            acc
        };
        normalize_from(s, i + 1, acc2.push(s[i]), false)
    }
}

/// The words of `s`, separated by single spaces.
pub open spec fn spec_whitespace_normalize_name(s: Seq<char>) -> Seq<char> {
    normalize_from(s, 0, Seq::empty(), false)
}

/// Whether a name is in normal form: its only separator character is the space, it
/// neither begins nor ends with one, and no two spaces follow each other.
pub open spec fn is_normalized_name(r: Seq<char>) -> bool {
    &&& forall|i: int| 0 <= i < r.len() && is_name_sep(#[trigger] r[i]) ==> r[i] == ' '
    &&& r.len() > 0 ==> r[0] != ' ' && r[r.len() - 1] != ' '
    &&& forall|i: int| 0 <= i < r.len() - 1 && #[trigger] r[i] == ' ' ==> r[i + 1] != ' '
}

proof fn lemma_normalize_from_normal(s: Seq<char>, i: int, acc: Seq<char>, pending: bool)
    requires
        0 <= i,
        is_normalized_name(acc),
        pending ==> acc.len() > 0,
    ensures
        is_normalized_name(normalize_from(s, i, acc, pending)),
    decreases s.len() - i,
{
    if i < s.len() {
        if is_name_sep(s[i]) {
            lemma_normalize_from_normal(s, i + 1, acc, acc.len() > 0);
        } else {
            let acc2 = if pending {
                acc.push(' ')
            } else {
                acc
            };
            let acc3 = acc2.push(s[i]);
            assert(is_name_sep(' '));
            assert forall|k: int| 0 <= k < acc3.len() && is_name_sep(#[trigger] acc3[k]) implies acc3[k] == ' ' by {
                if k < acc.len() {
                    assert(acc3[k] == acc[k]);
                }
            }
            assert forall|k: int| 0 <= k < acc3.len() - 1 && #[trigger] acc3[k] == ' ' implies acc3[k + 1] != ' ' by {
                if k + 1 < acc.len() {
                    assert(acc3[k] == acc[k] && acc3[k + 1] == acc[k + 1]);
                } else if k + 1 == acc.len() {
                    assert(acc3[k] == acc[k]);
                }
            }
            if acc.len() > 0 {
                assert(acc3[0] == acc[0]);
            }
            lemma_normalize_from_normal(s, i + 1, acc3, false);
        }
    }
}

proof fn lemma_normalize_from_fixed(r: Seq<char>, i: int)
    requires
        is_normalized_name(r),
        0 <= i <= r.len(),
    ensures
        i == 0 ==> normalize_from(r, i, Seq::empty(), false) == r,
        i > 0 && r[i - 1] != ' ' ==> normalize_from(r, i, r.subrange(0, i), false) == r,
        i > 0 && r[i - 1] == ' ' ==> normalize_from(r, i, r.subrange(0, i - 1), true) == r,
    decreases r.len() - i,
{
    assert(is_name_sep(' '));
    if i == r.len() {
        assert(r.subrange(0, i) =~= r);
    } else {
        lemma_normalize_from_fixed(r, i + 1);
        if is_name_sep(r[i]) {
            assert(r[i] == ' ');
            if i > 0 {
                assert(r[i - 1] != ' ');
                assert(r.subrange(0, i) =~= r.subrange(0, i + 1 - 1));
            }
        } else {
            if i > 0 && r[i - 1] == ' ' {
                assert(r.subrange(0, i - 1).push(' ').push(r[i]) =~= r.subrange(0, i + 1));
            } else if i > 0 {
                assert(r.subrange(0, i).push(r[i]) =~= r.subrange(0, i + 1));
            } else {
                assert(Seq::<char>::empty().push(r[0]) =~= r.subrange(0, 1));
            }
        }
    }
}

/// A normalized name is in normal form, and normalizing it again changes nothing.
pub proof fn law_normalize_name_idempotent(s: Seq<char>)
    ensures
        is_normalized_name(spec_whitespace_normalize_name(s)),
        spec_whitespace_normalize_name(spec_whitespace_normalize_name(s)) == spec_whitespace_normalize_name(s),
{
    lemma_normalize_from_normal(s, 0, Seq::empty(), false);
    lemma_normalize_from_fixed(spec_whitespace_normalize_name(s), 0);
}

/// Normalizes a name in terms of whitespace: splits it at whitespace and information
/// separators, drops empty pieces and joins the rest with single spaces. Equivalent to
/// docutils's `docutils.nodes.whitespace_normalize_name`.
pub fn whitespace_normalize_name(name: &str) -> (r: String)
    ensures
        r@ == spec_whitespace_normalize_name(name@),
{
    let v = str_to_chars(name);
    let mut ret = String::new();
    let mut pending = false;
    let mut i: usize = 0;
    while i < v.len()
        invariant
            v@ == name@,
            i <= v@.len(),
            normalize_from(v@, 0, Seq::empty(), false) == normalize_from(v@, i as int, ret@, pending),
        decreases v@.len() - i,
    {
        let c = v[i];
        if is_whitespace(c) || ('\u{1c}' <= c && c <= '\u{1f}') {
            pending = !is_empty_string(&ret);
        } else {
            if pending {
                push_char(&mut ret, ' ');
            }
            push_char(&mut ret, c);
            pending = false;
        }
        i += 1;
    }
    ret
}

fn is_empty_string(s: &String) -> (r: bool)
    ensures
        r == (s@.len() == 0),
{
    s.as_str().unicode_len() == 0
}

} // verus!
