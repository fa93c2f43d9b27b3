//! What inline markup makes: text between double asterisks is strong, text between single
//! asterisks is emphasized.
use vstd::prelude::*;

use super::inline::{bar1, delimited, find_close, inlines_from, lit2, spec_parse_inlines, spec_recognize, star1, star2, tick1};
use super::conversion::spec_whitespace_normalize_name;
use crate::element_categories::ElementType;
use crate::elements::{empty_common, ElemView, ExtraView, NodeView};
use crate::text::{has_at, is_ws};

verus! {

/// Whether `w` can stand between delimiters made of `c` as the whole content of markup:
/// it is not empty, neither begins nor ends with whitespace, and holds no `c`.
pub open spec fn content_without(w: Seq<char>, c: char) -> bool {
    &&& w.len() > 0
    &&& !is_ws(w[0])
    &&& !is_ws(w[w.len() - 1])
    &&& forall|i: int| 0 <= i < w.len() ==> w[i] != c
}

/// Whether `w` can stand between asterisks as the whole content of markup.
pub open spec fn plain_content(w: Seq<char>) -> bool {
    content_without(w, '*')
}

/// An element of type `t` with no attributes holding the single text `w`.
pub open spec fn holding_text(t: ElementType, w: Seq<char>) -> NodeView {
    NodeView::Element(ElemView { element_type: t, common: empty_common(), extra: ExtraView::Plain, children: seq![NodeView::Text(w)] })
}

proof fn lemma_find_close_plain(s: Seq<char>, o: int, w: Seq<char>, d: Seq<char>, k: int)
    requires
        o >= 1,
        d.len() >= 1,
        s.len() == o + w.len() + d.len(),
        forall|i: int| 0 <= i < w.len() ==> s[o + i] == w[i],
        forall|i: int| 0 <= i < d.len() ==> s[o + w.len() + i] == d[i],
        content_without(w, d[0]),
        o <= k <= o + w.len(),
    ensures
        find_close(s, o, k, d) == o + w.len(),
    decreases o + w.len() - k,
{
    if k < o + w.len() {
        assert(s[k] == w[k - o]);
        if has_at(s, k, d) {
            assert(s.subrange(k, k + d.len())[0] == s[k]);
        }
        lemma_find_close_plain(s, o, w, d, k + 1);
    } else {
        assert(s.subrange(k, k + d.len()) =~= d);
        assert(s[k - 1] == w[w.len() - 1]);
    }
}

/// Text between double asterisks, as a whole paragraph text, is one strong element holding
/// that text.
pub proof fn law_double_asterisks_make_strong(w: Seq<char>)
    requires
        plain_content(w),
    ensures
        spec_parse_inlines(star2() + w + star2()) == Some(seq![holding_text(ElementType::Strong, w)]),
{
    let s = star2() + w + star2();
    let n = s.len() as int;
    assert(s[0] == '*' && s[1] == '*');
    assert(forall|i: int| 0 <= i < w.len() ==> s[2 + i] == w[i]);
    assert(forall|i: int| 0 <= i < 2 ==> s[2 + w.len() + i] == star2()[i]);
    assert(!has_at(s, 0, lit2())) by {
        if has_at(s, 0, lit2()) {
            assert(s.subrange(0, 2)[0] == s[0]);
        }
    }
    assert(has_at(s, 0, star2())) by {
        assert(s.subrange(0, 2) =~= star2());
    }
    assert(s[2] == w[0]);
    lemma_find_close_plain(s, 2, w, star2(), 2);
    assert(delimited(s, 0, star2(), star2()) == n);
    assert(spec_recognize(s, 0) == Some((super::inline::InlineKind::Strong, n)));
    assert(s.subrange(2, n - 2) =~= w);
    assert(inlines_from(s, n) == Some(Seq::<NodeView>::empty()));
    assert(seq![holding_text(ElementType::Strong, w)] + Seq::<NodeView>::empty() =~= seq![holding_text(ElementType::Strong, w)]);
}

/// Text between single asterisks, as a whole paragraph text, is one emphasis element
/// holding that text.
pub proof fn law_single_asterisks_make_emphasis(w: Seq<char>)
    requires
        plain_content(w),
    ensures
        spec_parse_inlines(star1() + w + star1()) == Some(seq![holding_text(ElementType::Emphasis, w)]),
{
    let s = star1() + w + star1();
    let n = s.len() as int;
    assert(s[0] == '*');
    assert(s[1] == w[0]);
    assert(forall|i: int| 0 <= i < w.len() ==> s[1 + i] == w[i]);
    assert(forall|i: int| 0 <= i < 1 ==> s[1 + w.len() + i] == star1()[i]);
    assert(!has_at(s, 0, lit2())) by {
        if has_at(s, 0, lit2()) {
            assert(s.subrange(0, 2)[0] == s[0]);
        }
    }
    assert(!has_at(s, 0, star2())) by {
        if has_at(s, 0, star2()) {
            assert(s.subrange(0, 2)[1] == s[1]);
        }
    }
    assert(has_at(s, 0, star1())) by {
        assert(s.subrange(0, 1) =~= star1());
    }
    lemma_find_close_plain(s, 1, w, star1(), 1);
    assert(delimited(s, 0, star1(), star1()) == n);
    assert(spec_recognize(s, 0) == Some((super::inline::InlineKind::Emphasis, n)));
    assert(s.subrange(1, n - 1) =~= w);
    assert(inlines_from(s, n) == Some(Seq::<NodeView>::empty()));
    assert(seq![holding_text(ElementType::Emphasis, w)] + Seq::<NodeView>::empty() =~= seq![holding_text(ElementType::Emphasis, w)]);
}

/// Text between double backquotes, as a whole paragraph text, is one literal element
/// holding that text as it is.
pub proof fn law_double_backquotes_make_literal(w: Seq<char>)
    requires
        content_without(w, '`'),
    ensures
        spec_parse_inlines(lit2() + w + lit2()) == Some(seq![holding_text(ElementType::Literal, w)]),
{
    let s = lit2() + w + lit2();
    let n = s.len() as int;
    assert(s[0] == '`' && s[1] == '`');
    assert(forall|i: int| 0 <= i < w.len() ==> s[2 + i] == w[i]);
    assert(forall|i: int| 0 <= i < 2 ==> s[2 + w.len() + i] == lit2()[i]);
    assert(has_at(s, 0, lit2())) by {
        assert(s.subrange(0, 2) =~= lit2());
    }
    assert(s[2] == w[0]);
    lemma_find_close_plain(s, 2, w, lit2(), 2);
    assert(delimited(s, 0, lit2(), lit2()) == n);
    assert(spec_recognize(s, 0) == Some((super::inline::InlineKind::Literal, n)));
    assert(s.subrange(2, n - 2) =~= w);
    assert(inlines_from(s, n) == Some(Seq::<NodeView>::empty()));
    assert(seq![holding_text(ElementType::Literal, w)] + Seq::<NodeView>::empty() =~= seq![holding_text(ElementType::Literal, w)]);
}

/// Text between bars, as a whole paragraph text, is one substitution reference that
/// names the text with its whitespace normalized.
pub proof fn law_bars_make_substitution_reference(w: Seq<char>)
    requires
        content_without(w, '|'),
    ensures
        spec_parse_inlines(bar1() + w + bar1()) == Some(seq![NodeView::Element(ElemView {
            element_type: ElementType::SubstitutionReference,
            common: empty_common(),
            extra: ExtraView::SubstitutionReference(seq![spec_whitespace_normalize_name(w)]),
            children: Seq::empty(),
        })]),
{
    let s = bar1() + w + bar1();
    let n = s.len() as int;
    assert(s[0] == '|');
    assert(forall|i: int| 0 <= i < w.len() ==> s[1 + i] == w[i]);
    assert(forall|i: int| 0 <= i < 1 ==> s[1 + w.len() + i] == bar1()[i]);
    assert(!has_at(s, 0, lit2())) by {
        if has_at(s, 0, lit2()) {
            assert(s.subrange(0, 2)[0] == s[0]);
        }
    }
    assert(!has_at(s, 0, star2())) by {
        if has_at(s, 0, star2()) {
            assert(s.subrange(0, 2)[0] == s[0]);
        }
    }
    assert(!has_at(s, 0, star1())) by {
        if has_at(s, 0, star1()) {
            assert(s.subrange(0, 1)[0] == s[0]);
        }
    }
    assert(!has_at(s, 0, tick1())) by {
        if has_at(s, 0, tick1()) {
            assert(s.subrange(0, 1)[0] == s[0]);
        }
    }
    assert(has_at(s, 0, bar1())) by {
        assert(s.subrange(0, 1) =~= bar1());
    }
    assert(s[1] == w[0]);
    lemma_find_close_plain(s, 1, w, bar1(), 1);
    assert(delimited(s, 0, bar1(), bar1()) == n);
    assert(spec_recognize(s, 0) == Some((super::inline::InlineKind::Substitution, n)));
    assert(s.subrange(1, n - 1) =~= w);
    assert(inlines_from(s, n) == Some(Seq::<NodeView>::empty()));
    let r = NodeView::Element(ElemView {
        element_type: ElementType::SubstitutionReference,
        common: empty_common(),
        extra: ExtraView::SubstitutionReference(seq![spec_whitespace_normalize_name(w)]),
        children: Seq::empty(),
    });
    assert(seq![r] + Seq::<NodeView>::empty() =~= seq![r]);
}

} // verus!
