//! How footnotes and footnote references are tied together: the number maps that the
//! first two passes build, from which the third pass takes each reference's number and
//! footnote, and each footnote's number and back references.
use vstd::prelude::*;

use super::assoc::{assoc_get, assoc_insert, key_index, lemma_key_index_bounds, lemma_key_index_first};
use super::pass1::{footnote_number, p1_node, p1_nodes, p1_start, record_footnote, P1};
use super::pass2::{define_substitutions, define_targets, p2_node, p2_nodes, p2_start, P2};
use super::pass3::{first_key_with, footnote_numbers, keys_with, reference_numbers};
use super::numbers::LabelNumber;
use crate::attribute_types::FootnoteType;
use crate::element_categories::ElementType;
use crate::elements::{DocumentView, ExtraView, NodeView};

verus! {

/// Whether no key occurs twice in `m`.
pub open spec fn keys_unique(m: Seq<(Seq<char>, int)>) -> bool {
    forall|i: int, j: int| 0 <= i < j < m.len() ==> #[trigger] m[i].0 != #[trigger] m[j].0
}

proof fn lemma_insert_unique(m: Seq<(Seq<char>, int)>, k: Seq<char>, v: int)
    requires
        keys_unique(m),
    ensures
        keys_unique(assoc_insert(m, k, v)),
{
    lemma_key_index_bounds(m, k);
    let r = assoc_insert(m, k, v);
    let idx = key_index(m, k);
    assert forall|i: int, j: int| 0 <= i < j < r.len() implies #[trigger] r[i].0 != #[trigger] r[j].0 by {
        if idx >= 0 {
            if i == idx {
                assert(r[j] == m[j]);
            } else if j == idx {
                assert(r[i] == m[i]);
            } else {
                assert(r[i] == m[i] && r[j] == m[j]);
            }
        } else {
            assert(r[i] == m[i]);
            if j < m.len() {
                assert(r[j] == m[j]);
            }
        }
    }
}

/// Whether the footnote number maps of the first pass have unique keys.
pub open spec fn p1_unique(st: P1) -> bool {
    keys_unique(st.sym) && keys_unique(st.num)
}

/// Whether the footnote reference number maps of the second pass have unique keys.
pub open spec fn p2_unique(st: P2) -> bool {
    keys_unique(st.sym_refs) && keys_unique(st.num_refs)
}

proof fn lemma_p1_node(st: P1, n: NodeView)
    requires
        p1_unique(st),
    ensures
        p1_unique(p1_node(st, n).0),
    decreases n, 0nat,
{
    match n {
        NodeView::Text(_) => {},
        NodeView::Element(e) => {
            if e.element_type == ElementType::Footnote {
                match footnote_number(st, e) {
                    LabelNumber::Invalid(_) => {},
                    LabelNumber::Number(k) => {
                        let named = e.common.names.len() > 0;
                        let n_anon = if named {
                            st.n_anon
                        } else {
                            super::pass1::sat_inc(st.n_anon)
                        };
                        let id = if named {
                            e.common.names[0]
                        } else {
                            super::pass1::footnote_prefix() + super::numbers::decimal(n_anon as nat)
                        };
                        lemma_insert_unique(st.sym, id, k as int);
                        lemma_insert_unique(st.num, id, k as int);
                        lemma_p1_nodes(record_footnote(st, e, id, k as int, n_anon), e.children);
                    },
                }
            } else if e.element_type == ElementType::FootnoteReference {
                let k = super::pass1::sat_inc(st.n_refs);
                lemma_p1_nodes(P1 { n_refs: k, ..st }, e.children);
            } else {
                lemma_p1_nodes(st, e.children);
            }
        },
    }
}

proof fn lemma_p1_nodes(st: P1, ns: Seq<NodeView>)
    requires
        p1_unique(st),
    ensures
        p1_unique(p1_nodes(st, ns).0),
    decreases ns, 1nat,
{
    if ns.len() > 0 {
        let pre = ns.subrange(0, ns.len() - 1);
        lemma_p1_nodes(st, pre);
        lemma_p1_node(p1_nodes(st, pre).0, ns[ns.len() - 1]);
    }
}

proof fn lemma_define_substitutions(st: P2, names: Seq<Seq<char>>, content: Seq<NodeView>)
    ensures
        define_substitutions(st, names, content).sym_refs == st.sym_refs,
        define_substitutions(st, names, content).num_refs == st.num_refs,
    decreases names.len(),
{
    if names.len() > 0 {
        lemma_define_substitutions(st, names.drop_last(), content);
    }
}

proof fn lemma_define_targets(st: P2, names: Seq<Seq<char>>, url: Seq<char>)
    ensures
        define_targets(st, names, url).sym_refs == st.sym_refs,
        define_targets(st, names, url).num_refs == st.num_refs,
    decreases names.len(),
{
    if names.len() > 0 {
        lemma_define_targets(st, names.drop_last(), url);
    }
}

proof fn lemma_p2_node(p1: P1, st: P2, n: NodeView)
    requires
        p2_unique(st),
    ensures
        p2_unique(p2_node(p1, st, n)),
    decreases n, 0nat,
{
    match n {
        NodeView::Text(_) => {},
        NodeView::Element(e) => {
            if e.element_type == ElementType::SubstitutionDefinition {
                lemma_define_substitutions(st, e.common.names, e.children);
            } else if e.element_type == ElementType::Target {
                match e.extra {
                    ExtraView::Target(t) => match t.refuri {
                        Some(u) => lemma_define_targets(st, e.common.names, u),
                        None => {},
                    },
                    _ => {},
                }
            } else if e.element_type == ElementType::FootnoteReference {
                let s1 = super::pass2::reference_number(p1, st, e).1;
                assert(s1.sym_refs == st.sym_refs && s1.num_refs == st.num_refs);
                if e.common.ids.len() > 0 {
                    let k = super::pass2::reference_number(p1, st, e).0;
                    if k is Some {
                        lemma_insert_unique(s1.sym_refs, e.common.ids[0], k.unwrap());
                        lemma_insert_unique(s1.num_refs, e.common.ids[0], k.unwrap());
                    }
                }
                lemma_p2_nodes(p1, super::pass2::record_reference(p1, st, e), e.children);
            } else if !super::pass2::reference_named(e) {
                lemma_p2_nodes(p1, P2 { ok: false, ..st }, e.children);
            } else {
                lemma_p2_nodes(p1, st, e.children);
            }
        },
    }
}

proof fn lemma_p2_nodes(p1: P1, st: P2, ns: Seq<NodeView>)
    requires
        p2_unique(st),
    ensures
        p2_unique(p2_nodes(p1, st, ns)),
    decreases ns, 1nat,
{
    if ns.len() > 0 {
        let pre = ns.subrange(0, ns.len() - 1);
        lemma_p2_nodes(p1, st, pre);
        lemma_p2_node(p1, p2_nodes(p1, st, pre), ns[ns.len() - 1]);
    }
}

proof fn lemma_first_key_with(m: Seq<(Seq<char>, int)>, k: int)
    ensures
        first_key_with(m, k) matches Some(f) ==> exists|i: int| 0 <= i < m.len() && #[trigger] m[i] == (f, k),
    decreases m.len(),
{
    if m.len() > 0 {
        lemma_first_key_with(m.drop_last(), k);
        match first_key_with(m.drop_last(), k) {
            Some(f) => {
                let i = choose|i: int| 0 <= i < m.drop_last().len() && #[trigger] m.drop_last()[i] == (f, k);
                assert(m[i] == m.drop_last()[i]);
            },
            None => {
                if m.last().1 == k {
                    assert(m[m.len() - 1] == (m.last().0, k));
                }
            },
        }
    }
}

proof fn lemma_keys_with(m: Seq<(Seq<char>, int)>, k: int, i: int)
    requires
        0 <= i < m.len(),
        m[i].1 == k,
    ensures
        keys_with(m, k).contains(m[i].0),
    decreases m.len(),
{
    if i < m.len() - 1 {
        lemma_keys_with(m.drop_last(), k, i);
        assert(m.drop_last()[i] == m[i]);
        let w = keys_with(m.drop_last(), k);
        let j = choose|j: int| 0 <= j < w.len() && w[j] == m[i].0;
        if m.last().1 == k {
            assert(w.push(m.last().0)[j] == m[i].0);
        }
    } else {
        assert(keys_with(m, k).last() == m[i].0);
    }
}

/// In a number map with unique keys: the first footnote named for number `k` is bound to
/// `k`, and a reference bound to `k` is among the keys bound to `k`.
pub proof fn law_number_map_links(m: Seq<(Seq<char>, int)>, k: int, f: Seq<char>, rid: Seq<char>)
    requires
        keys_unique(m),
    ensures
        first_key_with(m, k) == Some(f) ==> assoc_get(m, f) == Some(k),
        assoc_get(m, rid) == Some(k) ==> keys_with(m, k).contains(rid),
{
    lemma_first_key_with(m, k);
    if first_key_with(m, k) == Some(f) {
        let i = choose|i: int| 0 <= i < m.len() && #[trigger] m[i] == (f, k);
        assert forall|j: int| 0 <= j < i implies #[trigger] m[j].0 != f by {
            assert(m[j].0 != m[i].0);
        }
        lemma_key_index_first(m, f, i);
    }
    lemma_key_index_bounds(m, rid);
    if assoc_get(m, rid) == Some(k) {
        lemma_keys_with(m, k, key_index(m, rid));
    }
}

/// Footnotes and their references agree after the standard transforms. For either kind
/// of automatic numbering: a reference numbered `k` is tied to the first footnote numbered
/// `k` (`refid`), and that footnote is numbered `k` too; and every reference numbered `k`
/// is among the back references that the footnotes numbered `k` list.
pub proof fn law_footnote_references_agree(d: DocumentView, auto: Option<FootnoteType>, k: int, f: Seq<char>, rid: Seq<char>)
    ensures
        ({
            let r1 = p1_nodes(p1_start(), d.children);
            let s2 = p2_nodes(r1.0, p2_start(), r1.1);
            &&& first_key_with(footnote_numbers(r1.0, auto), k) == Some(f) ==> assoc_get(footnote_numbers(r1.0, auto), f) == Some(k)
            &&& assoc_get(reference_numbers(s2, auto), rid) == Some(k) ==> keys_with(reference_numbers(s2, auto), k).contains(rid)
        }),
{
    let r1 = p1_nodes(p1_start(), d.children);
    lemma_p1_nodes(p1_start(), d.children);
    let s2 = p2_nodes(r1.0, p2_start(), r1.1);
    lemma_p2_nodes(r1.0, p2_start(), r1.1);
    law_number_map_links(footnote_numbers(r1.0, auto), k, f, rid);
    law_number_map_links(reference_numbers(s2, auto), k, f, rid);
}

} // verus!
