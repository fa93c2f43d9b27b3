//! Footnote references and footnotes agree in the transformed tree: each element of the
//! tree carries what the number maps of the passes give it, and by those maps a reference
//! that names a footnote has that footnote's number and is among its back references.
use vstd::prelude::*;

use super::assoc::{assoc_get, key_index, lemma_key_index_bounds};
use super::numbers::LabelNumber;
use super::pass1::{footnote_number, p1_node, p1_nodes, p1_start, record_footnote, P1};
use super::pass2::{define_substitutions, define_targets, p2_node, p2_nodes, p2_start, P2};
use super::pass3::{first_key_with, footnote_numbers, keys_with, number_of, p3_node, p3_nodes, reference_numbers, substitute};
use super::removal::{kept_whole, lemma_free_push, lemma_free_single, node_free_of, nodes_free_of};
use super::spec_standard_transform;
use crate::attribute_types::FootnoteType;
use crate::element_categories::ElementType;
use crate::elements::{DocumentView, ElemView, ExtraView, NodeView};

verus! {

/// What the maps of the passes give an element: a footnote reference that names a
/// footnote is numbered, and names the first footnote of its number; a numbered footnote
/// lists as back references the references of its number.
pub open spec fn elem_linked(p1: P1, p2: P2, e: ElemView) -> bool {
    &&& e.element_type == ElementType::FootnoteReference ==> match e.extra {
        ExtraView::FootnoteReference(fr) => fr.refid is Some ==> (number_of(reference_numbers(p2, fr.auto), e.common.ids) matches Some(k)
            && fr.refid == first_key_with(footnote_numbers(p1, fr.auto), k)),
        _ => true,
    }
    &&& e.element_type == ElementType::Footnote ==> match e.extra {
        ExtraView::Footnote(fv) => number_of(footnote_numbers(p1, fv.auto), e.common.ids) matches Some(k)
            ==> fv.backrefs == keys_with(reference_numbers(p2, fv.auto), k),
        _ => true,
    }
}

/// Whether every element of `ns`, at any depth, carries what the maps give it.
pub open spec fn nodes_linked(p1: P1, p2: P2, ns: Seq<NodeView>) -> bool
    decreases ns, 1nat,
{
    if ns.len() == 0 {
        true
    } else {
        nodes_linked(p1, p2, ns.subrange(0, ns.len() - 1)) && node_linked(p1, p2, ns[ns.len() - 1])
    }
}

pub open spec fn node_linked(p1: P1, p2: P2, n: NodeView) -> bool
    decreases n, 0nat,
{
    match n {
        NodeView::Text(_) => true,
        NodeView::Element(e) => elem_linked(p1, p2, e) && nodes_linked(p1, p2, e.children),
    }
}

/// Whether a footnote reference names no footnote yet.
pub open spec fn elem_unlinked(e: ElemView) -> bool {
    e.element_type == ElementType::FootnoteReference ==> match e.extra {
        ExtraView::FootnoteReference(fr) => fr.refid is None,
        _ => true,
    }
}

/// Whether no footnote reference of `ns`, at any depth, names a footnote yet.
pub open spec fn nodes_unlinked(ns: Seq<NodeView>) -> bool
    decreases ns, 1nat,
{
    if ns.len() == 0 {
        true
    } else {
        nodes_unlinked(ns.subrange(0, ns.len() - 1)) && node_unlinked(ns[ns.len() - 1])
    }
}

pub open spec fn node_unlinked(n: NodeView) -> bool
    decreases n, 0nat,
{
    match n {
        NodeView::Text(_) => true,
        NodeView::Element(e) => elem_unlinked(e) && nodes_unlinked(e.children),
    }
}

/// Whether no footnote of `ns` stands inside a substitution definition, a substitution
/// reference or a reference, whose children the transforms keep as they are.
pub open spec fn footnotes_placed(ns: Seq<NodeView>) -> bool
    decreases ns, 1nat,
{
    if ns.len() == 0 {
        true
    } else {
        footnotes_placed(ns.subrange(0, ns.len() - 1)) && footnote_placed(ns[ns.len() - 1])
    }
}

pub open spec fn footnote_placed(n: NodeView) -> bool
    decreases n, 0nat,
{
    match n {
        NodeView::Text(_) => true,
        NodeView::Element(e) => if kept_whole(e.element_type) {
            nodes_free_of(ElementType::Footnote, e.children)
        } else {
            footnotes_placed(e.children)
        },
    }
}

proof fn lemma_push(p1: P1, p2: P2, ns: Seq<NodeView>, n: NodeView)
    ensures
        nodes_linked(p1, p2, ns.push(n)) == (nodes_linked(p1, p2, ns) && node_linked(p1, p2, n)),
        nodes_unlinked(ns.push(n)) == (nodes_unlinked(ns) && node_unlinked(n)),
        footnotes_placed(ns.push(n)) == (footnotes_placed(ns) && footnote_placed(n)),
{
    assert(ns.push(n).subrange(0, ns.len() as int) =~= ns);
}

proof fn lemma_single(p1: P1, p2: P2, n: NodeView)
    ensures
        nodes_linked(p1, p2, seq![n]) == node_linked(p1, p2, n),
        nodes_unlinked(seq![n]) == node_unlinked(n),
        footnotes_placed(seq![n]) == footnote_placed(n),
{
    assert(nodes_linked(p1, p2, Seq::<NodeView>::empty()));
    assert(nodes_unlinked(Seq::<NodeView>::empty()));
    assert(footnotes_placed(Seq::<NodeView>::empty()));
    lemma_push(p1, p2, Seq::empty(), n);
    assert(Seq::<NodeView>::empty().push(n) =~= seq![n]);
}

proof fn lemma_concat(p1: P1, p2: P2, a: Seq<NodeView>, b: Seq<NodeView>)
    ensures
        nodes_linked(p1, p2, a + b) == (nodes_linked(p1, p2, a) && nodes_linked(p1, p2, b)),
    decreases b.len(),
{
    if b.len() == 0 {
        assert(a + b =~= a);
    } else {
        let bl = b.subrange(0, b.len() - 1);
        lemma_concat(p1, p2, a, bl);
        assert(a + b =~= (a + bl).push(b[b.len() - 1]));
        assert(b =~= bl.push(b[b.len() - 1]));
        lemma_push(p1, p2, a + bl, b[b.len() - 1]);
        lemma_push(p1, p2, bl, b[b.len() - 1]);
    }
}

/// Nodes that hold no footnote and no reference that names a footnote carry what the maps
/// give them, as they are.
proof fn lemma_raw_node(p1: P1, p2: P2, n: NodeView)
    requires
        node_unlinked(n),
        node_free_of(ElementType::Footnote, n),
    ensures
        node_linked(p1, p2, n),
    decreases n, 0nat,
{
    match n {
        NodeView::Text(_) => {},
        NodeView::Element(e) => lemma_raw_nodes(p1, p2, e.children),
    }
}

proof fn lemma_raw_nodes(p1: P1, p2: P2, ns: Seq<NodeView>)
    requires
        nodes_unlinked(ns),
        nodes_free_of(ElementType::Footnote, ns),
    ensures
        nodes_linked(p1, p2, ns),
    decreases ns, 1nat,
{
    if ns.len() > 0 {
        lemma_raw_nodes(p1, p2, ns.subrange(0, ns.len() - 1));
        lemma_raw_node(p1, p2, ns[ns.len() - 1]);
    }
}

proof fn lemma_free_node_placed(n: NodeView)
    requires
        node_free_of(ElementType::Footnote, n),
    ensures
        footnote_placed(n),
    decreases n, 0nat,
{
    match n {
        NodeView::Text(_) => {},
        NodeView::Element(e) => {
            if !kept_whole(e.element_type) {
                lemma_free_nodes_placed(e.children);
            }
        },
    }
}

proof fn lemma_free_nodes_placed(ns: Seq<NodeView>)
    requires
        nodes_free_of(ElementType::Footnote, ns),
    ensures
        footnotes_placed(ns),
    decreases ns, 1nat,
{
    if ns.len() > 0 {
        lemma_free_nodes_placed(ns.subrange(0, ns.len() - 1));
        lemma_free_node_placed(ns[ns.len() - 1]);
    }
}

/// The first pass names no footnote from a reference, keeps footnotes where they were
/// placed, and makes no footnote.
proof fn lemma_p1_node(st: P1, n: NodeView)
    ensures
        node_unlinked(n) ==> node_unlinked(p1_node(st, n).1),
        footnote_placed(n) ==> footnote_placed(p1_node(st, n).1),
        node_free_of(ElementType::Footnote, n) ==> node_free_of(ElementType::Footnote, p1_node(st, n).1),
    decreases n, 0nat,
{
    let ft = ElementType::Footnote;
    match n {
        NodeView::Text(_) => {},
        NodeView::Element(e) => {
            if e.element_type == ElementType::Footnote {
                match footnote_number(st, e) {
                    LabelNumber::Invalid(m) => {
                        let r = p1_node(st, n).1;
                        let inner = r->Element_0.children[0];
                        let t = NodeView::Text(m);
                        lemma_single(st_p1_dummy(), p2_start(), t);
                        lemma_single(st_p1_dummy(), p2_start(), inner);
                        lemma_free_single(ft, t);
                        lemma_free_single(ft, inner);
                    },
                    LabelNumber::Number(k) => {
                        let named = e.common.names.len() > 0;
                        let n_anon = if named {
                            st.n_anon
                        } else {
                            super::pass1::sat_inc(st.n_anon)
                        };
                        let id = if named {
                            e.common.names[0]
                        } else {
                            super::pass1::footnote_prefix() + super::numbers::decimal(n_anon as nat)
                        };
                        lemma_p1_nodes(record_footnote(st, e, id, k as int, n_anon), e.children);
                    },
                }
            } else if e.element_type == ElementType::FootnoteReference {
                let k = super::pass1::sat_inc(st.n_refs);
                lemma_p1_nodes(P1 { n_refs: k, ..st }, e.children);
            } else {
                lemma_p1_nodes(st, e.children);
            }
        },
    }
}

/// A first-pass state for lemmas that do not look at it.
spec fn st_p1_dummy() -> P1 {
    p1_start()
}

proof fn lemma_p1_nodes(st: P1, ns: Seq<NodeView>)
    ensures
        nodes_unlinked(ns) ==> nodes_unlinked(p1_nodes(st, ns).1),
        footnotes_placed(ns) ==> footnotes_placed(p1_nodes(st, ns).1),
        nodes_free_of(ElementType::Footnote, ns) ==> nodes_free_of(ElementType::Footnote, p1_nodes(st, ns).1),
    decreases ns, 1nat,
{
    if ns.len() > 0 {
        let pre = ns.subrange(0, ns.len() - 1);
        lemma_p1_nodes(st, pre);
        let r = p1_nodes(st, pre);
        lemma_p1_node(r.0, ns[ns.len() - 1]);
        let x = p1_node(r.0, ns[ns.len() - 1]);
        lemma_push(st_p1_dummy(), p2_start(), r.1, x.1);
        lemma_free_push(ElementType::Footnote, r.1, x.1);
    }
}

/// Whether the substitution texts gathered hold no footnote and no reference that names a
/// footnote.
pub open spec fn texts_raw(st: P2) -> bool {
    &&& forall|i: int| 0 <= i < st.subst.len() ==> nodes_unlinked(#[trigger] st.subst[i].1)
        && nodes_free_of(ElementType::Footnote, st.subst[i].1)
    &&& forall|i: int| 0 <= i < st.nsubst.len() ==> nodes_unlinked(#[trigger] st.nsubst[i].1)
        && nodes_free_of(ElementType::Footnote, st.nsubst[i].1)
}

proof fn lemma_insert_raw(m: Seq<(Seq<char>, Seq<NodeView>)>, k: Seq<char>, v: Seq<NodeView>)
    requires
        forall|i: int| 0 <= i < m.len() ==> nodes_unlinked(#[trigger] m[i].1) && nodes_free_of(ElementType::Footnote, m[i].1),
        nodes_unlinked(v),
        nodes_free_of(ElementType::Footnote, v),
    ensures
        forall|i: int| 0 <= i < super::assoc::assoc_insert(m, k, v).len() ==> nodes_unlinked(#[trigger] super::assoc::assoc_insert(m, k, v)[i].1)
            && nodes_free_of(ElementType::Footnote, super::assoc::assoc_insert(m, k, v)[i].1),
{
    lemma_key_index_bounds(m, k);
    let r = super::assoc::assoc_insert(m, k, v);
    assert forall|i: int| 0 <= i < r.len() implies nodes_unlinked(#[trigger] r[i].1) && nodes_free_of(ElementType::Footnote, r[i].1) by {
        if key_index(m, k) >= 0 {
            if i != key_index(m, k) {
                assert(r[i] == m[i]);
            }
        } else if i < m.len() {
            assert(r[i] == m[i]);
        }
    }
}

proof fn lemma_define_substitutions(st: P2, names: Seq<Seq<char>>, content: Seq<NodeView>)
    requires
        texts_raw(st),
        nodes_unlinked(content),
        nodes_free_of(ElementType::Footnote, content),
    ensures
        texts_raw(define_substitutions(st, names, content)),
    decreases names.len(),
{
    if names.len() > 0 {
        lemma_define_substitutions(st, names.drop_last(), content);
        let s1 = define_substitutions(st, names.drop_last(), content);
        lemma_insert_raw(s1.subst, names.last(), content);
        lemma_insert_raw(s1.nsubst, crate::text::lowercase(names.last()), content);
    }
}

proof fn lemma_define_targets(st: P2, names: Seq<Seq<char>>, url: Seq<char>)
    ensures
        define_targets(st, names, url).subst == st.subst,
        define_targets(st, names, url).nsubst == st.nsubst,
    decreases names.len(),
{
    if names.len() > 0 {
        lemma_define_targets(st, names.drop_last(), url);
    }
}

proof fn lemma_p2_node(p1: P1, st: P2, n: NodeView)
    requires
        texts_raw(st),
        node_unlinked(n),
        footnote_placed(n),
    ensures
        texts_raw(p2_node(p1, st, n)),
    decreases n, 0nat,
{
    match n {
        NodeView::Text(_) => {},
        NodeView::Element(e) => {
            if e.element_type == ElementType::SubstitutionDefinition {
                lemma_define_substitutions(st, e.common.names, e.children);
            } else if e.element_type == ElementType::Target {
                match e.extra {
                    ExtraView::Target(t) => match t.refuri {
                        Some(u) => lemma_define_targets(st, e.common.names, u),
                        None => {},
                    },
                    _ => {},
                }
            } else {
                if kept_whole(e.element_type) {
                    lemma_free_nodes_placed(e.children);
                }
                if e.element_type == ElementType::FootnoteReference {
                    let s1 = super::pass2::record_reference(p1, st, e);
                    assert(s1.subst == st.subst && s1.nsubst == st.nsubst);
                    lemma_p2_nodes(p1, s1, e.children);
                } else if !super::pass2::reference_named(e) {
                    lemma_p2_nodes(p1, P2 { ok: false, ..st }, e.children);
                } else {
                    lemma_p2_nodes(p1, st, e.children);
                }
            }
        },
    }
}

proof fn lemma_p2_nodes(p1: P1, st: P2, ns: Seq<NodeView>)
    requires
        texts_raw(st),
        nodes_unlinked(ns),
        footnotes_placed(ns),
    ensures
        texts_raw(p2_nodes(p1, st, ns)),
    decreases ns, 1nat,
{
    if ns.len() > 0 {
        let pre = ns.subrange(0, ns.len() - 1);
        lemma_p2_nodes(p1, st, pre);
        lemma_p2_node(p1, p2_nodes(p1, st, pre), ns[ns.len() - 1]);
    }
}

proof fn lemma_substitute(p1: P1, p2: P2, name: Seq<char>)
    requires
        texts_raw(p2),
    ensures
        nodes_linked(p1, p2, substitute(p2, name)),
{
    lemma_key_index_bounds(p2.subst, name);
    lemma_key_index_bounds(p2.nsubst, crate::text::lowercase(name));
    match assoc_get(p2.subst, name) {
        Some(c) => {
            assert(c == p2.subst[key_index(p2.subst, name)].1);
            lemma_raw_nodes(p1, p2, c);
        },
        None => match assoc_get(p2.nsubst, crate::text::lowercase(name)) {
            Some(c) => {
                assert(c == p2.nsubst[key_index(p2.nsubst, crate::text::lowercase(name))].1);
                lemma_raw_nodes(p1, p2, c);
            },
            None => {
                let u = super::pass3::undefined_substitution(name);
                lemma_single(p1, p2, u->Element_0.children[0]);
                lemma_single(p1, p2, u);
            },
        },
    }
}

/// The third pass gives each element what the maps give it.
proof fn lemma_p3_node(p1: P1, p2: P2, n: NodeView)
    requires
        texts_raw(p2),
        node_unlinked(n),
        footnote_placed(n),
    ensures
        nodes_linked(p1, p2, p3_node(p1, p2, n)),
    decreases n, 0nat,
{
    match n {
        NodeView::Text(_) => {
            lemma_single(p1, p2, n);
        },
        NodeView::Element(e) => {
            lemma_single(p1, p2, n);
            if e.element_type == ElementType::SubstitutionDefinition {
            } else if e.element_type == ElementType::SubstitutionReference {
                lemma_raw_nodes(p1, p2, e.children);
                match e.extra {
                    ExtraView::SubstitutionReference(names) => if names.len() > 0 {
                        lemma_substitute(p1, p2, names[0]);
                    },
                    _ => {},
                }
            } else if e.element_type == ElementType::Reference {
                lemma_raw_nodes(p1, p2, e.children);
                let r = p3_node(p1, p2, n);
                if r.len() == 1 {
                    lemma_single(p1, p2, r[0]);
                    assert(r =~= seq![r[0]]);
                }
            } else {
                lemma_p3_nodes(p1, p2, e.children);
                let ch = p3_nodes(p1, p2, e.children);
                let r = p3_node(p1, p2, n);
                assert(r.len() == 1);
                assert(r =~= seq![r[0]]);
                lemma_single(p1, p2, r[0]);
                let children = r[0]->Element_0.children;
                if e.element_type == ElementType::Footnote || e.element_type == ElementType::FootnoteReference {
                    if children.len() != ch.len() {
                        let first = children[0];
                        assert(children =~= seq![first] + ch);
                        lemma_concat(p1, p2, seq![first], ch);
                        lemma_single(p1, p2, first);
                        if first is Element {
                            lemma_single(p1, p2, first->Element_0.children[0]);
                        }
                    } else {
                        assert(children =~= ch);
                    }
                } else {
                    assert(children == ch);
                }
            }
        },
    }
}

proof fn lemma_p3_nodes(p1: P1, p2: P2, ns: Seq<NodeView>)
    requires
        texts_raw(p2),
        nodes_unlinked(ns),
        footnotes_placed(ns),
    ensures
        nodes_linked(p1, p2, p3_nodes(p1, p2, ns)),
    decreases ns, 1nat,
{
    if ns.len() == 0 {
        assert(p3_nodes(p1, p2, ns) =~= Seq::<NodeView>::empty());
    } else {
        let pre = ns.subrange(0, ns.len() - 1);
        lemma_p3_nodes(p1, p2, pre);
        lemma_p3_node(p1, p2, ns[ns.len() - 1]);
        lemma_concat(p1, p2, p3_nodes(p1, p2, pre), p3_node(p1, p2, ns[ns.len() - 1]));
    }
}

/// The maps that the standard transforms number a document's footnotes and footnote
/// references by: those of the first pass and of the second.
pub open spec fn transform_maps(d: DocumentView) -> (P1, P2) {
    let r1 = p1_nodes(p1_start(), d.children);
    (r1.0, p2_nodes(r1.0, p2_start(), r1.1))
}

/// Every element of the transformed document carries what the maps give it, where no
/// footnote reference names a footnote before the transforms and no footnote stands
/// inside a substitution definition, a substitution reference or a reference.
pub proof fn law_transformed_elements_linked(d: DocumentView)
    requires
        nodes_unlinked(d.children),
        footnotes_placed(d.children),
    ensures
        nodes_linked(transform_maps(d).0, transform_maps(d).1, spec_standard_transform(d).children),
{
    let r1 = p1_nodes(p1_start(), d.children);
    lemma_p1_nodes(p1_start(), d.children);
    assert(texts_raw(p2_start()));
    lemma_p2_nodes(r1.0, p2_start(), r1.1);
    lemma_p3_nodes(r1.0, p2_nodes(r1.0, p2_start(), r1.1), r1.1);
}

/// Two elements of a transformed document that carry what the maps give them agree: where
/// a footnote reference names the footnote whose first identifier is `f`, and both are of
/// the same kind (symbol or number), the footnote has the reference's number and lists
/// the reference's identifier among its back references.
pub proof fn law_reference_and_footnote_agree(d: DocumentView, r: ElemView, f: ElemView)
    requires
        elem_linked(transform_maps(d).0, transform_maps(d).1, r),
        elem_linked(transform_maps(d).0, transform_maps(d).1, f),
        r.element_type == ElementType::FootnoteReference,
        f.element_type == ElementType::Footnote,
        r.extra matches ExtraView::FootnoteReference(fr) && f.extra matches ExtraView::Footnote(fv)
            && (fr.auto == Some(FootnoteType::Symbol)) == (fv.auto == Some(FootnoteType::Symbol))
            && f.common.ids.len() > 0 && fr.refid == Some(f.common.ids[0]),
    ensures
        ({
            let (p1, p2) = transform_maps(d);
            let fr = r.extra->FootnoteReference_0;
            let fv = f.extra->Footnote_0;
            &&& number_of(footnote_numbers(p1, fv.auto), f.common.ids) == number_of(reference_numbers(p2, fr.auto), r.common.ids)
            &&& fv.backrefs.contains(r.common.ids[0])
        }),
{
    let (p1, p2) = transform_maps(d);
    let fr = r.extra->FootnoteReference_0;
    let fv = f.extra->Footnote_0;
    super::links::law_footnote_references_agree(d, fr.auto, 0, f.common.ids[0], r.common.ids[0]);
    let k = number_of(reference_numbers(p2, fr.auto), r.common.ids).unwrap();
    super::links::law_footnote_references_agree(d, fr.auto, k, f.common.ids[0], r.common.ids[0]);
    assert(footnote_numbers(p1, fv.auto) == footnote_numbers(p1, fr.auto));
    assert(reference_numbers(p2, fv.auto) == reference_numbers(p2, fr.auto));
}

} // verus!
