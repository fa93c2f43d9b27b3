//! What the standard transforms remove: substitution definitions, once their texts have
//! taken the place of the references to them.
use vstd::prelude::*;

use super::assoc::{assoc_get, assoc_insert, key_index, lemma_key_index_bounds};
use super::pass1::{footnote_number, p1_node, p1_nodes, record_footnote, P1};
use super::pass2::{define_substitutions, define_targets, p2_node, p2_nodes, p2_start, P2};
use super::pass3::{p3_node, p3_nodes, substitute};
use super::spec_standard_transform;
use crate::element_categories::ElementType;
use crate::elements::{DocumentView, NodeView};
use super::pass1::p1_start;
use super::numbers::LabelNumber;

verus! {

/// Whether no node of `ns`, at any depth, is an element of type `t`.
pub open spec fn nodes_free_of(t: ElementType, ns: Seq<NodeView>) -> bool
    decreases ns, 1nat,
{
    if ns.len() == 0 {
        true
    } else {
        nodes_free_of(t, ns.subrange(0, ns.len() - 1)) && node_free_of(t, ns[ns.len() - 1])
    }
}

/// Whether neither a node nor anything inside it is an element of type `t`.
pub open spec fn node_free_of(t: ElementType, n: NodeView) -> bool
    decreases n, 0nat,
{
    match n {
        NodeView::Text(_) => true,
        NodeView::Element(e) => e.element_type != t && nodes_free_of(t, e.children),
    }
}

/// The element types whose children the transforms take over as they are: substitution
/// definitions and references, and references.
pub open spec fn kept_whole(t: ElementType) -> bool {
    t == ElementType::SubstitutionDefinition || t == ElementType::SubstitutionReference
        || t == ElementType::Reference
}

/// Whether no substitution definition in `ns` stands inside a substitution definition, a
/// substitution reference or a reference.
pub open spec fn definitions_placed(ns: Seq<NodeView>) -> bool
    decreases ns, 1nat,
{
    if ns.len() == 0 {
        true
    } else {
        definitions_placed(ns.subrange(0, ns.len() - 1)) && definition_placed(ns[ns.len() - 1])
    }
}

/// Whether no substitution definition in a node stands inside a substitution definition,
/// a substitution reference or a reference.
pub open spec fn definition_placed(n: NodeView) -> bool
    decreases n, 0nat,
{
    match n {
        NodeView::Text(_) => true,
        NodeView::Element(e) => if kept_whole(e.element_type) {
            nodes_free_of(ElementType::SubstitutionDefinition, e.children)
        } else {
            definitions_placed(e.children)
        },
    }
}

pub(crate) proof fn lemma_free_push(t: ElementType, ns: Seq<NodeView>, n: NodeView)
    ensures
        nodes_free_of(t, ns.push(n)) == (nodes_free_of(t, ns) && node_free_of(t, n)),
{
    assert(ns.push(n).subrange(0, ns.len() as int) =~= ns);
}

pub(crate) proof fn lemma_free_single(t: ElementType, n: NodeView)
    ensures
        nodes_free_of(t, seq![n]) == node_free_of(t, n),
{
    assert(nodes_free_of(t, Seq::<NodeView>::empty()));
    lemma_free_push(t, Seq::empty(), n);
    assert(Seq::<NodeView>::empty().push(n) =~= seq![n]);
}

proof fn lemma_free_concat(t: ElementType, a: Seq<NodeView>, b: Seq<NodeView>)
    ensures
        nodes_free_of(t, a + b) == (nodes_free_of(t, a) && nodes_free_of(t, b)),
    decreases b.len(),
{
    if b.len() == 0 {
        assert(a + b =~= a);
    } else {
        let bl = b.subrange(0, b.len() - 1);
        lemma_free_concat(t, a, bl);
        assert(a + b =~= (a + bl).push(b[b.len() - 1]));
        assert(b =~= bl.push(b[b.len() - 1]));
        lemma_free_push(t, a + bl, b[b.len() - 1]);
        lemma_free_push(t, bl, b[b.len() - 1]);
    }
}

proof fn lemma_placed_push(ns: Seq<NodeView>, n: NodeView)
    ensures
        definitions_placed(ns.push(n)) == (definitions_placed(ns) && definition_placed(n)),
{
    assert(ns.push(n).subrange(0, ns.len() as int) =~= ns);
}

proof fn lemma_free_node_placed(n: NodeView)
    requires
        node_free_of(ElementType::SubstitutionDefinition, n),
    ensures
        definition_placed(n),
    decreases n, 0nat,
{
    match n {
        NodeView::Text(_) => {},
        NodeView::Element(e) => {
            if !kept_whole(e.element_type) {
                lemma_free_nodes_placed(e.children);
            }
        },
    }
}

proof fn lemma_free_nodes_placed(ns: Seq<NodeView>)
    requires
        nodes_free_of(ElementType::SubstitutionDefinition, ns),
    ensures
        definitions_placed(ns),
    decreases ns, 1nat,
{
    if ns.len() > 0 {
        lemma_free_nodes_placed(ns.subrange(0, ns.len() - 1));
        lemma_free_node_placed(ns[ns.len() - 1]);
    }
}

/// The first pass keeps nodes free of substitution definitions, and keeps substitution
/// definitions where they may stand.
proof fn lemma_p1_node(st: P1, n: NodeView)
    ensures
        node_free_of(ElementType::SubstitutionDefinition, n)
            ==> node_free_of(ElementType::SubstitutionDefinition, p1_node(st, n).1),
        definition_placed(n) ==> definition_placed(p1_node(st, n).1),
    decreases n, 0nat,
{
    let sd = ElementType::SubstitutionDefinition;
    match n {
        NodeView::Text(_) => {},
        NodeView::Element(e) => {
            if e.element_type == ElementType::Footnote {
                match footnote_number(st, e) {
                    LabelNumber::Invalid(m) => {
                        let r = p1_node(st, n).1;
                        let inner = r->Element_0.children[0];
                        lemma_free_single(sd, NodeView::Text(m));
                        lemma_free_single(sd, inner);
                        assert(definitions_placed(Seq::<NodeView>::empty()));
                        lemma_placed_push(Seq::empty(), NodeView::Text(m));
                        assert(Seq::<NodeView>::empty().push(NodeView::Text(m)) =~= seq![NodeView::Text(m)]);
                        lemma_placed_push(Seq::empty(), inner);
                        assert(Seq::<NodeView>::empty().push(inner) =~= seq![inner]);
                    },
                    LabelNumber::Number(k) => {
                        let named = e.common.names.len() > 0;
                        let n_anon = if named {
                            st.n_anon
                        } else {
                            super::pass1::sat_inc(st.n_anon)
                        };
                        let id = if named {
                            e.common.names[0]
                        } else {
                            super::pass1::footnote_prefix() + super::numbers::decimal(n_anon as nat)
                        };
                        lemma_p1_nodes(record_footnote(st, e, id, k as int, n_anon), e.children);
                    },
                }
            } else if e.element_type == ElementType::FootnoteReference {
                let k = super::pass1::sat_inc(st.n_refs);
                lemma_p1_nodes(P1 { n_refs: k, ..st }, e.children);
            } else {
                lemma_p1_nodes(st, e.children);
            }
        },
    }
}

proof fn lemma_p1_nodes(st: P1, ns: Seq<NodeView>)
    ensures
        nodes_free_of(ElementType::SubstitutionDefinition, ns)
            ==> nodes_free_of(ElementType::SubstitutionDefinition, p1_nodes(st, ns).1),
        definitions_placed(ns) ==> definitions_placed(p1_nodes(st, ns).1),
    decreases ns, 1nat,
{
    if ns.len() > 0 {
        let pre = ns.subrange(0, ns.len() - 1);
        lemma_p1_nodes(st, pre);
        let r = p1_nodes(st, pre);
        lemma_p1_node(r.0, ns[ns.len() - 1]);
        let x = p1_node(r.0, ns[ns.len() - 1]);
        lemma_free_push(ElementType::SubstitutionDefinition, r.1, x.1);
        lemma_placed_push(r.1, x.1);
    }
}

/// Whether every substitution text that the second pass has gathered is free of
/// substitution definitions.
pub open spec fn texts_free(st: P2) -> bool {
    &&& forall|i: int| 0 <= i < st.subst.len()
        ==> nodes_free_of(ElementType::SubstitutionDefinition, #[trigger] st.subst[i].1)
    &&& forall|i: int| 0 <= i < st.nsubst.len()
        ==> nodes_free_of(ElementType::SubstitutionDefinition, #[trigger] st.nsubst[i].1)
}

proof fn lemma_insert_free(m: Seq<(Seq<char>, Seq<NodeView>)>, k: Seq<char>, v: Seq<NodeView>)
    requires
        forall|i: int| 0 <= i < m.len()
            ==> nodes_free_of(ElementType::SubstitutionDefinition, #[trigger] m[i].1),
        nodes_free_of(ElementType::SubstitutionDefinition, v),
    ensures
        forall|i: int| 0 <= i < assoc_insert(m, k, v).len()
            ==> nodes_free_of(ElementType::SubstitutionDefinition, #[trigger] assoc_insert(m, k, v)[i].1),
{
    lemma_key_index_bounds(m, k);
    let r = assoc_insert(m, k, v);
    assert forall|i: int| 0 <= i < r.len() implies nodes_free_of(ElementType::SubstitutionDefinition, #[trigger] r[i].1) by {
        if key_index(m, k) >= 0 {
            if i != key_index(m, k) {
                assert(r[i] == m[i]);
            }
        } else if i < m.len() {
            assert(r[i] == m[i]);
        }
    }
}

proof fn lemma_define_substitutions(st: P2, names: Seq<Seq<char>>, content: Seq<NodeView>)
    requires
        texts_free(st),
        nodes_free_of(ElementType::SubstitutionDefinition, content),
    ensures
        texts_free(define_substitutions(st, names, content)),
    decreases names.len(),
{
    if names.len() > 0 {
        lemma_define_substitutions(st, names.drop_last(), content);
        let s1 = define_substitutions(st, names.drop_last(), content);
        lemma_insert_free(s1.subst, names.last(), content);
        lemma_insert_free(s1.nsubst, crate::text::lowercase(names.last()), content);
    }
}

proof fn lemma_define_targets(st: P2, names: Seq<Seq<char>>, url: Seq<char>)
    ensures
        define_targets(st, names, url).subst == st.subst,
        define_targets(st, names, url).nsubst == st.nsubst,
    decreases names.len(),
{
    if names.len() > 0 {
        lemma_define_targets(st, names.drop_last(), url);
    }
}

/// The second pass gathers substitution texts free of substitution definitions.
proof fn lemma_p2_node(p1: P1, st: P2, n: NodeView)
    requires
        texts_free(st),
        definition_placed(n),
    ensures
        texts_free(p2_node(p1, st, n)),
    decreases n, 0nat,
{
    match n {
        NodeView::Text(_) => {},
        NodeView::Element(e) => {
            if e.element_type == ElementType::SubstitutionDefinition {
                lemma_define_substitutions(st, e.common.names, e.children);
            } else if e.element_type == ElementType::Target {
                match e.extra {
                    crate::elements::ExtraView::Target(t) => match t.refuri {
                        Some(u) => lemma_define_targets(st, e.common.names, u),
                        None => {},
                    },
                    _ => {},
                }
            } else if e.element_type == ElementType::FootnoteReference {
                let s1 = super::pass2::record_reference(p1, st, e);
                assert(s1.subst == st.subst && s1.nsubst == st.nsubst);
                lemma_p2_nodes(p1, s1, e.children);
            } else {
                if kept_whole(e.element_type) {
                    lemma_free_nodes_placed(e.children);
                }
                if !super::pass2::reference_named(e) {
                    lemma_p2_nodes(p1, P2 { ok: false, ..st }, e.children);
                } else {
                    lemma_p2_nodes(p1, st, e.children);
                }
            }
        },
    }
}

proof fn lemma_p2_nodes(p1: P1, st: P2, ns: Seq<NodeView>)
    requires
        texts_free(st),
        definitions_placed(ns),
    ensures
        texts_free(p2_nodes(p1, st, ns)),
    decreases ns, 1nat,
{
    if ns.len() > 0 {
        let pre = ns.subrange(0, ns.len() - 1);
        lemma_p2_nodes(p1, st, pre);
        lemma_p2_node(p1, p2_nodes(p1, st, pre), ns[ns.len() - 1]);
    }
}

proof fn lemma_substitute(p2: P2, name: Seq<char>)
    requires
        texts_free(p2),
    ensures
        nodes_free_of(ElementType::SubstitutionDefinition, substitute(p2, name)),
{
    let sd = ElementType::SubstitutionDefinition;
    lemma_key_index_bounds(p2.subst, name);
    lemma_key_index_bounds(p2.nsubst, crate::text::lowercase(name));
    match assoc_get(p2.subst, name) {
        Some(c) => {
            assert(c == p2.subst[key_index(p2.subst, name)].1);
        },
        None => match assoc_get(p2.nsubst, crate::text::lowercase(name)) {
            Some(c) => {
                assert(c == p2.nsubst[key_index(p2.nsubst, crate::text::lowercase(name))].1);
            },
            None => {
                let u = super::pass3::undefined_substitution(name);
                lemma_free_single(sd, u->Element_0.children[0]);
                lemma_free_single(sd, u);
            },
        },
    }
}

/// The third pass leaves no substitution definition.
proof fn lemma_p3_node(p1: P1, p2: P2, n: NodeView)
    requires
        texts_free(p2),
        definition_placed(n),
    ensures
        nodes_free_of(ElementType::SubstitutionDefinition, p3_node(p1, p2, n)),
    decreases n, 0nat,
{
    let sd = ElementType::SubstitutionDefinition;
    match n {
        NodeView::Text(_) => {
            lemma_free_single(sd, n);
        },
        NodeView::Element(e) => {
            lemma_free_single(sd, n);
            if e.element_type == sd {
            } else if e.element_type == ElementType::SubstitutionReference {
                match e.extra {
                    crate::elements::ExtraView::SubstitutionReference(names) => if names.len() > 0 {
                        lemma_substitute(p2, names[0]);
                    },
                    _ => {},
                }
            } else if e.element_type == ElementType::Reference {
                let r = p3_node(p1, p2, n);
                if r.len() == 1 {
                    lemma_free_single(sd, r[0]);
                    assert(r =~= seq![r[0]]);
                }
            } else {
                lemma_p3_nodes(p1, p2, e.children);
                let ch = p3_nodes(p1, p2, e.children);
                let r = p3_node(p1, p2, n);
                assert(r.len() == 1);
                assert(r =~= seq![r[0]]);
                lemma_free_single(sd, r[0]);
                if e.element_type == ElementType::Footnote || e.element_type == ElementType::FootnoteReference {
                    let children = r[0]->Element_0.children;
                    if children.len() != ch.len() {
                        let first = children[0];
                        assert(children =~= seq![first] + ch);
                        lemma_free_concat(sd, seq![first], ch);
                        lemma_free_single(sd, first);
                        if first is Element {
                            lemma_free_single(sd, first->Element_0.children[0]);
                        }
                    } else {
                        assert(children =~= ch);
                    }
                }
            }
        },
    }
}

proof fn lemma_p3_nodes(p1: P1, p2: P2, ns: Seq<NodeView>)
    requires
        texts_free(p2),
        definitions_placed(ns),
    ensures
        nodes_free_of(ElementType::SubstitutionDefinition, p3_nodes(p1, p2, ns)),
    decreases ns, 1nat,
{
    if ns.len() == 0 {
        assert(p3_nodes(p1, p2, ns) =~= Seq::<NodeView>::empty());
    } else {
        let pre = ns.subrange(0, ns.len() - 1);
        lemma_p3_nodes(p1, p2, pre);
        lemma_p3_node(p1, p2, ns[ns.len() - 1]);
        lemma_free_concat(ElementType::SubstitutionDefinition, p3_nodes(p1, p2, pre), p3_node(p1, p2, ns[ns.len() - 1]));
    }
}

/// After the standard transforms no substitution definition remains, at any depth, of a
/// document none of whose substitution definitions stands inside a substitution
/// definition, a substitution reference or a reference (where the transforms keep the
/// children as they are).
pub proof fn law_transform_removes_definitions(d: DocumentView)
    requires
        definitions_placed(d.children),
    ensures
        nodes_free_of(ElementType::SubstitutionDefinition, spec_standard_transform(d).children),
{
    let r1 = p1_nodes(p1_start(), d.children);
    lemma_p1_nodes(p1_start(), d.children);
    assert(texts_free(p2_start()));
    lemma_p2_nodes(r1.0, p2_start(), r1.1);
    lemma_p3_nodes(r1.0, p2_nodes(r1.0, p2_start(), r1.1), r1.1);
}

} // verus!
