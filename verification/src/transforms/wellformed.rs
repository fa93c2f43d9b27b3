//! The standard transforms keep a document well formed: every element keeps the extra
//! attributes of its type, and every node stands where its parent's content model admits
//! it.
use vstd::prelude::*;

use super::assoc::{assoc_get, assoc_insert, key_index, lemma_key_index_bounds};
use super::numbers::LabelNumber;
use super::pass1::{footnote_number, p1_node, p1_nodes, p1_start, record_footnote, P1};
use super::pass2::{define_substitutions, define_targets, p2_node, p2_nodes, p2_start, P2};
use super::pass3::{p3_node, p3_nodes, substitute};
use super::spec_standard_transform;
use crate::element_categories::{spec_category_has, spec_content_model, Category, ContentModel, ElementType};
use crate::elements::{admits, all_fit, document_wf, lemma_document_wf_fit, node_wf, DocumentView, ExtraView, NodeView};

verus! {

/// The content model of inline text.
pub open spec fn inline_model() -> ContentModel {
    ContentModel::Of(Category::TextOrInlineElement)
}

proof fn lemma_fit_push(cm: ContentModel, ns: Seq<NodeView>, n: NodeView)
    requires
        all_fit(cm, ns),
        admits(cm, n),
        node_wf(n),
    ensures
        all_fit(cm, ns.push(n)),
{
    assert forall|i: int| 0 <= i < ns.push(n).len() implies admits(cm, #[trigger] ns.push(n)[i]) && node_wf(ns.push(n)[i]) by {
        if i < ns.len() {
            assert(ns.push(n)[i] == ns[i]);
        }
    }
}

proof fn lemma_fit_concat(cm: ContentModel, a: Seq<NodeView>, b: Seq<NodeView>)
    requires
        all_fit(cm, a),
        all_fit(cm, b),
    ensures
        all_fit(cm, a + b),
{
    assert forall|i: int| 0 <= i < (a + b).len() implies admits(cm, #[trigger] (a + b)[i]) && node_wf((a + b)[i]) by {
        if i < a.len() {
            assert((a + b)[i] == a[i]);
        } else {
            assert((a + b)[i] == b[i - a.len()]);
        }
    }
}

proof fn lemma_fit_prefix(cm: ContentModel, ns: Seq<NodeView>)
    requires
        all_fit(cm, ns),
        ns.len() > 0,
    ensures
        all_fit(cm, ns.subrange(0, ns.len() - 1)),
        admits(cm, ns[ns.len() - 1]),
        node_wf(ns[ns.len() - 1]),
{
    let pre = ns.subrange(0, ns.len() - 1);
    assert forall|i: int| 0 <= i < pre.len() implies admits(cm, #[trigger] pre[i]) && node_wf(pre[i]) by {
        assert(pre[i] == ns[i]);
    }
}

proof fn lemma_fit_single(cm: ContentModel, n: NodeView)
    requires
        admits(cm, n),
        node_wf(n),
    ensures
        all_fit(cm, seq![n]),
{
    assert(seq![n][0] == n);
}

/// A text node is well formed wherever text is admitted.
proof fn lemma_text_wf(t: Seq<char>)
    ensures
        node_wf(NodeView::Text(t)),
        admits(inline_model(), NodeView::Text(t)),
{
}

/// Whether a content model is one that a place in a tree can have: no element type's
/// content model admits footnotes or substitution references only.
pub open spec fn place_model(cm: ContentModel) -> bool {
    match cm {
        ContentModel::Only(t) => t != ElementType::Footnote && t != ElementType::SubstitutionReference,
        _ => true,
    }
}

proof fn lemma_content_model_place(t: ElementType)
    ensures
        place_model(spec_content_model(t)),
{
}

/// Where a footnote may stand, a paragraph may too.
proof fn lemma_footnote_place(cm: ContentModel)
    requires
        cm matches ContentModel::Of(cat) && spec_category_has(cat, ElementType::Footnote),
    ensures
        cm matches ContentModel::Of(cat) && spec_category_has(cat, ElementType::Paragraph),
{
}

/// Only inline content models admit substitution references.
proof fn lemma_substitution_reference_place(cm: ContentModel, n: NodeView)
    requires
        place_model(cm),
        n matches NodeView::Element(e) && e.element_type == ElementType::SubstitutionReference,
        admits(cm, n),
    ensures
        cm == inline_model(),
{
    match cm {
        ContentModel::Of(cat) => {
            assert(spec_category_has(cat, ElementType::SubstitutionReference));
        },
        _ => {},
    }
}

/// The first pass keeps every node well formed and where it was admitted.
proof fn lemma_p1_node(st: P1, cm: ContentModel, n: NodeView)
    requires
        place_model(cm),
        admits(cm, n),
        node_wf(n),
    ensures
        admits(cm, p1_node(st, n).1),
        node_wf(p1_node(st, n).1),
    decreases n, 0nat,
{
    match n {
        NodeView::Text(_) => {},
        NodeView::Element(e) => {
            let ecm = spec_content_model(e.element_type);
            lemma_content_model_place(e.element_type);
            assert(all_fit(ecm, e.children));
            if e.element_type == ElementType::Footnote {
                match footnote_number(st, e) {
                    LabelNumber::Invalid(m) => {
                        let r = p1_node(st, n).1;
                        let inner = r->Element_0.children[0];
                        lemma_text_wf(m);
                        lemma_fit_single(inline_model(), NodeView::Text(m));
                        assert(node_wf(inner));
                        lemma_fit_single(inline_model(), inner);
                        assert(node_wf(r));
                        match cm {
                            ContentModel::Of(cat) => lemma_footnote_place(cm),
                            _ => {},
                        }
                    },
                    LabelNumber::Number(k) => {
                        let named = e.common.names.len() > 0;
                        let n_anon = if named {
                            st.n_anon
                        } else {
                            super::pass1::sat_inc(st.n_anon)
                        };
                        let id = if named {
                            e.common.names[0]
                        } else {
                            super::pass1::footnote_prefix() + super::numbers::decimal(n_anon as nat)
                        };
                        lemma_p1_nodes(record_footnote(st, e, id, k as int, n_anon), ecm, e.children);
                    },
                }
            } else if e.element_type == ElementType::FootnoteReference {
                let k = super::pass1::sat_inc(st.n_refs);
                lemma_p1_nodes(P1 { n_refs: k, ..st }, ecm, e.children);
            } else {
                lemma_p1_nodes(st, ecm, e.children);
            }
        },
    }
}

proof fn lemma_p1_nodes(st: P1, cm: ContentModel, ns: Seq<NodeView>)
    requires
        place_model(cm),
        all_fit(cm, ns),
    ensures
        all_fit(cm, p1_nodes(st, ns).1),
    decreases ns, 1nat,
{
    if ns.len() > 0 {
        let pre = ns.subrange(0, ns.len() - 1);
        lemma_fit_prefix(cm, ns);
        lemma_p1_nodes(st, cm, pre);
        let r = p1_nodes(st, pre);
        lemma_p1_node(r.0, cm, ns[ns.len() - 1]);
        lemma_fit_push(cm, r.1, p1_node(r.0, ns[ns.len() - 1]).1);
    }
}

/// Whether every substitution text that the second pass has gathered is inline content.
pub open spec fn texts_fit(st: P2) -> bool {
    &&& forall|i: int| 0 <= i < st.subst.len() ==> all_fit(inline_model(), #[trigger] st.subst[i].1)
    &&& forall|i: int| 0 <= i < st.nsubst.len() ==> all_fit(inline_model(), #[trigger] st.nsubst[i].1)
}

proof fn lemma_insert_fit(m: Seq<(Seq<char>, Seq<NodeView>)>, k: Seq<char>, v: Seq<NodeView>)
    requires
        forall|i: int| 0 <= i < m.len() ==> all_fit(inline_model(), #[trigger] m[i].1),
        all_fit(inline_model(), v),
    ensures
        forall|i: int| 0 <= i < assoc_insert(m, k, v).len() ==> all_fit(inline_model(), #[trigger] assoc_insert(m, k, v)[i].1),
{
    lemma_key_index_bounds(m, k);
    let r = assoc_insert(m, k, v);
    assert forall|i: int| 0 <= i < r.len() implies all_fit(inline_model(), #[trigger] r[i].1) by {
        if key_index(m, k) >= 0 {
            if i != key_index(m, k) {
                assert(r[i] == m[i]);
            }
        } else if i < m.len() {
            assert(r[i] == m[i]);
        }
    }
}

proof fn lemma_define_substitutions(st: P2, names: Seq<Seq<char>>, content: Seq<NodeView>)
    requires
        texts_fit(st),
        all_fit(inline_model(), content),
    ensures
        texts_fit(define_substitutions(st, names, content)),
    decreases names.len(),
{
    if names.len() > 0 {
        lemma_define_substitutions(st, names.drop_last(), content);
        let s1 = define_substitutions(st, names.drop_last(), content);
        lemma_insert_fit(s1.subst, names.last(), content);
        lemma_insert_fit(s1.nsubst, crate::text::lowercase(names.last()), content);
    }
}

proof fn lemma_define_targets(st: P2, names: Seq<Seq<char>>, url: Seq<char>)
    ensures
        define_targets(st, names, url).subst == st.subst,
        define_targets(st, names, url).nsubst == st.nsubst,
    decreases names.len(),
{
    if names.len() > 0 {
        lemma_define_targets(st, names.drop_last(), url);
    }
}

/// The second pass gathers substitution texts that are inline content.
proof fn lemma_p2_node(p1: P1, st: P2, n: NodeView)
    requires
        texts_fit(st),
        node_wf(n),
    ensures
        texts_fit(p2_node(p1, st, n)),
    decreases n, 0nat,
{
    match n {
        NodeView::Text(_) => {},
        NodeView::Element(e) => {
            let ecm = spec_content_model(e.element_type);
            lemma_content_model_place(e.element_type);
            assert(all_fit(ecm, e.children));
            if e.element_type == ElementType::SubstitutionDefinition {
                lemma_define_substitutions(st, e.common.names, e.children);
            } else if e.element_type == ElementType::Target {
                match e.extra {
                    ExtraView::Target(t) => match t.refuri {
                        Some(u) => lemma_define_targets(st, e.common.names, u),
                        None => {},
                    },
                    _ => {},
                }
            } else if e.element_type == ElementType::FootnoteReference {
                let s1 = super::pass2::record_reference(p1, st, e);
                assert(s1.subst == st.subst && s1.nsubst == st.nsubst);
                lemma_p2_nodes(p1, s1, ecm, e.children);
            } else if !super::pass2::reference_named(e) {
                lemma_p2_nodes(p1, P2 { ok: false, ..st }, ecm, e.children);
            } else {
                lemma_p2_nodes(p1, st, ecm, e.children);
            }
        },
    }
}

proof fn lemma_p2_nodes(p1: P1, st: P2, cm: ContentModel, ns: Seq<NodeView>)
    requires
        texts_fit(st),
        all_fit(cm, ns),
    ensures
        texts_fit(p2_nodes(p1, st, ns)),
    decreases ns, 1nat,
{
    if ns.len() > 0 {
        let pre = ns.subrange(0, ns.len() - 1);
        lemma_fit_prefix(cm, ns);
        lemma_p2_nodes(p1, st, cm, pre);
        lemma_p2_node(p1, p2_nodes(p1, st, pre), ns[ns.len() - 1]);
    }
}

proof fn lemma_substitute(p2: P2, name: Seq<char>)
    requires
        texts_fit(p2),
    ensures
        all_fit(inline_model(), substitute(p2, name)),
{
    lemma_key_index_bounds(p2.subst, name);
    lemma_key_index_bounds(p2.nsubst, crate::text::lowercase(name));
    match assoc_get(p2.subst, name) {
        Some(c) => {
            assert(c == p2.subst[key_index(p2.subst, name)].1);
        },
        None => match assoc_get(p2.nsubst, crate::text::lowercase(name)) {
            Some(c) => {
                assert(c == p2.nsubst[key_index(p2.nsubst, crate::text::lowercase(name))].1);
            },
            None => {
                let u = super::pass3::undefined_substitution(name);
                let t = u->Element_0.children[0];
                lemma_text_wf(t->Text_0);
                lemma_fit_single(inline_model(), t);
                assert(node_wf(u));
                lemma_fit_single(inline_model(), u);
            },
        },
    }
}

/// The third pass gives nodes that stand where the node they come from stood, each well
/// formed.
proof fn lemma_p3_node(p1: P1, p2: P2, cm: ContentModel, n: NodeView)
    requires
        place_model(cm),
        texts_fit(p2),
        admits(cm, n),
        node_wf(n),
    ensures
        all_fit(cm, p3_node(p1, p2, n)),
    decreases n, 0nat,
{
    match n {
        NodeView::Text(_) => {
            lemma_fit_single(cm, n);
        },
        NodeView::Element(e) => {
            let ecm = spec_content_model(e.element_type);
            lemma_content_model_place(e.element_type);
            assert(all_fit(ecm, e.children));
            lemma_fit_single(cm, n);
            if e.element_type == ElementType::SubstitutionDefinition {
            } else if e.element_type == ElementType::SubstitutionReference {
                match e.extra {
                    ExtraView::SubstitutionReference(names) => if names.len() > 0 {
                        lemma_substitution_reference_place(cm, n);
                        lemma_substitute(p2, names[0]);
                    },
                    _ => {},
                }
            } else if e.element_type == ElementType::Reference {
                let r = p3_node(p1, p2, n);
                if r.len() == 1 {
                    assert(node_wf(r[0]));
                    lemma_fit_single(cm, r[0]);
                    assert(r =~= seq![r[0]]);
                }
            } else {
                lemma_p3_nodes(p1, p2, ecm, e.children);
                let ch = p3_nodes(p1, p2, e.children);
                let r = p3_node(p1, p2, n);
                assert(r.len() == 1);
                assert(r =~= seq![r[0]]);
                let children = r[0]->Element_0.children;
                if e.element_type == ElementType::Footnote || e.element_type == ElementType::FootnoteReference {
                    if children.len() != ch.len() {
                        let first = children[0];
                        assert(children =~= seq![first] + ch);
                        if first is Element {
                            let lt = first->Element_0.children[0];
                            lemma_text_wf(lt->Text_0);
                            lemma_fit_single(inline_model(), lt);
                            assert(node_wf(first));
                        } else {
                            lemma_text_wf(first->Text_0);
                        }
                        lemma_fit_single(ecm, first);
                        lemma_fit_concat(ecm, seq![first], ch);
                    } else {
                        assert(children =~= ch);
                    }
                } else {
                    assert(children == ch);
                }
                assert(node_wf(r[0]));
                lemma_fit_single(cm, r[0]);
            }
        },
    }
}

proof fn lemma_p3_nodes(p1: P1, p2: P2, cm: ContentModel, ns: Seq<NodeView>)
    requires
        place_model(cm),
        texts_fit(p2),
        all_fit(cm, ns),
    ensures
        all_fit(cm, p3_nodes(p1, p2, ns)),
    decreases ns, 1nat,
{
    if ns.len() == 0 {
        assert(p3_nodes(p1, p2, ns) =~= Seq::<NodeView>::empty());
    } else {
        let pre = ns.subrange(0, ns.len() - 1);
        lemma_fit_prefix(cm, ns);
        lemma_p3_nodes(p1, p2, cm, pre);
        lemma_p3_node(p1, p2, cm, ns[ns.len() - 1]);
        lemma_fit_concat(cm, p3_nodes(p1, p2, pre), p3_node(p1, p2, ns[ns.len() - 1]));
    }
}

/// The standard transforms keep a well-formed document well formed.
pub proof fn law_transform_keeps_well_formed(d: DocumentView)
    requires
        document_wf(d),
    ensures
        document_wf(spec_standard_transform(d)),
{
    let cm = ContentModel::Of(Category::StructuralSubElement);
    lemma_document_wf_fit(d);
    let r1 = p1_nodes(p1_start(), d.children);
    lemma_p1_nodes(p1_start(), cm, d.children);
    assert(texts_fit(p2_start()));
    lemma_p2_nodes(r1.0, p2_start(), cm, r1.1);
    lemma_p3_nodes(r1.0, p2_nodes(r1.0, p2_start(), r1.1), cm, r1.1);
    lemma_document_wf_fit(spec_standard_transform(d));
}

} // verus!
