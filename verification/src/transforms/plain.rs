//! Documents that the standard transforms have nothing to do for.
use vstd::prelude::*;

use super::pass1::{p1_node, p1_nodes, p1_start, P1};
use super::pass2::{p2_nodes, p2_start, P2};
use super::pass3::{p3_node, p3_nodes};
use super::{spec_standard_transform, transform_ok};
use super::pass2::{define_targets, p2_node};
use crate::element_categories::ElementType;
use crate::elements::{DocumentView, ElemView, ExtraView, NodeView};

verus! {

/// Whether the transforms leave an element as it is, children aside: it is no footnote,
/// footnote reference, substitution definition or substitution reference, and carries no
/// reference attributes without a URL.
pub open spec fn untouched(e: ElemView) -> bool {
    &&& e.element_type != ElementType::Footnote
    &&& e.element_type != ElementType::FootnoteReference
    &&& e.element_type != ElementType::SubstitutionDefinition
    &&& e.element_type != ElementType::SubstitutionReference
    &&& match e.extra {
        ExtraView::Reference(r) => r.refuri is Some,
        ExtraView::SubstitutionReference(_) => false,
        _ => true,
    }
}

/// Whether no node of `ns`, at any depth, is one that the transforms change.
pub open spec fn nodes_plain(ns: Seq<NodeView>) -> bool
    decreases ns, 1nat,
{
    if ns.len() == 0 {
        true
    } else {
        nodes_plain(ns.subrange(0, ns.len() - 1)) && node_plain(ns[ns.len() - 1])
    }
}

/// Whether neither a node nor anything inside it is one that the transforms change.
pub open spec fn node_plain(n: NodeView) -> bool
    decreases n, 0nat,
{
    match n {
        NodeView::Text(_) => true,
        NodeView::Element(e) => untouched(e) && nodes_plain(e.children),
    }
}

proof fn lemma_p1_node(st: P1, n: NodeView)
    requires
        node_plain(n),
    ensures
        p1_node(st, n) == (st, n),
    decreases n, 0nat,
{
    match n {
        NodeView::Text(_) => {},
        NodeView::Element(e) => {
            lemma_p1_nodes(st, e.children);
            assert(ElemView { children: e.children, ..e } == e);
        },
    }
}

proof fn lemma_p1_nodes(st: P1, ns: Seq<NodeView>)
    requires
        nodes_plain(ns),
    ensures
        p1_nodes(st, ns) == (st, ns),
    decreases ns, 1nat,
{
    if ns.len() > 0 {
        let pre = ns.subrange(0, ns.len() - 1);
        lemma_p1_nodes(st, pre);
        lemma_p1_node(st, ns[ns.len() - 1]);
        assert(pre.push(ns[ns.len() - 1]) =~= ns);
    }
}

proof fn lemma_p3_node(p1: P1, p2: P2, n: NodeView)
    requires
        node_plain(n),
    ensures
        p3_node(p1, p2, n) == seq![n],
    decreases n, 0nat,
{
    match n {
        NodeView::Text(_) => {},
        NodeView::Element(e) => {
            if e.element_type != ElementType::Reference {
                lemma_p3_nodes(p1, p2, e.children);
                assert(ElemView { children: e.children, ..e } == e);
            }
        },
    }
}

proof fn lemma_p3_nodes(p1: P1, p2: P2, ns: Seq<NodeView>)
    requires
        nodes_plain(ns),
    ensures
        p3_nodes(p1, p2, ns) == ns,
    decreases ns, 1nat,
{
    if ns.len() == 0 {
        assert(p3_nodes(p1, p2, ns) =~= ns);
    } else {
        let pre = ns.subrange(0, ns.len() - 1);
        lemma_p3_nodes(p1, p2, pre);
        lemma_p3_node(p1, p2, ns[ns.len() - 1]);
        assert(pre + seq![ns[ns.len() - 1]] =~= ns);
    }
}

proof fn lemma_define_targets(st: P2, names: Seq<Seq<char>>, url: Seq<char>)
    ensures
        define_targets(st, names, url).ok == st.ok,
    decreases names.len(),
{
    if names.len() > 0 {
        lemma_define_targets(st, names.drop_last(), url);
    }
}

proof fn lemma_p2_node(p1: P1, st: P2, n: NodeView)
    requires
        node_plain(n),
    ensures
        p2_node(p1, st, n).ok == st.ok,
    decreases n, 0nat,
{
    match n {
        NodeView::Text(_) => {},
        NodeView::Element(e) => {
            if e.element_type == ElementType::Target {
                match e.extra {
                    ExtraView::Target(t) => match t.refuri {
                        Some(u) => lemma_define_targets(st, e.common.names, u),
                        None => {},
                    },
                    _ => {},
                }
            } else {
                lemma_p2_nodes(p1, st, e.children);
            }
        },
    }
}

proof fn lemma_p2_nodes(p1: P1, st: P2, ns: Seq<NodeView>)
    requires
        nodes_plain(ns),
    ensures
        p2_nodes(p1, st, ns).ok == st.ok,
    decreases ns, 1nat,
{
    if ns.len() > 0 {
        let pre = ns.subrange(0, ns.len() - 1);
        lemma_p2_nodes(p1, st, pre);
        lemma_p2_node(p1, p2_nodes(p1, st, pre), ns[ns.len() - 1]);
    }
}

/// A document with no footnote, footnote reference, substitution definition or
/// substitution reference, and no reference without a URL, at any depth, comes out of the
/// standard transforms as it went in; the transforms can always handle it.
pub proof fn law_transform_keeps_plain_documents(d: DocumentView)
    requires
        nodes_plain(d.children),
    ensures
        transform_ok(d),
        spec_standard_transform(d) == d,
{
    lemma_p1_nodes(p1_start(), d.children);
    lemma_p2_nodes(p1_start(), p2_start(), d.children);
    lemma_p3_nodes(p1_start(), p2_nodes(p1_start(), p2_start(), d.children), d.children);
}

} // verus!
