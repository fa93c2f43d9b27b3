//! The second pass: gathering what references can refer to, and numbering footnote
//! references.
use vstd::prelude::*;

use super::assoc::{assoc_insert, find_key, lemma_key_index_first, lemma_key_index_none};
use super::numbers::{label_number, label_number_exec, LabelNumber};
use super::pass1::{insert_number, numbers_view, sat_inc, Pass1, P1};
use crate::attribute_types::FootnoteType;
use crate::element_categories::ElementType;
use crate::elements::{duplicate_nodes, nodes_view, Elem, Extra, ExtraView, Node, NodeView, ElemView};
use crate::text::{lowercase, to_lowercase};
use crate::url::Url;

verus! {

broadcast use crate::elements::group_nodes_view;

/// What the second pass has gathered: URLs of named targets, substitution texts by name and
/// by lower-cased name, the numbers of symbol and numbered footnote references by
/// identifier, counts of the automatic references met, and whether every reference could be
/// numbered and named as the third pass needs.
pub struct P2 {
    pub targets: Seq<(Seq<char>, Seq<char>)>,
    pub subst: Seq<(Seq<char>, Seq<NodeView>)>,
    pub nsubst: Seq<(Seq<char>, Seq<NodeView>)>,
    pub sym_refs: Seq<(Seq<char>, int)>,
    pub num_refs: Seq<(Seq<char>, int)>,
    pub n_sym: int,
    pub n_named: int,
    pub n_anon: int,
    pub ok: bool,
}

pub open spec fn p2_start() -> P2 {
    P2 {
        targets: Seq::empty(),
        subst: Seq::empty(),
        nsubst: Seq::empty(),
        sym_refs: Seq::empty(),
        num_refs: Seq::empty(),
        n_sym: 0,
        n_named: 0,
        n_anon: 0,
        ok: true,
    }
}

/// The substitution definitions of `names` with `content`, one after the other.
pub open spec fn define_substitutions(st: P2, names: Seq<Seq<char>>, content: Seq<NodeView>) -> P2
    decreases names.len(),
{
    if names.len() == 0 {
        st
    } else {
        let s1 = define_substitutions(st, names.drop_last(), content);
        let nm = names.last();
        P2 {
            subst: assoc_insert(s1.subst, nm, content),
            nsubst: assoc_insert(s1.nsubst, lowercase(nm), content),
            ..s1
        }
    }
}

/// The targets `names` bound to `url`, one after the other.
pub open spec fn define_targets(st: P2, names: Seq<Seq<char>>, url: Seq<char>) -> P2
    decreases names.len(),
{
    if names.len() == 0 {
        st
    } else {
        let s1 = define_targets(st, names.drop_last(), url);
        P2 { targets: assoc_insert(s1.targets, names.last(), url), ..s1 }
    }
}

/// The label of a footnote reference: its first child, where that is a text.
pub open spec fn reference_label(e: ElemView) -> Option<Seq<char>> {
    if e.children.len() > 0 && e.children[0] is Text {
        Some(e.children[0]->Text_0)
    } else {
        None
    }
}

pub open spec fn reference_auto(e: ElemView) -> Option<FootnoteType> {
    match e.extra {
        ExtraView::FootnoteReference(f) => f.auto,
        _ => None,
    }
}

/// The number of a footnote reference, with the counts updated.
pub open spec fn reference_number(p1: P1, st: P2, e: ElemView) -> (Option<int>, P2) {
    match reference_auto(e) {
        Some(FootnoteType::Symbol) => {
            let k = sat_inc(st.n_sym);
            (Some(k), P2 { n_sym: k, ..st })
        },
        Some(FootnoteType::Number) => if e.common.names.len() > 0 {
            let i = st.n_named;
            (if i < p1.named.len() {
                Some(p1.named[i])
            } else {
                None
            }, P2 { n_named: sat_inc(i), ..st })
        } else {
            let i = st.n_anon;
            (if i < p1.anon.len() {
                Some(p1.anon[i])
            } else {
                None
            }, P2 { n_anon: sat_inc(i), ..st })
        },
        None => (match reference_label(e) {
            Some(l) => match label_number(l) {
                LabelNumber::Number(k) => Some(k as int),
                LabelNumber::Invalid(_) => None,
            },
            None => None,
        }, st),
    }
}

/// The second pass over a footnote reference, before its children.
pub open spec fn record_reference(p1: P1, st: P2, e: ElemView) -> P2 {
    let (k, s1) = reference_number(p1, st, e);
    if e.common.ids.len() == 0 || k is None {
        P2 { ok: false, ..s1 }
    } else if reference_auto(e) == Some(FootnoteType::Symbol) {
        P2 { sym_refs: assoc_insert(s1.sym_refs, e.common.ids[0], k.unwrap()), ..s1 }
    } else {
        P2 { num_refs: assoc_insert(s1.num_refs, e.common.ids[0], k.unwrap()), ..s1 }
    }
}

/// Whether a reference names what the third pass looks up: exactly one name, where it has
/// no URL.
pub open spec fn reference_named(e: ElemView) -> bool {
    match e.extra {
        ExtraView::Reference(r) => r.refuri is Some || r.refname.len() == 1,
        ExtraView::SubstitutionReference(names) => names.len() == 1,
        _ => true,
    }
}

/// The second pass over one node.
pub open spec fn p2_node(p1: P1, st: P2, n: NodeView) -> P2
    decreases n, 0nat,
{
    match n {
        NodeView::Text(_) => st,
        NodeView::Element(e) => if e.element_type == ElementType::SubstitutionDefinition {
            define_substitutions(st, e.common.names, e.children)
        } else if e.element_type == ElementType::Target {
            match e.extra {
                ExtraView::Target(t) => match t.refuri {
                    Some(u) => define_targets(st, e.common.names, u),
                    None => st,
                },
                _ => st,
            }
        } else if e.element_type == ElementType::FootnoteReference {
            p2_nodes(p1, record_reference(p1, st, e), e.children)
        } else if !reference_named(e) {
            p2_nodes(p1, P2 { ok: false, ..st }, e.children)
        } else {
            p2_nodes(p1, st, e.children)
        },
    }
}

/// The second pass over a list of nodes, in order.
pub open spec fn p2_nodes(p1: P1, st: P2, ns: Seq<NodeView>) -> P2
    decreases ns, 1nat,
{
    if ns.len() == 0 {
        st
    } else {
        p2_node(p1, p2_nodes(p1, st, ns.subrange(0, ns.len() - 1)), ns[ns.len() - 1])
    }
}

/// The state of the second pass.
pub struct Pass2 {
    pub targets: Vec<(String, Url)>,
    pub subst: Vec<(String, Vec<Node>)>,
    pub nsubst: Vec<(String, Vec<Node>)>,
    pub sym_refs: Vec<(String, usize)>,
    pub num_refs: Vec<(String, usize)>,
    pub n_sym: usize,
    pub n_named: usize,
    pub n_anon: usize,
    pub ok: bool,
}

pub open spec fn targets_view(m: Seq<(String, Url)>) -> Seq<(Seq<char>, Seq<char>)> {
    m.map_values(|p: (String, Url)| (p.0@, p.1@))
}

pub open spec fn substs_view(m: Seq<(String, Vec<Node>)>) -> Seq<(Seq<char>, Seq<NodeView>)> {
    m.map_values(|p: (String, Vec<Node>)| (p.0@, nodes_view(p.1@)))
}

impl Pass2 {
    pub open spec fn view(&self) -> P2 {
        P2 {
            targets: targets_view(self.targets@),
            subst: substs_view(self.subst@),
            nsubst: substs_view(self.nsubst@),
            sym_refs: numbers_view(self.sym_refs@),
            num_refs: numbers_view(self.num_refs@),
            n_sym: self.n_sym as int,
            n_named: self.n_named as int,
            n_anon: self.n_anon as int,
            ok: self.ok,
        }
    }

    pub fn new() -> (r: Pass2)
        ensures
            r.view() == p2_start(),
    {
        let r = Pass2 {
            targets: Vec::new(),
            subst: Vec::new(),
            nsubst: Vec::new(),
            sym_refs: Vec::new(),
            num_refs: Vec::new(),
            n_sym: 0,
            n_named: 0,
            n_anon: 0,
            ok: true,
        };
        assert(r.view().targets =~= Seq::<(Seq<char>, Seq<char>)>::empty());
        assert(r.view().subst =~= Seq::<(Seq<char>, Seq<NodeView>)>::empty());
        assert(r.view().nsubst =~= Seq::<(Seq<char>, Seq<NodeView>)>::empty());
        assert(r.view().sym_refs =~= Seq::<(Seq<char>, int)>::empty());
        assert(r.view().num_refs =~= Seq::<(Seq<char>, int)>::empty());
        r
    }
}

/// Binds `k` to `v` in a list of targets.
fn insert_target(m: &mut Vec<(String, Url)>, k: String, v: Url)
    ensures
        targets_view(final(m)@) == assoc_insert(targets_view(old(m)@), k@, v@),
{
    let ghost mv = targets_view(m@);
    let ghost kv = k@;
    let ghost vv = v@;
    match find_key(m, k.as_str()) {
        Some(i) => {
            proof {
                assert forall|j: int| 0 <= j < i implies #[trigger] mv[j].0 != kv by {
                    assert(mv[j].0 == m@[j].0@);
                }
                lemma_key_index_first(mv, kv, i as int);
            }
            m.remove(i);
            m.insert(i, (k, v));
            assert(targets_view(m@) =~= mv.update(i as int, (kv, vv)));
        },
        None => {
            proof {
                assert forall|j: int| 0 <= j < mv.len() implies #[trigger] mv[j].0 != kv by {
                    assert(mv[j].0 == m@[j].0@);
                }
                lemma_key_index_none(mv, kv);
            }
            m.push((k, v));
            assert(targets_view(m@) =~= mv.push((kv, vv)));
        },
    }
}

/// Binds `k` to `v` in a list of substitutions.
fn insert_subst(m: &mut Vec<(String, Vec<Node>)>, k: String, v: Vec<Node>)
    ensures
        substs_view(final(m)@) == assoc_insert(substs_view(old(m)@), k@, nodes_view(v@)),
{
    let ghost mv = substs_view(m@);
    let ghost kv = k@;
    let ghost vv = nodes_view(v@);
    match find_key(m, k.as_str()) {
        Some(i) => {
            proof {
                assert forall|j: int| 0 <= j < i implies #[trigger] mv[j].0 != kv by {
                    assert(mv[j].0 == m@[j].0@);
                }
                lemma_key_index_first(mv, kv, i as int);
            }
            m.remove(i);
            m.insert(i, (k, v));
            assert(substs_view(m@) =~= mv.update(i as int, (kv, vv)));
        },
        None => {
            proof {
                assert forall|j: int| 0 <= j < mv.len() implies #[trigger] mv[j].0 != kv by {
                    assert(mv[j].0 == m@[j].0@);
                }
                lemma_key_index_none(mv, kv);
            }
            m.push((k, v));
            assert(substs_view(m@) =~= mv.push((kv, vv)));
        },
    }
}

/// The label text of a footnote reference.
fn reference_label_exec(e: &Elem) -> (r: Option<Vec<char>>)
    ensures
        match r {
            Some(l) => reference_label(e.view()) == Some(l@),
            None => reference_label(e.view()) is None,
        },
{
    if e.children.len() == 0 {
        return None;
    }
    assert(e.view().children[0] == e.children@[0].view());
    match &e.children[0] {
        Node::Text(t) => Some(crate::text::str_to_chars(t.as_str())),
        _ => None,
    }
}

/// The second pass over one node.
pub fn p2_node_exec(p1: &Pass1, st: &mut Pass2, n: &Node)
    ensures
        final(st).view() == p2_node(p1.view(), old(st).view(), n.view()),
    decreases n, 0nat,
{
    match n {
        Node::Text(_) => {},
        Node::Element(e) => {
            let ghost ev = e.view();
            if e.element_type == ElementType::SubstitutionDefinition {
                let ghost st0 = st.view();
                let mut i: usize = 0;
                assert(ev.common.names.subrange(0, 0) =~= Seq::<Seq<char>>::empty());
                while i < e.common.names.len()
                    invariant
                        i <= e.common.names@.len(),
                        ev == e.view(),
                        st.view() == define_substitutions(st0, ev.common.names.subrange(0, i as int), ev.children),
                    decreases e.common.names@.len() - i,
                {
                    let name = e.common.names[i].0.clone();
                    let lower = to_lowercase(name.as_str());
                    assert(ev.common.names[i as int] == name@);
                    assert(ev.common.names.subrange(0, i + 1).drop_last() =~= ev.common.names.subrange(0, i as int));
                    insert_subst(&mut st.subst, name, duplicate_nodes(&e.children));
                    insert_subst(&mut st.nsubst, lower, duplicate_nodes(&e.children));
                    i += 1;
                }
                assert(ev.common.names.subrange(0, ev.common.names.len() as int) =~= ev.common.names);
            } else if e.element_type == ElementType::Target {
                match &e.extra {
                    Extra::Target(t) => match &t.refuri {
                        Some(u) => {
                            let ghost st0 = st.view();
                            let mut i: usize = 0;
                            assert(ev.common.names.subrange(0, 0) =~= Seq::<Seq<char>>::empty());
                            while i < e.common.names.len()
                                invariant
                                    i <= e.common.names@.len(),
                                    ev == e.view(),
                                    st.view() == define_targets(st0, ev.common.names.subrange(0, i as int), u@),
                                decreases e.common.names@.len() - i,
                            {
                                let name = e.common.names[i].0.clone();
                                assert(ev.common.names[i as int] == name@);
                                assert(ev.common.names.subrange(0, i + 1).drop_last() =~= ev.common.names.subrange(0, i as int));
                                insert_target(&mut st.targets, name, u.duplicate());
                                i += 1;
                            }
                            assert(ev.common.names.subrange(0, ev.common.names.len() as int) =~= ev.common.names);
                        },
                        None => {},
                    },
                    _ => {},
                }
            } else if e.element_type == ElementType::FootnoteReference {
                let auto = match &e.extra {
                    Extra::FootnoteReference(f) => f.auto,
                    _ => None,
                };
                let k: Option<usize> = match auto {
                    Some(FootnoteType::Symbol) => {
                        if st.n_sym < usize::MAX {
                            st.n_sym = st.n_sym + 1;
                        }
                        Some(st.n_sym)
                    },
                    Some(FootnoteType::Number) => {
                        if e.common.names.len() > 0 {
                            let i = st.n_named;
                            if st.n_named < usize::MAX {
                                st.n_named = st.n_named + 1;
                            }
                            if i < p1.named.len() {
                                Some(p1.named[i])
                            } else {
                                None
                            }
                        } else {
                            let i = st.n_anon;
                            if st.n_anon < usize::MAX {
                                st.n_anon = st.n_anon + 1;
                            }
                            if i < p1.anon.len() {
                                Some(p1.anon[i])
                            } else {
                                None
                            }
                        }
                    },
                    None => match reference_label_exec(e) {
                        Some(l) => match label_number_exec(&l) {
                            Ok(k) => Some(k),
                            Err(_) => None,
                        },
                        None => None,
                    },
                };
                if e.common.ids.len() == 0 {
                    st.ok = false;
                } else {
                    match k {
                        None => {
                            st.ok = false;
                        },
                        Some(k) => {
                            let id = e.common.ids[0].0.clone();
                            match auto {
                                Some(FootnoteType::Symbol) => insert_number(&mut st.sym_refs, id, k),
                                _ => insert_number(&mut st.num_refs, id, k),
                            }
                        },
                    }
                }
                assert(st.view() == record_reference(p1.view(), old(st).view(), ev));
                p2_nodes_exec(p1, st, &e.children);
            } else {
                let named = match &e.extra {
                    Extra::Reference(r) => r.refuri.is_some() || r.refname.len() == 1,
                    Extra::SubstitutionReference(r) => r.refname.len() == 1,
                    _ => true,
                };
                if !named {
                    st.ok = false;
                }
                p2_nodes_exec(p1, st, &e.children);
            }
        },
    }
}

/// The second pass over a list of nodes, in order.
pub fn p2_nodes_exec(p1: &Pass1, st: &mut Pass2, v: &Vec<Node>)
    ensures
        final(st).view() == p2_nodes(p1.view(), old(st).view(), nodes_view(v@)),
    decreases v@, 1nat,
{
    let ghost vv = nodes_view(v@);
    let ghost st0 = st.view();
    let mut i: usize = 0;
    assert(vv.subrange(0, 0) =~= Seq::<NodeView>::empty());
    while i < v.len()
        invariant
            i <= v@.len(),
            vv == nodes_view(v@),
            st.view() == p2_nodes(p1.view(), st0, vv.subrange(0, i as int)),
        decreases v@.len() - i,
    {
        p2_node_exec(p1, st, &v[i]);
        assert(vv.subrange(0, i + 1).subrange(0, i as int) =~= vv.subrange(0, i as int));
        i += 1;
    }
    assert(vv.subrange(0, v@.len() as int) =~= vv);
}

} // verus!
