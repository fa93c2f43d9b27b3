//! The third pass: substitution definitions go, substitution references become their
//! texts, references get the URLs of their targets, footnotes their labels and back
//! references, footnote references their footnotes and numbers.
use vstd::prelude::*;

use super::assoc::{assoc_get, find_key, lemma_key_index_first, lemma_key_index_none};
use super::numbers::{decimal, decimal_exec};
use super::pass1::{footnote_auto, footnote_label, numbers_view, Pass1, P1};
use super::pass2::{reference_auto, reference_label, substs_view, targets_view, Pass2, P2};
use crate::attribute_types::{FootnoteType, ID};
use crate::element_categories::ElementType;
use crate::elements::{
    duplicate_nodes, empty_common, nodes_view, CommonAttributes, Elem, ElemView, Extra, ExtraView,
    Node, NodeView,
};
use crate::extra_attributes as a;
use crate::text::{lowercase, string_of, to_lowercase};
use crate::url::Url;

verus! {

broadcast use crate::elements::group_nodes_view;

/// The keys of `m` bound to `k`, in order.
pub open spec fn keys_with(m: Seq<(Seq<char>, int)>, k: int) -> Seq<Seq<char>>
    decreases m.len(),
{
    if m.len() == 0 {
        Seq::empty()
    } else if m.last().1 == k {
        keys_with(m.drop_last(), k).push(m.last().0)
    } else {
        keys_with(m.drop_last(), k)
    }
}

/// The first key of `m` bound to `k`.
pub open spec fn first_key_with(m: Seq<(Seq<char>, int)>, k: int) -> Option<Seq<char>>
    decreases m.len(),
{
    if m.len() == 0 {
        None
    } else {
        match first_key_with(m.drop_last(), k) {
            Some(x) => Some(x),
            None => if m.last().1 == k {
                Some(m.last().0)
            } else {
                None
            },
        }
    }
}

/// An element of type `t` with no attributes, extra attributes `x` and children `ch`.
pub open spec fn plain_elem(t: ElementType, x: ExtraView, ch: Seq<NodeView>) -> NodeView {
    NodeView::Element(ElemView { element_type: t, common: empty_common(), extra: x, children: ch })
}

/// What an undefined substitution reference named `name` becomes.
pub open spec fn undefined_substitution(name: Seq<char>) -> NodeView {
    plain_elem(
        ElementType::Problematic,
        ExtraView::Problematic(None),
        seq![NodeView::Text(seq!['|'] + name + seq!['|'])],
    )
}

/// The text that a substitution reference named `name` stands for.
pub open spec fn substitute(p2: P2, name: Seq<char>) -> Seq<NodeView> {
    match assoc_get(p2.subst, name) {
        Some(c) => c,
        None => match assoc_get(p2.nsubst, lowercase(name)) {
            Some(c) => c,
            None => seq![undefined_substitution(name)],
        },
    }
}

/// The number map of the footnotes of the kind that `auto` gives.
pub open spec fn footnote_numbers(p1: P1, auto: Option<FootnoteType>) -> Seq<(Seq<char>, int)> {
    if auto == Some(FootnoteType::Symbol) {
        p1.sym
    } else {
        p1.num
    }
}

/// The number map of the footnote references of the kind that `auto` gives.
pub open spec fn reference_numbers(p2: P2, auto: Option<FootnoteType>) -> Seq<(Seq<char>, int)> {
    if auto == Some(FootnoteType::Symbol) {
        p2.sym_refs
    } else {
        p2.num_refs
    }
}

/// The number of the footnote or footnote reference with identifiers `ids` in `m`.
pub open spec fn number_of(m: Seq<(Seq<char>, int)>, ids: Seq<Seq<char>>) -> Option<int> {
    if ids.len() > 0 {
        assoc_get(m, ids[0])
    } else {
        None
    }
}

/// The third pass over one node: the nodes it becomes.
pub open spec fn p3_node(p1: P1, p2: P2, n: NodeView) -> Seq<NodeView>
    decreases n, 0nat,
{
    match n {
        NodeView::Text(_) => seq![n],
        NodeView::Element(e) => if e.element_type == ElementType::SubstitutionDefinition {
            Seq::empty()
        } else if e.element_type == ElementType::SubstitutionReference {
            match e.extra {
                ExtraView::SubstitutionReference(names) => if names.len() > 0 {
                    substitute(p2, names[0])
                } else {
                    seq![n]
                },
                _ => seq![n],
            }
        } else if e.element_type == ElementType::Reference {
            match e.extra {
                ExtraView::Reference(r) => if r.refuri is None && r.refname.len() > 0 {
                    match assoc_get(p2.targets, r.refname[0]) {
                        Some(u) => seq![
                            NodeView::Element(
                                ElemView { extra: ExtraView::Reference(a::ReferenceView { refuri: Some(u), ..r }), ..e },
                            ),
                        ],
                        None => seq![n],
                    }
                } else {
                    seq![n]
                },
                _ => seq![n],
            }
        } else if e.element_type == ElementType::Footnote {
            let auto = footnote_auto(e);
            let ch = p3_nodes(p1, p2, e.children);
            match number_of(footnote_numbers(p1, auto), e.common.ids) {
                Some(k) => seq![
                    NodeView::Element(
                        ElemView {
                            extra: ExtraView::Footnote(
                                a::FootnoteView { backrefs: keys_with(reference_numbers(p2, auto), k), auto: auto },
                            ),
                            children: if footnote_label(e) is None {
                                seq![plain_elem(ElementType::Label, ExtraView::Plain, seq![NodeView::Text(decimal(k as nat))])] + ch
                            } else {
                                ch
                            },
                            ..e
                        },
                    ),
                ],
                None => seq![NodeView::Element(ElemView { children: ch, ..e })],
            }
        } else if e.element_type == ElementType::FootnoteReference {
            let auto = reference_auto(e);
            let ch = p3_nodes(p1, p2, e.children);
            match (number_of(reference_numbers(p2, auto), e.common.ids), e.extra) {
                (Some(k), ExtraView::FootnoteReference(fr)) => seq![
                    NodeView::Element(
                        ElemView {
                            extra: ExtraView::FootnoteReference(
                                a::FootnoteReferenceView { refid: first_key_with(footnote_numbers(p1, auto), k), ..fr },
                            ),
                            children: if reference_label(e) is None {
                                seq![NodeView::Text(decimal(k as nat))] + ch
                            } else {
                                ch
                            },
                            ..e
                        },
                    ),
                ],
                _ => seq![NodeView::Element(ElemView { children: ch, ..e })],
            }
        } else {
            seq![NodeView::Element(ElemView { children: p3_nodes(p1, p2, e.children), ..e })]
        },
    }
}

/// The third pass over a list of nodes, in order.
pub open spec fn p3_nodes(p1: P1, p2: P2, ns: Seq<NodeView>) -> Seq<NodeView>
    decreases ns, 1nat,
{
    if ns.len() == 0 {
        Seq::empty()
    } else {
        p3_nodes(p1, p2, ns.subrange(0, ns.len() - 1)) + p3_node(p1, p2, ns[ns.len() - 1])
    }
}

/// What key `k` is bound to in a number map.
fn get_number(m: &Vec<(String, usize)>, k: &str) -> (r: Option<usize>)
    ensures
        match r {
            Some(v) => assoc_get(numbers_view(m@), k@) == Some(v as int),
            None => assoc_get(numbers_view(m@), k@) is None,
        },
{
    let ghost mv = numbers_view(m@);
    match find_key(m, k) {
        Some(i) => {
            proof {
                assert forall|j: int| 0 <= j < i implies #[trigger] mv[j].0 != k@ by {
                    assert(mv[j].0 == m@[j].0@);
                }
                lemma_key_index_first(mv, k@, i as int);
            }
            Some(m[i].1)
        },
        None => {
            proof {
                assert forall|j: int| 0 <= j < mv.len() implies #[trigger] mv[j].0 != k@ by {
                    assert(mv[j].0 == m@[j].0@);
                }
                lemma_key_index_none(mv, k@);
            }
            None
        },
    }
}

/// The URL that a target name is bound to.
fn get_target(m: &Vec<(String, Url)>, k: &str) -> (r: Option<Url>)
    ensures
        match r {
            Some(v) => assoc_get(targets_view(m@), k@) == Some(v@),
            None => assoc_get(targets_view(m@), k@) is None,
        },
{
    let ghost mv = targets_view(m@);
    match find_key(m, k) {
        Some(i) => {
            proof {
                assert forall|j: int| 0 <= j < i implies #[trigger] mv[j].0 != k@ by {
                    assert(mv[j].0 == m@[j].0@);
                }
                lemma_key_index_first(mv, k@, i as int);
            }
            Some(m[i].1.duplicate())
        },
        None => {
            proof {
                assert forall|j: int| 0 <= j < mv.len() implies #[trigger] mv[j].0 != k@ by {
                    assert(mv[j].0 == m@[j].0@);
                }
                lemma_key_index_none(mv, k@);
            }
            None
        },
    }
}

/// A copy of the text that a substitution name is bound to.
fn get_subst(m: &Vec<(String, Vec<Node>)>, k: &str) -> (r: Option<Vec<Node>>)
    ensures
        match r {
            Some(v) => assoc_get(substs_view(m@), k@) == Some(nodes_view(v@)),
            None => assoc_get(substs_view(m@), k@) is None,
        },
{
    let ghost mv = substs_view(m@);
    match find_key(m, k) {
        Some(i) => {
            proof {
                assert forall|j: int| 0 <= j < i implies #[trigger] mv[j].0 != k@ by {
                    assert(mv[j].0 == m@[j].0@);
                }
                lemma_key_index_first(mv, k@, i as int);
            }
            Some(duplicate_nodes(&m[i].1))
        },
        None => {
            proof {
                assert forall|j: int| 0 <= j < mv.len() implies #[trigger] mv[j].0 != k@ by {
                    assert(mv[j].0 == m@[j].0@);
                }
                lemma_key_index_none(mv, k@);
            }
            None
        },
    }
}

/// The keys of a number map bound to `k`, in order.
fn keys_with_exec(m: &Vec<(String, usize)>, k: usize) -> (r: Vec<ID>)
    ensures
        a::ids_view(r@) == keys_with(numbers_view(m@), k as int),
{
    let ghost mv = numbers_view(m@);
    let mut r: Vec<ID> = Vec::new();
    let mut i: usize = 0;
    assert(mv.subrange(0, 0) =~= Seq::<(Seq<char>, int)>::empty());
    assert(a::ids_view(r@) =~= Seq::<Seq<char>>::empty());
    while i < m.len()
        invariant
            i <= m@.len(),
            mv == numbers_view(m@),
            a::ids_view(r@) == keys_with(mv.subrange(0, i as int), k as int),
        decreases m@.len() - i,
    {
        let ghost before = a::ids_view(r@);
        assert(mv.subrange(0, i + 1).drop_last() =~= mv.subrange(0, i as int));
        assert(mv.subrange(0, i + 1).last() == mv[i as int]);
        if m[i].1 == k {
            r.push(ID(m[i].0.clone()));
            assert(a::ids_view(r@) =~= before.push(m@[i as int].0@));
        }
        i += 1;
    }
    assert(mv.subrange(0, m@.len() as int) =~= mv);
    r
}

/// The first key of a number map bound to `k`.
fn first_key_with_exec(m: &Vec<(String, usize)>, k: usize) -> (r: Option<ID>)
    ensures
        a::opt_id_view(r) == first_key_with(numbers_view(m@), k as int),
{
    let ghost mv = numbers_view(m@);
    let mut i: usize = 0;
    assert(mv.subrange(0, 0) =~= Seq::<(Seq<char>, int)>::empty());
    while i < m.len()
        invariant
            i <= m@.len(),
            mv == numbers_view(m@),
            first_key_with(mv.subrange(0, i as int), k as int) is None,
        decreases m@.len() - i,
    {
        assert(mv.subrange(0, i + 1).drop_last() =~= mv.subrange(0, i as int));
        assert(mv.subrange(0, i + 1).last() == mv[i as int]);
        if m[i].1 == k {
            proof {
                lemma_first_key_prefix(mv, k as int, i + 1);
            }
            return Some(ID(m[i].0.clone()));
        }
        i += 1;
    }
    assert(mv.subrange(0, m@.len() as int) =~= mv);
    None
}

proof fn lemma_first_key_prefix(m: Seq<(Seq<char>, int)>, k: int, n: int)
    requires
        0 < n <= m.len(),
        first_key_with(m.subrange(0, n), k) is Some,
    ensures
        first_key_with(m, k) == first_key_with(m.subrange(0, n), k),
    decreases m.len() - n,
{
    if n < m.len() {
        assert(m.subrange(0, n + 1).drop_last() =~= m.subrange(0, n));
        lemma_first_key_prefix(m, k, n + 1);
    } else {
        assert(m.subrange(0, n) =~= m);
    }
}

/// An element with empty common attributes.
fn plain_elem_exec(t: ElementType, x: Extra, ch: Vec<Node>) -> (r: Node)
    ensures
        r.view() == plain_elem(t, x@, nodes_view(ch@)),
{
    Node::element(Elem { element_type: t, common: CommonAttributes::default(), extra: x, children: ch })
}

/// The text that a substitution reference named `name` stands for.
fn substitute_exec(p2: &Pass2, name: &String) -> (r: Vec<Node>)
    ensures
        nodes_view(r@) == substitute(p2.view(), name@),
{
    match get_subst(&p2.subst, name.as_str()) {
        Some(c) => c,
        None => {
            let lower = to_lowercase(name.as_str());
            match get_subst(&p2.nsubst, lower.as_str()) {
                Some(c) => c,
                None => {
                    let mut t: Vec<char> = Vec::new();
                    t.push('|');
                    let mut nm = crate::text::str_to_chars(name.as_str());
                    t.append(&mut nm);
                    t.push('|');
                    assert(t@ =~= seq!['|'] + name@ + seq!['|']);
                    let mut ch: Vec<Node> = Vec::new();
                    ch.push(Node::Text(string_of(t.as_slice())));
                    assert(nodes_view(ch@) =~= seq![NodeView::Text(seq!['|'] + name@ + seq!['|'])]);
                    let p = plain_elem_exec(ElementType::Problematic, Extra::Problematic(a::Problematic { refid: None }), ch);
                    let mut r: Vec<Node> = Vec::new();
                    r.push(p);
                    assert(nodes_view(r@) =~= seq![undefined_substitution(name@)]);
                    r
                },
            }
        },
    }
}

/// A list of one node.
fn single(n: Node) -> (r: Vec<Node>)
    ensures
        nodes_view(r@) == seq![n.view()],
{
    let mut r: Vec<Node> = Vec::new();
    r.push(n);
    assert(nodes_view(r@) =~= seq![n.view()]);
    r
}

/// `a` followed by `b`.
fn concat(a: Vec<Node>, b: Vec<Node>) -> (r: Vec<Node>)
    ensures
        nodes_view(r@) == nodes_view(a@) + nodes_view(b@),
{
    let mut a = a;
    let mut b = b;
    let ghost va = nodes_view(a@);
    let ghost vb = nodes_view(b@);
    a.append(&mut b);
    assert(nodes_view(a@) =~= va + vb);
    a
}

/// A copy of a node.
fn copy_node(n: &Node) -> (r: Vec<Node>)
    ensures
        nodes_view(r@) == seq![n.view()],
{
    single(n.duplicate())
}

/// The third pass over one node.
pub fn p3_node_exec(p1: &Pass1, p2: &Pass2, n: &Node) -> (r: Vec<Node>)
    ensures
        nodes_view(r@) == p3_node(p1.view(), p2.view(), n.view()),
    decreases n, 0nat,
{
    match n {
        Node::Text(_) => copy_node(n),
        Node::Element(e) => {
            let ghost ev = e.view();
            if e.element_type == ElementType::SubstitutionDefinition {
                let r: Vec<Node> = Vec::new();
                assert(nodes_view(r@) =~= Seq::<NodeView>::empty());
                r
            } else if e.element_type == ElementType::SubstitutionReference {
                match &e.extra {
                    Extra::SubstitutionReference(s) => if s.refname.len() > 0 {
                        assert(ev.extra == ExtraView::SubstitutionReference(a::names_view(s.refname@)));
                        substitute_exec(p2, &s.refname[0].0)
                    } else {
                        copy_node(n)
                    },
                    _ => copy_node(n),
                }
            } else if e.element_type == ElementType::Reference {
                match &e.extra {
                    Extra::Reference(r) => if r.refuri.is_none() && r.refname.len() > 0 {
                        match get_target(&p2.targets, r.refname[0].0.as_str()) {
                            Some(u) => {
                                let mut x = r.duplicate();
                                x.refuri = Some(u);
                                let c = Elem {
                                    element_type: e.element_type,
                                    common: e.common.duplicate(),
                                    extra: Extra::Reference(x),
                                    children: duplicate_nodes(&e.children),
                                };
                                single(Node::element(c))
                            },
                            None => copy_node(n),
                        }
                    } else {
                        copy_node(n)
                    },
                    _ => copy_node(n),
                }
            } else if e.element_type == ElementType::Footnote {
                let auto = match &e.extra {
                    Extra::Footnote(f) => f.auto,
                    _ => None,
                };
                let ch = p3_nodes_exec(p1, p2, &e.children);
                let fmap = match auto {
                    Some(FootnoteType::Symbol) => &p1.sym,
                    _ => &p1.num,
                };
                let num = if e.common.ids.len() > 0 {
                    get_number(fmap, e.common.ids[0].0.as_str())
                } else {
                    None
                };
                match num {
                    Some(k) => {
                        let rmap = match auto {
                            Some(FootnoteType::Symbol) => &p2.sym_refs,
                            _ => &p2.num_refs,
                        };
                        let backrefs = keys_with_exec(rmap, k);
                        let children = if has_label(e) {
                            ch
                        } else {
                            let mut t: Vec<Node> = Vec::new();
                            let d = decimal_exec(k);
                            t.push(Node::Text(string_of(d.as_slice())));
                            assert(nodes_view(t@) =~= seq![NodeView::Text(decimal(k as nat))]);
                            let label = plain_elem_exec(ElementType::Label, Extra::Plain, t);
                            concat(single(label), ch)
                        };
                        let c = Elem {
                            element_type: e.element_type,
                            common: e.common.duplicate(),
                            extra: Extra::Footnote(a::Footnote { backrefs, auto }),
                            children,
                        };
                        single(Node::element(c))
                    },
                    None => {
                        let c = Elem {
                            element_type: e.element_type,
                            common: e.common.duplicate(),
                            extra: e.extra.duplicate(),
                            children: ch,
                        };
                        single(Node::element(c))
                    },
                }
            } else if e.element_type == ElementType::FootnoteReference {
                let auto = match &e.extra {
                    Extra::FootnoteReference(f) => f.auto,
                    _ => None,
                };
                let ch = p3_nodes_exec(p1, p2, &e.children);
                let rmap = match auto {
                    Some(FootnoteType::Symbol) => &p2.sym_refs,
                    _ => &p2.num_refs,
                };
                let num = if e.common.ids.len() > 0 {
                    get_number(rmap, e.common.ids[0].0.as_str())
                } else {
                    None
                };
                match (num, &e.extra) {
                    (Some(k), Extra::FootnoteReference(fr)) => {
                        let fmap = match auto {
                            Some(FootnoteType::Symbol) => &p1.sym,
                            _ => &p1.num,
                        };
                        let mut x = a::FootnoteReference {
                            refid: first_key_with_exec(fmap, k),
                            refname: a::dup_names(&fr.refname),
                            auto: fr.auto,
                        };
                        let children = if has_text_label(e) {
                            ch
                        } else {
                            let d = decimal_exec(k);
                            concat(single(Node::Text(string_of(d.as_slice()))), ch)
                        };
                        let c = Elem {
                            element_type: e.element_type,
                            common: e.common.duplicate(),
                            extra: Extra::FootnoteReference(x),
                            children,
                        };
                        single(Node::element(c))
                    },
                    _ => {
                        let c = Elem {
                            element_type: e.element_type,
                            common: e.common.duplicate(),
                            extra: e.extra.duplicate(),
                            children: ch,
                        };
                        single(Node::element(c))
                    },
                }
            } else {
                let c = Elem {
                    element_type: e.element_type,
                    common: e.common.duplicate(),
                    extra: e.extra.duplicate(),
                    children: p3_nodes_exec(p1, p2, &e.children),
                };
                single(Node::element(c))
            }
        },
    }
}

/// Whether a footnote's first child is a label holding one text.
fn has_label(e: &Elem) -> (r: bool)
    ensures
        r == footnote_label(e.view()) is Some,
{
    if e.children.len() == 0 {
        return false;
    }
    assert(e.view().children[0] == e.children@[0].view());
    match &e.children[0] {
        Node::Element(l) => {
            if l.element_type == ElementType::Label && l.children.len() == 1 {
                assert(l.view().children[0] == l.children@[0].view());
                match &l.children[0] {
                    Node::Text(_) => true,
                    _ => false,
                }
            } else {
                false
            }
        },
        _ => false,
    }
}

/// Whether a footnote reference's first child is a text.
fn has_text_label(e: &Elem) -> (r: bool)
    ensures
        r == reference_label(e.view()) is Some,
{
    if e.children.len() == 0 {
        return false;
    }
    assert(e.view().children[0] == e.children@[0].view());
    match &e.children[0] {
        Node::Text(_) => true,
        _ => false,
    }
}

/// The third pass over a list of nodes, in order.
pub fn p3_nodes_exec(p1: &Pass1, p2: &Pass2, v: &Vec<Node>) -> (r: Vec<Node>)
    ensures
        nodes_view(r@) == p3_nodes(p1.view(), p2.view(), nodes_view(v@)),
    decreases v@, 1nat,
{
    let ghost vv = nodes_view(v@);
    let mut r: Vec<Node> = Vec::new();
    let mut i: usize = 0;
    assert(vv.subrange(0, 0) =~= Seq::<NodeView>::empty());
    assert(nodes_view(r@) =~= Seq::<NodeView>::empty());
    while i < v.len()
        invariant
            i <= v@.len(),
            vv == nodes_view(v@),
            nodes_view(r@) == p3_nodes(p1.view(), p2.view(), vv.subrange(0, i as int)),
        decreases v@.len() - i,
    {
        let x = p3_node_exec(p1, p2, &v[i]);
        assert(vv.subrange(0, i + 1).subrange(0, i as int) =~= vv.subrange(0, i as int));
        r = concat(r, x);
        i += 1;
    }
    assert(vv.subrange(0, v@.len() as int) =~= vv);
    r
}

} // verus!
