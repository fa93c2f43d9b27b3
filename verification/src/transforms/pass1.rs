//! The first pass: footnotes get their numbers and identifiers, footnote references their
//! identifiers.
use vstd::prelude::*;

use super::assoc::{assoc_insert, find_key, lemma_key_index_first, lemma_key_index_none};
use super::numbers::{
    assoc_values, decimal, first_free, label_number, label_number_exec, prefixed_decimal,
    LabelNumber,
};
use crate::attribute_types::{FootnoteType, ID};
use crate::element_categories::ElementType;
use crate::elements::{
    empty_common, nodes_view, CommonAttributes, CommonView, Elem, ElemView, Extra, ExtraView,
    Node, NodeView,
};
use crate::extra_attributes as a;
use crate::text::string_of;

verus! {

broadcast use crate::elements::group_nodes_view;

/// What the first pass has gathered: the numbers of symbol and of numbered footnotes by
/// identifier, the numbers of auto-numbered footnotes without and with a name in order, and
/// the counts of anonymous footnotes and of footnote references.
pub struct P1 {
    pub sym: Seq<(Seq<char>, int)>,
    pub num: Seq<(Seq<char>, int)>,
    pub anon: Seq<int>,
    pub named: Seq<int>,
    pub n_anon: int,
    pub n_refs: int,
}

pub open spec fn p1_start() -> P1 {
    P1 { sym: Seq::empty(), num: Seq::empty(), anon: Seq::empty(), named: Seq::empty(), n_anon: 0, n_refs: 0 }
}

/// `n + 1`, kept at `usize::MAX`.
pub open spec fn sat_inc(n: int) -> int {
    if n < usize::MAX {
        n + 1
    } else {
        n
    }
}

/// The text of a footnote's label: its first child, where that is a label holding one text.
pub open spec fn footnote_label(e: ElemView) -> Option<Seq<char>> {
    if e.children.len() > 0 && e.children[0] is Element && e.children[0]->Element_0.element_type
        == ElementType::Label && e.children[0]->Element_0.children.len() == 1
        && e.children[0]->Element_0.children[0] is Text {
        Some(e.children[0]->Element_0.children[0]->Text_0)
    } else {
        None
    }
}

pub open spec fn msg_no_label() -> Seq<char> {
    seq!['f', 'o', 'o', 't', 'n', 'o', 't', 'e', ' ', 'w', 'i', 't', 'h', 'o', 'u', 't', ' ', 'l', 'a', 'b', 'e', 'l']
}

pub open spec fn footnote_prefix() -> Seq<char> {
    seq!['f', 'o', 'o', 't', 'n', 'o', 't', 'e', '-']
}

pub open spec fn reference_prefix() -> Seq<char> {
    seq!['f', 'o', 'o', 't', 'n', 'o', 't', 'e', '-', 'r', 'e', 'f', 'e', 'r', 'e', 'n', 'c', 'e', '-']
}

/// The automatic kind of a footnote.
pub open spec fn footnote_auto(e: ElemView) -> Option<FootnoteType> {
    match e.extra {
        ExtraView::Footnote(f) => f.auto,
        _ => None,
    }
}

/// The number that a footnote gets: the next free one for its automatic kind, or its label's.
pub open spec fn footnote_number(st: P1, e: ElemView) -> LabelNumber {
    match footnote_auto(e) {
        Some(FootnoteType::Number) => LabelNumber::Number(first_free(assoc_values(st.num), 1) as nat),
        Some(FootnoteType::Symbol) => LabelNumber::Number(sat_inc(st.sym.len() as int) as nat),
        None => match footnote_label(e) {
            Some(l) => label_number(l),
            None => LabelNumber::Invalid(msg_no_label()),
        },
    }
}

/// A paragraph that shows why an element could not be kept.
pub open spec fn problem_paragraph(m: Seq<char>) -> NodeView {
    NodeView::Element(
        ElemView {
            element_type: ElementType::Paragraph,
            common: empty_common(),
            extra: ExtraView::Plain,
            children: seq![
                NodeView::Element(
                    ElemView {
                        element_type: ElementType::Problematic,
                        common: empty_common(),
                        extra: ExtraView::Problematic(None),
                        children: seq![NodeView::Text(m)],
                    },
                ),
            ],
        },
    )
}

/// `e` with one more identifier and the given children.
pub open spec fn with_id_and_children(e: ElemView, id: Seq<char>, ch: Seq<NodeView>) -> NodeView {
    NodeView::Element(ElemView { common: CommonView { ids: e.common.ids.push(id), ..e.common }, children: ch, ..e })
}

/// The state after a footnote numbered `k` with identifier `id` and anonymous count `n_anon`.
pub open spec fn record_footnote(st: P1, e: ElemView, id: Seq<char>, k: int, n_anon: int) -> P1 {
    let auto = footnote_auto(e);
    P1 {
        sym: if auto == Some(FootnoteType::Symbol) {
            assoc_insert(st.sym, id, k)
        } else {
            st.sym
        },
        num: if auto != Some(FootnoteType::Symbol) {
            assoc_insert(st.num, id, k)
        } else {
            st.num
        },
        anon: if auto == Some(FootnoteType::Number) && e.common.names.len() == 0 {
            st.anon.push(k)
        } else {
            st.anon
        },
        named: if auto == Some(FootnoteType::Number) && e.common.names.len() > 0 {
            st.named.push(k)
        } else {
            st.named
        },
        n_anon: n_anon,
        n_refs: st.n_refs,
    }
}

/// The first pass over one node.
pub open spec fn p1_node(st: P1, n: NodeView) -> (P1, NodeView)
    decreases n, 0nat,
{
    match n {
        NodeView::Text(_) => (st, n),
        NodeView::Element(e) => if e.element_type == ElementType::Footnote {
            match footnote_number(st, e) {
                LabelNumber::Invalid(m) => (st, problem_paragraph(m)),
                LabelNumber::Number(k) => {
                    let named = e.common.names.len() > 0;
                    let n_anon = if named {
                        st.n_anon
                    } else {
                        sat_inc(st.n_anon)
                    };
                    let id = if named {
                        e.common.names[0]
                    } else {
                        footnote_prefix() + decimal(n_anon as nat)
                    };
                    let r = p1_nodes(record_footnote(st, e, id, k as int, n_anon), e.children);
                    (r.0, with_id_and_children(e, id, r.1))
                },
            }
        } else if e.element_type == ElementType::FootnoteReference {
            let k = sat_inc(st.n_refs);
            let r = p1_nodes(P1 { n_refs: k, ..st }, e.children);
            (r.0, with_id_and_children(e, reference_prefix() + decimal(k as nat), r.1))
        } else {
            let r = p1_nodes(st, e.children);
            (r.0, NodeView::Element(ElemView { children: r.1, ..e }))
        },
    }
}

/// The first pass over a list of nodes, in order.
pub open spec fn p1_nodes(st: P1, ns: Seq<NodeView>) -> (P1, Seq<NodeView>)
    decreases ns, 1nat,
{
    if ns.len() == 0 {
        (st, Seq::empty())
    } else {
        let r = p1_nodes(st, ns.subrange(0, ns.len() - 1));
        let x = p1_node(r.0, ns[ns.len() - 1]);
        (x.0, r.1.push(x.1))
    }
}

/// The state of the first pass.
pub struct Pass1 {
    pub sym: Vec<(String, usize)>,
    pub num: Vec<(String, usize)>,
    pub anon: Vec<usize>,
    pub named: Vec<usize>,
    pub n_anon: usize,
    pub n_refs: usize,
}

pub open spec fn numbers_view(m: Seq<(String, usize)>) -> Seq<(Seq<char>, int)> {
    m.map_values(|p: (String, usize)| (p.0@, p.1 as int))
}

pub open spec fn ints_view(m: Seq<usize>) -> Seq<int> {
    m.map_values(|x: usize| x as int)
}

impl Pass1 {
    pub open spec fn view(&self) -> P1 {
        P1 {
            sym: numbers_view(self.sym@),
            num: numbers_view(self.num@),
            anon: ints_view(self.anon@),
            named: ints_view(self.named@),
            n_anon: self.n_anon as int,
            n_refs: self.n_refs as int,
        }
    }

    pub fn new() -> (r: Pass1)
        ensures
            r.view() == p1_start(),
    {
        let r = Pass1 { sym: Vec::new(), num: Vec::new(), anon: Vec::new(), named: Vec::new(), n_anon: 0, n_refs: 0 };
        assert(r.view().sym =~= Seq::<(Seq<char>, int)>::empty());
        assert(r.view().num =~= Seq::<(Seq<char>, int)>::empty());
        assert(r.view().anon =~= Seq::<int>::empty());
        assert(r.view().named =~= Seq::<int>::empty());
        r
    }
}

/// Binds `k` to `v` in `m`.
pub fn insert_number(m: &mut Vec<(String, usize)>, k: String, v: usize)
    ensures
        numbers_view(final(m)@) == assoc_insert(numbers_view(old(m)@), k@, v as int),
{
    let ghost mv = numbers_view(m@);
    let ghost kv = k@;
    match find_key(m, k.as_str()) {
        Some(i) => {
            proof {
                assert forall|j: int| 0 <= j < i implies #[trigger] mv[j].0 != kv by {
                    assert(mv[j].0 == m@[j].0@);
                }
                lemma_key_index_first(mv, kv, i as int);
            }
            m.remove(i);
            m.insert(i, (k, v));
            assert(numbers_view(m@) =~= mv.update(i as int, (kv, v as int)));
        },
        None => {
            proof {
                assert forall|j: int| 0 <= j < mv.len() implies #[trigger] mv[j].0 != kv by {
                    assert(mv[j].0 == m@[j].0@);
                }
                lemma_key_index_none(mv, kv);
            }
            m.push((k, v));
            assert(numbers_view(m@) =~= mv.push((kv, v as int)));
        },
    }
}

/// The least number from 1 on that no value of `m` holds.
pub fn first_free_exec(m: &Vec<(String, usize)>) -> (r: usize)
    ensures
        r == first_free(assoc_values(numbers_view(m@)), 1),
{
    let ghost vals = assoc_values(numbers_view(m@));
    let mut c: usize = 1;
    while c < usize::MAX && holds_value(m, c)
        invariant
            1 <= c <= usize::MAX,
            vals == assoc_values(numbers_view(m@)),
            first_free(vals, 1) == first_free(vals, c as int),
        decreases usize::MAX - c,
    {
        c += 1;
    }
    c
}

/// Whether some value of `m` is `c`.
fn holds_value(m: &Vec<(String, usize)>, c: usize) -> (r: bool)
    ensures
        r == assoc_values(numbers_view(m@)).contains(c as int),
{
    let ghost vals = assoc_values(numbers_view(m@));
    let mut i: usize = 0;
    while i < m.len()
        invariant
            i <= m@.len(),
            vals == assoc_values(numbers_view(m@)),
            forall|j: int| 0 <= j < i ==> vals[j] != c,
        decreases m@.len() - i,
    {
        if m[i].1 == c {
            assert(vals[i as int] == c);
            return true;
        }
        i += 1;
    }
    false
}

/// The paragraph that stands where a footnote's number could not be read.
fn problem_paragraph_exec(m: Vec<char>) -> (r: Node)
    ensures
        r.view() == problem_paragraph(m@),
{
    let mut text: Vec<Node> = Vec::new();
    text.push(Node::Text(string_of(m.as_slice())));
    let p = Elem {
        element_type: ElementType::Problematic,
        common: CommonAttributes::default(),
        extra: Extra::Problematic(a::Problematic { refid: None }),
        children: text,
    };
    assert(p.view().children =~= seq![NodeView::Text(m@)]);
    let mut ch: Vec<Node> = Vec::new();
    ch.push(Node::element(p));
    let para = Elem { element_type: ElementType::Paragraph, common: CommonAttributes::default(), extra: Extra::Plain, children: ch };
    assert(para.view().children =~= problem_paragraph(m@)->Element_0.children);
    Node::element(para)
}

/// The label text of a footnote.
fn footnote_label_exec(e: &Elem) -> (r: Option<Vec<char>>)
    ensures
        match r {
            Some(l) => footnote_label(e.view()) == Some(l@),
            None => footnote_label(e.view()) is None,
        },
{
    if e.children.len() == 0 {
        return None;
    }
    assert(e.view().children[0] == e.children@[0].view());
    match &e.children[0] {
        Node::Element(l) => {
            if l.element_type == ElementType::Label && l.children.len() == 1 {
                assert(l.view().children[0] == l.children@[0].view());
                match &l.children[0] {
                    Node::Text(t) => Some(crate::text::str_to_chars(t.as_str())),
                    _ => None,
                }
            } else {
                None
            }
        },
        _ => None,
    }
}

/// The first pass over one node.
pub fn p1_node_exec(st: &mut Pass1, n: &Node) -> (r: Node)
    ensures
        (final(st).view(), r.view()) == p1_node(old(st).view(), n.view()),
    decreases n, 0nat,
{
    match n {
        Node::Text(t) => Node::Text(t.clone()),
        Node::Element(e) => {
            let ghost ev = e.view();
            if e.element_type == ElementType::Footnote {
                let auto = match &e.extra {
                    Extra::Footnote(f) => f.auto,
                    _ => None,
                };
                let k: usize = match auto {
                    Some(FootnoteType::Number) => first_free_exec(&st.num),
                    Some(FootnoteType::Symbol) => {
                        let l = st.sym.len();
                        if l < usize::MAX {
                            l + 1
                        } else {
                            l
                        }
                    },
                    None => match footnote_label_exec(e) {
                        Some(l) => match label_number_exec(&l) {
                            Ok(k) => k,
                            Err(m) => {
                                return problem_paragraph_exec(m);
                            },
                        },
                        None => {
                            let m = crate::text::vec_of(&['f', 'o', 'o', 't', 'n', 'o', 't', 'e', ' ', 'w', 'i', 't', 'h', 'o', 'u', 't', ' ', 'l', 'a', 'b', 'e', 'l']);
                            assert(m@ =~= msg_no_label());
                            return problem_paragraph_exec(m);
                        },
                    },
                };
                assert(footnote_number(old(st).view(), ev) == LabelNumber::Number(k as nat));
                let named = e.common.names.len() > 0;
                if !named {
                    if st.n_anon < usize::MAX {
                        st.n_anon = st.n_anon + 1;
                    }
                }
                let id: String = if named {
                    e.common.names[0].0.clone()
                } else {
                    let pre = ['f', 'o', 'o', 't', 'n', 'o', 't', 'e', '-'];
                    assert(pre@ =~= footnote_prefix());
                    prefixed_decimal(&pre, st.n_anon)
                };
                let ghost idv = id@;
                match auto {
                    Some(FootnoteType::Symbol) => insert_number(&mut st.sym, id.clone(), k),
                    _ => insert_number(&mut st.num, id.clone(), k),
                }
                match auto {
                    Some(FootnoteType::Number) => {
                        if named {
                            let ghost before = ints_view(st.named@);
                            st.named.push(k);
                            assert(ints_view(st.named@) =~= before.push(k as int));
                        } else {
                            let ghost before = ints_view(st.anon@);
                            st.anon.push(k);
                            assert(ints_view(st.anon@) =~= before.push(k as int));
                        }
                    },
                    _ => {},
                }
                assert(st.view() == record_footnote(old(st).view(), ev, idv, k as int, st.n_anon as int));
                let children = p1_nodes_exec(st, &e.children);
                let mut common = e.common.duplicate();
                let ghost cv = common@;
                common.ids.push(ID(id));
                assert(common@.ids =~= cv.ids.push(idv));
                let r = Elem { element_type: e.element_type, common, extra: e.extra.duplicate(), children };
                Node::element(r)
            } else if e.element_type == ElementType::FootnoteReference {
                if st.n_refs < usize::MAX {
                    st.n_refs = st.n_refs + 1;
                }
                let pre = ['f', 'o', 'o', 't', 'n', 'o', 't', 'e', '-', 'r', 'e', 'f', 'e', 'r', 'e', 'n', 'c', 'e', '-'];
                assert(pre@ =~= reference_prefix());
                let id = prefixed_decimal(&pre, st.n_refs);
                let ghost idv = id@;
                let children = p1_nodes_exec(st, &e.children);
                let mut common = e.common.duplicate();
                let ghost cv = common@;
                common.ids.push(ID(id));
                assert(common@.ids =~= cv.ids.push(idv));
                let r = Elem { element_type: e.element_type, common, extra: e.extra.duplicate(), children };
                Node::element(r)
            } else {
                let children = p1_nodes_exec(st, &e.children);
                let r = Elem { element_type: e.element_type, common: e.common.duplicate(), extra: e.extra.duplicate(), children };
                Node::element(r)
            }
        },
    }
}

/// The first pass over a list of nodes, in order.
pub fn p1_nodes_exec(st: &mut Pass1, v: &Vec<Node>) -> (r: Vec<Node>)
    ensures
        (final(st).view(), nodes_view(r@)) == p1_nodes(old(st).view(), nodes_view(v@)),
    decreases v@, 1nat,
{
    let ghost vv = nodes_view(v@);
    let ghost st0 = st.view();
    let mut r: Vec<Node> = Vec::new();
    let mut i: usize = 0;
    assert(vv.subrange(0, 0) =~= Seq::<NodeView>::empty());
    assert(nodes_view(r@) =~= Seq::<NodeView>::empty());
    while i < v.len()
        invariant
            i <= v@.len(),
            vv == nodes_view(v@),
            (st.view(), nodes_view(r@)) == p1_nodes(st0, vv.subrange(0, i as int)),
        decreases v@.len() - i,
    {
        let ghost before = nodes_view(r@);
        let x = p1_node_exec(st, &v[i]);
        r.push(x);
        assert(nodes_view(r@) =~= before.push(x.view()));
        assert(vv.subrange(0, i + 1).subrange(0, i as int) =~= vv.subrange(0, i as int));
        i += 1;
    }
    assert(vv.subrange(0, v@.len() as int) =~= vv);
    r
}

} // verus!
