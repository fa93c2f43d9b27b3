//! Nesting the top-level blocks into sections: each title opens a section at the level of
//! its adornment, the first kind of adornment seen being the outermost level.
use vstd::prelude::*;

use super::body::{blocks_view, Block};
use super::grammar::{BlockView, TitleKind};
use crate::element_categories::ElementType;
use crate::elements::{
    empty_common, nodes_view, CommonAttributes, CommonView, Document, DocumentView, Elem, ElemView,
    Extra, ExtraView, Node, NodeView,
};
use crate::attribute_types::ID;

verus! {

broadcast use crate::elements::group_nodes_view;

/// Where section nesting stands: the title kinds met so far, by level; for each open
/// level, the index of its section in the level above (`None` for a skipped level); and
/// the tree built so far.
pub struct SectionState {
    pub kinds: Seq<TitleKind>,
    pub path: Seq<Option<int>>,
    pub tree: Seq<NodeView>,
}

/// The indices of the open sections, skipped levels left out.
pub open spec fn open_indices(path: Seq<Option<int>>) -> Seq<int>
    decreases path.len(),
{
    if path.len() == 0 {
        Seq::empty()
    } else {
        match path.last() {
            Some(i) => open_indices(path.drop_last()).push(i),
            None => open_indices(path.drop_last()),
        }
    }
}

/// `level` with `n` appended to the children of the section that `at` leads to; unchanged
/// where `at` leads nowhere.
pub open spec fn push_at(level: Seq<NodeView>, at: Seq<int>, n: NodeView) -> Seq<NodeView>
    decreases at.len(),
{
    if at.len() == 0 {
        level.push(n)
    } else if 0 <= at[0] < level.len() && level[at[0]] is Element {
        let e = level[at[0]]->Element_0;
        level.update(
            at[0],
            NodeView::Element(ElemView { children: push_at(e.children, at.drop_first(), n), ..e }),
        )
    } else {
        level
    }
}

/// The number of nodes in the level that `at` leads to; 0 where it leads nowhere.
pub open spec fn level_len(level: Seq<NodeView>, at: Seq<int>) -> int
    decreases at.len(),
{
    if at.len() == 0 {
        level.len() as int
    } else if 0 <= at[0] < level.len() && level[at[0]] is Element {
        level_len(level[at[0]]->Element_0.children, at.drop_first())
    } else {
        0
    }
}

/// The first position of `k` in `kinds`, or -1.
pub open spec fn kind_position(kinds: Seq<TitleKind>, k: TitleKind) -> int
    decreases kinds.len(),
{
    if kinds.len() == 0 {
        -1
    } else if kind_position(kinds.drop_last(), k) >= 0 {
        kind_position(kinds.drop_last(), k)
    } else if kinds.last() == k {
        kinds.len() - 1
    } else {
        -1
    }
}

/// A title takes the level of the first earlier title whose adornment is the very same
/// kind (same character, same over- and underlining); a new kind takes a new level.
pub proof fn law_kind_position_finds_same_kind(kinds: Seq<TitleKind>, k: TitleKind)
    ensures
        -1 <= kind_position(kinds, k) < kinds.len(),
        kind_position(kinds, k) >= 0 ==> kinds[kind_position(kinds, k)] == k,
        kind_position(kinds, k) >= 0 ==> forall|j: int| 0 <= j < kind_position(kinds, k) ==> #[trigger] kinds[j] != k,
        kind_position(kinds, k) == -1 ==> forall|j: int| 0 <= j < kinds.len() ==> #[trigger] kinds[j] != k,
    decreases kinds.len(),
{
    if kinds.len() > 0 {
        let pre = kinds.drop_last();
        law_kind_position_finds_same_kind(pre, k);
        let p = kind_position(pre, k);
        if p >= 0 {
            assert(kinds[p] == pre[p]);
            assert forall|j: int| 0 <= j < p implies #[trigger] kinds[j] != k by {
                assert(kinds[j] == pre[j]);
            }
        } else {
            assert forall|j: int| 0 <= j < kinds.len() - 1 implies #[trigger] kinds[j] != k by {
                assert(kinds[j] == pre[j]);
            }
        }
    }
}

/// `path` cut or padded with skipped levels to `n` levels.
pub open spec fn path_to_level(path: Seq<Option<int>>, n: int) -> Seq<Option<int>> {
    if n <= path.len() {
        path.subrange(0, n)
    } else {
        path + Seq::new((n - path.len()) as nat, |i: int| None)
    }
}

/// The section that a title opens: the title first, identified by the title's first name.
pub open spec fn section_of(t: ElemView) -> NodeView {
    NodeView::Element(
        ElemView {
            element_type: ElementType::Section,
            common: CommonView {
                ids: if t.common.names.len() > 0 {
                    seq![t.common.names[0]]
                } else {
                    Seq::empty()
                },
                ..empty_common()
            },
            extra: ExtraView::Plain,
            children: seq![NodeView::Element(t)],
        },
    )
}

/// The state after one more top-level block.
pub open spec fn section_step(st: SectionState, b: BlockView) -> SectionState {
    match b {
        BlockView::Title(t, kind) => {
            let p = kind_position(st.kinds, kind);
            let kinds = if p >= 0 {
                st.kinds
            } else {
                st.kinds.push(kind)
            };
            let path = if p >= 0 {
                path_to_level(st.path, p)
            } else {
                st.path
            };
            let at = open_indices(path);
            SectionState {
                kinds: kinds,
                path: path.push(Some(level_len(st.tree, at))),
                tree: push_at(st.tree, at, section_of(t)),
            }
        },
        BlockView::Element(n) => SectionState {
            tree: push_at(st.tree, open_indices(st.path), n),
            ..st
        },
    }
}

/// The state after all of `bs`.
pub open spec fn sections_after(bs: Seq<BlockView>) -> SectionState
    decreases bs.len(),
{
    if bs.len() == 0 {
        SectionState { kinds: Seq::empty(), path: Seq::empty(), tree: Seq::empty() }
    } else {
        section_step(sections_after(bs.drop_last()), bs.last())
    }
}

/// The document that the top-level blocks `bs` make.
pub open spec fn spec_convert_document(bs: Seq<BlockView>) -> DocumentView {
    DocumentView { children: sections_after(bs).tree }
}

/// Whether a node, and every node inside it, holds no section that does not begin with a
/// title.
pub open spec fn sections_titled(n: NodeView) -> bool
    decreases n, 0nat,
{
    match n {
        NodeView::Text(_) => true,
        NodeView::Element(e) => {
            &&& e.element_type == ElementType::Section ==> {
                &&& e.children.len() > 0
                &&& e.children[0] is Element
                &&& e.children[0]->Element_0.element_type == ElementType::Title
            }
            &&& forall|i: int| 0 <= i < e.children.len() ==> sections_titled(#[trigger] e.children[i])
        },
    }
}

/// Whether no node of `ns`, at any depth, is a section that does not begin with a title.
pub open spec fn all_sections_titled(ns: Seq<NodeView>) -> bool {
    forall|i: int| 0 <= i < ns.len() ==> sections_titled(#[trigger] ns[i])
}

/// What a top-level block is: a title element, or an element; neither holding a section
/// that does not begin with a title.
pub open spec fn block_titled(b: BlockView) -> bool {
    match b {
        BlockView::Title(t, _) => t.element_type == ElementType::Title && all_sections_titled(t.children),
        BlockView::Element(n) => sections_titled(n),
    }
}

proof fn lemma_push_at_titled(level: Seq<NodeView>, at: Seq<int>, n: NodeView)
    requires
        all_sections_titled(level),
        sections_titled(n),
    ensures
        all_sections_titled(push_at(level, at, n)),
    decreases at.len(),
{
    if at.len() == 0 {
        assert forall|i: int| 0 <= i < level.push(n).len() implies sections_titled(#[trigger] level.push(n)[i]) by {
            if i < level.len() {
                assert(level.push(n)[i] == level[i]);
            }
        }
    } else if 0 <= at[0] < level.len() && level[at[0]] is Element {
        let e = level[at[0]]->Element_0;
        assert(sections_titled(level[at[0]]));
        assert(all_sections_titled(e.children));
        lemma_push_at_titled(e.children, at.drop_first(), n);
        let ch = push_at(e.children, at.drop_first(), n);
        if e.children.len() > 0 {
            let rest = at.drop_first();
            if rest.len() == 0 {
                assert(ch[0] == e.children[0]);
            } else if 0 <= rest[0] < e.children.len() && e.children[rest[0]] is Element {
                if rest[0] != 0 {
                    assert(ch[0] == e.children[0]);
                }
            } else {
                assert(ch == e.children);
            }
        }
        let new = NodeView::Element(ElemView { children: ch, ..e });
        assert(sections_titled(new));
        let r = level.update(at[0], new);
        assert forall|i: int| 0 <= i < r.len() implies sections_titled(#[trigger] r[i]) by {
            if i != at[0] {
                assert(r[i] == level[i]);
            }
        }
    }
}

proof fn lemma_sections_after_titled(bs: Seq<BlockView>)
    requires
        forall|i: int| 0 <= i < bs.len() ==> block_titled(#[trigger] bs[i]),
    ensures
        all_sections_titled(sections_after(bs).tree),
    decreases bs.len(),
{
    if bs.len() > 0 {
        assert forall|i: int| 0 <= i < bs.drop_last().len() implies block_titled(#[trigger] bs.drop_last()[i]) by {
            assert(bs.drop_last()[i] == bs[i]);
        }
        lemma_sections_after_titled(bs.drop_last());
        let st = sections_after(bs.drop_last());
        assert(block_titled(bs[bs.len() - 1]));
        match bs.last() {
            BlockView::Title(t, kind) => {
                let p = kind_position(st.kinds, kind);
                let path = if p >= 0 {
                    path_to_level(st.path, p)
                } else {
                    st.path
                };
                let sec = section_of(t);
                assert(sections_titled(sec->Element_0.children[0]));
                assert(sections_titled(sec));
                lemma_push_at_titled(st.tree, open_indices(path), sec);
            },
            BlockView::Element(n) => {
                lemma_push_at_titled(st.tree, open_indices(st.path), n);
            },
        }
    }
}

/// Every section of a document nested from top-level blocks begins with its title, at
/// any depth, where the titles are title elements and no block holds a section without
/// one.
pub proof fn law_sections_begin_with_titles(bs: Seq<BlockView>)
    requires
        forall|i: int| 0 <= i < bs.len() ==> block_titled(#[trigger] bs[i]),
    ensures
        all_sections_titled(spec_convert_document(bs).children),
{
    lemma_sections_after_titled(bs);
}

/// The first position of `k` in `kinds`.
fn kind_position_exec(kinds: &Vec<TitleKind>, k: TitleKind) -> (r: Option<usize>)
    ensures
        match r {
            Some(p) => kind_position(kinds@, k) == p && p < kinds@.len(),
            None => kind_position(kinds@, k) == -1,
        },
{
    let mut i: usize = 0;
    while i < kinds.len()
        invariant
            i <= kinds@.len(),
            kind_position(kinds@.subrange(0, i as int), k) == -1,
        decreases kinds@.len() - i,
    {
        assert(kinds@.subrange(0, i + 1).drop_last() =~= kinds@.subrange(0, i as int));
        if kinds[i] == k {
            proof {
                lemma_kind_position_prefix(kinds@, k, i + 1);
            }
            return Some(i);
        }
        i += 1;
    }
    assert(kinds@.subrange(0, kinds@.len() as int) =~= kinds@);
    None
}

/// Where `k` occurs first within a prefix, it occurs there first in the whole.
proof fn lemma_kind_position_prefix(kinds: Seq<TitleKind>, k: TitleKind, n: int)
    requires
        0 < n <= kinds.len(),
        kind_position(kinds.subrange(0, n), k) >= 0,
    ensures
        kind_position(kinds, k) == kind_position(kinds.subrange(0, n), k),
    decreases kinds.len() - n,
{
    if n < kinds.len() {
        assert(kinds.subrange(0, n + 1).drop_last() =~= kinds.subrange(0, n));
        lemma_kind_position_prefix(kinds, k, n + 1);
    } else {
        assert(kinds.subrange(0, n) =~= kinds);
    }
}

/// The indices of the open sections.
fn open_indices_exec(path: &Vec<Option<usize>>) -> (r: Vec<usize>)
    ensures
        ints_view(r@) == open_indices(path_view(path@)),
{
    let ghost pv = path_view(path@);
    let mut r: Vec<usize> = Vec::new();
    let mut i: usize = 0;
    assert(pv.subrange(0, 0) =~= Seq::<Option<int>>::empty());
    while i < path.len()
        invariant
            i <= path@.len(),
            pv == path_view(path@),
            ints_view(r@) == open_indices(pv.subrange(0, i as int)),
        decreases path@.len() - i,
    {
        let ghost before = ints_view(r@);
        assert(pv.subrange(0, i + 1).drop_last() =~= pv.subrange(0, i as int));
        match path[i] {
            Some(x) => {
                r.push(x);
                assert(ints_view(r@) =~= before.push(x as int));
            },
            None => {},
        }
        i += 1;
    }
    assert(pv.subrange(0, path@.len() as int) =~= pv);
    r
}

/// An optional index as an optional integer.
pub open spec fn opt_int(o: Option<usize>) -> Option<int> {
    match o {
        Some(i) => Some(i as int),
        None => None,
    }
}

/// The views of the open levels' indices.
pub open spec fn path_view(v: Seq<Option<usize>>) -> Seq<Option<int>> {
    v.map_values(|o: Option<usize>| opt_int(o))
}

/// The views of a list of indices.
pub open spec fn ints_view(v: Seq<usize>) -> Seq<int> {
    v.map_values(|i: usize| i as int)
}

/// Appends `n` to the level that `at[k..]` leads to from `level`; returns that level's length
/// before.
fn push_at_exec(level: &mut Vec<Node>, at: &Vec<usize>, k: usize, n: Node) -> (r: usize)
    requires
        k <= at@.len(),
    ensures
        nodes_view(final(level)@) == push_at(nodes_view(old(level)@), ints_view(at@).subrange(k as int, at@.len() as int), n.view()),
        r == level_len(nodes_view(old(level)@), ints_view(at@).subrange(k as int, at@.len() as int)),
    decreases at@.len() - k,
{
    let ghost lv = nodes_view(level@);
    let ghost rest = ints_view(at@).subrange(k as int, at@.len() as int);
    if k == at.len() {
        assert(rest.len() == 0);
        let len = level.len();
        level.push(n);
        assert(nodes_view(level@) =~= lv.push(n.view()));
        return len;
    }
    let i = at[k];
    assert(rest[0] == i as int);
    assert(rest.drop_first() =~= ints_view(at@).subrange(k + 1, at@.len() as int));
    if i < level.len() {
        let node = level.remove(i);
        assert(node.view() == lv[i as int]);
        match node {
            Node::Element(b) => {
                let mut e = *b;
                let ghost ev = e.view();
                let len = push_at_exec(&mut e.children, at, k + 1, n);
                assert(e.view() == ElemView { children: nodes_view(e.children@), ..ev });
                let ghost newv = NodeView::Element(e.view());
                level.insert(i, Node::Element(Box::new(e)));
                assert(nodes_view(level@) =~= lv.update(i as int, newv));
                len
            },
            Node::Text(t) => {
                level.insert(i, Node::Text(t));
                assert(nodes_view(level@) =~= lv);
                0
            },
        }
    } else {
        0
    }
}

/// The section that a title opens.
fn section_exec(t: Elem) -> (r: Node)
    ensures
        r.view() == section_of(t.view()),
{
    let mut ids: Vec<ID> = Vec::new();
    if t.common.names.len() > 0 {
        ids.push(ID(t.common.names[0].0.clone()));
    }
    let ghost tv = t.view();
    let mut children: Vec<Node> = Vec::new();
    children.push(Node::element(t));
    let e = Elem {
        element_type: ElementType::Section,
        common: CommonAttributes { ids, names: Vec::new(), source: None, classes: Vec::new() },
        extra: Extra::Plain,
        children,
    };
    assert(e.view().common.ids =~= section_of(tv)->Element_0.common.ids);
    assert(e.view().common.names =~= Seq::<Seq<char>>::empty());
    assert(e.view().common.classes =~= Seq::<Seq<char>>::empty());
    assert(e.view().children =~= seq![NodeView::Element(tv)]);
    Node::element(e)
}

/// Nests the top-level blocks into sections and makes the document of them.
pub fn convert_document(blocks: Vec<Block>) -> (d: Document)
    ensures
        d.view() == spec_convert_document(blocks_view(blocks@)),
{
    let ghost bv = blocks_view(blocks@);
    let mut blocks = blocks;
    let mut kinds: Vec<TitleKind> = Vec::new();
    let mut path: Vec<Option<usize>> = Vec::new();
    let mut tree: Vec<Node> = Vec::new();
    let ghost mut done: nat = 0;
    assert(bv.subrange(0, 0) =~= Seq::<BlockView>::empty());
    assert(path_view(path@) =~= Seq::<Option<int>>::empty());
    assert(nodes_view(tree@) =~= Seq::<NodeView>::empty());
    while blocks.len() > 0
        invariant
            done + blocks@.len() == bv.len(),
            forall|j: int| 0 <= j < blocks@.len() ==> #[trigger] blocks@[j].view() == bv[done + j],
            sections_after(bv.subrange(0, done as int)) == (SectionState {
                kinds: kinds@,
                path: path_view(path@),
                tree: nodes_view(tree@),
            }),
        decreases blocks@.len(),
    {
        let b = blocks.remove(0);
        let ghost st = sections_after(bv.subrange(0, done as int));
        assert(b.view() == bv[done as int]);
        assert(bv.subrange(0, (done + 1) as int).drop_last() =~= bv.subrange(0, done as int));
        assert(bv.subrange(0, (done + 1) as int).last() == bv[done as int]);
        match b {
            Block::Title(t, kind) => {
                match kind_position_exec(&kinds, kind) {
                    Some(p) => {
                        let ghost pv = path_view(path@);
                        if p <= path.len() {
                            path.truncate(p);
                            assert(path_view(path@) =~= path_to_level(pv, p as int));
                        } else {
                            while path.len() < p
                                invariant
                                    path@.len() <= p,
                                    pv.len() <= path@.len(),
                                    path_view(path@) =~= pv + Seq::new((path@.len() - pv.len()) as nat, |i: int| None::<int>),
                                decreases p - path@.len(),
                            {
                                let ghost before = path_view(path@);
                                path.push(None);
                                assert(path_view(path@) =~= before.push(None::<int>));
                                assert(path_view(path@) =~= pv + Seq::new((path@.len() - pv.len()) as nat, |i: int| None::<int>));
                            }
                            assert(path_view(path@) =~= path_to_level(pv, p as int));
                        }
                    },
                    None => {
                        kinds.push(kind);
                    },
                }
                let at = open_indices_exec(&path);
                let section = section_exec(t);
                let len = push_at_exec(&mut tree, &at, 0, section);
                let ghost before = path_view(path@);
                assert(ints_view(at@).subrange(0, at@.len() as int) =~= ints_view(at@));
                path.push(Some(len));
                assert(path_view(path@) =~= before.push(Some(len as int)));
            },
            Block::Element(n) => {
                let at = open_indices_exec(&path);
                assert(ints_view(at@).subrange(0, at@.len() as int) =~= ints_view(at@));
                let _ = push_at_exec(&mut tree, &at, 0, n);
            },
        }
        proof {
            done = done + 1;
        }
        assert forall|j: int| 0 <= j < blocks@.len() implies #[trigger] blocks@[j].view() == bv[done + j] by {
        }
    }
    assert(bv.subrange(0, done as int) =~= bv);
    Document { children: tree }
}

} // verus!
