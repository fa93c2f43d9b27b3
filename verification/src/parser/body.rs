//! Reading nested bodies: lists, block quotes, explicit markup and directives, down to
//! paragraphs.
use vstd::prelude::*;

use super::blocks::{
    comment_node_exec, double_title_at_exec, is_bullet_line, is_explicit_line, join_lines_exec,
    paragraph_exec, region_exec, single_title_at_exec, sub_lines, title_elem_exec,
    trim_start_vec, trim_vec, RstError,
};
use super::explicit::{
    attribution_start_exec, directive_assemble_exec, directive_nests_exec, directive_parts_exec,
    footnote_assemble_exec, footnote_parts_exec, lemma_directive_assemble_flat,
    lemma_directive_assemble_none, lemma_footnote_assemble_none, next_blank_exec,
    paragraph_at_exec, substitution_node_exec, substitution_parts_exec, target_node_exec,
    target_parts_exec,
};
use super::grammar::{
    block_at, block_quotes, blocks_from, blocks_nodes, body_nodes, bullet_items, bullet_line,
    directive_node, directive_parts, explicit_block, footnote_node, footnote_parts, join_lines,
    next_blank, nodes_of, paragraph, region, trim_start, BlockView, TitleKind,
};
use super::inline::{elem_node, parse_inlines, slice_to_vec, spec_parse_inlines, InlineError};
use super::lines::{
    blank, count_spaces, dedent, dedent_exec, dedent_lines, dedent_lines_exec, indented_end,
    indented_end_exec, is_blank, lines_view, skip_blank, skip_blank_exec, trim_blank_end,
    trim_blank_end_exec,
};
use super::unfold::{
    lemma_block_at_bullet, lemma_block_at_double, lemma_block_at_explicit, lemma_block_at_no_fuel,
    lemma_block_at_paragraph, lemma_block_at_quotes, lemma_block_at_single,
    lemma_block_quotes_plain, lemma_block_quotes_step, lemma_blocks_from_blank,
    lemma_blocks_from_block, lemma_blocks_from_end, lemma_blocks_from_fail,
    lemma_bullet_items_no_fuel, lemma_bullet_items_step, lemma_directive_node,
    lemma_explicit_block, lemma_footnote_node, list_goes_on,
};
use crate::element_categories::ElementType;
use crate::elements::{nodes_view, Elem, Extra, ExtraView, Node};
use crate::extra_attributes as a;


verus! {

broadcast use crate::elements::group_nodes_view;

/// A top-level block: a section title with its adornment, or an element.
pub enum Block {
    Title(Elem, TitleKind),
    Element(Node),
}

impl Block {
    pub open spec fn view(&self) -> BlockView {
        match self {
            Block::Title(e, k) => BlockView::Title(e.view(), *k),
            Block::Element(n) => BlockView::Element(n.view()),
        }
    }
}

/// The views of a list of blocks.
pub open spec fn blocks_view(v: Seq<Block>) -> Seq<BlockView> {
    v.map_values(|b: Block| b.view())
}

/// A list of one block.
pub(crate) fn one_block(b: Block) -> (r: Vec<Block>)
    ensures
        blocks_view(r@) == seq![b.view()],
{
    let mut r: Vec<Block> = Vec::new();
    r.push(b);
    assert(blocks_view(r@) =~= seq![b.view()]);
    r
}

/// A list of one node.
pub(crate) fn one_node(n: Node) -> (r: Vec<Node>)
    ensures
        nodes_view(r@) == seq![n.view()],
{
    let mut r: Vec<Node> = Vec::new();
    r.push(n);
    assert(nodes_view(r@) =~= seq![n.view()]);
    r
}

/// Appends `b` to `a`.
pub(crate) fn concat_nodes(a: Vec<Node>, b: Vec<Node>) -> (r: Vec<Node>)
    ensures
        nodes_view(r@) == nodes_view(a@) + nodes_view(b@),
{
    let mut a = a;
    let mut b = b;
    let ghost va = nodes_view(a@);
    let ghost vb = nodes_view(b@);
    a.append(&mut b);
    assert(nodes_view(a@) =~= va + vb);
    a
}

/// The nodes that stand for blocks in a nested body.
pub fn blocks_into_nodes(bs: Vec<Block>) -> (r: Vec<Node>)
    ensures
        nodes_view(r@) == blocks_nodes(blocks_view(bs@)),
{
    let ghost orig = blocks_view(bs@);
    let mut bs = bs;
    let mut r: Vec<Node> = Vec::new();
    while bs.len() > 0
        invariant
            r@.len() + bs@.len() == orig.len(),
            forall|k: int| 0 <= k < r@.len() ==> #[trigger] r@[k].view() == blocks_nodes(orig)[k],
            forall|k: int| 0 <= k < bs@.len() ==> #[trigger] bs@[k].view() == orig[r@.len() + k],
        decreases bs@.len(),
    {
        let ghost k0 = r@.len();
        let b = bs.remove(0);
        assert(b.view() == orig[k0 as int]);
        let n = match b {
            Block::Title(e, _) => Node::element(e),
            Block::Element(n) => n,
        };
        r.push(n);
        assert(r@[k0 as int].view() == blocks_nodes(orig)[k0 as int]);
        assert forall|k: int| 0 <= k < bs@.len() implies #[trigger] bs@[k].view() == orig[r@.len() + k] by {
        }
    }
    assert(nodes_view(r@) =~= blocks_nodes(orig));
    r
}

/// Blocks for a list of element nodes.
pub(crate) fn nodes_into_blocks(ns: Vec<Node>) -> (r: Vec<Block>)
    ensures
        blocks_view(r@) == Seq::new(nodes_view(ns@).len(), |k: int| BlockView::Element(nodes_view(ns@)[k])),
{
    let ghost orig = nodes_view(ns@);
    let mut ns = ns;
    let mut r: Vec<Block> = Vec::new();
    while ns.len() > 0
        invariant
            r@.len() + ns@.len() == orig.len(),
            forall|k: int| 0 <= k < r@.len() ==> #[trigger] r@[k].view() == BlockView::Element(orig[k]),
            forall|k: int| 0 <= k < ns@.len() ==> #[trigger] ns@[k].view() == orig[r@.len() + k],
        decreases ns@.len(),
    {
        let ghost k0 = r@.len();
        let n = ns.remove(0);
        r.push(Block::Element(n));
        assert forall|k: int| 0 <= k < ns@.len() implies #[trigger] ns@[k].view() == orig[r@.len() + k] by {
        }
    }
    assert(blocks_view(r@) =~= Seq::new(orig.len(), |k: int| BlockView::Element(orig[k])));
    r
}

pub(crate) proof fn lemma_trim_blank_end_keeps(lines: Seq<Seq<char>>, from: int, to: int, k: int)
    requires
        0 <= from <= k < to <= lines.len(),
        !blank(lines[k]),
    ensures
        trim_blank_end(lines, from, to) > k,
    decreases to - from,
{
    if to - 1 > k {
        lemma_trim_blank_end_keeps(lines, from, to - 1, k);
    }
}

/// The blocks of `lines` from `i0` on.
pub fn blocks_from_exec(lines: &Vec<Vec<char>>, i0: usize, top: bool, fuel: usize) -> (r: Result<Vec<Block>, RstError>)
    requires
        i0 <= lines@.len(),
    ensures
        r matches Err(e) ==> e.from_grammar(),
        match r {
            Ok(bs) => blocks_from(lines_view(lines@), i0 as int, top, fuel as nat) == Some(blocks_view(bs@)),
            Err(_) => blocks_from(lines_view(lines@), i0 as int, top, fuel as nat) is None,
        },
    decreases fuel, lines@.len() - i0, 2nat,
{
    let ghost lv = lines_view(lines@);
    let mut acc: Vec<Block> = Vec::new();
    let mut i = i0;
    assert(blocks_view(acc@) =~= Seq::<BlockView>::empty());
    proof {
        match blocks_from(lv, i as int, top, fuel as nat) {
            Some(rest) => {
                assert(blocks_view(acc@) + rest =~= rest);
            },
            None => {},
        }
    }
    while i < lines.len()
        invariant
            i0 <= i <= lines@.len(),
            lv == lines_view(lines@),
            blocks_from(lv, i0 as int, top, fuel as nat) == (match blocks_from(lv, i as int, top, fuel as nat) {
                Some(rest) => Some(blocks_view(acc@) + rest),
                None => None,
            }),
        decreases lines@.len() - i,
    {
        assert(lv[i as int] == lines@[i as int]@);
        if is_blank(&lines[i]) {
            proof {
                lemma_blocks_from_blank(lv, i as int, top, fuel as nat);
            }
            i += 1;
        } else {
            match block_at_exec(lines, i, top, fuel) {
                Ok((bs, next)) => {
                    proof {
                        lemma_blocks_from_block(lv, i as int, top, fuel as nat, blocks_view(bs@), next as int);
                    }
                    let ghost before = blocks_view(acc@);
                    let mut bs = bs;
                    let ghost vb = blocks_view(bs@);
                    acc.append(&mut bs);
                    assert(blocks_view(acc@) =~= before + vb);
                    proof {
                        match blocks_from(lv, next as int, top, fuel as nat) {
                            Some(rest) => {
                                assert(before + (vb + rest) =~= before + vb + rest);
                            },
                            None => {},
                        }
                    }
                    i = next;
                },
                Err(e) => {
                    proof {
                        lemma_blocks_from_fail(lv, i as int, top, fuel as nat);
                    }
                    return Err(e);
                },
            }
        }
    }
    proof {
        lemma_blocks_from_end(lv, i as int, top, fuel as nat);
    }
    assert(blocks_view(acc@) + Seq::<BlockView>::empty() =~= blocks_view(acc@));
    Ok(acc)
}

/// The nodes of a nested body.
pub fn body_nodes_exec(lines: &Vec<Vec<char>>, fuel: usize) -> (r: Result<Vec<Node>, RstError>)
    ensures
        r matches Err(e) ==> e.from_grammar(),
        match r {
            Ok(ns) => body_nodes(lines_view(lines@), fuel as nat) == Some(nodes_view(ns@)),
            Err(_) => body_nodes(lines_view(lines@), fuel as nat) is None,
        },
    decreases fuel, lines@.len(), 3nat,
{
    match blocks_from_exec(lines, 0, false, fuel) {
        Ok(bs) => {
            let ghost bv = blocks_view(bs@);
            assert(blocks_from(lines_view(lines@), 0, false, fuel as nat) == Some(bv));
            let ns = blocks_into_nodes(bs);
            assert(body_nodes(lines_view(lines@), fuel as nat) == Some(blocks_nodes(bv)));
            Ok(ns)
        },
        Err(e) => Err(e),
    }
}

/// The blocks at line `i`, with the line after them.
pub fn block_at_exec(lines: &Vec<Vec<char>>, i: usize, top: bool, fuel: usize) -> (r: Result<(Vec<Block>, usize), RstError>)
    requires
        i < lines@.len(),
        !blank(lines@[i as int]@),
    ensures
        r matches Err(e) ==> e.from_grammar(),
        match r {
            Ok((bs, next)) => block_at(lines_view(lines@), i as int, top, fuel as nat) == Some((blocks_view(bs@), next as int))
                && i < next <= lines@.len(),
            Err(_) => block_at(lines_view(lines@), i as int, top, fuel as nat) is None,
        },
    decreases fuel, lines@.len() - i, 1nat,
{
    let ghost lv = lines_view(lines@);
    let _n = lines.len();
    assert(lv[i as int] == lines@[i as int]@);
    if top && double_title_at_exec(lines, i) {
        proof {
            lemma_block_at_double(lv, i as int, top, fuel as nat);
        }
        assert(lv[i + 1] == lines@[i + 1]@);
        let t = trim_vec(&lines[i + 1]);
        match title_elem_exec(&t, true) {
            Ok(e) => Ok((one_block(Block::Title(e, TitleKind::Double(lines[i][0]))), i + 3)),
            Err(x) => Err(x),
        }
    } else if is_explicit_line(&lines[i]) {
        if fuel == 0 {
            proof {
                lemma_block_at_no_fuel(lv, i as int, top, fuel as nat);
            }
            return Err(RstError::NestingTooDeep);
        }
        let ie = indented_end_exec(lines, i + 1, 1);
        let e = trim_blank_end_exec(lines, i + 1, ie);
        let head = dedent_exec(&lines[i], 3);
        let body = region_exec(lines, i + 1, e);
        proof {
            lemma_block_at_explicit(
                lv,
                i as int,
                top,
                fuel as nat,
                e as int,
                explicit_block(dedent(lv[i as int], 3), region(lv, i + 1, e as int), (fuel - 1) as nat),
            );
        }
        match explicit_block_exec(&head, &body, fuel - 1) {
            Ok(n) => Ok((one_block(Block::Element(n)), e)),
            Err(x) => Err(x),
        }
    } else if top && single_title_at_exec(lines, i) {
        proof {
            lemma_block_at_single(lv, i as int, top, fuel as nat);
        }
        assert(lv[i + 1] == lines@[i + 1]@);
        match title_elem_exec(&lines[i], true) {
            Ok(e) => Ok((one_block(Block::Title(e, TitleKind::Single(lines[i + 1][0]))), i + 2)),
            Err(x) => Err(x),
        }
    } else if is_bullet_line(&lines[i]) {
        proof {
            lemma_block_at_bullet(lv, i as int, top, fuel as nat, bullet_items(lv, i as int, lv[i as int][0], fuel as nat));
        }
        match bullet_items_exec(lines, i, lines[i][0], fuel) {
            Ok((items, e)) => {
                let list = Elem::assemble(
                    ElementType::BulletList,
                    Extra::BulletList(a::BulletList { bullet: None }),
                    items,
                );
                Ok((one_block(Block::Element(Node::element(list))), e))
            },
            Err(x) => Err(x),
        }
    } else if count_spaces(&lines[i], 0) > 0 {
        if fuel == 0 {
            proof {
                lemma_block_at_no_fuel(lv, i as int, top, fuel as nat);
            }
            return Err(RstError::NestingTooDeep);
        }
        let ie = indented_end_exec(lines, i + 1, 1);
        assert(indented_end(lv, i as int, 1) == ie);
        let e = trim_blank_end_exec(lines, i, ie);
        proof {
            lemma_trim_blank_end_keeps(lv, i as int, ie as int, i as int);
        }
        let body = region_exec(lines, i, e);
        proof {
            lemma_block_at_quotes(
                lv,
                i as int,
                top,
                fuel as nat,
                e as int,
                block_quotes(region(lv, i as int, e as int), (fuel - 1) as nat),
            );
        }
        match block_quotes_exec(&body, fuel - 1) {
            Ok(qs) => Ok((nodes_into_blocks(qs), e)),
            Err(x) => Err(x),
        }
    } else {
        proof {
            lemma_block_at_paragraph(lv, i as int, top, fuel as nat);
        }
        paragraph_at_exec(lines, i)
    }
}

/// The items of a bullet list with bullet `c` from line `i` on, with the line after them.
pub fn bullet_items_exec(lines: &Vec<Vec<char>>, i: usize, c: char, fuel: usize) -> (r: Result<(Vec<Node>, usize), RstError>)
    requires
        i < lines@.len(),
        bullet_line(lines@[i as int]@),
    ensures
        r matches Err(e) ==> e.from_grammar(),
        match r {
            Ok((items, end)) => bullet_items(lines_view(lines@), i as int, c, fuel as nat) == Some((nodes_view(items@), end as int))
                && i < end <= lines@.len(),
            Err(_) => bullet_items(lines_view(lines@), i as int, c, fuel as nat) is None,
        },
    decreases fuel, lines@.len() - i, 0nat,
{
    let ghost lv = lines_view(lines@);
    assert(lv[i as int] == lines@[i as int]@);
    if fuel == 0 {
        proof {
            lemma_bullet_items_no_fuel(lv, i as int, c, fuel as nat);
        }
        return Err(RstError::NestingTooDeep);
    }
    let _n = lines.len();
    let _w = lines[i].len();
    let col = 1 + count_spaces(&lines[i], 1);
    let ie = indented_end_exec(lines, i + 1, col);
    let e = trim_blank_end_exec(lines, i + 1, ie);
    proof {
        let next_v = skip_blank(lv, e as int);
        lemma_bullet_items_step(
            lv,
            i as int,
            c,
            fuel as nat,
            col as int,
            e as int,
            paragraph(dedent(lv[i as int], col as int)),
            nodes_of(blocks_from(dedent_lines(lv, i + 1, e as int, col as int), 0, false, (fuel - 1) as nat)),
            next_v,
            if list_goes_on(lv, i as int, c, next_v) {
                bullet_items(lv, next_v, c, fuel as nat)
            } else {
                None
            },
        );
    }
    let first_line = dedent_exec(&lines[i], col);
    let first = match paragraph_exec(&first_line) {
        Ok(p) => p,
        Err(x) => {
            return Err(x);
        },
    };
    let sub = dedent_lines_exec(lines, i + 1, e, col);
    let rest = match body_nodes_exec(&sub, fuel - 1) {
        Ok(ns) => ns,
        Err(x) => {
            return Err(x);
        },
    };
    let children = concat_nodes(one_node(first), rest);
    let item = Node::element(Elem::assemble(ElementType::ListItem, Extra::Plain, children));
    let next = skip_blank_exec(lines, e);
    if next < lines.len() && is_bullet_line(&lines[next]) && lines[next][0] == c && next > i {
        assert(lv[next as int] == lines@[next as int]@);
        match bullet_items_exec(lines, next, c, fuel) {
            Ok((items, end)) => Ok((concat_nodes(one_node(item), items), end)),
            Err(x) => Err(x),
        }
    } else {
        Ok((one_node(item), e))
    }
}

/// A block quote with the given children.
pub(crate) fn block_quote(children: Vec<Node>) -> (r: Node)
    ensures
        r.view() == elem_node(ElementType::BlockQuote, ExtraView::Plain, nodes_view(children@)),
{
    Node::element(Elem::assemble(ElementType::BlockQuote, Extra::Plain, children))
}

/// The block quotes of an indented region.
pub fn block_quotes_exec(r: &Vec<Vec<char>>, fuel: usize) -> (res: Result<Vec<Node>, RstError>)
    ensures
        res matches Err(e) ==> e.from_grammar(),
        match res {
            Ok(qs) => block_quotes(lines_view(r@), fuel as nat) == Some(nodes_view(qs@)),
            Err(_) => block_quotes(lines_view(r@), fuel as nat) is None,
        },
    decreases fuel, r@.len(), 4nat,
{
    let ghost lv = lines_view(r@);
    let _n = r.len();
    match attribution_start_exec(r, 2) {
        None => {
            proof {
                lemma_block_quotes_plain(lv, fuel as nat, nodes_of(blocks_from(lv, 0, false, fuel as nat)));
            }
            match body_nodes_exec(r, fuel) {
                Ok(b) => Ok(one_node(block_quote(b))),
                Err(x) => Err(x),
            }
        },
        Some(k) => {
            proof {
                let ae_v = next_blank(lv, k as int);
                let atext_v = join_lines(
                    seq![trim_start(lv[k as int].subrange(2, lv[k as int].len() as int))] + lv.subrange(k + 1, ae_v),
                );
                let rs_v = skip_blank(lv, ae_v);
                lemma_block_quotes_step(
                    lv,
                    fuel as nat,
                    k as int,
                    ae_v,
                    atext_v,
                    nodes_of(blocks_from(lv.subrange(0, k - 1), 0, false, fuel as nat)),
                    spec_parse_inlines(atext_v),
                    rs_v,
                    if rs_v < lv.len() && rs_v > k {
                        block_quotes(lv.subrange(rs_v, lv.len() as int), fuel as nat)
                    } else {
                        None
                    },
                );
            }
            assert(lv[k as int] == r@[k as int]@);
            assert(r@[k as int]@.len() >= 2);
            assert(!blank(lv[k as int])) by {
                assert(!crate::text::is_ws(lv[k as int][0]));
            }
            let ae = next_blank_exec(r, k + 1);
            assert(next_blank(lv, k as int) == ae);
            let tail = slice_to_vec(&r[k], 2, r[k].len());
            let first = trim_start_vec(&tail);
            let mut ls: Vec<Vec<char>> = Vec::new();
            ls.push(first);
            let mut more_lines = sub_lines(r, k + 1, ae);
            let ghost l0 = lines_view(ls@);
            let ghost l1 = lines_view(more_lines@);
            ls.append(&mut more_lines);
            assert(lines_view(ls@) =~= l0 + l1);
            let atext = join_lines_exec(&ls);
            let ghost first_v = trim_start(lv[k as int].subrange(2, lv[k as int].len() as int));
            assert(tail@ == lv[k as int].subrange(2, lv[k as int].len() as int));
            assert(lines_view(ls@) == seq![first_v] + lv.subrange(k + 1, ae as int));
            assert(atext@ == join_lines(seq![first_v] + lv.subrange(k + 1, ae as int)));
            let before = sub_lines(r, 0, k - 1);
            assert(before@.len() == lines_view(before@).len());
            let b = match body_nodes_exec(&before, fuel) {
                Ok(b) => b,
                Err(x) => {
                    return Err(x);
                },
            };
            let att = match parse_inlines(&atext) {
                Ok(att) => att,
                Err(InlineError::InvalidTarget(t)) => {
                    return Err(RstError::InvalidReference(t));
                },
            };
            let attribution = Node::element(Elem::assemble(ElementType::Attribution, Extra::Plain, att));
            let mut children = b;
            let ghost cb = nodes_view(children@);
            children.push(attribution);
            assert(nodes_view(children@) =~= cb.push(attribution.view()));
            let q = block_quote(children);
            let rs = skip_blank_exec(r, ae);
            if rs < r.len() && rs > k {
                let rest = sub_lines(r, rs, r.len());
                assert(rest@.len() == lines_view(rest@).len());
                match block_quotes_exec(&rest, fuel) {
                    Ok(more) => Ok(concat_nodes(one_node(q), more)),
                    Err(x) => Err(x),
                }
            } else {
                Ok(one_node(q))
            }
        },
    }
}

/// Explicit markup with first line `head` and body `body`.
pub fn explicit_block_exec(head: &Vec<char>, body: &Vec<Vec<char>>, fuel: usize) -> (r: Result<Node, RstError>)
    ensures
        r matches Err(e) ==> e.from_grammar(),
        match r {
            Ok(n) => explicit_block(head@, lines_view(body@), fuel as nat) == Some(n.view()),
            Err(_) => explicit_block(head@, lines_view(body@), fuel as nat) is None,
        },
    decreases fuel, body@.len(), 5nat,
{
    proof {
        lemma_explicit_block(head@, lines_view(body@), fuel as nat);
    }
    if head.len() > 0 && head[0] == '_' && target_parts_exec(head).is_some() {
        target_node_exec(head, body)
    } else if head.len() > 0 && head[0] == '[' && footnote_parts_exec(head).is_some() {
        footnote_node_exec(head, body, fuel)
    } else if head.len() > 0 && head[0] == '|' && substitution_parts_exec(head).is_some() {
        substitution_node_exec(head, body, fuel)
    } else if directive_parts_exec(head).is_some() {
        directive_node_exec(head, body, fuel)
    } else {
        Ok(comment_node_exec(head, body))
    }
}

/// A footnote: the text after its label as first paragraph, then its body.
pub fn footnote_node_exec(head: &Vec<char>, body: &Vec<Vec<char>>, fuel: usize) -> (r: Result<Node, RstError>)
    requires
        footnote_parts(head@) is Some,
    ensures
        r matches Err(e) ==> e.from_grammar(),
        match r {
            Ok(n) => footnote_node(head@, lines_view(body@), fuel as nat) == Some(n.view()),
            Err(_) => footnote_node(head@, lines_view(body@), fuel as nat) is None,
        },
    decreases fuel, body@.len(), 4nat,
{
    let ghost lb = lines_view(body@);
    proof {
        lemma_footnote_node(head@, lb, fuel as nat, nodes_of(blocks_from(lb, 0, false, fuel as nat)));
    }
    match body_nodes_exec(body, fuel) {
        Ok(b) => footnote_assemble_exec(head, b),
        Err(x) => {
            proof {
                lemma_footnote_assemble_none(head@);
            }
            Err(x)
        },
    }
}

/// A directive: an image, a code block, raw output, an admonition or a block quote;
/// unknown directives are comments.
pub fn directive_node_exec(head: &Vec<char>, body: &Vec<Vec<char>>, fuel: usize) -> (r: Result<Node, RstError>)
    requires
        directive_parts(head@) is Some,
    ensures
        r matches Err(e) ==> e.from_grammar(),
        match r {
            Ok(n) => directive_node(head@, lines_view(body@), fuel as nat) == Some(n.view()),
            Err(_) => directive_node(head@, lines_view(body@), fuel as nat) is None,
        },
    decreases fuel, body@.len(), 4nat,
{
    let ghost lb = lines_view(body@);
    let ghost nested = nodes_of(blocks_from(lb, 0, false, fuel as nat));
    proof {
        lemma_directive_node(head@, lb, fuel as nat, nested);
    }
    let name = match directive_parts_exec(head) {
        Some((name, _)) => name,
        None => {
            return Ok(comment_node_exec(head, body));
        },
    };
    if directive_nests_exec(&name) {
        match body_nodes_exec(body, fuel) {
            Ok(b) => directive_assemble_exec(head, body, Some(b)),
            Err(x) => {
                proof {
                    lemma_directive_assemble_none(head@, lb);
                }
                Err(x)
            },
        }
    } else {
        proof {
            lemma_directive_assemble_flat(head@, lb, nested);
        }
        directive_assemble_exec(head, body, None)
    }
}

} // verus!
