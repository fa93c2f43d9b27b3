//! One step of the recursive part of the block grammar at a time: what each function is,
//! case by case, given what its recursive parts give.
use vstd::prelude::*;

use super::grammar::{
    attribution_start, block_at, block_quotes, blocks_from, bullet_items, bullet_line,
    directive_assemble, directive_node, double_title_at, explicit_block, explicit_line,
    footnote_assemble, footnote_node, footnote_parts, item_column, join_lines, next_blank,
    nodes_of, paragraph, paragraph_at, region, single_title_at, substitution_node,
    substitution_parts, target_node, target_parts, title_elem, trim, trim_start, directive_parts,
    comment_node, BlockView, TitleKind,
};
use super::inline::{elem_node, spec_parse_inlines};
use super::lines::{blank, dedent, dedent_lines, indent, indented_end, skip_blank, trim_blank_end};
use crate::element_categories::ElementType;
use crate::elements::{ExtraView, NodeView};

verus! {

pub proof fn lemma_blocks_from_end(lines: Seq<Seq<char>>, i: int, top: bool, fuel: nat)
    requires
        i >= lines.len(),
    ensures
        blocks_from(lines, i, top, fuel) == Some(Seq::<BlockView>::empty()),
{
    reveal_with_fuel(blocks_from, 1);
    reveal_with_fuel(block_at, 1);
    reveal_with_fuel(bullet_items, 1);
    reveal_with_fuel(block_quotes, 1);
    reveal_with_fuel(explicit_block, 1);
    reveal_with_fuel(footnote_node, 1);
    reveal_with_fuel(directive_node, 1);
}

pub proof fn lemma_blocks_from_blank(lines: Seq<Seq<char>>, i: int, top: bool, fuel: nat)
    requires
        0 <= i < lines.len(),
        blank(lines[i]),
    ensures
        blocks_from(lines, i, top, fuel) == blocks_from(lines, i + 1, top, fuel),
{
    reveal_with_fuel(blocks_from, 1);
    reveal_with_fuel(block_at, 1);
    reveal_with_fuel(bullet_items, 1);
    reveal_with_fuel(block_quotes, 1);
    reveal_with_fuel(explicit_block, 1);
    reveal_with_fuel(footnote_node, 1);
    reveal_with_fuel(directive_node, 1);
}

pub proof fn lemma_blocks_from_block(
    lines: Seq<Seq<char>>,
    i: int,
    top: bool,
    fuel: nat,
    bs: Seq<BlockView>,
    next: int,
)
    requires
        0 <= i < lines.len(),
        !blank(lines[i]),
        block_at(lines, i, top, fuel) == Some((bs, next)),
        i < next <= lines.len(),
    ensures
        blocks_from(lines, i, top, fuel) == match blocks_from(lines, next, top, fuel) {
            Some(rest) => Some(bs + rest),
            None => None,
        },
{
    reveal_with_fuel(blocks_from, 1);
    reveal_with_fuel(block_at, 1);
    reveal_with_fuel(bullet_items, 1);
    reveal_with_fuel(block_quotes, 1);
    reveal_with_fuel(explicit_block, 1);
    reveal_with_fuel(footnote_node, 1);
    reveal_with_fuel(directive_node, 1);
}

pub proof fn lemma_blocks_from_fail(lines: Seq<Seq<char>>, i: int, top: bool, fuel: nat)
    requires
        0 <= i < lines.len(),
        !blank(lines[i]),
        block_at(lines, i, top, fuel) is None,
    ensures
        blocks_from(lines, i, top, fuel) is None,
{
    reveal_with_fuel(blocks_from, 1);
    reveal_with_fuel(block_at, 1);
    reveal_with_fuel(bullet_items, 1);
    reveal_with_fuel(block_quotes, 1);
    reveal_with_fuel(explicit_block, 1);
    reveal_with_fuel(footnote_node, 1);
    reveal_with_fuel(directive_node, 1);
}

pub proof fn lemma_block_at_double(lines: Seq<Seq<char>>, i: int, top: bool, fuel: nat)
    requires
        0 <= i < lines.len(),
        top && double_title_at(lines, i),
    ensures
        block_at(lines, i, top, fuel) == match title_elem(trim(lines[i + 1]), true) {
            Some(t) => Some((seq![BlockView::Title(t, TitleKind::Double(lines[i][0]))], i + 3)),
            None => None,
        },
{
    reveal_with_fuel(blocks_from, 1);
    reveal_with_fuel(block_at, 1);
    reveal_with_fuel(bullet_items, 1);
    reveal_with_fuel(block_quotes, 1);
    reveal_with_fuel(explicit_block, 1);
    reveal_with_fuel(footnote_node, 1);
    reveal_with_fuel(directive_node, 1);
}

pub proof fn lemma_block_at_explicit(
    lines: Seq<Seq<char>>,
    i: int,
    top: bool,
    fuel: nat,
    e: int,
    res: Option<NodeView>,
)
    requires
        0 <= i < lines.len(),
        !(top && double_title_at(lines, i)),
        explicit_line(lines[i]),
        fuel > 0,
        e == trim_blank_end(lines, i + 1, indented_end(lines, i + 1, 1)),
        i + 1 <= e <= lines.len(),
        res == explicit_block(dedent(lines[i], 3), region(lines, i + 1, e), (fuel - 1) as nat),
    ensures
        block_at(lines, i, top, fuel) == match res {
            Some(n) => Some((seq![BlockView::Element(n)], e)),
            None => None,
        },
{
    reveal_with_fuel(blocks_from, 1);
    reveal_with_fuel(block_at, 1);
    reveal_with_fuel(bullet_items, 1);
    reveal_with_fuel(block_quotes, 1);
    reveal_with_fuel(explicit_block, 1);
    reveal_with_fuel(footnote_node, 1);
    reveal_with_fuel(directive_node, 1);
}

pub proof fn lemma_block_at_single(lines: Seq<Seq<char>>, i: int, top: bool, fuel: nat)
    requires
        0 <= i < lines.len(),
        !(top && double_title_at(lines, i)),
        !explicit_line(lines[i]),
        top && single_title_at(lines, i),
    ensures
        block_at(lines, i, top, fuel) == match title_elem(lines[i], true) {
            Some(t) => Some((seq![BlockView::Title(t, TitleKind::Single(lines[i + 1][0]))], i + 2)),
            None => None,
        },
{
    reveal_with_fuel(blocks_from, 1);
    reveal_with_fuel(block_at, 1);
    reveal_with_fuel(bullet_items, 1);
    reveal_with_fuel(block_quotes, 1);
    reveal_with_fuel(explicit_block, 1);
    reveal_with_fuel(footnote_node, 1);
    reveal_with_fuel(directive_node, 1);
}

pub proof fn lemma_block_at_bullet(
    lines: Seq<Seq<char>>,
    i: int,
    top: bool,
    fuel: nat,
    res: Option<(Seq<NodeView>, int)>,
)
    requires
        0 <= i < lines.len(),
        !(top && double_title_at(lines, i)),
        !explicit_line(lines[i]),
        !(top && single_title_at(lines, i)),
        bullet_line(lines[i]),
        res == bullet_items(lines, i, lines[i][0], fuel),
    ensures
        block_at(lines, i, top, fuel) == match res {
            Some((items, e)) => Some(
                (
                    seq![BlockView::Element(elem_node(ElementType::BulletList, ExtraView::BulletList(None), items))],
                    e,
                ),
            ),
            None => None,
        },
{
    reveal_with_fuel(blocks_from, 1);
    reveal_with_fuel(block_at, 1);
    reveal_with_fuel(bullet_items, 1);
    reveal_with_fuel(block_quotes, 1);
    reveal_with_fuel(explicit_block, 1);
    reveal_with_fuel(footnote_node, 1);
    reveal_with_fuel(directive_node, 1);
}

pub proof fn lemma_block_at_quotes(
    lines: Seq<Seq<char>>,
    i: int,
    top: bool,
    fuel: nat,
    e: int,
    res: Option<Seq<NodeView>>,
)
    requires
        0 <= i < lines.len(),
        !(top && double_title_at(lines, i)),
        !explicit_line(lines[i]),
        !(top && single_title_at(lines, i)),
        !bullet_line(lines[i]),
        indent(lines[i]) > 0,
        fuel > 0,
        e == trim_blank_end(lines, i, indented_end(lines, i, 1)),
        i <= e <= lines.len(),
        res == block_quotes(region(lines, i, e), (fuel - 1) as nat),
    ensures
        block_at(lines, i, top, fuel) == match res {
            Some(qs) => Some((Seq::new(qs.len(), |k: int| BlockView::Element(qs[k])), e)),
            None => None,
        },
{
    reveal_with_fuel(blocks_from, 1);
    reveal_with_fuel(block_at, 1);
    reveal_with_fuel(bullet_items, 1);
    reveal_with_fuel(block_quotes, 1);
    reveal_with_fuel(explicit_block, 1);
    reveal_with_fuel(footnote_node, 1);
    reveal_with_fuel(directive_node, 1);
}

pub proof fn lemma_block_at_no_fuel(lines: Seq<Seq<char>>, i: int, top: bool, fuel: nat)
    requires
        0 <= i < lines.len(),
        !(top && double_title_at(lines, i)),
        fuel == 0,
        explicit_line(lines[i]) || (!(top && single_title_at(lines, i)) && !bullet_line(lines[i])
            && indent(lines[i]) > 0),
    ensures
        block_at(lines, i, top, fuel) is None,
{
    reveal_with_fuel(blocks_from, 1);
    reveal_with_fuel(block_at, 1);
    reveal_with_fuel(bullet_items, 1);
    reveal_with_fuel(block_quotes, 1);
    reveal_with_fuel(explicit_block, 1);
    reveal_with_fuel(footnote_node, 1);
    reveal_with_fuel(directive_node, 1);
}

pub proof fn lemma_block_at_paragraph(lines: Seq<Seq<char>>, i: int, top: bool, fuel: nat)
    requires
        0 <= i < lines.len(),
        !(top && double_title_at(lines, i)),
        !explicit_line(lines[i]),
        !(top && single_title_at(lines, i)),
        !bullet_line(lines[i]),
        indent(lines[i]) == 0,
    ensures
        block_at(lines, i, top, fuel) == paragraph_at(lines, i),
{
    reveal_with_fuel(blocks_from, 1);
    reveal_with_fuel(block_at, 1);
    reveal_with_fuel(bullet_items, 1);
    reveal_with_fuel(block_quotes, 1);
    reveal_with_fuel(explicit_block, 1);
    reveal_with_fuel(footnote_node, 1);
    reveal_with_fuel(directive_node, 1);
}

pub proof fn lemma_bullet_items_no_fuel(lines: Seq<Seq<char>>, i: int, c: char, fuel: nat)
    requires
        fuel == 0,
    ensures
        bullet_items(lines, i, c, fuel) is None,
{
    reveal_with_fuel(blocks_from, 1);
    reveal_with_fuel(block_at, 1);
    reveal_with_fuel(bullet_items, 1);
    reveal_with_fuel(block_quotes, 1);
    reveal_with_fuel(explicit_block, 1);
    reveal_with_fuel(footnote_node, 1);
    reveal_with_fuel(directive_node, 1);
}

/// Whether the bullet list that has an item at line `i` goes on at line `next`.
pub open spec fn list_goes_on(lines: Seq<Seq<char>>, i: int, c: char, next: int) -> bool {
    next < lines.len() && bullet_line(lines[next]) && lines[next][0] == c && next > i
}

pub proof fn lemma_bullet_items_step(
    lines: Seq<Seq<char>>,
    i: int,
    c: char,
    fuel: nat,
    col: int,
    e: int,
    first: Option<NodeView>,
    rest: Option<Seq<NodeView>>,
    next: int,
    more: Option<(Seq<NodeView>, int)>,
)
    requires
        fuel > 0,
        0 <= i < lines.len(),
        col == item_column(lines[i]),
        e == trim_blank_end(lines, i + 1, indented_end(lines, i + 1, col)),
        i + 1 <= e <= lines.len(),
        first == paragraph(dedent(lines[i], col)),
        rest == nodes_of(blocks_from(dedent_lines(lines, i + 1, e, col), 0, false, (fuel - 1) as nat)),
        next == skip_blank(lines, e),
        list_goes_on(lines, i, c, next) ==> more == bullet_items(lines, next, c, fuel),
    ensures
        bullet_items(lines, i, c, fuel) == match (first, rest) {
            (Some(f), Some(r)) => {
                let item = elem_node(ElementType::ListItem, ExtraView::Plain, seq![f] + r);
                if list_goes_on(lines, i, c, next) {
                    match more {
                        Some((items, end)) => Some((seq![item] + items, end)),
                        None => None,
                    }
                } else {
                    Some((seq![item], e))
                }
            },
            _ => None,
        },
{
    reveal_with_fuel(blocks_from, 1);
    reveal_with_fuel(block_at, 1);
    reveal_with_fuel(bullet_items, 1);
    reveal_with_fuel(block_quotes, 1);
    reveal_with_fuel(explicit_block, 1);
    reveal_with_fuel(footnote_node, 1);
    reveal_with_fuel(directive_node, 1);
}

pub proof fn lemma_block_quotes_plain(r: Seq<Seq<char>>, fuel: nat, b: Option<Seq<NodeView>>)
    requires
        attribution_start(r, 2) == -1,
        b == nodes_of(blocks_from(r, 0, false, fuel)),
    ensures
        block_quotes(r, fuel) == match b {
            Some(b) => Some(seq![elem_node(ElementType::BlockQuote, ExtraView::Plain, b)]),
            None => None,
        },
{
    reveal_with_fuel(blocks_from, 1);
    reveal_with_fuel(block_at, 1);
    reveal_with_fuel(bullet_items, 1);
    reveal_with_fuel(block_quotes, 1);
    reveal_with_fuel(explicit_block, 1);
    reveal_with_fuel(footnote_node, 1);
    reveal_with_fuel(directive_node, 1);
}

pub proof fn lemma_block_quotes_step(
    r: Seq<Seq<char>>,
    fuel: nat,
    k: int,
    ae: int,
    atext: Seq<char>,
    b: Option<Seq<NodeView>>,
    att: Option<Seq<NodeView>>,
    rs: int,
    more: Option<Seq<NodeView>>,
)
    requires
        2 <= k < r.len(),
        k == attribution_start(r, 2),
        ae == next_blank(r, k),
        atext == join_lines(seq![trim_start(r[k].subrange(2, r[k].len() as int))] + r.subrange(k + 1, ae)),
        b == nodes_of(blocks_from(r.subrange(0, k - 1), 0, false, fuel)),
        att == spec_parse_inlines(atext),
        rs == skip_blank(r, ae),
        rs < r.len() && rs > k ==> more == block_quotes(r.subrange(rs, r.len() as int), fuel),
    ensures
        block_quotes(r, fuel) == match (b, att) {
            (Some(b), Some(att)) => {
                let q = elem_node(
                    ElementType::BlockQuote,
                    ExtraView::Plain,
                    b.push(elem_node(ElementType::Attribution, ExtraView::Plain, att)),
                );
                if rs < r.len() && rs > k {
                    match more {
                        Some(m) => Some(seq![q] + m),
                        None => None,
                    }
                } else {
                    Some(seq![q])
                }
            },
            _ => None,
        },
{
    reveal_with_fuel(blocks_from, 1);
    reveal_with_fuel(block_at, 1);
    reveal_with_fuel(bullet_items, 1);
    reveal_with_fuel(block_quotes, 1);
    reveal_with_fuel(explicit_block, 1);
    reveal_with_fuel(footnote_node, 1);
    reveal_with_fuel(directive_node, 1);
}

pub proof fn lemma_explicit_block(head: Seq<char>, body: Seq<Seq<char>>, fuel: nat)
    ensures
        explicit_block(head, body, fuel) == (if head.len() > 0 && head[0] == '_' && target_parts(head) is Some {
            target_node(head, body)
        } else if head.len() > 0 && head[0] == '[' && footnote_parts(head) is Some {
            footnote_node(head, body, fuel)
        } else if head.len() > 0 && head[0] == '|' && substitution_parts(head) is Some {
            substitution_node(head, body, fuel)
        } else if directive_parts(head) is Some {
            directive_node(head, body, fuel)
        } else {
            Some(comment_node(head, body))
        }),
{
    reveal_with_fuel(blocks_from, 1);
    reveal_with_fuel(block_at, 1);
    reveal_with_fuel(bullet_items, 1);
    reveal_with_fuel(block_quotes, 1);
    reveal_with_fuel(explicit_block, 1);
    reveal_with_fuel(footnote_node, 1);
    reveal_with_fuel(directive_node, 1);
}

pub proof fn lemma_footnote_node(head: Seq<char>, body: Seq<Seq<char>>, fuel: nat, b: Option<Seq<NodeView>>)
    requires
        b == nodes_of(blocks_from(body, 0, false, fuel)),
    ensures
        footnote_node(head, body, fuel) == footnote_assemble(head, b),
{
    reveal_with_fuel(blocks_from, 1);
    reveal_with_fuel(block_at, 1);
    reveal_with_fuel(bullet_items, 1);
    reveal_with_fuel(block_quotes, 1);
    reveal_with_fuel(explicit_block, 1);
    reveal_with_fuel(footnote_node, 1);
    reveal_with_fuel(directive_node, 1);
}

pub proof fn lemma_directive_node(head: Seq<char>, body: Seq<Seq<char>>, fuel: nat, b: Option<Seq<NodeView>>)
    requires
        b == nodes_of(blocks_from(body, 0, false, fuel)),
    ensures
        directive_node(head, body, fuel) == directive_assemble(head, body, b),
{
    reveal_with_fuel(blocks_from, 1);
    reveal_with_fuel(block_at, 1);
    reveal_with_fuel(bullet_items, 1);
    reveal_with_fuel(block_quotes, 1);
    reveal_with_fuel(explicit_block, 1);
    reveal_with_fuel(footnote_node, 1);
    reveal_with_fuel(directive_node, 1);
}

} // verus!
