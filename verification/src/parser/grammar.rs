//! The block grammar of reStructuredText that the parser reads, stated over lines.
use vstd::prelude::*;

use super::conversion::spec_whitespace_normalize_name;
use super::inline::{elem_node, index_from, is_alnum, is_footnote_label, spec_parse_inlines, text_view};
use super::lines::{
    blank, dedent, dedent_lines, indent, indented_end, min_indent, skip_blank, trim_blank_end,
};
use crate::attribute_types::{
    is_digit, spaces_to_hyphens, spec_align_hv, spec_parse_measure, FixedSpace, FootnoteType,
};
use crate::element_categories::ElementType;
use crate::elements::{empty_common, CommonView, ElemView, ExtraView, NodeView};
use crate::extra_attributes as a;
use crate::text::{is_ws, lowercase};
use crate::url::{relative_base, spec_relative_ok, url_join, url_serialization};

verus! {

/// The adornment of a section title: overline and underline, or underline only, with the
/// adornment character.
#[derive(Clone, Copy, Debug, PartialEq, Eq, Structural)]
pub enum TitleKind {
    Double(char),
    Single(char),
}

/// What a top-level block means in contracts: a section title with its kind, or an
/// element.
pub enum BlockView {
    Title(ElemView, TitleKind),
    Element(NodeView),
}

/// ASCII punctuation, the characters that section adornments are made of.
pub open spec fn is_adornment_char(c: char) -> bool {
    ('!' <= c && c <= '/') || (':' <= c && c <= '@') || ('[' <= c && c <= '`') || ('{' <= c
        && c <= '~')
}

/// A line of at least three copies of one adornment character.
pub open spec fn adornment_line(l: Seq<char>) -> bool {
    l.len() >= 3 && is_adornment_char(l[0]) && forall|i: int| 0 <= i < l.len() ==> #[trigger] l[i] == l[0]
}

pub open spec fn is_bullet_char(c: char) -> bool {
    c == '*' || c == '+' || c == '-' || c == '\u{2022}' || c == '\u{2023}' || c == '\u{2043}'
}

/// A line that starts a bullet list item.
pub open spec fn bullet_line(l: Seq<char>) -> bool {
    l.len() >= 2 && is_bullet_char(l[0]) && l[1] == ' '
}

/// A line that starts explicit markup: `..` alone or followed by a space.
pub open spec fn explicit_line(l: Seq<char>) -> bool {
    l.len() >= 2 && l[0] == '.' && l[1] == '.' && (l.len() == 2 || l[2] == ' ')
}

/// `l` without leading whitespace.
pub open spec fn trim_start(l: Seq<char>) -> Seq<char>
    decreases l.len(),
{
    if l.len() > 0 && is_ws(l[0]) {
        trim_start(l.drop_first())
    } else {
        l
    }
}

/// `l` without trailing whitespace.
pub open spec fn trim_end(l: Seq<char>) -> Seq<char>
    decreases l.len(),
{
    if l.len() > 0 && is_ws(l[l.len() - 1]) {
        trim_end(l.drop_last())
    } else {
        l
    }
}

/// `l` without leading and trailing whitespace.
pub open spec fn trim(l: Seq<char>) -> Seq<char> {
    trim_end(trim_start(l))
}

/// The lines joined with line feeds.
pub open spec fn join_lines(ls: Seq<Seq<char>>) -> Seq<char>
    decreases ls.len(),
{
    if ls.len() == 0 {
        Seq::empty()
    } else if ls.len() == 1 {
        ls[0]
    } else {
        join_lines(ls.drop_last()) + seq!['\n'] + ls.last()
    }
}

/// The name that a title gives its section: lower case, spaces made hyphens.
pub open spec fn slug(text: Seq<char>) -> Seq<char> {
    spaces_to_hyphens(lowercase(text))
}

/// A title element with the inline content of `text` and, when `named`, its slug as name.
#[verifier::opaque]
pub open spec fn title_elem(text: Seq<char>, named: bool) -> Option<ElemView> {
    match spec_parse_inlines(text) {
        Some(inl) => Some(
            ElemView {
                element_type: ElementType::Title,
                common: CommonView {
                    names: if named {
                        seq![slug(text)]
                    } else {
                        Seq::empty()
                    },
                    ..empty_common()
                },
                extra: ExtraView::Plain,
                children: inl,
            },
        ),
        None => None,
    }
}

/// A paragraph with the inline content of `text`.
#[verifier::opaque]
pub open spec fn paragraph(text: Seq<char>) -> Option<NodeView> {
    match spec_parse_inlines(text) {
        Some(inl) => Some(elem_node(ElementType::Paragraph, ExtraView::Plain, inl)),
        None => None,
    }
}

/// A paragraph holding `text` as it is.
pub open spec fn plain_paragraph(text: Seq<char>) -> NodeView {
    elem_node(ElementType::Paragraph, ExtraView::Plain, seq![text_view(text)])
}

/// The text nodes of a literal block's lines: each line with its line feed, blank lines as
/// a line feed alone.
pub open spec fn literal_lines(ls: Seq<Seq<char>>) -> Seq<NodeView> {
    Seq::new(
        ls.len(),
        |i: int|
            if blank(ls[i]) {
                text_view(seq!['\n'])
            } else {
                text_view(ls[i].push('\n'))
            },
    )
}

/// The lines of `ls` without blank lines at the start and the end.
pub open spec fn strip_blank_lines(ls: Seq<Seq<char>>) -> Seq<Seq<char>> {
    let s = skip_blank(ls, 0);
    ls.subrange(s, trim_blank_end(ls, s, ls.len() as int))
}

/// The body lines of explicit markup or an indented block: the lines from `from` to `to`
/// without their common indentation.
pub open spec fn region(lines: Seq<Seq<char>>, from: int, to: int) -> Seq<Seq<char>> {
    let m = min_indent(lines, from, to);
    dedent_lines(lines, from, to, if m >= 0 { m } else { 0 })
}

/// Nodes of the blocks of a nested body.
pub open spec fn blocks_nodes(bs: Seq<BlockView>) -> Seq<NodeView> {
    Seq::new(
        bs.len(),
        |i: int|
            match bs[i] {
                BlockView::Element(n) => n,
                BlockView::Title(e, _) => NodeView::Element(e),
            },
    )
}

/// The blocks of `lines` from `i` on; titles count only at the top level. `None` where a
/// URL or an image option is invalid, or where nesting goes deeper than `fuel`.
#[verifier::opaque]
pub open spec fn blocks_from(lines: Seq<Seq<char>>, i: int, top: bool, fuel: nat) -> Option<Seq<BlockView>>
    decreases fuel, lines.len() - i, 2nat,
{
    if i < 0 || i >= lines.len() {
        Some(Seq::empty())
    } else if blank(lines[i]) {
        blocks_from(lines, i + 1, top, fuel)
    } else {
        match block_at(lines, i, top, fuel) {
            Some((bs, next)) => if next > i && next <= lines.len() {
                match blocks_from(lines, next, top, fuel) {
                    Some(rest) => Some(bs + rest),
                    None => None,
                }
            } else {
                None
            },
            None => None,
        }
    }
}

/// The nodes that a run of blocks gives, where there is one.
pub open spec fn nodes_of(bs: Option<Seq<BlockView>>) -> Option<Seq<NodeView>> {
    match bs {
        Some(bs) => Some(blocks_nodes(bs)),
        None => None,
    }
}

/// The nodes of a nested body.
pub open spec fn body_nodes(lines: Seq<Seq<char>>, fuel: nat) -> Option<Seq<NodeView>> {
    nodes_of(blocks_from(lines, 0, false, fuel))
}

/// A title with overline and underline starts at line `i`.
pub open spec fn double_title_at(lines: Seq<Seq<char>>, i: int) -> bool {
    0 <= i && i + 2 < lines.len() && adornment_line(lines[i]) && !blank(lines[i + 1])
        && adornment_line(lines[i + 2]) && lines[i + 2][0] == lines[i][0]
}

/// A title with an underline starts at line `i`.
pub open spec fn single_title_at(lines: Seq<Seq<char>>, i: int) -> bool {
    0 <= i && i + 1 < lines.len() && indent(lines[i]) == 0 && !adornment_line(lines[i])
        && adornment_line(lines[i + 1])
}

/// The first line at or after `j` that is blank or indented, or the number of lines.
pub open spec fn paragraph_end(lines: Seq<Seq<char>>, j: int) -> int
    decreases lines.len() - j,
{
    if j < 0 || j >= lines.len() {
        lines.len() as int
    } else if blank(lines[j]) || indent(lines[j]) > 0 {
        j
    } else {
        paragraph_end(lines, j + 1)
    }
}

/// A paragraph's text whose last line ends in `::` announces a literal block; the text
/// that stays: nothing for `::` alone, the text before ` ::`, or the text with one colon.
pub open spec fn literal_intro(t: Seq<char>) -> Seq<char> {
    if t == seq![':', ':'] {
        Seq::empty()
    } else if t.len() >= 3 && is_ws(t[t.len() - 3]) {
        trim_end(t.subrange(0, t.len() - 2))
    } else {
        t.drop_last()
    }
}

pub open spec fn ends_with_double_colon(t: Seq<char>) -> bool {
    t.len() >= 2 && t[t.len() - 2] == ':' && t[t.len() - 1] == ':'
}

/// The blocks that a paragraph at line `i` makes, with the line after them.
#[verifier::opaque]
pub open spec fn paragraph_at(lines: Seq<Seq<char>>, i: int) -> Option<(Seq<BlockView>, int)> {
    let e = paragraph_end(lines, i + 1);
    let t = join_lines(lines.subrange(i, e));
    let j = skip_blank(lines, e);
    if ends_with_double_colon(t) && j < lines.len() && indent(lines[j]) > 0 {
        let le = trim_blank_end(lines, j, indented_end(lines, j, 1));
        let lit = elem_node(
            ElementType::LiteralBlock,
            ExtraView::Space(FixedSpace::Preserve),
            literal_lines(region(lines, j, le)),
        );
        let intro = literal_intro(t);
        if intro.len() == 0 {
            Some((seq![BlockView::Element(lit)], le))
        } else {
            match paragraph(intro) {
                Some(p) => Some((seq![BlockView::Element(p), BlockView::Element(lit)], le)),
                None => None,
            }
        }
    } else {
        match paragraph(t) {
            Some(p) => Some((seq![BlockView::Element(p)], e)),
            None => None,
        }
    }
}

/// The blocks at line `i`, with the line after them.
#[verifier::opaque]
pub open spec fn block_at(lines: Seq<Seq<char>>, i: int, top: bool, fuel: nat) -> Option<(Seq<BlockView>, int)>
    decreases fuel, lines.len() - i, 1nat,
{
    if i < 0 || i >= lines.len() {
        None
    } else if top && double_title_at(lines, i) {
        match title_elem(trim(lines[i + 1]), true) {
            Some(t) => Some((seq![BlockView::Title(t, TitleKind::Double(lines[i][0]))], i + 3)),
            None => None,
        }
    } else if explicit_line(lines[i]) {
        if fuel == 0 {
            None
        } else {
            let e = trim_blank_end(lines, i + 1, indented_end(lines, i + 1, 1));
            if i + 1 <= e && e <= lines.len() {
                match explicit_block(dedent(lines[i], 3), region(lines, i + 1, e), (fuel - 1) as nat) {
                    Some(n) => Some((seq![BlockView::Element(n)], e)),
                    None => None,
                }
            } else {
                None
            }
        }
    } else if top && single_title_at(lines, i) {
        match title_elem(lines[i], true) {
            Some(t) => Some((seq![BlockView::Title(t, TitleKind::Single(lines[i + 1][0]))], i + 2)),
            None => None,
        }
    } else if bullet_line(lines[i]) {
        match bullet_items(lines, i, lines[i][0], fuel) {
            Some((items, e)) => Some(
                (
                    seq![
                        BlockView::Element(
                            elem_node(ElementType::BulletList, ExtraView::BulletList(None), items),
                        ),
                    ],
                    e,
                ),
            ),
            None => None,
        }
    } else if indent(lines[i]) > 0 {
        if fuel == 0 {
            None
        } else {
            let e = trim_blank_end(lines, i, indented_end(lines, i, 1));
            if i <= e && e <= lines.len() {
                match block_quotes(region(lines, i, e), (fuel - 1) as nat) {
                    Some(qs) => Some((Seq::new(qs.len(), |k: int| BlockView::Element(qs[k])), e)),
                    None => None,
                }
            } else {
                None
            }
        }
    } else {
        paragraph_at(lines, i)
    }
}

/// The column where a bullet item's text starts.
pub open spec fn item_column(l: Seq<char>) -> int {
    1 + super::lines::spaces_from(l, 1)
}

/// The items of a bullet list with bullet `c` from line `i` on, with the line after them.
#[verifier::opaque]
pub open spec fn bullet_items(lines: Seq<Seq<char>>, i: int, c: char, fuel: nat) -> Option<(Seq<NodeView>, int)>
    decreases fuel, lines.len() - i, 0nat,
{
    if fuel == 0 || i < 0 || i >= lines.len() {
        None
    } else {
        let l = lines[i];
        let col = item_column(l);
        let e = trim_blank_end(lines, i + 1, indented_end(lines, i + 1, col));
        if !(i + 1 <= e && e <= lines.len()) {
            None
        } else {
            match paragraph(dedent(l, col)) {
                Some(first) => match nodes_of(blocks_from(dedent_lines(lines, i + 1, e, col), 0, false, (fuel - 1) as nat)) {
                    Some(rest) => {
                        let item = elem_node(ElementType::ListItem, ExtraView::Plain, seq![first] + rest);
                        let next = skip_blank(lines, e);
                        if next < lines.len() && bullet_line(lines[next]) && lines[next][0] == c && next > i {
                            match bullet_items(lines, next, c, fuel) {
                                Some((items, end)) => Some((seq![item] + items, end)),
                                None => None,
                            }
                        } else {
                            Some((seq![item], e))
                        }
                    },
                    None => None,
                },
                None => None,
            }
        }
    }
}

/// A line that starts an attribution: `--` first.
pub open spec fn attribution_line(l: Seq<char>) -> bool {
    l.len() >= 2 && l[0] == '-' && l[1] == '-'
}

/// The first line at or after `k` that starts an attribution after a blank line, or -1.
pub open spec fn attribution_start(r: Seq<Seq<char>>, k: int) -> int
    decreases r.len() - k,
{
    if k < 2 || k >= r.len() {
        -1
    } else if attribution_line(r[k]) && blank(r[k - 1]) {
        k
    } else {
        attribution_start(r, k + 1)
    }
}

/// The first blank line at or after `k`, or the number of lines.
pub open spec fn next_blank(r: Seq<Seq<char>>, k: int) -> int
    decreases r.len() - k,
{
    if k < 0 || k >= r.len() {
        r.len() as int
    } else if blank(r[k]) {
        k
    } else {
        next_blank(r, k + 1)
    }
}

/// The block quotes that the lines of an indented region make: an attribution ends a
/// quote, and what follows it starts the next one.
#[verifier::opaque]
pub open spec fn block_quotes(r: Seq<Seq<char>>, fuel: nat) -> Option<Seq<NodeView>>
    decreases fuel, r.len(), 4nat,
{
    let k = attribution_start(r, 2);
    if k < 2 || k >= r.len() {
        match nodes_of(blocks_from(r, 0, false, fuel)) {
            Some(b) => Some(seq![elem_node(ElementType::BlockQuote, ExtraView::Plain, b)]),
            None => None,
        }
    } else {
        let ae = next_blank(r, k);
        let first = trim_start(r[k].subrange(2, r[k].len() as int));
        let atext = join_lines(seq![first] + r.subrange(k + 1, ae));
        match (nodes_of(blocks_from(r.subrange(0, k - 1), 0, false, fuel)), spec_parse_inlines(atext)) {
            (Some(b), Some(att)) => {
                let q = elem_node(
                    ElementType::BlockQuote,
                    ExtraView::Plain,
                    b.push(elem_node(ElementType::Attribution, ExtraView::Plain, att)),
                );
                let rs = skip_blank(r, ae);
                if rs < r.len() && rs > k {
                    match block_quotes(r.subrange(rs, r.len() as int), fuel) {
                        Some(more) => Some(seq![q] + more),
                        None => None,
                    }
                } else {
                    Some(seq![q])
                }
            },
            _ => None,
        }
    }
}

/// Explicit markup with first line `head` and body `body`: a target, a footnote, a
/// substitution definition, a directive, or else a comment.
#[verifier::opaque]
pub open spec fn explicit_block(head: Seq<char>, body: Seq<Seq<char>>, fuel: nat) -> Option<NodeView>
    decreases fuel, body.len(), 5nat,
{
    if head.len() > 0 && head[0] == '_' && target_parts(head) is Some {
        target_node(head, body)
    } else if head.len() > 0 && head[0] == '[' && footnote_parts(head) is Some {
        footnote_node(head, body, fuel)
    } else if head.len() > 0 && head[0] == '|' && substitution_parts(head) is Some {
        substitution_node(head, body, fuel)
    } else if directive_parts(head) is Some {
        directive_node(head, body, fuel)
    } else {
        Some(comment_node(head, body))
    }
}

/// A comment: its first line and its body, line by line.
pub open spec fn comment_node(head: Seq<char>, body: Seq<Seq<char>>) -> NodeView {
    let first = if head.len() > 0 {
        seq![text_view(head.push('\n'))]
    } else {
        Seq::empty()
    };
    elem_node(
        ElementType::Comment,
        ExtraView::Space(FixedSpace::Preserve),
        first + literal_lines(body.subrange(0, trim_blank_end(body, 0, body.len() as int))),
    )
}

/// The name of a hyperlink target and the text after its colon.
pub open spec fn target_parts(head: Seq<char>) -> Option<(Seq<char>, Seq<char>)> {
    if head.len() > 1 && head[1] == '`' {
        let m = index_from(head, 2, '`');
        if m > 2 && m + 1 < head.len() && head[m + 1] == ':' {
            Some((head.subrange(2, m), head.subrange(m + 2, head.len() as int)))
        } else {
            None
        }
    } else {
        let c = index_from(head, 1, ':');
        if c > 1 {
            Some((head.subrange(1, c), head.subrange(c + 1, head.len() as int)))
        } else {
            None
        }
    }
}

/// The lines concatenated, each without surrounding whitespace.
pub open spec fn concat_trimmed(ls: Seq<Seq<char>>) -> Seq<char>
    decreases ls.len(),
{
    if ls.len() == 0 {
        Seq::empty()
    } else {
        concat_trimmed(ls.drop_last()) + trim(ls.last())
    }
}

/// The URL that `Url::parse` makes of a text, or `None`.
pub open spec fn parsed_url(t: Seq<char>) -> Option<Seq<char>> {
    if url_serialization(t) is Some {
        url_serialization(t)
    } else if spec_relative_ok(t) && url_join(relative_base(), t) is Some {
        Some(t)
    } else {
        None
    }
}

/// A hyperlink target; `None` where its link is no URL.
#[verifier::opaque]
pub open spec fn target_node(head: Seq<char>, body: Seq<Seq<char>>) -> Option<NodeView> {
    let (name, rest) = target_parts(head).unwrap();
    let link = trim(rest) + concat_trimmed(body);
    let refuri: Option<Option<Seq<char>>> = if link.len() == 0 {
        Some(None)
    } else {
        match parsed_url(link) {
            Some(u) => Some(Some(u)),
            None => None,
        }
    };
    match refuri {
        Some(refuri) => Some(
            NodeView::Element(
                ElemView {
                    element_type: ElementType::Target,
                    common: CommonView {
                        ids: seq![spaces_to_hyphens(name)],
                        names: seq![name],
                        ..empty_common()
                    },
                    extra: ExtraView::Target(
                        a::TargetView { refuri: refuri, refid: None, refname: Seq::empty(), anonymous: false },
                    ),
                    children: Seq::empty(),
                },
            ),
        ),
        None => None,
    }
}

/// The label of a footnote and the text after it.
pub open spec fn footnote_parts(head: Seq<char>) -> Option<(Seq<char>, Seq<char>)> {
    let m = index_from(head, 1, ']');
    if m > 1 && is_footnote_label(head.subrange(1, m)) && (m + 1 == head.len() || head[m + 1] == ' ') {
        Some((head.subrange(1, m), trim_start(head.subrange(m + 1, head.len() as int))))
    } else {
        None
    }
}

/// A footnote: the text after its label as first paragraph, then its body.
#[verifier::opaque]
pub open spec fn footnote_node(head: Seq<char>, body: Seq<Seq<char>>, fuel: nat) -> Option<NodeView>
    decreases fuel, body.len(), 4nat,
{
    footnote_assemble(head, nodes_of(blocks_from(body, 0, false, fuel)))
}

/// A footnote with the nodes `body` of its body, where they could be read.
pub open spec fn footnote_assemble(head: Seq<char>, body: Option<Seq<NodeView>>) -> Option<NodeView> {
    let (label, rest) = footnote_parts(head).unwrap();
    let first: Option<Seq<NodeView>> = if rest.len() > 0 {
        match paragraph(rest) {
            Some(p) => Some(seq![p]),
            None => None,
        }
    } else {
        Some(Seq::empty())
    };
    match (first, body) {
        (Some(f), Some(b)) => {
            let auto = FootnoteType::spec_from_char(label[0]);
            let names = if auto == Some(FootnoteType::Number) && label.len() > 1 {
                seq![spec_whitespace_normalize_name(label.subrange(1, label.len() as int))]
            } else {
                Seq::empty()
            };
            let label_node = elem_node(ElementType::Label, ExtraView::Plain, seq![text_view(label)]);
            Some(
                NodeView::Element(
                    ElemView {
                        element_type: ElementType::Footnote,
                        common: CommonView { names: names, ..empty_common() },
                        extra: ExtraView::Footnote(a::FootnoteView { backrefs: Seq::empty(), auto: auto }),
                        children: if auto is None {
                            seq![label_node] + f + b
                        } else {
                            f + b
                        },
                    },
                ),
            )
        },
        _ => None,
    }
}

/// The name of a substitution definition and the text after it.
pub open spec fn substitution_parts(head: Seq<char>) -> Option<(Seq<char>, Seq<char>)> {
    let m = index_from(head, 1, '|');
    if m > 1 {
        Some((head.subrange(1, m), trim_start(head.subrange(m + 1, head.len() as int))))
    } else {
        None
    }
}

pub open spec fn replace_marker() -> Seq<char> {
    seq!['r', 'e', 'p', 'l', 'a', 'c', 'e', ':', ':']
}

pub open spec fn image_marker() -> Seq<char> {
    seq!['i', 'm', 'a', 'g', 'e', ':', ':']
}

/// `t` begins with `p`.
pub open spec fn starts_with(t: Seq<char>, p: Seq<char>) -> bool {
    p.len() <= t.len() && t.subrange(0, p.len() as int) == p
}

/// A substitution definition: `replace::` with inline text, or `image::` with an image.
#[verifier::opaque]
pub open spec fn substitution_node(head: Seq<char>, body: Seq<Seq<char>>, fuel: nat) -> Option<NodeView> {
    let (name, rest) = substitution_parts(head).unwrap();
    let content: Option<Option<Seq<NodeView>>> = if starts_with(rest, replace_marker()) {
        let t = join_lines(seq![trim(rest.subrange(9, rest.len() as int))] + body);
        Some(spec_parse_inlines(t))
    } else if starts_with(rest, image_marker()) {
        match image_node(ElementType::ImageInline, trim(rest.subrange(7, rest.len() as int)), body) {
            Some(img) => Some(Some(seq![img])),
            None => Some(None),
        }
    } else {
        None
    };
    match content {
        Some(Some(children)) => Some(
            NodeView::Element(
                ElemView {
                    element_type: ElementType::SubstitutionDefinition,
                    common: CommonView { names: seq![spec_whitespace_normalize_name(name)], ..empty_common() },
                    extra: ExtraView::SubstitutionDefinition(a::SubstitutionDefinition { ltrim: false, rtrim: false }),
                    children: children,
                },
            ),
        ),
        Some(None) => None,
        None => Some(comment_node(head, body)),
    }
}

/// The first position at or after `k` where `::` occurs, or -1.
pub open spec fn double_colon_from(t: Seq<char>, k: int) -> int
    decreases t.len() - k,
{
    if k < 0 || k + 1 >= t.len() {
        -1
    } else if t[k] == ':' && t[k + 1] == ':' {
        k
    } else {
        double_colon_from(t, k + 1)
    }
}

pub open spec fn is_directive_name_char(c: char) -> bool {
    is_alnum(c) || c == '-'
}

/// The name of a directive and its arguments.
pub open spec fn directive_parts(head: Seq<char>) -> Option<(Seq<char>, Seq<char>)> {
    let k = double_colon_from(head, 0);
    if k > 0 && forall|i: int| 0 <= i < k ==> is_directive_name_char(#[trigger] head[i]) {
        Some((head.subrange(0, k), trim(head.subrange(k + 2, head.len() as int))))
    } else {
        None
    }
}

/// The element type of a generic admonition directive's name.
pub open spec fn admonition_type(name: Seq<char>) -> Option<ElementType> {
    if name == seq!['a', 't', 't', 'e', 'n', 't', 'i', 'o', 'n'] {
        Some(ElementType::Attention)
    } else if name == seq!['h', 'i', 'n', 't'] {
        Some(ElementType::Hint)
    } else if name == seq!['n', 'o', 't', 'e'] {
        Some(ElementType::Note)
    } else if name == seq!['c', 'a', 'u', 't', 'i', 'o', 'n'] {
        Some(ElementType::Caution)
    } else if name == seq!['d', 'a', 'n', 'g', 'e', 'r'] {
        Some(ElementType::Danger)
    } else if name == seq!['e', 'r', 'r', 'o', 'r'] {
        Some(ElementType::Error)
    } else if name == seq!['i', 'm', 'p', 'o', 'r', 't', 'a', 'n', 't'] {
        Some(ElementType::Important)
    } else if name == seq!['t', 'i', 'p'] {
        Some(ElementType::Tip)
    } else if name == seq!['w', 'a', 'r', 'n', 'i', 'n', 'g'] {
        Some(ElementType::Warning)
    } else {
        None
    }
}

pub open spec fn is_code_directive(name: Seq<char>) -> bool {
    name == seq!['c', 'o', 'd', 'e'] || name == seq!['c', 'o', 'd', 'e', '-', 'b', 'l', 'o', 'c', 'k']
        || name == seq!['s', 'o', 'u', 'r', 'c', 'e', 'c', 'o', 'd', 'e']
}

pub open spec fn is_quote_directive(name: Seq<char>) -> bool {
    name == seq!['e', 'p', 'i', 'g', 'r', 'a', 'p', 'h'] || name == seq![
        'h',
        'i',
        'g',
        'h',
        'l',
        'i',
        'g',
        'h',
        't',
        's',
    ] || name == seq!['p', 'u', 'l', 'l', '-', 'q', 'u', 'o', 't', 'e']
}

/// The paragraphs of lines split at blank lines, from line `k` on.
pub open spec fn chunks(ls: Seq<Seq<char>>, k: int) -> Seq<Seq<Seq<char>>>
    decreases ls.len() - k,
{
    let s = skip_blank(ls, k);
    if s < k || s >= ls.len() {
        Seq::empty()
    } else {
        let e = next_blank(ls, s);
        if e > s && e <= ls.len() {
            seq![ls.subrange(s, e)] + chunks(ls, e)
        } else {
            Seq::empty()
        }
    }
}

/// A directive: an image, a code block, raw output, an admonition or a block quote;
/// unknown directives are comments.
#[verifier::opaque]
pub open spec fn directive_node(head: Seq<char>, body: Seq<Seq<char>>, fuel: nat) -> Option<NodeView>
    decreases fuel, body.len(), 4nat,
{
    directive_assemble(head, body, nodes_of(blocks_from(body, 0, false, fuel)))
}

/// Whether a directive's body is read as nested blocks.
pub open spec fn directive_nests(name: Seq<char>) -> bool {
    name == seq!['a', 'd', 'm', 'o', 'n', 'i', 't', 'i', 'o', 'n'] || is_quote_directive(name)
}

/// A directive with the nodes `nested` that its body gives when read as nested blocks.
pub open spec fn directive_assemble(head: Seq<char>, body: Seq<Seq<char>>, nested: Option<Seq<NodeView>>) -> Option<NodeView> {
    let (name, args) = directive_parts(head).unwrap();
    if name == seq!['i', 'm', 'a', 'g', 'e'] {
        image_node(ElementType::Image, args, body)
    } else if is_code_directive(name) {
        let classes = if args.len() > 0 {
            seq![seq!['c', 'o', 'd', 'e'], args]
        } else {
            seq![seq!['c', 'o', 'd', 'e']]
        };
        Some(
            NodeView::Element(
                ElemView {
                    element_type: ElementType::LiteralBlock,
                    common: CommonView { classes: classes, ..empty_common() },
                    extra: ExtraView::Space(FixedSpace::Preserve),
                    children: literal_lines(strip_blank_lines(body)),
                },
            ),
        )
    } else if name == seq!['r', 'a', 'w'] {
        Some(
            elem_node(
                ElementType::Raw,
                ExtraView::Raw(a::RawView { space: FixedSpace::Preserve, format: seq![args] }),
                literal_lines(strip_blank_lines(body)),
            ),
        )
    } else if admonition_type(name) is Some {
        let first = if args.len() > 0 {
            seq![plain_paragraph(args)]
        } else {
            Seq::empty()
        };
        let cs = chunks(body, 0);
        let paras = Seq::new(cs.len(), |k: int| plain_paragraph(join_lines(cs[k])));
        Some(elem_node(admonition_type(name).unwrap(), ExtraView::Plain, first + paras))
    } else if name == seq!['a', 'd', 'm', 'o', 'n', 'i', 't', 'i', 'o', 'n'] {
        match (title_elem(args, false), nested) {
            (Some(t), Some(b)) => Some(
                elem_node(ElementType::Admonition, ExtraView::Plain, seq![NodeView::Element(t)] + b),
            ),
            _ => None,
        }
    } else if is_quote_directive(name) {
        match nested {
            Some(b) => Some(
                NodeView::Element(
                    ElemView {
                        element_type: ElementType::BlockQuote,
                        common: CommonView { classes: seq![name], ..empty_common() },
                        extra: ExtraView::Plain,
                        children: b,
                    },
                ),
            ),
            None => None,
        }
    } else {
        Some(comment_node(head, body))
    }
}

/// The value of the digits from `from` to `to`.
pub open spec fn digits_value(s: Seq<char>, from: int, to: int) -> int
    decreases to - from,
{
    if to <= from {
        0
    } else {
        digits_value(s, from, to - 1) * 10 + (s[to - 1] as int - '0' as int)
    }
}

/// The byte that a text names: an optional `+`, then decimal digits, at most 255.
pub open spec fn spec_parse_u8(t: Seq<char>) -> Option<u8> {
    let start = if t.len() > 0 && t[0] == '+' {
        1int
    } else {
        0int
    };
    if start < t.len() && (forall|i: int| start <= i < t.len() ==> is_digit(#[trigger] t[i]))
        && digits_value(t, start, t.len() as int) <= 255 {
        Some(digits_value(t, start, t.len() as int) as u8)
    } else {
        None
    }
}

/// The scale an image option gives: a byte, optionally followed by `%`.
pub open spec fn spec_parse_scale(v: Seq<char>) -> Option<u8> {
    let t = trim(v);
    let t2 = if t.len() > 0 && t[t.len() - 1] == '%' {
        trim_end(t.drop_last())
    } else {
        t
    };
    spec_parse_u8(t2)
}

/// The name and value of an option line `:name: value`.
pub open spec fn option_parts(l: Seq<char>) -> Option<(Seq<char>, Seq<char>)> {
    let c = index_from(l, 1, ':');
    if l.len() > 0 && l[0] == ':' && c > 1 {
        Some((l.subrange(1, c), trim(l.subrange(c + 1, l.len() as int))))
    } else {
        None
    }
}

/// Applies one image option to the attributes of an image.
pub open spec fn apply_image_option(common: CommonView, img: a::ImageView, name: Seq<char>, value: Seq<char>) -> Option<(CommonView, a::ImageView)> {
    if name == seq!['c', 'l', 'a', 's', 's'] {
        Some((CommonView { classes: common.classes.push(value), ..common }, img))
    } else if name == seq!['n', 'a', 'm', 'e'] {
        Some((CommonView { names: common.names.push(value), ..common }, img))
    } else if name == seq!['a', 'l', 't'] {
        Some((common, a::ImageView { alt: Some(value), ..img }))
    } else if name == seq!['h', 'e', 'i', 'g', 'h', 't'] {
        match spec_parse_measure(value) {
            Some(m) => Some((common, a::ImageView { height: Some(m), ..img })),
            None => None,
        }
    } else if name == seq!['w', 'i', 'd', 't', 'h'] {
        match spec_parse_measure(value) {
            Some(m) => Some((common, a::ImageView { width: Some(m), ..img })),
            None => None,
        }
    } else if name == seq!['s', 'c', 'a', 'l', 'e'] {
        match spec_parse_scale(value) {
            Some(x) => Some((common, a::ImageView { scale: Some(x), ..img })),
            None => None,
        }
    } else if name == seq!['a', 'l', 'i', 'g', 'n'] {
        match spec_align_hv(value) {
            Some(x) => Some((common, a::ImageView { align: Some(x), ..img })),
            None => None,
        }
    } else if name == seq!['t', 'a', 'r', 'g', 'e', 't'] {
        match parsed_url(value) {
            Some(u) => Some((common, a::ImageView { target: Some(u), ..img })),
            None => None,
        }
    } else {
        None
    }
}

/// Applies the option lines from `k` on; blank lines are skipped, any other line that is
/// no option is refused.
pub open spec fn apply_image_options(common: CommonView, img: a::ImageView, body: Seq<Seq<char>>, k: int) -> Option<(CommonView, a::ImageView)>
    decreases body.len() - k,
{
    if k < 0 || k >= body.len() {
        Some((common, img))
    } else if blank(body[k]) {
        apply_image_options(common, img, body, k + 1)
    } else {
        match option_parts(body[k]) {
            Some((name, value)) => match apply_image_option(common, img, name, value) {
                Some((c2, i2)) => apply_image_options(c2, i2, body, k + 1),
                None => None,
            },
            None => None,
        }
    }
}

/// An image element of type `t` showing `uri`, with the options of `body`.
#[verifier::opaque]
pub open spec fn image_node(t: ElementType, uri: Seq<char>, body: Seq<Seq<char>>) -> Option<NodeView> {
    match parsed_url(uri) {
        Some(u) => {
            let img = a::ImageView {
                uri: u,
                align: None,
                alt: None,
                height: None,
                width: None,
                scale: None,
                target: None,
            };
            match apply_image_options(empty_common(), img, body, 0) {
                Some((common, img2)) => Some(
                    NodeView::Element(
                        ElemView { element_type: t, common: common, extra: ExtraView::Image(img2), children: Seq::empty() },
                    ),
                ),
                None => None,
            }
        },
        None => None,
    }
}


} // verus!
