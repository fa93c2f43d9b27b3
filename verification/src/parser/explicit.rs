//! Pieces of explicit markup: hyperlink targets, footnote labels, substitution definitions
//! and directive heads.
use vstd::prelude::*;

use super::blocks::{
    comment_node_exec, image_node_exec, index_from_exec_lines, join_lines_exec, literal_lines_exec,
    paragraph_end_exec, paragraph_exec, parsed_url_exec, plain_paragraph_exec, region_exec,
    strip_blank_lines_exec, sub_lines, title_elem_exec, trim_start_vec, trim_vec, RstError,
};
use super::body::{blocks_view, concat_nodes, one_block, one_node, Block};
use super::conversion::whitespace_normalize_name;
use super::grammar::{
    admonition_type, attribution_line, attribution_start, chunks, concat_trimmed, directive_assemble,
    directive_nests, directive_parts, double_colon_from, ends_with_double_colon, footnote_assemble,
    footnote_parts, image_marker, is_code_directive, is_directive_name_char, is_quote_directive,
    join_lines, literal_intro, next_blank, paragraph_at, plain_paragraph, replace_marker,
    starts_with, substitution_node, substitution_parts, target_node, target_parts, trim, BlockView,
};
use super::inline::{is_alnum_exec, is_footnote_label_exec, parse_inlines, slice_to_vec, InlineError};
use super::lines::{
    blank, count_spaces, indented_end_exec, is_blank, lines_view, skip_blank, skip_blank_exec,
    trim_blank_end_exec,
};
use crate::attribute_types::{FixedSpace, FootnoteType, NameToken, ID};
use crate::element_categories::ElementType;
use crate::elements::{nodes_view, CommonAttributes, Elem, Extra, Node, NodeView};
use crate::extra_attributes as a;
use crate::text::{is_whitespace, starts_at, string_of};

verus! {

broadcast use crate::elements::group_nodes_view;

/// The name of a hyperlink target and the text after its colon.
pub fn target_parts_exec(head: &Vec<char>) -> (r: Option<(Vec<char>, Vec<char>)>)
    ensures
        match r {
            Some((n, t)) => target_parts(head@) == Some((n@, t@)),
            None => target_parts(head@) is None,
        },
{
    if head.len() > 1 && head[1] == '`' {
        match index_from_exec_lines(head, 2, '`') {
            Some(m) => if m > 2 && m + 1 < head.len() && head[m + 1] == ':' {
                Some((slice_to_vec(head, 2, m), slice_to_vec(head, m + 2, head.len())))
            } else {
                None
            },
            None => None,
        }
    } else {
        match index_from_exec_lines(head, 1, ':') {
            Some(c) => if c > 1 {
                Some((slice_to_vec(head, 1, c), slice_to_vec(head, c + 1, head.len())))
            } else {
                None
            },
            None => None,
        }
    }
}

/// The lines concatenated, each without surrounding whitespace.
pub fn concat_trimmed_exec(ls: &Vec<Vec<char>>) -> (r: Vec<char>)
    ensures
        r@ == concat_trimmed(lines_view(ls@)),
{
    let mut acc: Vec<char> = Vec::new();
    let mut i: usize = 0;
    assert(lines_view(ls@).subrange(0, 0) =~= Seq::<Seq<char>>::empty());
    while i < ls.len()
        invariant
            i <= ls@.len(),
            acc@ == concat_trimmed(lines_view(ls@).subrange(0, i as int)),
        decreases ls@.len() - i,
    {
        let mut t = trim_vec(&ls[i]);
        let ghost before = acc@;
        acc.append(&mut t);
        let ghost next = lines_view(ls@).subrange(0, i + 1);
        assert(next.drop_last() =~= lines_view(ls@).subrange(0, i as int));
        assert(next.last() == ls@[i as int]@);
        i += 1;
    }
    assert(lines_view(ls@).subrange(0, ls@.len() as int) =~= lines_view(ls@));
    acc
}

/// A hyperlink target; an error where its link is no URL.
pub fn target_node_exec(head: &Vec<char>, body: &Vec<Vec<char>>) -> (r: Result<Node, RstError>)
    requires
        target_parts(head@) is Some,
    ensures
        r matches Err(e) ==> e.from_grammar(),
        match r {
            Ok(n) => target_node(head@, lines_view(body@)) == Some(n.view()),
            Err(_) => target_node(head@, lines_view(body@)) is None,
        },
{
    proof {
        reveal(target_node);
    }
    let (name, rest) = match target_parts_exec(head) {
        Some(p) => p,
        None => {
            return Err(RstError::InvalidUrl(string_of(head.as_slice())));
        },
    };
    let mut link = trim_vec(&rest);
    let mut tail = concat_trimmed_exec(body);
    link.append(&mut tail);
    let refuri = if link.len() == 0 {
        None
    } else {
        match parsed_url_exec(&link) {
            Some(u) => Some(u),
            None => {
                return Err(RstError::InvalidUrl(string_of(link.as_slice())));
            },
        }
    };
    let name_s = string_of(name.as_slice());
    let id = ID::from_name(name_s.as_str());
    let mut ids: Vec<ID> = Vec::new();
    ids.push(id);
    let mut names: Vec<NameToken> = Vec::new();
    names.push(NameToken(name_s));
    let common = CommonAttributes { ids, names, source: None, classes: Vec::new() };
    let target = a::Target { refuri, refid: None, refname: Vec::new(), anonymous: false };
    let e = Elem { element_type: ElementType::Target, common, extra: Extra::Target(target), children: Vec::new() };
    assert(e.view().common.ids =~= seq![crate::attribute_types::spaces_to_hyphens(name@)]);
    assert(e.view().common.names =~= seq![name@]);
    assert(e.view().common.classes =~= Seq::<Seq<char>>::empty());
    assert(e.view().children =~= Seq::<crate::elements::NodeView>::empty());
    assert(target@.refname =~= Seq::<Seq<char>>::empty());
    Ok(Node::element(e))
}

/// The label of a footnote and the text after it.
pub fn footnote_parts_exec(head: &Vec<char>) -> (r: Option<(Vec<char>, Vec<char>)>)
    ensures
        match r {
            Some((l, t)) => footnote_parts(head@) == Some((l@, t@)),
            None => footnote_parts(head@) is None,
        },
{
    let n = head.len();
    match index_from_exec_lines(head, 1, ']') {
        Some(m) => if m > 1 && is_footnote_label_exec(head, 1, m) && (m + 1 == n || head[m + 1] == ' ') {
            let rest = slice_to_vec(head, m + 1, head.len());
            Some((slice_to_vec(head, 1, m), trim_start_vec(&rest)))
        } else {
            None
        },
        None => None,
    }
}

/// The name of a substitution definition and the text after it.
pub fn substitution_parts_exec(head: &Vec<char>) -> (r: Option<(Vec<char>, Vec<char>)>)
    ensures
        match r {
            Some((n, t)) => substitution_parts(head@) == Some((n@, t@)),
            None => substitution_parts(head@) is None,
        },
{
    let n = head.len();
    match index_from_exec_lines(head, 1, '|') {
        Some(m) => if m > 1 {
            let rest = slice_to_vec(head, m + 1, head.len());
            Some((slice_to_vec(head, 1, m), trim_start_vec(&rest)))
        } else {
            None
        },
        None => None,
    }
}

/// The first position at or after `k0` where `::` occurs.
pub fn double_colon_from_exec(t: &Vec<char>, k0: usize) -> (r: Option<usize>)
    ensures
        match r {
            Some(k) => double_colon_from(t@, k0 as int) == k && k0 <= k && k + 1 < t@.len(),
            None => double_colon_from(t@, k0 as int) == -1,
        },
{
    let n = t.len();
    let mut k = k0;
    while k < n && k + 1 < n
        invariant
            k0 <= k,
            n == t@.len(),
            double_colon_from(t@, k0 as int) == double_colon_from(t@, k as int),
        decreases t@.len() - k,
    {
        if t[k] == ':' && t[k + 1] == ':' {
            return Some(k);
        }
        k += 1;
    }
    None
}

/// The name of a directive and its arguments.
pub fn directive_parts_exec(head: &Vec<char>) -> (r: Option<(Vec<char>, Vec<char>)>)
    ensures
        match r {
            Some((n, t)) => directive_parts(head@) == Some((n@, t@)),
            None => directive_parts(head@) is None,
        },
{
    let n = head.len();
    let k = match double_colon_from_exec(head, 0) {
        Some(k) => k,
        None => {
            return None;
        },
    };
    if k == 0 {
        return None;
    }
    let mut i: usize = 0;
    while i < k
        invariant
            i <= k < head@.len(),
            k == double_colon_from(head@, 0),
            forall|j: int| 0 <= j < i ==> is_directive_name_char(#[trigger] head@[j]),
        decreases k - i,
    {
        if !(is_alnum_exec(head[i]) || head[i] == '-') {
            assert(!is_directive_name_char(head@[i as int]));
            return None;
        }
        i += 1;
    }
    let rest = slice_to_vec(head, k + 2, head.len());
    Some((slice_to_vec(head, 0, k), trim_vec(&rest)))
}

fn is_word(v: &Vec<char>, lit: &[char]) -> (r: bool)
    ensures
        r == (v@ == lit@),
{
    crate::text::eq_chars(v.as_slice(), lit)
}

/// The element type of a generic admonition directive's name.
pub fn admonition_type_exec(name: &Vec<char>) -> (r: Option<ElementType>)
    ensures
        r == admonition_type(name@),
{
    let w1 = ['a', 't', 't', 'e', 'n', 't', 'i', 'o', 'n'];
    let w2 = ['h', 'i', 'n', 't'];
    let w3 = ['n', 'o', 't', 'e'];
    let w4 = ['c', 'a', 'u', 't', 'i', 'o', 'n'];
    let w5 = ['d', 'a', 'n', 'g', 'e', 'r'];
    let w6 = ['e', 'r', 'r', 'o', 'r'];
    let w7 = ['i', 'm', 'p', 'o', 'r', 't', 'a', 'n', 't'];
    let w8 = ['t', 'i', 'p'];
    let w9 = ['w', 'a', 'r', 'n', 'i', 'n', 'g'];
    assert(w1@ =~= seq!['a', 't', 't', 'e', 'n', 't', 'i', 'o', 'n']);
    assert(w2@ =~= seq!['h', 'i', 'n', 't']);
    assert(w3@ =~= seq!['n', 'o', 't', 'e']);
    assert(w4@ =~= seq!['c', 'a', 'u', 't', 'i', 'o', 'n']);
    assert(w5@ =~= seq!['d', 'a', 'n', 'g', 'e', 'r']);
    assert(w6@ =~= seq!['e', 'r', 'r', 'o', 'r']);
    assert(w7@ =~= seq!['i', 'm', 'p', 'o', 'r', 't', 'a', 'n', 't']);
    assert(w8@ =~= seq!['t', 'i', 'p']);
    assert(w9@ =~= seq!['w', 'a', 'r', 'n', 'i', 'n', 'g']);
    if is_word(name, &w1) {
        Some(ElementType::Attention)
    } else if is_word(name, &w2) {
        Some(ElementType::Hint)
    } else if is_word(name, &w3) {
        Some(ElementType::Note)
    } else if is_word(name, &w4) {
        Some(ElementType::Caution)
    } else if is_word(name, &w5) {
        Some(ElementType::Danger)
    } else if is_word(name, &w6) {
        Some(ElementType::Error)
    } else if is_word(name, &w7) {
        Some(ElementType::Important)
    } else if is_word(name, &w8) {
        Some(ElementType::Tip)
    } else if is_word(name, &w9) {
        Some(ElementType::Warning)
    } else {
        None
    }
}

pub fn is_code_directive_exec(name: &Vec<char>) -> (r: bool)
    ensures
        r == is_code_directive(name@),
{
    let w1 = ['c', 'o', 'd', 'e'];
    let w2 = ['c', 'o', 'd', 'e', '-', 'b', 'l', 'o', 'c', 'k'];
    let w3 = ['s', 'o', 'u', 'r', 'c', 'e', 'c', 'o', 'd', 'e'];
    assert(w1@ =~= seq!['c', 'o', 'd', 'e']);
    assert(w2@ =~= seq!['c', 'o', 'd', 'e', '-', 'b', 'l', 'o', 'c', 'k']);
    assert(w3@ =~= seq!['s', 'o', 'u', 'r', 'c', 'e', 'c', 'o', 'd', 'e']);
    is_word(name, &w1) || is_word(name, &w2) || is_word(name, &w3)
}

pub fn is_quote_directive_exec(name: &Vec<char>) -> (r: bool)
    ensures
        r == is_quote_directive(name@),
{
    let w1 = ['e', 'p', 'i', 'g', 'r', 'a', 'p', 'h'];
    let w2 = ['h', 'i', 'g', 'h', 'l', 'i', 'g', 'h', 't', 's'];
    let w3 = ['p', 'u', 'l', 'l', '-', 'q', 'u', 'o', 't', 'e'];
    assert(w1@ =~= seq!['e', 'p', 'i', 'g', 'r', 'a', 'p', 'h']);
    assert(w2@ =~= seq!['h', 'i', 'g', 'h', 'l', 'i', 'g', 'h', 't', 's']);
    assert(w3@ =~= seq!['p', 'u', 'l', 'l', '-', 'q', 'u', 'o', 't', 'e']);
    is_word(name, &w1) || is_word(name, &w2) || is_word(name, &w3)
}

/// The first blank line at or after `k0`, or the number of lines.
pub fn next_blank_exec(r: &Vec<Vec<char>>, k0: usize) -> (e: usize)
    requires
        k0 <= r@.len(),
    ensures
        e == next_blank(lines_view(r@), k0 as int),
        k0 <= e <= r@.len(),
{
    let mut k = k0;
    while k < r.len()
        invariant
            k0 <= k <= r@.len(),
            next_blank(lines_view(r@), k0 as int) == next_blank(lines_view(r@), k as int),
        decreases r@.len() - k,
    {
        if is_blank(&r[k]) {
            return k;
        }
        k += 1;
    }
    k
}

/// The first line at or after `k0` that starts an attribution after a blank line.
pub fn attribution_start_exec(r: &Vec<Vec<char>>, k0: usize) -> (s: Option<usize>)
    requires
        k0 >= 2,
    ensures
        match s {
            Some(k) => attribution_start(lines_view(r@), k0 as int) == k && k0 <= k < r@.len()
                && attribution_line(r@[k as int]@),
            None => attribution_start(lines_view(r@), k0 as int) == -1,
        },
{
    let mut k = k0;
    while k < r.len()
        invariant
            2 <= k0 <= k,
            attribution_start(lines_view(r@), k0 as int) == attribution_start(lines_view(r@), k as int),
        decreases r@.len() - k,
    {
        if r[k].len() >= 2 && r[k][0] == '-' && r[k][1] == '-' && is_blank(&r[k - 1]) {
            return Some(k);
        }
        k += 1;
    }
    None
}

/// The paragraphs of lines split at blank lines, from line `k0` on.
pub fn chunks_exec(ls: &Vec<Vec<char>>, k0: usize) -> (r: Vec<Vec<Vec<char>>>)
    requires
        k0 <= ls@.len(),
    ensures
        r@.len() == chunks(lines_view(ls@), k0 as int).len(),
        forall|i: int| 0 <= i < r@.len() ==> #[trigger] lines_view(r@[i]@) == chunks(lines_view(ls@), k0 as int)[i],
{
    let ghost lv = lines_view(ls@);
    let mut out: Vec<Vec<Vec<char>>> = Vec::new();
    let mut k = k0;
    while k < ls.len()
        invariant
            k0 <= k <= ls@.len(),
            lv == lines_view(ls@),
            chunks(lv, k0 as int) == Seq::new(out@.len() as nat, |i: int| lines_view(out@[i]@)) + chunks(lv, k as int),
        decreases ls@.len() - k,
    {
        let s = skip_blank_exec(ls, k);
        if s >= ls.len() {
            assert(chunks(lv, k as int) =~= Seq::<Seq<Seq<char>>>::empty());
            assert(skip_blank(lv, lv.len() as int) == lv.len());
            assert(chunks(lv, lv.len() as int) =~= Seq::<Seq<Seq<char>>>::empty());
            assert(Seq::new(out@.len() as nat, |i: int| lines_view(out@[i]@)) + Seq::<Seq<Seq<char>>>::empty() =~= Seq::new(out@.len() as nat, |i: int| lines_view(out@[i]@)));
            k = ls.len();
        } else {
            assert(lv[s as int] == ls@[s as int]@);
            let e = next_blank_exec(ls, s + 1);
            assert(next_blank(lv, s as int) == e);
            let ghost before = Seq::new(out@.len() as nat, |i: int| lines_view(out@[i]@));
            let chunk = super::blocks::sub_lines(ls, s, e);
            out.push(chunk);
            assert(Seq::new(out@.len() as nat, |i: int| lines_view(out@[i]@)) =~= before.push(lv.subrange(s as int, e as int)));
            assert(chunks(lv, k as int) == seq![lv.subrange(s as int, e as int)] + chunks(lv, e as int));
            assert(before + chunks(lv, k as int) =~= before.push(lv.subrange(s as int, e as int)) + chunks(lv, e as int));
            k = e;
        }
    }
    assert(skip_blank(lv, lv.len() as int) == lv.len());
    assert(chunks(lv, k as int) =~= Seq::<Seq<Seq<char>>>::empty());
    assert(chunks(lv, k0 as int) =~= Seq::new(out@.len() as nat, |i: int| lines_view(out@[i]@)));
    out
}

/// The text that stays of a paragraph that announces a literal block.
pub fn literal_intro_exec(t: &Vec<char>) -> (r: Vec<char>)
    requires
        ends_with_double_colon(t@),
    ensures
        r@ == literal_intro(t@),
{
    if t.len() == 2 {
        assert(t@ =~= seq![':', ':']);
        Vec::new()
    } else if t.len() >= 3 && is_whitespace(t[t.len() - 3]) {
        assert(t@ != seq![':', ':']);
        let cut = slice_to_vec(t, 0, t.len() - 2);
        super::blocks::trim_end_vec(&cut)
    } else {
        assert(t@ != seq![':', ':']);
        let r = slice_to_vec(t, 0, t.len() - 1);
        assert(r@ =~= t@.drop_last());
        r
    }
}

pub fn ends_with_double_colon_exec(t: &Vec<char>) -> (r: bool)
    ensures
        r == ends_with_double_colon(t@),
{
    t.len() >= 2 && t[t.len() - 2] == ':' && t[t.len() - 1] == ':'
}



/// The blocks that a paragraph at line `i` makes, with the line after them.
pub fn paragraph_at_exec(lines: &Vec<Vec<char>>, i: usize) -> (r: Result<(Vec<Block>, usize), RstError>)
    requires
        i < lines@.len(),
    ensures
        r matches Err(e) ==> e.from_grammar(),
        match r {
            Ok((bs, next)) => paragraph_at(lines_view(lines@), i as int) == Some((blocks_view(bs@), next as int))
                && i < next <= lines@.len(),
            Err(_) => paragraph_at(lines_view(lines@), i as int) is None,
        },
{
    proof {
        reveal(paragraph_at);
    }
    let ghost lv = lines_view(lines@);
    let _n = lines.len();
    let e = paragraph_end_exec(lines, i + 1);
    let t = join_lines_exec(&sub_lines(lines, i, e));
    let j = skip_blank_exec(lines, e);
    if ends_with_double_colon_exec(&t) && j < lines.len() && count_spaces(&lines[j], 0) > 0 {
        assert(lv[j as int] == lines@[j as int]@);
        let ie = indented_end_exec(lines, j, 1);
        let le = trim_blank_end_exec(lines, j, ie);
        let lit = Node::element(
            Elem::assemble(
                ElementType::LiteralBlock,
                Extra::Space(FixedSpace::Preserve),
                literal_lines_exec(&region_exec(lines, j, le)),
            ),
        );
        let intro = literal_intro_exec(&t);
        if intro.len() == 0 {
            Ok((one_block(Block::Element(lit)), le))
        } else {
            match paragraph_exec(&intro) {
                Ok(p) => {
                    let mut bs = one_block(Block::Element(p));
                    let ghost b0 = blocks_view(bs@);
                    bs.push(Block::Element(lit));
                    assert(blocks_view(bs@) =~= b0.push(BlockView::Element(lit.view())));
                    Ok((bs, le))
                },
                Err(x) => Err(x),
            }
        }
    } else {
        match paragraph_exec(&t) {
            Ok(p) => Ok((one_block(Block::Element(p)), e)),
            Err(x) => Err(x),
        }
    }
}


/// A substitution definition: `replace::` with inline text, or `image::` with an image;
/// otherwise a comment.
pub fn substitution_node_exec(head: &Vec<char>, body: &Vec<Vec<char>>, fuel: usize) -> (r: Result<Node, RstError>)
    requires
        substitution_parts(head@) is Some,
    ensures
        r matches Err(e) ==> e.from_grammar(),
        match r {
            Ok(n) => substitution_node(head@, lines_view(body@), fuel as nat) == Some(n.view()),
            Err(_) => substitution_node(head@, lines_view(body@), fuel as nat) is None,
        },
{
    proof {
        reveal(substitution_node);
    }
    let (name, rest) = match substitution_parts_exec(head) {
        Some(p) => p,
        None => {
            return Ok(comment_node_exec(head, body));
        },
    };
    let replace = ['r', 'e', 'p', 'l', 'a', 'c', 'e', ':', ':'];
    let image = ['i', 'm', 'a', 'g', 'e', ':', ':'];
    assert(replace@ =~= replace_marker());
    assert(image@ =~= image_marker());
    let children: Vec<Node> = if starts_at(rest.as_slice(), 0, &replace) {
        assert(starts_with(rest@, replace_marker()));
        let tail = slice_to_vec(&rest, 9, rest.len());
        let mut ls: Vec<Vec<char>> = Vec::new();
        ls.push(trim_vec(&tail));
        let mut more = sub_lines(body, 0, body.len());
        let ghost l0 = lines_view(ls@);
        let ghost l1 = lines_view(more@);
        ls.append(&mut more);
        assert(lines_view(ls@) =~= l0 + l1);
        assert(lines_view(body@).subrange(0, body@.len() as int) =~= lines_view(body@));
        let t = join_lines_exec(&ls);
        assert(tail@ == rest@.subrange(9, rest@.len() as int));
        assert(lines_view(ls@) == seq![trim(rest@.subrange(9, rest@.len() as int))] + lines_view(body@));
        assert(t@ == join_lines(seq![trim(rest@.subrange(9, rest@.len() as int))] + lines_view(body@)));
        assert(substitution_parts(head@) == Some((name@, rest@)));
        match parse_inlines(&t) {
            Ok(inl) => inl,
            Err(InlineError::InvalidTarget(x)) => {
                return Err(RstError::InvalidReference(x));
            },
        }
    } else if starts_at(rest.as_slice(), 0, &image) {
        assert(!starts_with(rest@, replace_marker()));
        assert(starts_with(rest@, image_marker()));
        let tail = slice_to_vec(&rest, 7, rest.len());
        let uri = trim_vec(&tail);
        match image_node_exec(ElementType::ImageInline, &uri, body) {
            Ok(img) => one_node(img),
            Err(x) => {
                return Err(x);
            },
        }
    } else {
        assert(!starts_with(rest@, replace_marker()));
        assert(!starts_with(rest@, image_marker()));
        return Ok(comment_node_exec(head, body));
    };
    let s = string_of(name.as_slice());
    let mut names: Vec<NameToken> = Vec::new();
    names.push(NameToken(whitespace_normalize_name(s.as_str())));
    let common = CommonAttributes { ids: Vec::new(), names, source: None, classes: Vec::new() };
    let e = Elem {
        element_type: ElementType::SubstitutionDefinition,
        common,
        extra: Extra::SubstitutionDefinition(a::SubstitutionDefinition { ltrim: false, rtrim: false }),
        children,
    };
    assert(e.view().common.ids =~= Seq::<Seq<char>>::empty());
    assert(e.view().common.classes =~= Seq::<Seq<char>>::empty());
    assert(e.view().common.names =~= seq![super::conversion::spec_whitespace_normalize_name(name@)]);
    Ok(Node::element(e))
}


/// The views of nodes that may be missing.
pub open spec fn opt_nodes_view(o: Option<Vec<Node>>) -> Option<Seq<NodeView>> {
    match o {
        Some(v) => Some(nodes_view(v@)),
        None => None,
    }
}

pub proof fn lemma_footnote_assemble_none(head: Seq<char>)
    ensures
        footnote_assemble(head, None) is None,
{
}

pub proof fn lemma_directive_assemble_flat(head: Seq<char>, body: Seq<Seq<char>>, nested: Option<Seq<NodeView>>)
    requires
        directive_parts(head) is Some,
        !directive_nests(directive_parts(head).unwrap().0),
    ensures
        directive_assemble(head, body, nested) == directive_assemble(head, body, None),
{
}

pub proof fn lemma_directive_assemble_none(head: Seq<char>, body: Seq<Seq<char>>)
    requires
        directive_parts(head) is Some,
        directive_nests(directive_parts(head).unwrap().0),
    ensures
        directive_assemble(head, body, None) is None,
{
}


/// A footnote: the text after its label as first paragraph, then the nodes of its body.
pub fn footnote_assemble_exec(head: &Vec<char>, b: Vec<Node>) -> (r: Result<Node, RstError>)
    requires
        footnote_parts(head@) is Some,
    ensures
        r matches Err(e) ==> e.from_grammar(),
        match r {
            Ok(n) => footnote_assemble(head@, Some(nodes_view(b@))) == Some(n.view()),
            Err(_) => footnote_assemble(head@, Some(nodes_view(b@))) is None,
        },
{
    let (label, rest) = match footnote_parts_exec(head) {
        Some(p) => p,
        None => {
            return Err(RstError::InvalidReference(string_of(head.as_slice())));
        },
    };
    let first: Vec<Node> = if rest.len() > 0 {
        match paragraph_exec(&rest) {
            Ok(p) => one_node(p),
            Err(x) => {
                return Err(x);
            },
        }
    } else {
        let v: Vec<Node> = Vec::new();
        assert(nodes_view(v@) =~= Seq::<NodeView>::empty());
        v
    };
    let auto = FootnoteType::try_from_char(label[0]);
    let numbered_name = match auto {
        Some(FootnoteType::Number) => label.len() > 1,
        _ => false,
    };
    let mut names: Vec<NameToken> = Vec::new();
    if numbered_name {
        let raw = slice_to_vec(&label, 1, label.len());
        let s = string_of(raw.as_slice());
        names.push(NameToken(whitespace_normalize_name(s.as_str())));
    }
    let ghost fv = nodes_view(first@);
    let ghost bv = nodes_view(b@);
    let content = concat_nodes(first, b);
    let children = match auto {
        None => {
            let mut text: Vec<Node> = Vec::new();
            text.push(Node::Text(string_of(label.as_slice())));
            assert(nodes_view(text@) =~= seq![NodeView::Text(label@)]);
            let label_node = Node::element(Elem::assemble(ElementType::Label, Extra::Plain, text));
            let ghost lv = label_node.view();
            let c = concat_nodes(one_node(label_node), content);
            assert(nodes_view(c@) =~= seq![lv] + fv + bv);
            c
        },
        Some(_) => content,
    };
    let common = CommonAttributes { ids: Vec::new(), names, source: None, classes: Vec::new() };
    let e = Elem {
        element_type: ElementType::Footnote,
        common,
        extra: Extra::Footnote(a::Footnote { backrefs: Vec::new(), auto }),
        children,
    };
    let ghost expect = footnote_assemble(head@, Some(nodes_view(b@))).unwrap();
    assert(e.view().common.ids =~= Seq::<Seq<char>>::empty());
    assert(e.view().common.classes =~= Seq::<Seq<char>>::empty());
    assert(e.view().common.names =~= expect->Element_0.common.names);
    assert(e.view().extra == expect->Element_0.extra) by {
        assert(crate::extra_attributes::ids_view(Seq::<crate::attribute_types::ID>::empty()) =~= Seq::<Seq<char>>::empty());
    }
    Ok(Node::element(e))
}


/// A directive with the nodes that its body gives when read as nested blocks: an image, a
/// code block, raw output, an admonition or a block quote; unknown directives are comments.
pub fn directive_assemble_exec(head: &Vec<char>, body: &Vec<Vec<char>>, nested: Option<Vec<Node>>) -> (r: Result<Node, RstError>)
    requires
        directive_parts(head@) is Some,
        nested is None ==> !directive_nests(directive_parts(head@).unwrap().0),
    ensures
        r matches Err(e) ==> e.from_grammar(),
        match r {
            Ok(n) => directive_assemble(head@, lines_view(body@), opt_nodes_view(nested)) == Some(n.view()),
            Err(_) => directive_assemble(head@, lines_view(body@), opt_nodes_view(nested)) is None,
        },
{
    let (name, args) = match directive_parts_exec(head) {
        Some(p) => p,
        None => {
            return Ok(comment_node_exec(head, body));
        },
    };
    let image = ['i', 'm', 'a', 'g', 'e'];
    let raw = ['r', 'a', 'w'];
    let admonition = ['a', 'd', 'm', 'o', 'n', 'i', 't', 'i', 'o', 'n'];
    let code = ['c', 'o', 'd', 'e'];
    assert(image@ =~= seq!['i', 'm', 'a', 'g', 'e']);
    assert(raw@ =~= seq!['r', 'a', 'w']);
    assert(admonition@ =~= seq!['a', 'd', 'm', 'o', 'n', 'i', 't', 'i', 'o', 'n']);
    assert(code@ =~= seq!['c', 'o', 'd', 'e']);
    if crate::text::eq_chars(name.as_slice(), &image) {
        image_node_exec(ElementType::Image, &args, body)
    } else if is_code_directive_exec(&name) {
        let mut classes: Vec<String> = Vec::new();
        classes.push(string_of(&code));
        if args.len() > 0 {
            classes.push(string_of(args.as_slice()));
        }
        let children = literal_lines_exec(&strip_blank_lines_exec(body));
        let common = CommonAttributes { ids: Vec::new(), names: Vec::new(), source: None, classes };
        let e = Elem {
            element_type: ElementType::LiteralBlock,
            common,
            extra: Extra::Space(FixedSpace::Preserve),
            children,
        };
        let ghost expect = directive_assemble(head@, lines_view(body@), opt_nodes_view(nested)).unwrap();
        assert(e.view().common.ids =~= Seq::<Seq<char>>::empty());
        assert(e.view().common.names =~= Seq::<Seq<char>>::empty());
        assert(e.view().common.classes =~= expect->Element_0.common.classes);
        Ok(Node::element(e))
    } else if crate::text::eq_chars(name.as_slice(), &raw) {
        let mut format: Vec<NameToken> = Vec::new();
        format.push(NameToken(string_of(args.as_slice())));
        let x = a::Raw { space: FixedSpace::Preserve, format };
        assert(x@.format =~= seq![args@]);
        let children = literal_lines_exec(&strip_blank_lines_exec(body));
        Ok(Node::element(Elem::assemble(ElementType::Raw, Extra::Raw(x), children)))
    } else if admonition_type_exec(&name).is_some() {
        let t = match admonition_type_exec(&name) {
            Some(t) => t,
            None => ElementType::Note,
        };
        let first: Vec<Node> = if args.len() > 0 {
            one_node(plain_paragraph_exec(&args))
        } else {
            let v: Vec<Node> = Vec::new();
            assert(nodes_view(v@) =~= Seq::<NodeView>::empty());
            v
        };
        let cs = chunks_exec(body, 0);
        let ghost cv = chunks(lines_view(body@), 0);
        let mut paras: Vec<Node> = Vec::new();
        let mut k: usize = 0;
        while k < cs.len()
            invariant
                k <= cs@.len(),
                cs@.len() == cv.len(),
                forall|m: int| 0 <= m < cs@.len() ==> #[trigger] lines_view(cs@[m]@) == cv[m],
                paras@.len() == k,
                forall|m: int| 0 <= m < k ==> #[trigger] paras@[m].view() == plain_paragraph(join_lines(cv[m])),
            decreases cs@.len() - k,
        {
            let t = join_lines_exec(&cs[k]);
            paras.push(plain_paragraph_exec(&t));
            k += 1;
        }
        assert(nodes_view(paras@) =~= Seq::new(cv.len(), |m: int| plain_paragraph(join_lines(cv[m]))));
        let children = concat_nodes(first, paras);
        Ok(Node::element(Elem::assemble(t, Extra::Plain, children)))
    } else if crate::text::eq_chars(name.as_slice(), &admonition) {
        let t = match title_elem_exec(&args, false) {
            Ok(t) => t,
            Err(x) => {
                return Err(x);
            },
        };
        let b = match nested {
            Some(b) => b,
            None => Vec::new(),
        };
        let children = concat_nodes(one_node(Node::element(t)), b);
        Ok(Node::element(Elem::assemble(ElementType::Admonition, Extra::Plain, children)))
    } else if is_quote_directive_exec(&name) {
        let b = match nested {
            Some(b) => b,
            None => Vec::new(),
        };
        let mut classes: Vec<String> = Vec::new();
        classes.push(string_of(name.as_slice()));
        let common = CommonAttributes { ids: Vec::new(), names: Vec::new(), source: None, classes };
        let e = Elem { element_type: ElementType::BlockQuote, common, extra: Extra::Plain, children: b };
        assert(e.view().common.ids =~= Seq::<Seq<char>>::empty());
        assert(e.view().common.names =~= Seq::<Seq<char>>::empty());
        assert(e.view().common.classes =~= seq![name@]);
        Ok(Node::element(e))
    } else {
        Ok(comment_node_exec(head, body))
    }
}


/// Whether a directive's body is read as nested blocks.
pub fn directive_nests_exec(name: &Vec<char>) -> (r: bool)
    ensures
        r == directive_nests(name@),
{
    let admonition = ['a', 'd', 'm', 'o', 'n', 'i', 't', 'i', 'o', 'n'];
    assert(admonition@ =~= seq!['a', 'd', 'm', 'o', 'n', 'i', 't', 'i', 'o', 'n']);
    is_word(name, &admonition) || is_quote_directive_exec(name)
}

} // verus!
