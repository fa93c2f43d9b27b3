//! Reading the blocks of the grammar from lines.
use vstd::prelude::*;

use super::grammar::{
    adornment_line, bullet_line, comment_node, double_title_at, explicit_line, is_adornment_char,
    join_lines, literal_lines, option_parts, paragraph, paragraph_end, parsed_url, plain_paragraph,
    region, single_title_at, spec_parse_scale, spec_parse_u8, strip_blank_lines, title_elem, trim,
    trim_end, trim_start, digits_value, apply_image_option, apply_image_options, image_node,
};
use crate::attribute_types::{AlignHV, Measure};
use crate::elements::{CommonAttributes, ElemView, ExtraView, NodeView};
use crate::extra_attributes as a;
use crate::attribute_types::is_digit;
use crate::url::Url;
use super::inline::{index_from, parse_inlines, slice_to_vec, text_view, InlineError};
use super::lines::{
    count_spaces, dedent, dedent_lines_exec, is_blank, lines_view, min_indent_exec, skip_blank_exec, trim_blank_end,
    trim_blank_end_exec,
};
use crate::attribute_types::{FixedSpace, NameToken, ID};
use crate::element_categories::ElementType;
use crate::elements::{nodes_view, Elem, Extra, Node};
use crate::text::{is_whitespace, string_of, to_lowercase};

verus! {

broadcast use crate::elements::group_nodes_view;

/// `l` without leading whitespace.
pub fn trim_start_vec(l: &Vec<char>) -> (r: Vec<char>)
    ensures
        r@ == trim_start(l@),
{
    let mut k: usize = 0;
    assert(l@.subrange(0, l@.len() as int) =~= l@);
    while k < l.len() && is_whitespace(l[k])
        invariant
            k <= l@.len(),
            trim_start(l@) == trim_start(l@.subrange(k as int, l@.len() as int)),
        decreases l@.len() - k,
    {
        assert(l@.subrange(k as int, l@.len() as int).drop_first() =~= l@.subrange(k + 1, l@.len() as int));
        k += 1;
    }
    slice_to_vec(l, k, l.len())
}

/// `l` without trailing whitespace.
pub fn trim_end_vec(l: &Vec<char>) -> (r: Vec<char>)
    ensures
        r@ == trim_end(l@),
{
    let mut e: usize = l.len();
    assert(l@.subrange(0, l@.len() as int) =~= l@);
    while e > 0 && is_whitespace(l[e - 1])
        invariant
            e <= l@.len(),
            trim_end(l@) == trim_end(l@.subrange(0, e as int)),
        decreases e,
    {
        assert(l@.subrange(0, e as int).drop_last() =~= l@.subrange(0, e - 1));
        e -= 1;
    }
    slice_to_vec(l, 0, e)
}

/// `l` without leading and trailing whitespace.
pub fn trim_vec(l: &Vec<char>) -> (r: Vec<char>)
    ensures
        r@ == trim(l@),
{
    let t = trim_start_vec(l);
    trim_end_vec(&t)
}

/// The lines joined with line feeds.
pub fn join_lines_exec(ls: &Vec<Vec<char>>) -> (r: Vec<char>)
    ensures
        r@ == join_lines(lines_view(ls@)),
{
    let mut acc: Vec<char> = Vec::new();
    let mut i: usize = 0;
    assert(lines_view(ls@).subrange(0, 0) =~= Seq::<Seq<char>>::empty());
    while i < ls.len()
        invariant
            i <= ls@.len(),
            acc@ == join_lines(lines_view(ls@).subrange(0, i as int)),
        decreases ls@.len() - i,
    {
        let ghost prev = lines_view(ls@).subrange(0, i as int);
        if i > 0 {
            acc.push('\n');
        }
        let mut k: usize = 0;
        let ghost base = acc@;
        while k < ls[i].len()
            invariant
                i < ls@.len(),
                k <= ls@[i as int]@.len(),
                acc@ == base + ls@[i as int]@.subrange(0, k as int),
            decreases ls@[i as int]@.len() - k,
        {
            acc.push(ls[i][k]);
            k += 1;
            assert(acc@ =~= base + ls@[i as int]@.subrange(0, k as int));
        }
        assert(ls@[i as int]@.subrange(0, k as int) =~= ls@[i as int]@);
        let ghost next = lines_view(ls@).subrange(0, i + 1);
        assert(next.drop_last() =~= prev);
        assert(next.last() == ls@[i as int]@);
        if i == 0 {
            assert(next.len() == 1);
            assert(acc@ =~= next[0]);
        } else {
            assert(acc@ =~= join_lines(prev) + seq!['\n'] + next.last());
        }
        i += 1;
    }
    assert(lines_view(ls@).subrange(0, ls@.len() as int) =~= lines_view(ls@));
    acc
}

/// The lines from `from` to `to`.
pub fn sub_lines(ls: &Vec<Vec<char>>, from: usize, to: usize) -> (r: Vec<Vec<char>>)
    requires
        from <= to <= ls@.len(),
    ensures
        lines_view(r@) == lines_view(ls@).subrange(from as int, to as int),
{
    let r = dedent_lines_exec(ls, from, to, 0);
    assert forall|i: int| 0 <= i < to - from implies #[trigger] dedent(lines_view(ls@)[from + i], 0) == lines_view(ls@)[from + i] by {
        assert(lines_view(ls@)[from + i].subrange(0, lines_view(ls@)[from + i].len() as int) =~= lines_view(ls@)[from + i]);
    }
    assert(lines_view(r@) =~= lines_view(ls@).subrange(from as int, to as int));
    r
}

pub fn is_adornment_char_exec(c: char) -> (r: bool)
    ensures
        r == is_adornment_char(c),
{
    ('!' <= c && c <= '/') || (':' <= c && c <= '@') || ('[' <= c && c <= '`') || ('{' <= c
        && c <= '~')
}

pub fn is_adornment_line(l: &Vec<char>) -> (r: bool)
    ensures
        r == adornment_line(l@),
{
    if l.len() < 3 || !is_adornment_char_exec(l[0]) {
        return false;
    }
    let mut i: usize = 0;
    while i < l.len()
        invariant
            i <= l@.len(),
            l@.len() >= 3,
            forall|j: int| 0 <= j < i ==> #[trigger] l@[j] == l@[0],
        decreases l@.len() - i,
    {
        if l[i] != l[0] {
            return false;
        }
        i += 1;
    }
    true
}

pub fn is_bullet_line(l: &Vec<char>) -> (r: bool)
    ensures
        r == bullet_line(l@),
{
    l.len() >= 2 && (l[0] == '*' || l[0] == '+' || l[0] == '-' || l[0] == '\u{2022}' || l[0]
        == '\u{2023}' || l[0] == '\u{2043}') && l[1] == ' '
}

pub fn is_explicit_line(l: &Vec<char>) -> (r: bool)
    ensures
        r == explicit_line(l@),
{
    l.len() >= 2 && l[0] == '.' && l[1] == '.' && (l.len() == 2 || l[2] == ' ')
}

pub fn double_title_at_exec(lines: &Vec<Vec<char>>, i: usize) -> (r: bool)
    ensures
        r == double_title_at(lines_view(lines@), i as int),
{
    lines.len() >= 3 && i < lines.len() - 2 && is_adornment_line(&lines[i]) && !is_blank(
        &lines[i + 1],
    ) && is_adornment_line(&lines[i + 2]) && lines[i + 2][0] == lines[i][0]
}

pub fn single_title_at_exec(lines: &Vec<Vec<char>>, i: usize) -> (r: bool)
    ensures
        r == single_title_at(lines_view(lines@), i as int),
{
    lines.len() >= 2 && i < lines.len() - 1 && count_spaces(&lines[i], 0) == 0
        && !is_adornment_line(&lines[i]) && is_adornment_line(&lines[i + 1])
}

pub fn paragraph_end_exec(lines: &Vec<Vec<char>>, j0: usize) -> (r: usize)
    requires
        j0 <= lines@.len(),
    ensures
        r == paragraph_end(lines_view(lines@), j0 as int),
        j0 <= r <= lines@.len(),
{
    let mut j = j0;
    while j < lines.len()
        invariant
            j0 <= j <= lines@.len(),
            paragraph_end(lines_view(lines@), j0 as int) == paragraph_end(lines_view(lines@), j as int),
        decreases lines@.len() - j,
    {
        if is_blank(&lines[j]) || count_spaces(&lines[j], 0) > 0 {
            return j;
        }
        j += 1;
    }
    j
}

} // verus!

verus! {

/// Why a text could not be parsed.
#[derive(Debug)]
pub enum RstError {
    /// A reference names a target that is no URL.
    InvalidReference(String),
    /// A hyperlink target or an image names no URL.
    InvalidUrl(String),
    /// An image option is unknown or has an invalid value.
    InvalidOption(String),
    /// Blocks are nested deeper than the parser follows.
    NestingTooDeep,
    /// A footnote reference has no footnote to take its number from.
    UnresolvedFootnoteReference,
    /// The tree read from the text has an element where its parent's content model does
    /// not admit it.
    MisplacedElement,
}

impl RstError {
    /// Whether the error comes from the grammar: neither from checking the tree that it
    /// reads nor from the transforms.
    pub open spec fn from_grammar(self) -> bool {
        !(self is UnresolvedFootnoteReference) && !(self is MisplacedElement)
    }
}

/// A paragraph with the inline content of `text`.
pub fn paragraph_exec(text: &Vec<char>) -> (r: Result<Node, RstError>)
    ensures
        r matches Err(e) ==> e.from_grammar(),
        match r {
            Ok(n) => paragraph(text@) == Some(n.view()),
            Err(_) => paragraph(text@) is None,
        },
{
    proof {
        reveal(paragraph);
    }
    match parse_inlines(text) {
        Ok(inl) => Ok(Node::element(Elem::assemble(ElementType::Paragraph, Extra::Plain, inl))),
        Err(InlineError::InvalidTarget(t)) => Err(RstError::InvalidReference(t)),
    }
}

/// A paragraph holding `text` as it is.
pub fn plain_paragraph_exec(text: &Vec<char>) -> (r: Node)
    ensures
        r.view() == plain_paragraph(text@),
{
    let mut children: Vec<Node> = Vec::new();
    children.push(Node::Text(string_of(text.as_slice())));
    assert(nodes_view(children@) =~= seq![text_view(text@)]);
    Node::element(Elem::assemble(ElementType::Paragraph, Extra::Plain, children))
}

/// A title with the inline content of `text`, named by its slug when `named`.
pub fn title_elem_exec(text: &Vec<char>, named: bool) -> (r: Result<Elem, RstError>)
    ensures
        r matches Err(e) ==> e.from_grammar(),
        match r {
            Ok(e) => title_elem(text@, named) == Some(e.view()),
            Err(_) => title_elem(text@, named) is None,
        },
{
    proof {
        reveal(title_elem);
    }
    match parse_inlines(text) {
        Ok(inl) => {
            let mut e = Elem::assemble(ElementType::Title, Extra::Plain, inl);
            if named {
                let s = string_of(text.as_slice());
                let lower = to_lowercase(s.as_str());
                let id = ID::from_name(lower.as_str());
                e.add_name(NameToken(id.0));
            }
            assert(e.view().common.names =~= title_elem(text@, named).unwrap().common.names);
            Ok(e)
        },
        Err(InlineError::InvalidTarget(t)) => Err(RstError::InvalidReference(t)),
    }
}

/// The text nodes of a literal block's lines.
pub fn literal_lines_exec(ls: &Vec<Vec<char>>) -> (r: Vec<Node>)
    ensures
        nodes_view(r@) == literal_lines(lines_view(ls@)),
{
    let mut r: Vec<Node> = Vec::new();
    let mut i: usize = 0;
    while i < ls.len()
        invariant
            i <= ls@.len(),
            r@.len() == i,
            forall|k: int| 0 <= k < i ==> #[trigger] r@[k].view() == literal_lines(lines_view(ls@))[k],
        decreases ls@.len() - i,
    {
        let t = if is_blank(&ls[i]) {
            let s = string_of(&['\n']);
            assert(['\n']@ =~= seq!['\n']);
            Node::Text(s)
        } else {
            let mut v = slice_to_vec(&ls[i], 0, ls[i].len());
            assert(v@ =~= ls@[i as int]@);
            v.push('\n');
            Node::Text(string_of(v.as_slice()))
        };
        r.push(t);
        i += 1;
    }
    assert(nodes_view(r@) =~= literal_lines(lines_view(ls@)));
    r
}

/// The lines without blank lines at the start and the end.
pub fn strip_blank_lines_exec(ls: &Vec<Vec<char>>) -> (r: Vec<Vec<char>>)
    ensures
        lines_view(r@) == strip_blank_lines(lines_view(ls@)),
{
    let s = skip_blank_exec(ls, 0);
    let e = trim_blank_end_exec(ls, s, ls.len());
    sub_lines(ls, s, e)
}

/// The lines from `from` to `to` without their common indentation.
pub fn region_exec(lines: &Vec<Vec<char>>, from: usize, to: usize) -> (r: Vec<Vec<char>>)
    requires
        from <= to <= lines@.len(),
    ensures
        lines_view(r@) == region(lines_view(lines@), from as int, to as int),
{
    let m = min_indent_exec(lines, from, to);
    dedent_lines_exec(lines, from, to, m)
}

/// A comment made of its first line and its body.
pub fn comment_node_exec(head: &Vec<char>, body: &Vec<Vec<char>>) -> (r: Node)
    ensures
        r.view() == comment_node(head@, lines_view(body@)),
{
    let mut children: Vec<Node> = Vec::new();
    if head.len() > 0 {
        let mut v = slice_to_vec(head, 0, head.len());
        assert(v@ =~= head@);
        v.push('\n');
        children.push(Node::Text(string_of(v.as_slice())));
        assert(nodes_view(children@) =~= seq![text_view(head@.push('\n'))]);
    } else {
        assert(nodes_view(children@) =~= Seq::<crate::elements::NodeView>::empty());
    }
    let e = trim_blank_end_exec(body, 0, body.len());
    let rest = literal_lines_exec(&sub_lines(body, 0, e));
    let ghost first = nodes_view(children@);
    let mut rest_m = rest;
    children.append(&mut rest_m);
    assert(nodes_view(children@) =~= first + nodes_view(rest@));
    assert(lines_view(body@).subrange(0, e as int) == lines_view(body@).subrange(0, trim_blank_end(lines_view(body@), 0, lines_view(body@).len() as int)));
    Node::element(Elem::assemble(ElementType::Comment, Extra::Space(FixedSpace::Preserve), children))
}

} // verus!

verus! {

proof fn lemma_digits_value_grows(t: Seq<char>, from: int, i: int, j: int)
    requires
        from <= i <= j <= t.len(),
        forall|k: int| from <= k < j ==> is_digit(#[trigger] t[k]),
    ensures
        0 <= digits_value(t, from, i) <= digits_value(t, from, j),
    decreases j - i,
{
    if i < j {
        lemma_digits_value_grows(t, from, i, j - 1);
        assert(is_digit(t[j - 1]));
    } else {
        lemma_digits_value_nonneg(t, from, i);
    }
}

proof fn lemma_digits_value_nonneg(t: Seq<char>, from: int, i: int)
    requires
        from <= i <= t.len(),
        forall|k: int| from <= k < i ==> is_digit(#[trigger] t[k]),
    ensures
        0 <= digits_value(t, from, i),
    decreases i - from,
{
    if i > from {
        lemma_digits_value_nonneg(t, from, i - 1);
        assert(is_digit(t[i - 1]));
    }
}

/// Reads a byte: an optional `+`, then decimal digits, at most 255.
pub fn parse_u8_exec(t: &Vec<char>) -> (r: Option<u8>)
    ensures
        r == spec_parse_u8(t@),
{
    let start: usize = if t.len() > 0 && t[0] == '+' {
        1
    } else {
        0
    };
    if start >= t.len() {
        return None;
    }
    let mut acc: u64 = 0;
    let mut i = start;
    while i < t.len()
        invariant
            start <= i <= t@.len(),
            start == (if t@.len() > 0 && t@[0] == '+' { 1int } else { 0int }),
            forall|k: int| start <= k < i ==> is_digit(#[trigger] t@[k]),
            acc == digits_value(t@, start as int, i as int),
            acc <= 255,
        decreases t@.len() - i,
    {
        let c = t[i];
        if !('0' <= c && c <= '9') {
            assert(!is_digit(t@[i as int]));
            return None;
        }
        let d = (c as u32 - '0' as u32) as u64;
        let next = acc * 10 + d;
        assert(next == digits_value(t@, start as int, i + 1));
        if next > 255 {
            proof {
                assert forall|k: int| start <= k < i + 1 implies is_digit(#[trigger] t@[k]) by {}
                if forall|k: int| start <= k < t@.len() ==> is_digit(#[trigger] t@[k]) {
                    lemma_digits_value_grows(t@, start as int, i + 1, t@.len() as int);
                }
            }
            return None;
        }
        acc = next;
        i += 1;
    }
    Some(acc as u8)
}

/// Reads an image's scale: a byte, optionally followed by `%`.
pub fn parse_scale_exec(v: &Vec<char>) -> (r: Option<u8>)
    ensures
        r == spec_parse_scale(v@),
{
    let t = trim_vec(v);
    if t.len() > 0 && t[t.len() - 1] == '%' {
        let cut = slice_to_vec(&t, 0, t.len() - 1);
        assert(cut@ =~= t@.drop_last());
        let t2 = trim_end_vec(&cut);
        parse_u8_exec(&t2)
    } else {
        parse_u8_exec(&t)
    }
}

/// The name and value of an option line `:name: value`.
pub fn option_parts_exec(l: &Vec<char>) -> (r: Option<(Vec<char>, Vec<char>)>)
    ensures
        match r {
            Some((n, v)) => option_parts(l@) == Some((n@, v@)),
            None => option_parts(l@) is None,
        },
{
    if l.len() == 0 || l[0] != ':' {
        return None;
    }
    match index_from_exec_lines(l, 1, ':') {
        Some(c) => if c > 1 {
            let name = slice_to_vec(l, 1, c);
            let rest = slice_to_vec(l, c + 1, l.len());
            Some((name, trim_vec(&rest)))
        } else {
            None
        },
        None => None,
    }
}

/// The first position at or after `k0` that holds `c`.
pub fn index_from_exec_lines(s: &Vec<char>, k0: usize, c: char) -> (r: Option<usize>)
    ensures
        match r {
            Some(k) => index_from(s@, k0 as int, c) == k && k0 <= k < s@.len(),
            None => index_from(s@, k0 as int, c) == -1,
        },
{
    let mut k = k0;
    while k < s.len()
        invariant
            k0 <= k,
            index_from(s@, k0 as int, c) == index_from(s@, k as int, c),
        decreases s@.len() - k,
    {
        if s[k] == c {
            return Some(k);
        }
        k += 1;
    }
    None
}

/// The URL that `Url::parse` makes of a text.
pub fn parsed_url_exec(t: &Vec<char>) -> (r: Option<Url>)
    ensures
        match r {
            Some(u) => parsed_url(t@) == Some(u@),
            None => parsed_url(t@) is None,
        },
{
    let s = string_of(t.as_slice());
    match Url::parse(s.as_str()) {
        Ok(u) => Some(u),
        Err(_) => None,
    }
}

} // verus!

verus! {

fn is_name(v: &Vec<char>, lit: &[char]) -> (r: bool)
    ensures
        r == (v@ == lit@),
{
    crate::text::eq_chars(v.as_slice(), lit)
}

/// Applies one image option.
fn apply_image_option_exec(
    common: CommonAttributes,
    img: a::Image,
    name: &Vec<char>,
    value: &Vec<char>,
) -> (r: Result<(CommonAttributes, a::Image), RstError>)
    ensures
        r matches Err(e) ==> e.from_grammar(),
        match r {
            Ok((c, i)) => apply_image_option(common@, img@, name@, value@) == Some((c@, i@)),
            Err(_) => apply_image_option(common@, img@, name@, value@) is None,
        },
{
    let class = ['c', 'l', 'a', 's', 's'];
    let nm = ['n', 'a', 'm', 'e'];
    let alt = ['a', 'l', 't'];
    let height = ['h', 'e', 'i', 'g', 'h', 't'];
    let width = ['w', 'i', 'd', 't', 'h'];
    let scale = ['s', 'c', 'a', 'l', 'e'];
    let align = ['a', 'l', 'i', 'g', 'n'];
    let target = ['t', 'a', 'r', 'g', 'e', 't'];
    assert(class@ =~= seq!['c', 'l', 'a', 's', 's']);
    assert(nm@ =~= seq!['n', 'a', 'm', 'e']);
    assert(alt@ =~= seq!['a', 'l', 't']);
    assert(height@ =~= seq!['h', 'e', 'i', 'g', 'h', 't']);
    assert(width@ =~= seq!['w', 'i', 'd', 't', 'h']);
    assert(scale@ =~= seq!['s', 'c', 'a', 'l', 'e']);
    assert(align@ =~= seq!['a', 'l', 'i', 'g', 'n']);
    assert(target@ =~= seq!['t', 'a', 'r', 'g', 'e', 't']);
    let vs = string_of(value.as_slice());
    let mut common = common;
    let mut img = img;
    if is_name(name, &class) {
        let ghost before = common@;
        common.classes.push(vs);
        assert(common@.classes =~= before.classes.push(value@));
        Ok((common, img))
    } else if is_name(name, &nm) {
        let ghost before = common@;
        common.names.push(NameToken(vs));
        assert(common@.names =~= before.names.push(value@));
        Ok((common, img))
    } else if is_name(name, &alt) {
        img.alt = Some(vs);
        Ok((common, img))
    } else if is_name(name, &height) {
        match Measure::parse(vs.as_str()) {
            Ok(m) => {
                img.height = Some(m);
                Ok((common, img))
            },
            Err(_) => Err(RstError::InvalidOption(vs)),
        }
    } else if is_name(name, &width) {
        match Measure::parse(vs.as_str()) {
            Ok(m) => {
                img.width = Some(m);
                Ok((common, img))
            },
            Err(_) => Err(RstError::InvalidOption(vs)),
        }
    } else if is_name(name, &scale) {
        match parse_scale_exec(value) {
            Some(x) => {
                img.scale = Some(x);
                Ok((common, img))
            },
            None => Err(RstError::InvalidOption(vs)),
        }
    } else if is_name(name, &align) {
        match AlignHV::parse(vs.as_str()) {
            Ok(x) => {
                img.align = Some(x);
                Ok((common, img))
            },
            Err(_) => Err(RstError::InvalidOption(vs)),
        }
    } else if is_name(name, &target) {
        match parsed_url_exec(value) {
            Some(u) => {
                img.target = Some(u);
                Ok((common, img))
            },
            None => Err(RstError::InvalidUrl(vs)),
        }
    } else {
        Err(RstError::InvalidOption(string_of(name.as_slice())))
    }
}

/// An image element of type `t` showing `uri`, with the options of `body`.
pub fn image_node_exec(t: ElementType, uri: &Vec<char>, body: &Vec<Vec<char>>) -> (r: Result<Node, RstError>)
    requires
        t == ElementType::Image || t == ElementType::ImageInline,
    ensures
        r matches Err(e) ==> e.from_grammar(),
        match r {
            Ok(n) => image_node(t, uri@, lines_view(body@)) == Some(n.view()),
            Err(_) => image_node(t, uri@, lines_view(body@)) is None,
        },
{
    proof {
        reveal(image_node);
    }
    let u = match parsed_url_exec(uri) {
        Some(u) => u,
        None => {
            return Err(RstError::InvalidUrl(string_of(uri.as_slice())));
        },
    };
    let mut img = a::Image::new(u);
    let mut common = CommonAttributes::default();
    let mut k: usize = 0;
    while k < body.len()
        invariant
            k <= body@.len(),
            parsed_url(uri@) is Some,
            image_node(t, uri@, lines_view(body@)) == (match apply_image_options(common@, img@, lines_view(body@), k as int) {
                Some((c2, i2)) => Some(NodeView::Element(ElemView { element_type: t, common: c2, extra: ExtraView::Image(i2), children: Seq::empty() })),
                None => None,
            }),
        decreases body@.len() - k,
    {
        if !is_blank(&body[k]) {
            match option_parts_exec(&body[k]) {
                Some((name, value)) => {
                    match apply_image_option_exec(common, img, &name, &value) {
                        Ok((c2, i2)) => {
                            common = c2;
                            img = i2;
                        },
                        Err(e) => {
                            return Err(e);
                        },
                    }
                },
                None => {
                    return Err(RstError::InvalidOption(string_of(body[k].as_slice())));
                },
            }
        }
        k += 1;
    }
    let e = Elem { element_type: t, common, extra: Extra::Image(img), children: Vec::new() };
    assert(e.view().children =~= Seq::<NodeView>::empty());
    Ok(Node::element(e))
}

} // verus!
