//! Rendering a document tree as HTML.
use vstd::prelude::*;

use crate::element_categories::{spec_category_has, spec_content_model, Category, ContentModel, ElementType};
use crate::elements::{ElemView, ExtraView, NodeView};
use crate::extra_attributes as a;
use crate::transforms::numbers::decimal;
use crate::transforms::pass1::{footnote_auto, footnote_label, sat_inc};
use crate::attribute_types::FootnoteType;


verus! {

broadcast use crate::elements::group_nodes_view;

/// What rendering gives: the HTML text; a failure, where a footnote holds something other
/// than body elements after its label; or nothing, where the tree holds an element that
/// the renderer does not support.
pub enum Rendered {
    Done(Seq<char>),
    Failed,
    Unsupported,
}

/// `a`, then `b` where `a` succeeded.
pub open spec fn then(a: Rendered, b: Rendered) -> Rendered {
    match a {
        Rendered::Done(x) => match b {
            Rendered::Done(y) => Rendered::Done(x + y),
            other => other,
        },
        other => other,
    }
}

pub open spec fn lit(s: Seq<char>) -> Rendered {
    Rendered::Done(s)
}

/// How the children of an element are laid out.
#[derive(Clone, Copy, PartialEq, Eq, Structural)]
pub enum ListKind {
    /// Body elements, one per line where there are several, footnotes gathered into lists.
    Body,
    /// List items, one per line where there are several.
    Items,
    /// One after the other.
    Plain,
}

pub open spec fn list_kind(t: ElementType) -> ListKind {
    match spec_content_model(t) {
        ContentModel::Of(Category::StructuralSubElement) => ListKind::Body,
        ContentModel::Of(Category::SubStructure) => ListKind::Body,
        ContentModel::Of(Category::BodyElement) => ListKind::Body,
        ContentModel::Only(ElementType::ListItem) => ListKind::Items,
        _ => ListKind::Plain,
    }
}

/// A character as HTML text.
pub open spec fn escape_char(c: char) -> Seq<char> {
    if c == '&' {
        seq!['&', 'a', 'm', 'p', ';']
    } else if c == '<' {
        seq!['&', 'l', 't', ';']
    } else if c == '>' {
        seq!['&', 'g', 't', ';']
    } else if c == '"' {
        seq!['&', 'q', 'u', 'o', 't', ';']
    } else {
        seq![c]
    }
}

/// A text with `&`, `<`, `>` and `"` escaped.
pub open spec fn escape_html(t: Seq<char>) -> Seq<char>
    decreases t.len(),
{
    if t.len() == 0 {
        Seq::empty()
    } else {
        escape_html(t.drop_last()) + escape_char(t.last())
    }
}

/// Whether a character is one that HTML text escapes.
pub open spec fn html_special(c: char) -> bool {
    c == '&' || c == '<' || c == '>' || c == '"'
}

/// Escaped text holds no `<`, `>` or `"`: it can neither open a tag nor end an
/// attribute's value.
pub proof fn law_escaped_text_is_inert(t: Seq<char>)
    ensures
        forall|i: int| 0 <= i < escape_html(t).len() ==> {
            &&& escape_html(t)[i] != '<'
            &&& escape_html(t)[i] != '>'
            &&& escape_html(t)[i] != '"'
        },
    decreases t.len(),
{
    if t.len() > 0 {
        law_escaped_text_is_inert(t.drop_last());
        let a = escape_html(t.drop_last());
        let b = escape_char(t.last());
        assert forall|i: int| 0 <= i < (a + b).len() implies {
            &&& (a + b)[i] != '<'
            &&& (a + b)[i] != '>'
            &&& (a + b)[i] != '"'
        } by {
            if i >= a.len() {
                assert((a + b)[i] == b[i - a.len()]);
            } else {
                assert((a + b)[i] == a[i]);
            }
        }
    }
}

/// Text without `&`, `<`, `>` and `"` is written as it is.
pub proof fn law_plain_text_unchanged(t: Seq<char>)
    requires
        forall|i: int| 0 <= i < t.len() ==> !html_special(#[trigger] t[i]),
    ensures
        escape_html(t) == t,
    decreases t.len(),
{
    if t.len() > 0 {
        assert(!html_special(t[t.len() - 1]));
        law_plain_text_unchanged(t.drop_last());
        assert(t.drop_last().push(t.last()) =~= t);
    }
}

/// Escaping text piece by piece gives what escaping it whole gives.
pub proof fn law_escape_concatenates(a: Seq<char>, b: Seq<char>)
    ensures
        escape_html(a + b) == escape_html(a) + escape_html(b),
    decreases b.len(),
{
    if b.len() == 0 {
        assert(a + b =~= a);
        assert(escape_html(a) + escape_html(b) =~= escape_html(a));
    } else {
        law_escape_concatenates(a, b.drop_last());
        assert((a + b).drop_last() =~= a + b.drop_last());
        assert((a + b).last() == b.last());
        assert(escape_html(a) + (escape_html(b.drop_last()) + escape_char(b.last()))
            =~= (escape_html(a) + escape_html(b.drop_last())) + escape_char(b.last()));
    }
}

/// A text with the entities `&amp;`, `&lt;`, `&gt;` and `&quot;` turned back into the
/// characters they stand for, read from the front.
pub open spec fn unescape_html(t: Seq<char>) -> Seq<char>
    decreases t.len(),
{
    if t.len() == 0 {
        Seq::empty()
    } else if t.len() >= 5 && t.subrange(0, 5) == seq!['&', 'a', 'm', 'p', ';'] {
        seq!['&'] + unescape_html(t.subrange(5, t.len() as int))
    } else if t.len() >= 4 && t.subrange(0, 4) == seq!['&', 'l', 't', ';'] {
        seq!['<'] + unescape_html(t.subrange(4, t.len() as int))
    } else if t.len() >= 4 && t.subrange(0, 4) == seq!['&', 'g', 't', ';'] {
        seq!['>'] + unescape_html(t.subrange(4, t.len() as int))
    } else if t.len() >= 6 && t.subrange(0, 6) == seq!['&', 'q', 'u', 'o', 't', ';'] {
        seq!['"'] + unescape_html(t.subrange(6, t.len() as int))
    } else {
        seq![t[0]] + unescape_html(t.subrange(1, t.len() as int))
    }
}

proof fn lemma_unescape_char(c: char, x: Seq<char>)
    ensures
        unescape_html(escape_char(c) + x) == seq![c] + unescape_html(x),
{
    let e = escape_char(c);
    let t = e + x;
    assert(t.subrange(e.len() as int, t.len() as int) =~= x);
    if c == '&' {
        assert(t.subrange(0, 5) =~= seq!['&', 'a', 'm', 'p', ';']);
    } else if c == '<' {
        assert(t.subrange(0, 4) =~= seq!['&', 'l', 't', ';']);
        if t.len() >= 5 {
            assert(t[1] == e[1]);
            assert(t.subrange(0, 5)[1] != seq!['&', 'a', 'm', 'p', ';'][1]);
        }
    } else if c == '>' {
        assert(t.subrange(0, 4) =~= seq!['&', 'g', 't', ';']);
        if t.len() >= 5 {
            assert(t[1] == e[1]);
            assert(t.subrange(0, 5)[1] != seq!['&', 'a', 'm', 'p', ';'][1]);
        }
        assert(t[1] == e[1]);
        assert(t.subrange(0, 4)[1] != seq!['&', 'l', 't', ';'][1]);
    } else if c == '"' {
        assert(t.subrange(0, 6) =~= seq!['&', 'q', 'u', 'o', 't', ';']);
        if t.len() >= 5 {
            assert(t[1] == e[1]);
            assert(t.subrange(0, 5)[1] != seq!['&', 'a', 'm', 'p', ';'][1]);
        }
        assert(t[1] == e[1]);
        assert(t.subrange(0, 4)[1] != seq!['&', 'l', 't', ';'][1]);
        assert(t.subrange(0, 4)[1] != seq!['&', 'g', 't', ';'][1]);
    } else {
        assert(t[0] == c);
        if t.len() >= 5 {
            assert(t.subrange(0, 5)[0] != seq!['&', 'a', 'm', 'p', ';'][0]);
        }
        if t.len() >= 4 {
            assert(t.subrange(0, 4)[0] != seq!['&', 'l', 't', ';'][0]);
            assert(t.subrange(0, 4)[0] != seq!['&', 'g', 't', ';'][0]);
        }
        if t.len() >= 6 {
            assert(t.subrange(0, 6)[0] != seq!['&', 'q', 'u', 'o', 't', ';'][0]);
        }
    }
}

/// Turning the entities of escaped text back into characters gives the text.
pub proof fn law_unescape_undoes_escape(t: Seq<char>)
    ensures
        unescape_html(escape_html(t)) == t,
    decreases t.len(),
{
    if t.len() > 0 {
        let rest = t.subrange(1, t.len() as int);
        law_unescape_undoes_escape(rest);
        law_escape_concatenates(seq![t[0]], rest);
        assert(seq![t[0]] + rest =~= t);
        assert(seq![t[0]].drop_last() =~= Seq::<char>::empty());
        assert(escape_html(Seq::<char>::empty()) == Seq::<char>::empty());
        assert(escape_html(seq![t[0]]) =~= escape_char(t[0]));
        lemma_unescape_char(t[0], escape_html(rest));
    }
}

/// Class names separated by spaces.
pub open spec fn join_classes(cs: Seq<Seq<char>>) -> Seq<char>
    decreases cs.len(),
{
    if cs.len() == 0 {
        Seq::empty()
    } else if cs.len() == 1 {
        cs[0]
    } else {
        join_classes(cs.drop_last()) + seq![' '] + cs.last()
    }
}

/// The attribute that lists an element's classes, where it has any.
pub open spec fn class_attr(cs: Seq<Seq<char>>) -> Seq<char> {
    if cs.len() > 0 {
        seq![' ', 'c', 'l', 'a', 's', 's', '=', '"'] + join_classes(cs) + seq!['"']
    } else {
        Seq::empty()
    }
}

/// The tag of an element that renders as a tag around its children.
pub open spec fn simple_tag(t: ElementType) -> Option<Seq<char>> {
    match t {
        ElementType::Paragraph | ElementType::Compound => Some(seq!['p']),
        ElementType::MathBlock | ElementType::Math => Some(seq!['m', 'a', 't', 'h']),
        ElementType::Rubric | ElementType::FootnoteReference | ElementType::CitationReference
        | ElementType::TitleReference | ElementType::TargetInline => Some(seq!['a']),
        ElementType::Container | ElementType::LineBlock => Some(seq!['d', 'i', 'v']),
        ElementType::BulletList => Some(seq!['u', 'l']),
        ElementType::EnumeratedList => Some(seq!['o', 'l']),
        ElementType::DefinitionList | ElementType::FieldList => Some(seq!['d', 'l']),
        ElementType::OptionList => Some(seq!['p', 'r', 'e']),
        ElementType::BlockQuote => Some(seq!['b', 'l', 'o', 'c', 'k', 'q', 'u', 'o', 't', 'e']),
        ElementType::Admonition | ElementType::Attention | ElementType::Hint | ElementType::Note
        | ElementType::Caution | ElementType::Danger | ElementType::Error | ElementType::Important
        | ElementType::Tip | ElementType::Warning | ElementType::Sidebar => Some(seq!['a', 's', 'i', 'd', 'e']),
        ElementType::Figure => Some(seq!['f', 'i', 'g', 'u', 'r', 'e']),
        ElementType::Emphasis => Some(seq!['e', 'm']),
        ElementType::Strong => Some(seq!['s', 't', 'r', 'o', 'n', 'g']),
        ElementType::Literal => Some(seq!['c', 'o', 'd', 'e']),
        ElementType::Abbreviation => Some(seq!['a', 'b', 'b', 'r']),
        ElementType::Acronym => Some(seq!['a', 'c', 'r', 'o', 'n', 'y', 'm']),
        ElementType::Superscript => Some(seq!['s', 'u', 'p']),
        ElementType::Subscript => Some(seq!['s', 'u', 'b']),
        ElementType::Inline => Some(seq!['s', 'p', 'a', 'n']),
        ElementType::ListItem => Some(seq!['l', 'i']),
        ElementType::Attribution => Some(seq!['c', 'i', 't', 'e']),
        ElementType::Caption => Some(seq!['c', 'a', 'p', 't', 'i', 'o', 'n']),
        ElementType::Subtitle => Some(seq!['h', '2']),
        _ => None,
    }
}

/// The opening tag of a footnote's list item.
pub open spec fn footnote_open(label: Option<Seq<char>>, auto: Option<FootnoteType>) -> Seq<char> {
    match label {
        Some(l) => if auto == Some(FootnoteType::Symbol) {
            seq!['<', 'l', 'i', ' ', 'v', 'a', 'l', 'u', 'e', '=', '"'] + l + seq!['"', ' ', 'c', 'l', 'a', 's', 's', '=', '"', 's', 'y', 'm', 'b', 'o', 'l', '"', '>']
        } else {
            seq!['<', 'l', 'i', ' ', 'v', 'a', 'l', 'u', 'e', '=', '"'] + l + seq!['"', '>']
        },
        None => seq!['<', 'l', 'i', '>'],
    }
}

/// Whether a node is a body element.
pub open spec fn is_body(n: NodeView) -> bool {
    n is Element && spec_category_has(Category::BodyElement, n->Element_0.element_type)
}

pub open spec fn is_footnote(n: NodeView) -> bool {
    n is Element && n->Element_0.element_type == ElementType::Footnote
}

/// The start of an image, with its link where it has one.
pub open spec fn image_html(img: a::ImageView) -> Seq<char> {
    let link_open = match img.target {
        Some(u) => seq!['<', 'a', ' ', 'h', 'r', 'e', 'f', '=', '"'] + escape_html(u) + seq!['"', '>'],
        None => Seq::empty(),
    };
    let alt = match img.alt {
        Some(t) => seq![' ', 'a', 'l', 't', '=', '"'] + escape_html(t) + seq!['"'],
        None => Seq::empty(),
    };
    let link_close = if img.target is Some {
        seq!['<', '/', 'a', '>']
    } else {
        Seq::empty()
    };
    link_open + seq!['<', 'i', 'm', 'g'] + alt + seq![' ', 's', 'r', 'c', '=', '"'] + escape_html(img.uri)
        + seq!['"', ' ', '/', '>'] + link_close
}

/// The opening tags of a literal block: with a `code` tag where its first class is `code`,
/// naming the language where a second class gives one.
pub open spec fn literal_open(cs: Seq<Seq<char>>) -> Seq<char> {
    if cs.len() > 0 && cs[0] == seq!['c', 'o', 'd', 'e'] {
        if cs.len() > 1 {
            seq!['<', 'p', 'r', 'e', '>', '<', 'c', 'o', 'd', 'e', ' ', 'c', 'l', 'a', 's', 's', '=', '"', 'l', 'a', 'n', 'g', 'u', 'a', 'g', 'e', '-']
                + cs[1] + seq!['"', '>']
        } else {
            seq!['<', 'p', 'r', 'e', '>', '<', 'c', 'o', 'd', 'e', '>']
        }
    } else {
        seq!['<', 'p', 'r', 'e', '>']
    }
}

pub open spec fn literal_close(cs: Seq<Seq<char>>) -> Seq<char> {
    if cs.len() > 0 && cs[0] == seq!['c', 'o', 'd', 'e'] {
        seq!['<', '/', 'c', 'o', 'd', 'e', '>', '<', '/', 'p', 'r', 'e', '>']
    } else {
        seq!['<', '/', 'p', 'r', 'e', '>']
    }
}

/// The tag for a title at section depth `level`.
pub open spec fn heading(level: int) -> Seq<char> {
    seq!['h'] + decimal((if level > 6 { 6 } else { level }) as nat)
}

/// A heading names its level in decimal, the levels from 1 to 6 each their own: reading
/// back the digits after the `h` gives the level.
pub proof fn law_heading_names_level(level: int)
    requires
        1 <= level <= 6,
    ensures
        heading(level)[0] == 'h',
        crate::transforms::numbers::label_number(heading(level).subrange(1, heading(level).len() as int))
            == crate::transforms::numbers::LabelNumber::Number(level as nat),
{
    crate::transforms::numbers::law_label_reads_back(level as nat);
    assert(heading(level).subrange(1, heading(level).len() as int) =~= decimal(level as nat));
}

/// Whether raw output is for HTML.
pub open spec fn raw_is_html(x: ExtraView) -> bool {
    match x {
        ExtraView::Raw(r) => r.format.contains(seq!['h', 't', 'm', 'l']),
        _ => false,
    }
}

/// One node as HTML, at section depth `level`.
pub open spec fn render_node(n: NodeView, level: int) -> Rendered
    decreases n, 0nat,
{
    match n {
        NodeView::Text(t) => lit(escape_html(t)),
        NodeView::Element(e) => {
            let t = e.element_type;
            if simple_tag(t) is Some {
                let tag = simple_tag(t).unwrap();
                then(
                    lit(seq!['<'] + tag + class_attr(e.common.classes) + seq!['>']),
                    then(render_list(list_kind(t), e.children, level), lit(seq!['<', '/'] + tag + seq!['>'])),
                )
            } else if t == ElementType::Title {
                then(
                    lit(seq!['<'] + heading(level) + seq!['>']),
                    then(render_list(list_kind(t), e.children, level), lit(seq!['<', '/'] + heading(level) + seq!['>'])),
                )
            } else if t == ElementType::Section {
                if e.common.ids.len() == 0 {
                    Rendered::Unsupported
                } else {
                    then(
                        lit(seq!['<', 's', 'e', 'c', 't', 'i', 'o', 'n', ' ', 'i', 'd', '=', '"'] + e.common.ids[0] + seq!['"', '>']),
                        then(
                            render_list(list_kind(t), e.children, sat_inc(level)),
                            lit(seq!['<', '/', 's', 'e', 'c', 't', 'i', 'o', 'n', '>']),
                        ),
                    )
                }
            } else if t == ElementType::Transition {
                lit(seq!['<', 'h', 'r', '/', '>'])
            } else if t == ElementType::Table {
                lit(seq!['<', 't', 'a', 'b', 'l', 'e', '>', '<', '/', 't', 'a', 'b', 'l', 'e', '>'])
            } else if t == ElementType::Image || t == ElementType::ImageInline {
                match e.extra {
                    ExtraView::Image(img) => lit(image_html(img)),
                    _ => Rendered::Unsupported,
                }
            } else if t == ElementType::LiteralBlock {
                then(
                    lit(literal_open(e.common.classes)),
                    then(render_list(list_kind(t), e.children, level), lit(literal_close(e.common.classes))),
                )
            } else if t == ElementType::SubstitutionDefinition || t == ElementType::Target {
                lit(Seq::empty())
            } else if t == ElementType::Comment {
                then(
                    lit(seq!['<', '!', '-', '-']),
                    then(render_list(list_kind(t), e.children, level), lit(seq!['-', '-', '>'])),
                )
            } else if t == ElementType::Raw {
                if raw_is_html(e.extra) {
                    raw_texts(e.children)
                } else {
                    lit(Seq::empty())
                }
            } else if t == ElementType::Footnote {
                let label = footnote_label(e);
                let rest = if label is Some {
                    e.children.subrange(1, e.children.len() as int)
                } else {
                    e.children
                };
                then(
                    lit(footnote_open(label, footnote_auto(e))),
                    then(footnote_children(rest, level), lit(seq!['<', '/', 'l', 'i', '>'])),
                )
            } else if t == ElementType::SystemMessage {
                then(
                    lit(seq!['<', 'f', 'i', 'g', 'u', 'r', 'e', '>', '<', 'c', 'a', 'p', 't', 'i', 'o', 'n', '>', 'S', 'y', 's', 't', 'e', 'm', ' ', 'M', 'e', 's', 's', 'a', 'g', 'e', '<', '/', 'c', 'a', 'p', 't', 'i', 'o', 'n', '>']),
                    then(render_list(list_kind(t), e.children, level), lit(seq!['<', '/', 'f', 'i', 'g', 'u', 'r', 'e', '>'])),
                )
            } else if t == ElementType::Reference {
                let href = match e.extra {
                    ExtraView::Reference(r) => match r.refuri {
                        Some(u) => seq![' ', 'h', 'r', 'e', 'f', '=', '"'] + escape_html(u) + seq!['"'],
                        None => Seq::empty(),
                    },
                    _ => Seq::empty(),
                };
                then(
                    lit(seq!['<', 'a'] + href + seq!['>']),
                    then(render_list(list_kind(t), e.children, level), lit(seq!['<', '/', 'a', '>'])),
                )
            } else if t == ElementType::RawInline {
                render_list(list_kind(t), e.children, level)
            } else if t == ElementType::Line {
                then(render_list(list_kind(t), e.children, level), lit(seq!['<', 'b', 'r', '>']))
            } else {
                Rendered::Unsupported
            }
        },
    }
}

/// The texts of raw output, as they are.
pub open spec fn raw_texts(ns: Seq<NodeView>) -> Rendered
    decreases ns.len(),
{
    if ns.len() == 0 {
        lit(Seq::empty())
    } else {
        then(
            raw_texts(ns.drop_last()),
            match ns.last() {
                NodeView::Text(t) => lit(t),
                NodeView::Element(_) => Rendered::Unsupported,
            },
        )
    }
}

/// The children of a footnote after its label: body elements only.
pub open spec fn footnote_children(ns: Seq<NodeView>, level: int) -> Rendered
    decreases ns, 1nat,
{
    if ns.len() == 0 {
        lit(Seq::empty())
    } else {
        then(
            footnote_children(ns.subrange(0, ns.len() - 1), level),
            if is_body(ns[ns.len() - 1]) {
                render_node(ns[ns.len() - 1], level)
            } else {
                Rendered::Failed
            },
        )
    }
}

/// Nodes one after the other.
pub open spec fn render_plain(ns: Seq<NodeView>, level: int) -> Rendered
    decreases ns, 1nat,
{
    if ns.len() == 0 {
        lit(Seq::empty())
    } else {
        then(render_plain(ns.subrange(0, ns.len() - 1), level), render_node(ns[ns.len() - 1], level))
    }
}

/// Nodes each followed by a line feed.
pub open spec fn render_lines(ns: Seq<NodeView>, level: int) -> Rendered
    decreases ns, 1nat,
{
    if ns.len() == 0 {
        lit(Seq::empty())
    } else {
        then(
            render_lines(ns.subrange(0, ns.len() - 1), level),
            then(render_node(ns[ns.len() - 1], level), lit(seq!['\n'])),
        )
    }
}

/// Gathered footnotes as an ordered list.
pub open spec fn footnote_list(fs: Seq<Rendered>) -> Rendered {
    if fs.len() == 0 {
        lit(Seq::empty())
    } else {
        then(
            lit(seq!['<', 'o', 'l', ' ', 'c', 'l', 'a', 's', 's', '=', '"', 'f', 'o', 'o', 't', 'n', 'o', 't', 'e', 's', '"', '>', '\n']),
            then(footnote_items(fs), lit(seq!['<', '/', 'o', 'l', '>', '\n'])),
        )
    }
}

pub open spec fn footnote_items(fs: Seq<Rendered>) -> Rendered
    decreases fs.len(),
{
    if fs.len() == 0 {
        lit(Seq::empty())
    } else {
        then(footnote_items(fs.drop_last()), then(fs.last(), lit(seq!['\n'])))
    }
}

/// Body elements so far: the output, and the footnotes met, which every later element
/// writes out again before itself.
pub open spec fn body_state(ns: Seq<NodeView>, level: int, many: bool) -> (Rendered, Seq<Rendered>)
    decreases ns, 1nat,
{
    if ns.len() == 0 {
        (lit(if many { seq!['\n'] } else { Seq::empty() }), Seq::empty())
    } else {
        let prev = body_state(ns.subrange(0, ns.len() - 1), level, many);
        let c = ns[ns.len() - 1];
        if is_footnote(c) {
            (prev.0, prev.1.push(render_node(c, level)))
        } else {
            (
                then(
                    prev.0,
                    then(footnote_list(prev.1), then(render_node(c, level), lit(if many { seq!['\n'] } else { Seq::empty() }))),
                ),
                prev.1,
            )
        }
    }
}

pub open spec fn render_body(ns: Seq<NodeView>, level: int) -> Rendered
    decreases ns, 2nat,
{
    let st = body_state(ns, level, ns.len() > 1);
    then(st.0, footnote_list(st.1))
}

pub open spec fn render_items(ns: Seq<NodeView>, level: int) -> Rendered
    decreases ns, 2nat,
{
    if ns.len() > 1 {
        then(lit(seq!['\n']), render_lines(ns, level))
    } else {
        render_plain(ns, level)
    }
}

/// Children laid out as their parent's type asks.
pub open spec fn render_list(kind: ListKind, ns: Seq<NodeView>, level: int) -> Rendered
    decreases ns, 3nat,
{
    match kind {
        ListKind::Body => render_body(ns, level),
        ListKind::Items => render_items(ns, level),
        ListKind::Plain => render_plain(ns, level),
    }
}

/// A strong element is written between `<strong>` and `</strong>` (the opening tag with its
/// classes), its children rendered in between; it fails or is unsupported exactly where
/// its children are.
pub proof fn law_strong_renders_as_strong(e: ElemView, level: int)
    requires
        e.element_type == ElementType::Strong,
    ensures
        match render_list(list_kind(e.element_type), e.children, level) {
            Rendered::Done(body) => render_node(NodeView::Element(e), level) == Rendered::Done(
                seq!['<', 's', 't', 'r', 'o', 'n', 'g'] + class_attr(e.common.classes) + seq!['>'] + body
                    + seq!['<', '/', 's', 't', 'r', 'o', 'n', 'g', '>'],
            ),
            other => render_node(NodeView::Element(e), level) == other,
        },
{
    lemma_simple_element(e, level);
    let tag = seq!['s', 't', 'r', 'o', 'n', 'g'];
    assert(simple_tag(e.element_type) == Some(tag));
    if let Rendered::Done(body) = render_list(list_kind(e.element_type), e.children, level) {
        let c = class_attr(e.common.classes);
        assert(seq!['<'] + tag + c + seq!['>'] + body + (seq!['<', '/'] + tag + seq!['>'])
            =~= seq!['<', 's', 't', 'r', 'o', 'n', 'g'] + c + seq!['>'] + body + seq!['<', '/', 's', 't', 'r', 'o', 'n', 'g', '>']);
    }
}

/// An emphasis element is written between `<em>` and `</em>` (the opening tag with its
/// classes), its children rendered in between; it fails or is unsupported exactly where
/// its children are.
pub proof fn law_emphasis_renders_as_em(e: ElemView, level: int)
    requires
        e.element_type == ElementType::Emphasis,
    ensures
        match render_list(list_kind(e.element_type), e.children, level) {
            Rendered::Done(body) => render_node(NodeView::Element(e), level) == Rendered::Done(
                seq!['<', 'e', 'm'] + class_attr(e.common.classes) + seq!['>'] + body + seq!['<', '/', 'e', 'm', '>'],
            ),
            other => render_node(NodeView::Element(e), level) == other,
        },
{
    lemma_simple_element(e, level);
    let tag = seq!['e', 'm'];
    assert(simple_tag(e.element_type) == Some(tag));
    if let Rendered::Done(body) = render_list(list_kind(e.element_type), e.children, level) {
        let c = class_attr(e.common.classes);
        assert(seq!['<'] + tag + c + seq!['>'] + body + (seq!['<', '/'] + tag + seq!['>'])
            =~= seq!['<', 'e', 'm'] + c + seq!['>'] + body + seq!['<', '/', 'e', 'm', '>']);
    }
}

/// A literal element is written between `<code>` and `</code>` (the opening tag with its
/// classes), its children rendered in between; it fails or is unsupported exactly where
/// its children are.
pub proof fn law_literal_renders_as_code(e: ElemView, level: int)
    requires
        e.element_type == ElementType::Literal,
    ensures
        match render_list(list_kind(e.element_type), e.children, level) {
            Rendered::Done(body) => render_node(NodeView::Element(e), level) == Rendered::Done(
                seq!['<', 'c', 'o', 'd', 'e'] + class_attr(e.common.classes) + seq!['>'] + body
                    + seq!['<', '/', 'c', 'o', 'd', 'e', '>'],
            ),
            other => render_node(NodeView::Element(e), level) == other,
        },
{
    lemma_simple_element(e, level);
    let tag = seq!['c', 'o', 'd', 'e'];
    assert(simple_tag(e.element_type) == Some(tag));
    if let Rendered::Done(body) = render_list(list_kind(e.element_type), e.children, level) {
        let c = class_attr(e.common.classes);
        assert(seq!['<'] + tag + c + seq!['>'] + body + (seq!['<', '/'] + tag + seq!['>'])
            =~= seq!['<', 'c', 'o', 'd', 'e'] + c + seq!['>'] + body + seq!['<', '/', 'c', 'o', 'd', 'e', '>']);
    }
}

/// Strong, emphasized and literal text are written with tags that differ from each other.
pub proof fn law_inline_tags_differ(t1: ElementType, t2: ElementType)
    requires
        t1 == ElementType::Strong || t1 == ElementType::Emphasis || t1 == ElementType::Literal,
        t2 == ElementType::Strong || t2 == ElementType::Emphasis || t2 == ElementType::Literal,
        t1 != t2,
    ensures
        simple_tag(t1) is Some,
        simple_tag(t2) is Some,
        simple_tag(t1) != simple_tag(t2),
{
    let a = simple_tag(t1).unwrap();
    let b = simple_tag(t2).unwrap();
    if a.len() == b.len() {
        assert(a[0] != b[0] || a[1] != b[1]);
    }
}

proof fn lemma_simple_element(e: ElemView, level: int)
    requires
        simple_tag(e.element_type) is Some,
    ensures
        match render_list(list_kind(e.element_type), e.children, level) {
            Rendered::Done(body) => render_node(NodeView::Element(e), level) == Rendered::Done(
                seq!['<'] + simple_tag(e.element_type).unwrap() + class_attr(e.common.classes) + seq!['>'] + body
                    + (seq!['<', '/'] + simple_tag(e.element_type).unwrap() + seq!['>']),
            ),
            other => render_node(NodeView::Element(e), level) == other,
        },
{
    let tag = simple_tag(e.element_type).unwrap();
    match render_list(list_kind(e.element_type), e.children, level) {
        Rendered::Done(body) => {
            assert((seq!['<'] + tag + class_attr(e.common.classes) + seq!['>']) + (body + (seq!['<', '/'] + tag + seq!['>']))
                =~= seq!['<'] + tag + class_attr(e.common.classes) + seq!['>'] + body + (seq!['<', '/'] + tag + seq!['>']));
        },
        _ => {},
    }
}

} // verus!
