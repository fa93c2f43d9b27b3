//! Writing the HTML that `html` describes.
use vstd::prelude::*;

use super::html::{
    body_state, class_attr, escape_char, escape_html, footnote_children, footnote_items,
    footnote_list, footnote_open, heading, image_html, is_body, is_footnote, join_classes, lit,
    list_kind, literal_close, literal_open, raw_is_html, raw_texts, render_body, render_items,
    render_lines, render_list, render_node, render_plain, simple_tag, then, ListKind, Rendered,
};
use crate::attribute_types::FootnoteType;
use crate::element_categories::{category_has, content_model, Category, ContentModel, ElementType};
use crate::elements::{nodes_view, Elem, Extra, ExtraView, Node, NodeView};
use crate::extra_attributes as a;
use crate::transforms::numbers::decimal_exec;
use crate::transforms::pass1::footnote_label;
use crate::text::{eq_chars, str_to_chars, vec_of};

verus! {

broadcast use crate::elements::group_nodes_view;

/// Why rendering stopped.
#[derive(Debug, Clone, Copy, PartialEq, Eq, Structural)]
pub enum Fault {
    /// A footnote holds something other than body elements after its label.
    Failed,
    /// The tree holds an element that the renderer does not support.
    Unsupported,
}

/// What a rendering result means.
pub open spec fn result_view(r: Result<Vec<char>, Fault>) -> Rendered {
    match r {
        Ok(v) => Rendered::Done(v@),
        Err(Fault::Failed) => Rendered::Failed,
        Err(Fault::Unsupported) => Rendered::Unsupported,
    }
}

/// `a` followed by `b`.
fn join(a: Result<Vec<char>, Fault>, b: Result<Vec<char>, Fault>) -> (r: Result<Vec<char>, Fault>)
    ensures
        result_view(r) == then(result_view(a), result_view(b)),
{
    match a {
        Ok(x) => match b {
            Ok(y) => {
                let mut x = x;
                let mut y = y;
                let ghost vx = x@;
                let ghost vy = y@;
                x.append(&mut y);
                assert(x@ =~= vx + vy);
                Ok(x)
            },
            Err(f) => Err(f),
        },
        Err(f) => Err(f),
    }
}

/// A text as a result.
fn text(s: &[char]) -> (r: Result<Vec<char>, Fault>)
    ensures
        result_view(r) == lit(s@),
{
    Ok(vec_of(s))
}

/// `a`, `b` and `c` one after the other.
fn cat3(a: &[char], b: &Vec<char>, c: &[char]) -> (r: Vec<char>)
    ensures
        r@ == a@ + b@ + c@,
{
    let mut r = vec_of(a);
    let mut m = b.clone();
    let mut z = vec_of(c);
    let ghost va = r@;
    assert(m@ == b@);
    r.append(&mut m);
    let ghost vab = r@;
    r.append(&mut z);
    assert(r@ =~= va + b@ + c@);
    r
}

/// A text with `&`, `<`, `>` and `"` escaped.
pub fn escape_html_exec(t: &str) -> (r: Vec<char>)
    ensures
        r@ == escape_html(t@),
{
    let v = str_to_chars(t);
    let mut r: Vec<char> = Vec::new();
    let mut i: usize = 0;
    assert(v@.subrange(0, 0) =~= Seq::<char>::empty());
    while i < v.len()
        invariant
            i <= v@.len(),
            v@ == t@,
            r@ == escape_html(v@.subrange(0, i as int)),
        decreases v@.len() - i,
    {
        let c = v[i];
        let ghost before = r@;
        assert(v@.subrange(0, i + 1).drop_last() =~= v@.subrange(0, i as int));
        if c == '&' {
            r.push('&'); r.push('a'); r.push('m'); r.push('p'); r.push(';');
        } else if c == '<' {
            r.push('&'); r.push('l'); r.push('t'); r.push(';');
        } else if c == '>' {
            r.push('&'); r.push('g'); r.push('t'); r.push(';');
        } else if c == '"' {
            r.push('&'); r.push('q'); r.push('u'); r.push('o'); r.push('t'); r.push(';');
        } else {
            r.push(c);
        }
        assert(r@ =~= before + escape_char(c));
        i += 1;
    }
    assert(v@.subrange(0, v@.len() as int) =~= v@);
    r
}

/// Class names separated by spaces.
fn join_classes_exec(cs: &Vec<String>) -> (r: Vec<char>)
    ensures
        r@ == join_classes(a::strings_view(cs@)),
{
    let ghost cv = a::strings_view(cs@);
    let mut r: Vec<char> = Vec::new();
    let mut i: usize = 0;
    assert(cv.subrange(0, 0) =~= Seq::<Seq<char>>::empty());
    while i < cs.len()
        invariant
            i <= cs@.len(),
            cv == a::strings_view(cs@),
            r@ == join_classes(cv.subrange(0, i as int)),
        decreases cs@.len() - i,
    {
        let ghost before = r@;
        let ghost sub = cv.subrange(0, i + 1);
        assert(sub.drop_last() =~= cv.subrange(0, i as int));
        let mut c = str_to_chars(cs[i].as_str());
        if i > 0 {
            r.push(' ');
        }
        r.append(&mut c);
        if i == 0 {
            assert(r@ =~= sub[0]);
        } else {
            assert(r@ =~= join_classes(sub.drop_last()) + seq![' '] + sub.last());
        }
        i += 1;
    }
    assert(cv.subrange(0, cs@.len() as int) =~= cv);
    r
}

/// The attribute that lists an element's classes.
fn class_attr_exec(cs: &Vec<String>) -> (r: Vec<char>)
    ensures
        r@ == class_attr(a::strings_view(cs@)),
{
    if cs.len() > 0 {
        let j = join_classes_exec(cs);
        let pre = [' ', 'c', 'l', 'a', 's', 's', '=', '"'];
        let post = ['"'];
        assert(pre@ =~= seq![' ', 'c', 'l', 'a', 's', 's', '=', '"']);
        assert(post@ =~= seq!['"']);
        cat3(&pre, &j, &post)
    } else {
        let r: Vec<char> = Vec::new();
        assert(r@ =~= Seq::<char>::empty());
        r
    }
}

/// The tag of an element that renders as a tag around its children.
fn simple_tag_exec(t: ElementType) -> (r: Option<Vec<char>>)
    ensures
        match r {
            Some(v) => simple_tag(t) == Some(v@),
            None => simple_tag(t) is None,
        },
{
    match t {
        ElementType::Paragraph | ElementType::Compound => {
            let s = ['p'];
            assert(s@ =~= seq!['p']);
            Some(vec_of(&s))
        },
        ElementType::MathBlock | ElementType::Math => {
            let s = ['m', 'a', 't', 'h'];
            assert(s@ =~= seq!['m', 'a', 't', 'h']);
            Some(vec_of(&s))
        },
        ElementType::Rubric | ElementType::FootnoteReference | ElementType::CitationReference | ElementType::TitleReference | ElementType::TargetInline => {
            let s = ['a'];
            assert(s@ =~= seq!['a']);
            Some(vec_of(&s))
        },
        ElementType::Container | ElementType::LineBlock => {
            let s = ['d', 'i', 'v'];
            assert(s@ =~= seq!['d', 'i', 'v']);
            Some(vec_of(&s))
        },
        ElementType::BulletList => {
            let s = ['u', 'l'];
            assert(s@ =~= seq!['u', 'l']);
            Some(vec_of(&s))
        },
        ElementType::EnumeratedList => {
            let s = ['o', 'l'];
            assert(s@ =~= seq!['o', 'l']);
            Some(vec_of(&s))
        },
        ElementType::DefinitionList | ElementType::FieldList => {
            let s = ['d', 'l'];
            assert(s@ =~= seq!['d', 'l']);
            Some(vec_of(&s))
        },
        ElementType::OptionList => {
            let s = ['p', 'r', 'e'];
            assert(s@ =~= seq!['p', 'r', 'e']);
            Some(vec_of(&s))
        },
        ElementType::BlockQuote => {
            let s = ['b', 'l', 'o', 'c', 'k', 'q', 'u', 'o', 't', 'e'];
            assert(s@ =~= seq!['b', 'l', 'o', 'c', 'k', 'q', 'u', 'o', 't', 'e']);
            Some(vec_of(&s))
        },
        ElementType::Admonition | ElementType::Attention | ElementType::Hint | ElementType::Note | ElementType::Caution | ElementType::Danger | ElementType::Error | ElementType::Important | ElementType::Tip | ElementType::Warning | ElementType::Sidebar => {
            let s = ['a', 's', 'i', 'd', 'e'];
            assert(s@ =~= seq!['a', 's', 'i', 'd', 'e']);
            Some(vec_of(&s))
        },
        ElementType::Figure => {
            let s = ['f', 'i', 'g', 'u', 'r', 'e'];
            assert(s@ =~= seq!['f', 'i', 'g', 'u', 'r', 'e']);
            Some(vec_of(&s))
        },
        ElementType::Emphasis => {
            let s = ['e', 'm'];
            assert(s@ =~= seq!['e', 'm']);
            Some(vec_of(&s))
        },
        ElementType::Strong => {
            let s = ['s', 't', 'r', 'o', 'n', 'g'];
            assert(s@ =~= seq!['s', 't', 'r', 'o', 'n', 'g']);
            Some(vec_of(&s))
        },
        ElementType::Literal => {
            let s = ['c', 'o', 'd', 'e'];
            assert(s@ =~= seq!['c', 'o', 'd', 'e']);
            Some(vec_of(&s))
        },
        ElementType::Abbreviation => {
            let s = ['a', 'b', 'b', 'r'];
            assert(s@ =~= seq!['a', 'b', 'b', 'r']);
            Some(vec_of(&s))
        },
        ElementType::Acronym => {
            let s = ['a', 'c', 'r', 'o', 'n', 'y', 'm'];
            assert(s@ =~= seq!['a', 'c', 'r', 'o', 'n', 'y', 'm']);
            Some(vec_of(&s))
        },
        ElementType::Superscript => {
            let s = ['s', 'u', 'p'];
            assert(s@ =~= seq!['s', 'u', 'p']);
            Some(vec_of(&s))
        },
        ElementType::Subscript => {
            let s = ['s', 'u', 'b'];
            assert(s@ =~= seq!['s', 'u', 'b']);
            Some(vec_of(&s))
        },
        ElementType::Inline => {
            let s = ['s', 'p', 'a', 'n'];
            assert(s@ =~= seq!['s', 'p', 'a', 'n']);
            Some(vec_of(&s))
        },
        ElementType::ListItem => {
            let s = ['l', 'i'];
            assert(s@ =~= seq!['l', 'i']);
            Some(vec_of(&s))
        },
        ElementType::Attribution => {
            let s = ['c', 'i', 't', 'e'];
            assert(s@ =~= seq!['c', 'i', 't', 'e']);
            Some(vec_of(&s))
        },
        ElementType::Caption => {
            let s = ['c', 'a', 'p', 't', 'i', 'o', 'n'];
            assert(s@ =~= seq!['c', 'a', 'p', 't', 'i', 'o', 'n']);
            Some(vec_of(&s))
        },
        ElementType::Subtitle => {
            let s = ['h', '2'];
            assert(s@ =~= seq!['h', '2']);
            Some(vec_of(&s))
        },
        _ => None,
    }
}


/// How the children of an element of type `t` are laid out.
fn list_kind_exec(t: ElementType) -> (r: ListKind)
    ensures
        r == list_kind(t),
{
    match content_model(t) {
        ContentModel::Of(Category::StructuralSubElement) => ListKind::Body,
        ContentModel::Of(Category::SubStructure) => ListKind::Body,
        ContentModel::Of(Category::BodyElement) => ListKind::Body,
        ContentModel::Only(ElementType::ListItem) => ListKind::Items,
        _ => ListKind::Plain,
    }
}

/// A list of characters as a result.
fn done(v: Vec<char>) -> (r: Result<Vec<char>, Fault>)
    ensures
        result_view(r) == lit(v@),
{
    Ok(v)
}

/// The start of an image, with its link where it has one.
fn image_html_exec(img: &a::Image) -> (r: Vec<char>)
    ensures
        r@ == image_html(img@),
{
    let mut r: Vec<char> = Vec::new();
    match &img.target {
        Some(u) => {
            let mut e = escape_html_exec(u.as_str());
            let pre = ['<', 'a', ' ', 'h', 'r', 'e', 'f', '=', '"'];
            let post = ['"', '>'];
            assert(pre@ =~= seq!['<', 'a', ' ', 'h', 'r', 'e', 'f', '=', '"']);
            assert(post@ =~= seq!['"', '>']);
            r = cat3(&pre, &e, &post);
        },
        None => {},
    }
    let ghost r0 = r@;
    r.push('<'); r.push('i'); r.push('m'); r.push('g');
    let ghost r1 = r@;
    match &img.alt {
        Some(t) => {
            let e = escape_html_exec(t.as_str());
            let pre = [' ', 'a', 'l', 't', '=', '"'];
            let post = ['"'];
            assert(pre@ =~= seq![' ', 'a', 'l', 't', '=', '"']);
            assert(post@ =~= seq!['"']);
            let mut m = cat3(&pre, &e, &post);
            r.append(&mut m);
        },
        None => {},
    }
    let ghost r2 = r@;
    let e = escape_html_exec(img.uri.as_str());
    let pre = [' ', 's', 'r', 'c', '=', '"'];
    let post = ['"', ' ', '/', '>'];
    assert(pre@ =~= seq![' ', 's', 'r', 'c', '=', '"']);
    assert(post@ =~= seq!['"', ' ', '/', '>']);
    let mut m = cat3(&pre, &e, &post);
    r.append(&mut m);
    if img.target.is_some() {
        r.push('<'); r.push('/'); r.push('a'); r.push('>');
    }
    assert(r@ =~= image_html(img@));
    r
}

/// Whether the first two classes are `code`.
fn is_code_class(cs: &Vec<String>) -> (r: bool)
    ensures
        r == (a::strings_view(cs@).len() > 0 && a::strings_view(cs@)[0] == seq!['c', 'o', 'd', 'e']),
{
    if cs.len() == 0 {
        return false;
    }
    let c = ['c', 'o', 'd', 'e'];
    assert(c@ =~= seq!['c', 'o', 'd', 'e']);
    let v = str_to_chars(cs[0].as_str());
    eq_chars(v.as_slice(), &c)
}

/// The opening tags of a literal block.
fn literal_open_exec(cs: &Vec<String>) -> (r: Vec<char>)
    ensures
        r@ == literal_open(a::strings_view(cs@)),
{
    if is_code_class(cs) {
        if cs.len() > 1 {
            let pre = ['<', 'p', 'r', 'e', '>', '<', 'c', 'o', 'd', 'e', ' ', 'c', 'l', 'a', 's', 's', '=', '"', 'l', 'a', 'n', 'g', 'u', 'a', 'g', 'e', '-'];
            let post = ['"', '>'];
            assert(pre@ =~= seq!['<', 'p', 'r', 'e', '>', '<', 'c', 'o', 'd', 'e', ' ', 'c', 'l', 'a', 's', 's', '=', '"', 'l', 'a', 'n', 'g', 'u', 'a', 'g', 'e', '-']);
            assert(post@ =~= seq!['"', '>']);
            let lang = str_to_chars(cs[1].as_str());
            cat3(&pre, &lang, &post)
        } else {
            let s = ['<', 'p', 'r', 'e', '>', '<', 'c', 'o', 'd', 'e', '>'];
            assert(s@ =~= seq!['<', 'p', 'r', 'e', '>', '<', 'c', 'o', 'd', 'e', '>']);
            vec_of(&s)
        }
    } else {
        let s = ['<', 'p', 'r', 'e', '>'];
        assert(s@ =~= seq!['<', 'p', 'r', 'e', '>']);
        vec_of(&s)
    }
}

fn literal_close_exec(cs: &Vec<String>) -> (r: Vec<char>)
    ensures
        r@ == literal_close(a::strings_view(cs@)),
{
    if is_code_class(cs) {
        let s = ['<', '/', 'c', 'o', 'd', 'e', '>', '<', '/', 'p', 'r', 'e', '>'];
        assert(s@ =~= seq!['<', '/', 'c', 'o', 'd', 'e', '>', '<', '/', 'p', 'r', 'e', '>']);
        vec_of(&s)
    } else {
        let s = ['<', '/', 'p', 'r', 'e', '>'];
        assert(s@ =~= seq!['<', '/', 'p', 'r', 'e', '>']);
        vec_of(&s)
    }
}

/// The tag for a title at section depth `level`.
fn heading_exec(level: usize) -> (r: Vec<char>)
    ensures
        r@ == heading(level as int),
{
    let mut r: Vec<char> = Vec::new();
    r.push('h');
    let mut d = decimal_exec(if level > 6 { 6 } else { level });
    let ghost v0 = r@;
    let ghost vd = d@;
    r.append(&mut d);
    assert(r@ =~= v0 + vd);
    r
}

/// Whether raw output is for HTML.
fn raw_is_html_exec(x: &Extra) -> (r: bool)
    ensures
        r == raw_is_html(x@),
{
    match x {
        Extra::Raw(raw) => {
            let html = ['h', 't', 'm', 'l'];
            assert(html@ =~= seq!['h', 't', 'm', 'l']);
            let mut i: usize = 0;
            while i < raw.format.len()
                invariant
                    i <= raw.format@.len(),
                    html@ == seq!['h', 't', 'm', 'l'],
                    x@ == ExtraView::Raw(raw@),
                    forall|j: int| 0 <= j < i ==> a::names_view(raw.format@)[j] != html@,
                decreases raw.format@.len() - i,
            {
                let v = str_to_chars(raw.format[i].0.as_str());
                if eq_chars(v.as_slice(), &html) {
                    let ghost fv = a::names_view(raw.format@);
                    assert(fv.len() == raw.format@.len());
                    assert(fv[i as int] == raw.format@[i as int]@);
                    assert(fv[i as int] == seq!['h', 't', 'm', 'l']);
                    assert(fv.contains(seq!['h', 't', 'm', 'l']));
                    assert(x@ == ExtraView::Raw(raw@));
                    assert(raw@.format == fv);
                    return true;
                }
                i += 1;
            }
            false
        },
        _ => false,
    }
}

/// The texts of raw output, as they are.
fn raw_texts_exec(v: &Vec<Node>) -> (r: Result<Vec<char>, Fault>)
    ensures
        result_view(r) == raw_texts(nodes_view(v@)),
{
    let ghost vv = nodes_view(v@);
    let mut acc: Result<Vec<char>, Fault> = Ok(Vec::new());
    let mut i: usize = 0;
    assert(vv.subrange(0, 0) =~= Seq::<NodeView>::empty());
    assert(result_view(acc) == lit(Seq::<char>::empty()));
    while i < v.len()
        invariant
            i <= v@.len(),
            vv == nodes_view(v@),
            result_view(acc) == raw_texts(vv.subrange(0, i as int)),
        decreases v@.len() - i,
    {
        assert(vv.subrange(0, i + 1).drop_last() =~= vv.subrange(0, i as int));
        let x: Result<Vec<char>, Fault> = match &v[i] {
            Node::Text(t) => Ok(str_to_chars(t.as_str())),
            Node::Element(_) => Err(Fault::Unsupported),
        };
        acc = join(acc, x);
        i += 1;
    }
    assert(vv.subrange(0, v@.len() as int) =~= vv);
    acc
}

/// The label of a footnote.
fn footnote_label_exec(e: &Elem) -> (r: Option<Vec<char>>)
    ensures
        match r {
            Some(l) => footnote_label(e.view()) == Some(l@),
            None => footnote_label(e.view()) is None,
        },
{
    if e.children.len() == 0 {
        return None;
    }
    assert(e.view().children[0] == e.children@[0].view());
    match &e.children[0] {
        Node::Element(l) => {
            if l.element_type == ElementType::Label && l.children.len() == 1 {
                assert(l.view().children[0] == l.children@[0].view());
                match &l.children[0] {
                    Node::Text(t) => Some(str_to_chars(t.as_str())),
                    _ => None,
                }
            } else {
                None
            }
        },
        _ => None,
    }
}

/// The opening tag of a footnote's list item.
fn footnote_open_exec(label: &Option<Vec<char>>, auto: Option<FootnoteType>) -> (r: Vec<char>)
    ensures
        r@ == footnote_open(match label { Some(l) => Some(l@), None => None }, auto),
{
    match label {
        Some(l) => {
            let pre = ['<', 'l', 'i', ' ', 'v', 'a', 'l', 'u', 'e', '=', '"'];
            assert(pre@ =~= seq!['<', 'l', 'i', ' ', 'v', 'a', 'l', 'u', 'e', '=', '"']);
            match auto {
                Some(FootnoteType::Symbol) => {
                    let post = ['"', ' ', 'c', 'l', 'a', 's', 's', '=', '"', 's', 'y', 'm', 'b', 'o', 'l', '"', '>'];
                    assert(post@ =~= seq!['"', ' ', 'c', 'l', 'a', 's', 's', '=', '"', 's', 'y', 'm', 'b', 'o', 'l', '"', '>']);
                    cat3(&pre, l, &post)
                },
                _ => {
                    let post = ['"', '>'];
                    assert(post@ =~= seq!['"', '>']);
                    cat3(&pre, l, &post)
                },
            }
        },
        None => {
            let s = ['<', 'l', 'i', '>'];
            assert(s@ =~= seq!['<', 'l', 'i', '>']);
            vec_of(&s)
        },
    }
}

/// Whether a node is a body element.
fn is_body_exec(n: &Node) -> (r: bool)
    ensures
        r == is_body(n.view()),
{
    match n {
        Node::Element(e) => category_has(Category::BodyElement, e.element_type),
        Node::Text(_) => false,
    }
}

/// The children of a footnote from `from` on: body elements only.
fn footnote_children_exec(v: &Vec<Node>, from: usize, level: usize) -> (r: Result<Vec<char>, Fault>)
    requires
        from <= v@.len(),
    ensures
        result_view(r) == footnote_children(nodes_view(v@).subrange(from as int, v@.len() as int), level as int),
    decreases v@, 1nat,
{
    let ghost vv = nodes_view(v@).subrange(from as int, v@.len() as int);
    let mut acc: Result<Vec<char>, Fault> = Ok(Vec::new());
    let mut i: usize = from;
    assert(vv.subrange(0, 0) =~= Seq::<NodeView>::empty());
    assert(result_view(acc) == lit(Seq::<char>::empty()));
    while i < v.len()
        invariant
            from <= i <= v@.len(),
            vv == nodes_view(v@).subrange(from as int, v@.len() as int),
            result_view(acc) == footnote_children(vv.subrange(0, i - from), level as int),
        decreases v@.len() - i,
    {
        let ghost sub = vv.subrange(0, i - from + 1);
        assert(sub.subrange(0, sub.len() - 1) =~= vv.subrange(0, i - from));
        assert(sub[sub.len() - 1] == v@[i as int].view());
        let x = if is_body_exec(&v[i]) {
            render_node_exec(&v[i], level)
        } else {
            Err(Fault::Failed)
        };
        acc = join(acc, x);
        i += 1;
    }
    assert(vv.subrange(0, v@.len() - from) =~= vv);
    acc
}

/// A tag with its attributes, the children, and the closing tag.
fn wrap(open: Vec<char>, inner: Result<Vec<char>, Fault>, close: Vec<char>) -> (r: Result<Vec<char>, Fault>)
    ensures
        result_view(r) == then(lit(open@), then(result_view(inner), lit(close@))),
{
    join(done(open), join(inner, done(close)))
}

/// One node as HTML, at section depth `level`.
pub fn render_node_exec(n: &Node, level: usize) -> (r: Result<Vec<char>, Fault>)
    ensures
        result_view(r) == render_node(n.view(), level as int),
    decreases n, 0nat,
{
    match n {
        Node::Text(t) => Ok(escape_html_exec(t.as_str())),
        Node::Element(e) => {
            let t = e.element_type;
            let kind = list_kind_exec(t);
            match simple_tag_exec(t) {
                Some(tag) => {
                    let ca = class_attr_exec(&e.common.classes);
                    let lt = ['<'];
                    let gt = ['>'];
                    let lts = ['<', '/'];
                    assert(lt@ =~= seq!['<']);
                    assert(gt@ =~= seq!['>']);
                    assert(lts@ =~= seq!['<', '/']);
                    let mut open = cat3(&lt, &tag, &[]);
                    let mut rest = cat3(&[], &ca, &gt);
                    let ghost o0 = open@;
                    open.append(&mut rest);
                    assert(open@ =~= seq!['<'] + tag@ + class_attr(e.view().common.classes) + seq!['>']);
                    let close = cat3(&lts, &tag, &gt);
                    return wrap(open, render_list_exec(kind, &e.children, level), close);
                },
                None => {},
            }
            if t == ElementType::Title {
                let h = heading_exec(level);
                let open = cat3(&['<'], &h, &['>']);
                let close = cat3(&['<', '/'], &h, &['>']);
                assert(open@ =~= seq!['<'] + heading(level as int) + seq!['>']);
                assert(close@ =~= seq!['<', '/'] + heading(level as int) + seq!['>']);
                wrap(open, render_list_exec(kind, &e.children, level), close)
            } else if t == ElementType::Section {
                if e.common.ids.len() == 0 {
                    return Err(Fault::Unsupported);
                }
                let id = str_to_chars(e.common.ids[0].0.as_str());
                let pre = ['<', 's', 'e', 'c', 't', 'i', 'o', 'n', ' ', 'i', 'd', '=', '"'];
                let open = cat3(&pre, &id, &['"', '>']);
                assert(open@ =~= seq!['<', 's', 'e', 'c', 't', 'i', 'o', 'n', ' ', 'i', 'd', '=', '"'] + e.view().common.ids[0] + seq!['"', '>']);
                let close = vec_of(&['<', '/', 's', 'e', 'c', 't', 'i', 'o', 'n', '>']);
                assert(close@ =~= seq!['<', '/', 's', 'e', 'c', 't', 'i', 'o', 'n', '>']);
                let inner_level = if level < usize::MAX { level + 1 } else { level };
                wrap(open, render_list_exec(kind, &e.children, inner_level), close)
            } else if t == ElementType::Transition {
                let s = ['<', 'h', 'r', '/', '>'];
                assert(s@ =~= seq!['<', 'h', 'r', '/', '>']);
                text(&s)
            } else if t == ElementType::Table {
                let s = ['<', 't', 'a', 'b', 'l', 'e', '>', '<', '/', 't', 'a', 'b', 'l', 'e', '>'];
                assert(s@ =~= seq!['<', 't', 'a', 'b', 'l', 'e', '>', '<', '/', 't', 'a', 'b', 'l', 'e', '>']);
                text(&s)
            } else if t == ElementType::Image || t == ElementType::ImageInline {
                match &e.extra {
                    Extra::Image(img) => done(image_html_exec(img)),
                    _ => Err(Fault::Unsupported),
                }
            } else if t == ElementType::LiteralBlock {
                let open = literal_open_exec(&e.common.classes);
                let close = literal_close_exec(&e.common.classes);
                wrap(open, render_list_exec(kind, &e.children, level), close)
            } else if t == ElementType::SubstitutionDefinition || t == ElementType::Target {
                let s: [char; 0] = [];
                assert(s@ =~= Seq::<char>::empty());
                text(&s)
            } else if t == ElementType::Comment {
                let open = vec_of(&['<', '!', '-', '-']);
                let close = vec_of(&['-', '-', '>']);
                assert(open@ =~= seq!['<', '!', '-', '-']);
                assert(close@ =~= seq!['-', '-', '>']);
                wrap(open, render_list_exec(kind, &e.children, level), close)
            } else if t == ElementType::Raw {
                if raw_is_html_exec(&e.extra) {
                    raw_texts_exec(&e.children)
                } else {
                    let s: [char; 0] = [];
                    assert(s@ =~= Seq::<char>::empty());
                    text(&s)
                }
            } else if t == ElementType::Footnote {
                let label = footnote_label_exec(e);
                let auto = match &e.extra {
                    Extra::Footnote(f) => f.auto,
                    _ => None,
                };
                let open = footnote_open_exec(&label, auto);
                let from: usize = if label.is_some() { 1 } else { 0 };
                assert(label is None ==> nodes_view(e.children@).subrange(0, e.children@.len() as int) =~= nodes_view(e.children@));
                let close = vec_of(&['<', '/', 'l', 'i', '>']);
                assert(close@ =~= seq!['<', '/', 'l', 'i', '>']);
                wrap(open, footnote_children_exec(&e.children, from, level), close)
            } else if t == ElementType::SystemMessage {
                let open = vec_of(&['<', 'f', 'i', 'g', 'u', 'r', 'e', '>', '<', 'c', 'a', 'p', 't', 'i', 'o', 'n', '>', 'S', 'y', 's', 't', 'e', 'm', ' ', 'M', 'e', 's', 's', 'a', 'g', 'e', '<', '/', 'c', 'a', 'p', 't', 'i', 'o', 'n', '>']);
                let close = vec_of(&['<', '/', 'f', 'i', 'g', 'u', 'r', 'e', '>']);
                assert(open@ =~= seq!['<', 'f', 'i', 'g', 'u', 'r', 'e', '>', '<', 'c', 'a', 'p', 't', 'i', 'o', 'n', '>', 'S', 'y', 's', 't', 'e', 'm', ' ', 'M', 'e', 's', 's', 'a', 'g', 'e', '<', '/', 'c', 'a', 'p', 't', 'i', 'o', 'n', '>']);
                assert(close@ =~= seq!['<', '/', 'f', 'i', 'g', 'u', 'r', 'e', '>']);
                wrap(open, render_list_exec(kind, &e.children, level), close)
            } else if t == ElementType::Reference {
                let href: Vec<char> = match &e.extra {
                    Extra::Reference(r) => match &r.refuri {
                        Some(u) => {
                            let esc = escape_html_exec(u.as_str());
                            let h = cat3(&[' ', 'h', 'r', 'e', 'f', '=', '"'], &esc, &['"']);
                            assert(h@ =~= seq![' ', 'h', 'r', 'e', 'f', '=', '"'] + escape_html(u@) + seq!['"']);
                            h
                        },
                        None => Vec::new(),
                    },
                    _ => Vec::new(),
                };
                let open = cat3(&['<', 'a'], &href, &['>']);
                let ghost hv = match e.view().extra {
                    ExtraView::Reference(r) => match r.refuri {
                        Some(u) => seq![' ', 'h', 'r', 'e', 'f', '=', '"'] + escape_html(u) + seq!['"'],
                        None => Seq::<char>::empty(),
                    },
                    _ => Seq::<char>::empty(),
                };
                assert(href@ =~= hv);
                assert(open@ =~= seq!['<', 'a'] + hv + seq!['>']);
                let close = vec_of(&['<', '/', 'a', '>']);
                assert(close@ =~= seq!['<', '/', 'a', '>']);
                wrap(open, render_list_exec(kind, &e.children, level), close)
            } else if t == ElementType::RawInline {
                render_list_exec(kind, &e.children, level)
            } else if t == ElementType::Line {
                let br = ['<', 'b', 'r', '>'];
                assert(br@ =~= seq!['<', 'b', 'r', '>']);
                join(render_list_exec(kind, &e.children, level), text(&br))
            } else {
                Err(Fault::Unsupported)
            }
        },
    }
}

/// Nodes one after the other.
fn render_plain_exec(v: &Vec<Node>, level: usize) -> (r: Result<Vec<char>, Fault>)
    ensures
        result_view(r) == render_plain(nodes_view(v@), level as int),
    decreases v@, 1nat,
{
    let ghost vv = nodes_view(v@);
    let mut acc: Result<Vec<char>, Fault> = Ok(Vec::new());
    let mut i: usize = 0;
    assert(vv.subrange(0, 0) =~= Seq::<NodeView>::empty());
    assert(result_view(acc) == lit(Seq::<char>::empty()));
    while i < v.len()
        invariant
            i <= v@.len(),
            vv == nodes_view(v@),
            result_view(acc) == render_plain(vv.subrange(0, i as int), level as int),
        decreases v@.len() - i,
    {
        let ghost sub = vv.subrange(0, i + 1);
        assert(sub.subrange(0, sub.len() - 1) =~= vv.subrange(0, i as int));
        let x = render_node_exec(&v[i], level);
        acc = join(acc, x);
        i += 1;
    }
    assert(vv.subrange(0, v@.len() as int) =~= vv);
    acc
}

/// Nodes each followed by a line feed.
fn render_lines_exec(v: &Vec<Node>, level: usize) -> (r: Result<Vec<char>, Fault>)
    ensures
        result_view(r) == render_lines(nodes_view(v@), level as int),
    decreases v@, 1nat,
{
    let ghost vv = nodes_view(v@);
    let mut acc: Result<Vec<char>, Fault> = Ok(Vec::new());
    let mut i: usize = 0;
    assert(vv.subrange(0, 0) =~= Seq::<NodeView>::empty());
    assert(result_view(acc) == lit(Seq::<char>::empty()));
    while i < v.len()
        invariant
            i <= v@.len(),
            vv == nodes_view(v@),
            result_view(acc) == render_lines(vv.subrange(0, i as int), level as int),
        decreases v@.len() - i,
    {
        let ghost sub = vv.subrange(0, i + 1);
        assert(sub.subrange(0, sub.len() - 1) =~= vv.subrange(0, i as int));
        let x = render_node_exec(&v[i], level);
        let nl = ['\n'];
        assert(nl@ =~= seq!['\n']);
        acc = join(acc, join(x, text(&nl)));
        i += 1;
    }
    assert(vv.subrange(0, v@.len() as int) =~= vv);
    acc
}

/// List items, one per line where there are several.
fn render_items_exec(v: &Vec<Node>, level: usize) -> (r: Result<Vec<char>, Fault>)
    ensures
        result_view(r) == render_items(nodes_view(v@), level as int),
    decreases v@, 2nat,
{
    if v.len() > 1 {
        let nl = ['\n'];
        assert(nl@ =~= seq!['\n']);
        join(text(&nl), render_lines_exec(v, level))
    } else {
        render_plain_exec(v, level)
    }
}

/// A copy of a rendering result.
fn copy_result(r: &Result<Vec<char>, Fault>) -> (c: Result<Vec<char>, Fault>)
    ensures
        result_view(c) == result_view(*r),
{
    match r {
        Ok(v) => {
            let c = v.clone();
            assert(c@ == v@);
            Ok(c)
        },
        Err(f) => Err(*f),
    }
}

/// The views of gathered footnotes.
pub open spec fn results_view(v: Seq<Result<Vec<char>, Fault>>) -> Seq<Rendered> {
    v.map_values(|r: Result<Vec<char>, Fault>| result_view(r))
}

/// Gathered footnotes as an ordered list.
fn footnote_list_exec(fs: &Vec<Result<Vec<char>, Fault>>) -> (r: Result<Vec<char>, Fault>)
    ensures
        result_view(r) == footnote_list(results_view(fs@)),
{
    let ghost fv = results_view(fs@);
    if fs.len() == 0 {
        let s: [char; 0] = [];
        assert(s@ =~= Seq::<char>::empty());
        return text(&s);
    }
    let mut acc: Result<Vec<char>, Fault> = Ok(Vec::new());
    let mut i: usize = 0;
    assert(fv.subrange(0, 0) =~= Seq::<Rendered>::empty());
    assert(result_view(acc) == lit(Seq::<char>::empty()));
    while i < fs.len()
        invariant
            i <= fs@.len(),
            fv == results_view(fs@),
            result_view(acc) == footnote_items(fv.subrange(0, i as int)),
        decreases fs@.len() - i,
    {
        assert(fv.subrange(0, i + 1).drop_last() =~= fv.subrange(0, i as int));
        let nl = ['\n'];
        assert(nl@ =~= seq!['\n']);
        acc = join(acc, join(copy_result(&fs[i]), text(&nl)));
        i += 1;
    }
    assert(fv.subrange(0, fs@.len() as int) =~= fv);
    let open = vec_of(&['<', 'o', 'l', ' ', 'c', 'l', 'a', 's', 's', '=', '"', 'f', 'o', 'o', 't', 'n', 'o', 't', 'e', 's', '"', '>', '\n']);
    let close = vec_of(&['<', '/', 'o', 'l', '>', '\n']);
    assert(open@ =~= seq!['<', 'o', 'l', ' ', 'c', 'l', 'a', 's', 's', '=', '"', 'f', 'o', 'o', 't', 'n', 'o', 't', 'e', 's', '"', '>', '\n']);
    assert(close@ =~= seq!['<', '/', 'o', 'l', '>', '\n']);
    wrap(open, acc, close)
}

/// Whether a node is a footnote.
fn is_footnote_exec(n: &Node) -> (r: bool)
    ensures
        r == is_footnote(n.view()),
{
    match n {
        Node::Element(e) => e.element_type == ElementType::Footnote,
        Node::Text(_) => false,
    }
}

/// Body elements, one per line where there are several, footnotes gathered into lists.
pub(crate) fn render_body_exec(v: &Vec<Node>, level: usize) -> (r: Result<Vec<char>, Fault>)
    ensures
        result_view(r) == render_body(nodes_view(v@), level as int),
    decreases v@, 2nat,
{
    let ghost vv = nodes_view(v@);
    let many = v.len() > 1;
    let sep: Vec<char> = if many {
        let mut s: Vec<char> = Vec::new();
        s.push('\n');
        s
    } else {
        Vec::new()
    };
    assert(sep@ =~= (if many { seq!['\n'] } else { Seq::<char>::empty() }));
    let mut acc: Result<Vec<char>, Fault> = Ok(sep.clone());
    let mut fs: Vec<Result<Vec<char>, Fault>> = Vec::new();
    let mut i: usize = 0;
    assert(vv.subrange(0, 0) =~= Seq::<NodeView>::empty());
    assert(results_view(fs@) =~= Seq::<Rendered>::empty());
    while i < v.len()
        invariant
            i <= v@.len(),
            vv == nodes_view(v@),
            many == (vv.len() > 1),
            sep@ == (if many { seq!['\n'] } else { Seq::<char>::empty() }),
            (result_view(acc), results_view(fs@)) == body_state(vv.subrange(0, i as int), level as int, many),
        decreases v@.len() - i,
    {
        let ghost sub = vv.subrange(0, i + 1);
        assert(sub.subrange(0, sub.len() - 1) =~= vv.subrange(0, i as int));
        assert(sub[sub.len() - 1] == v@[i as int].view());
        if is_footnote_exec(&v[i]) {
            let x = render_node_exec(&v[i], level);
            let ghost before = results_view(fs@);
            fs.push(x);
            assert(results_view(fs@) =~= before.push(result_view(x)));
        } else {
            let flushed = footnote_list_exec(&fs);
            let x = render_node_exec(&v[i], level);
            acc = join(acc, join(flushed, join(x, done(sep.clone()))));
        }
        i += 1;
    }
    assert(vv.subrange(0, v@.len() as int) =~= vv);
    join(acc, footnote_list_exec(&fs))
}

/// Children laid out as their parent's type asks.
fn render_list_exec(kind: ListKind, v: &Vec<Node>, level: usize) -> (r: Result<Vec<char>, Fault>)
    ensures
        result_view(r) == render_list(kind, nodes_view(v@), level as int),
    decreases v@, 3nat,
{
    match kind {
        ListKind::Body => render_body_exec(v, level),
        ListKind::Items => render_items_exec(v, level),
        ListKind::Plain => render_plain_exec(v, level),
    }
}

} // verus!
