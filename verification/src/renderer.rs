//! Rendering document trees.
pub mod html;
pub mod emit;
pub mod options;

use vstd::prelude::*;

use self::emit::{render_body_exec, result_view, Fault};
use self::html::{lit, render_body, then, Rendered};
use crate::elements::{Document, DocumentView};
use crate::text::{str_to_chars, string_of, vec_of};

verus! {

/// The head of a standalone HTML document.
pub const HEAD: &'static str = "<head>
<meta charset=\"utf-8\">
<meta name=\"color-scheme\" content=\"dark light\">
<meta name=\"viewport\" content=\"width=device-width, initial-scale=1\">
<style>
@counter-style footnote-numeric {
    system: numeric;
    symbols: '0' '1' '2' '3' '4' '5' '6' '7' '8' '9';
    prefix: '[';
    suffix: '] ';
}
@counter-style footnote-symbolic {
    system: symbolic;
    symbols: '*' '\u{2020}' '\u{2021}' '\u{a7}' '\u{b6}' '#' '\u{2660}' '\u{2665}' '\u{2666}' '\u{2663}';
    prefix: '';
    suffix: ' ';
}
.footnote-reference:target,
ol.footnotes > li:target {
    background-color: hsl(60 100% 50% / 0.2);
}
ol.footnotes > li {
    list-style-type: footnote-numeric;
}
ol.footnotes > li.symbol {
    list-style-type: footnote-symbolic;
}
ol.footnotes > li > .backrefs {
    float: left;
    font-size: 0.8em;
}
</style>
</head>";

/// What opens a standalone document, up to its body.
pub open spec fn document_open() -> Seq<char> {
    seq!['<', '!', 'd', 'o', 'c', 't', 'y', 'p', 'e', ' ', 'h', 't', 'm', 'l', '>', '\n', '<', 'h', 't', 'm', 'l', '>', '\n']
        + HEAD@ + seq!['\n', '<', 'b', 'o', 'd', 'y', '>', '\n']
}

/// What closes a standalone document.
pub open spec fn document_close() -> Seq<char> {
    seq!['<', '/', 'b', 'o', 'd', 'y', '>', '\n', '<', '/', 'h', 't', 'm', 'l', '>', '\n']
}

/// A document as HTML: its children, within the page's head and body when `standalone`.
pub open spec fn spec_render_html(d: DocumentView, standalone: bool) -> Rendered {
    if standalone {
        then(lit(document_open()), then(render_body(d.children, 0), lit(document_close())))
    } else {
        render_body(d.children, 0)
    }
}

/// A standalone page is the same rendering wrapped in the page's head and body: it
/// succeeds, fails or is unsupported exactly where the bare rendering does.
pub proof fn law_standalone_wraps(d: DocumentView)
    ensures
        match spec_render_html(d, false) {
            Rendered::Done(s) => spec_render_html(d, true) == Rendered::Done(document_open() + s + document_close()),
            Rendered::Failed => spec_render_html(d, true) is Failed,
            Rendered::Unsupported => spec_render_html(d, true) is Unsupported,
        },
{
    match spec_render_html(d, false) {
        Rendered::Done(s) => {
            assert(document_open() + (s + document_close()) =~= document_open() + s + document_close());
        },
        _ => {},
    }
}

/// Why a document could not be rendered.
#[derive(Debug, Clone, Copy, PartialEq, Eq, Structural)]
pub enum RenderError {
    /// A footnote holds something other than body elements after its label.
    FootnoteLabelNotFirst,
}

impl RenderError {
    /// The message that describes the error.
    pub fn message(&self) -> (r: String)
        ensures
            r@ == seq!['C', 'a', 'n', 'n', 'o', 't', ' ', 'h', 'a', 'v', 'e', ' ', 'a', ' ', 'f', 'o', 'o', 't', 'n', 'o', 't', 'e', ' ', 'l', 'a', 'b', 'e', 'l', ' ', 'a', 'n', 'y', 'w', 'h', 'e', 'r', 'e', ' ', 'b', 'u', 't', ' ', 'a', 's', ' ', 'f', 'i', 'r', 's', 't', ' ', 'c', 'h', 'i', 'l', 'd', ' ', 'n', 'o', 'd', 'e'],
    {
        let m = ['C', 'a', 'n', 'n', 'o', 't', ' ', 'h', 'a', 'v', 'e', ' ', 'a', ' ', 'f', 'o', 'o', 't', 'n', 'o', 't', 'e', ' ', 'l', 'a', 'b', 'e', 'l', ' ', 'a', 'n', 'y', 'w', 'h', 'e', 'r', 'e', ' ', 'b', 'u', 't', ' ', 'a', 's', ' ', 'f', 'i', 'r', 's', 't', ' ', 'c', 'h', 'i', 'l', 'd', ' ', 'n', 'o', 'd', 'e'];
        assert(m@ =~= seq!['C', 'a', 'n', 'n', 'o', 't', ' ', 'h', 'a', 'v', 'e', ' ', 'a', ' ', 'f', 'o', 'o', 't', 'n', 'o', 't', 'e', ' ', 'l', 'a', 'b', 'e', 'l', ' ', 'a', 'n', 'y', 'w', 'h', 'e', 'r', 'e', ' ', 'b', 'u', 't', ' ', 'a', 's', ' ', 'f', 'i', 'r', 's', 't', ' ', 'c', 'h', 'i', 'l', 'd', ' ', 'n', 'o', 'd', 'e']);
        string_of(&m)
    }
}

/// Renders a document as HTML, or says why it cannot.
fn render_document(document: &Document, standalone: bool) -> (r: Result<Vec<char>, Fault>)
    ensures
        result_view(r) == spec_render_html(document.view(), standalone),
{
    let body = render_body_exec(&document.children, 0);
    if standalone {
        let mut open: Vec<char> = Vec::new();
        let a = ['<', '!', 'd', 'o', 'c', 't', 'y', 'p', 'e', ' ', 'h', 't', 'm', 'l', '>', '\n', '<', 'h', 't', 'm', 'l', '>', '\n'];
        let b = ['\n', '<', 'b', 'o', 'd', 'y', '>', '\n'];
        assert(a@ =~= seq!['<', '!', 'd', 'o', 'c', 't', 'y', 'p', 'e', ' ', 'h', 't', 'm', 'l', '>', '\n', '<', 'h', 't', 'm', 'l', '>', '\n']);
        assert(b@ =~= seq!['\n', '<', 'b', 'o', 'd', 'y', '>', '\n']);
        let mut va = vec_of(&a);
        let mut vh = str_to_chars(HEAD);
        let mut vb = vec_of(&b);
        open.append(&mut va);
        open.append(&mut vh);
        open.append(&mut vb);
        assert(open@ =~= document_open());
        let c = ['<', '/', 'b', 'o', 'd', 'y', '>', '\n', '<', '/', 'h', 't', 'm', 'l', '>', '\n'];
        assert(c@ =~= document_close());
        let close = vec_of(&c);
        match body {
            Ok(mut v) => {
                let ghost vv = v@;
                let mut close = close;
                open.append(&mut v);
                open.append(&mut close);
                assert(open@ =~= document_open() + (vv + document_close()));
                Ok(open)
            },
            Err(f) => Err(f),
        }
    } else {
        body
    }
}

/// Whether the renderer supports every element of a document that rendering reaches.
pub fn html_supported(document: &Document, standalone: bool) -> (r: bool)
    ensures
        r == !(spec_render_html(document.view(), standalone) is Unsupported),
{
    match render_document(document, standalone) {
        Err(Fault::Unsupported) => false,
        _ => true,
    }
}

/// Renders a document as HTML: its children, within a page's head and body when
/// `standalone`.
pub fn render_html(document: &Document, standalone: bool) -> (r: Result<String, RenderError>)
    requires
        !(spec_render_html(document.view(), standalone) is Unsupported),
    ensures
        match r {
            Ok(s) => spec_render_html(document.view(), standalone) == Rendered::Done(s@),
            Err(_) => spec_render_html(document.view(), standalone) is Failed,
        },
{
    match render_document(document, standalone) {
        Ok(v) => Ok(string_of(v.as_slice())),
        Err(_) => Err(RenderError::FootnoteLabelNotFirst),
    }
}

/// The symbols of symbol footnotes, in the order they are used.
pub open spec fn footnote_symbols() -> Seq<char> {
    seq!['*', '\u{2020}', '\u{2021}', '\u{a7}', '\u{b6}', '#', '\u{2660}', '\u{2665}', '\u{2666}', '\u{2663}']
}

/// The symbol of the `n`-th symbol footnote, the symbols used over again from the tenth on.
pub fn footnote_symbol(n: usize) -> (r: String)
    requires
        n >= 1,
    ensures
        r@ == seq![footnote_symbols()[(n - 1) % 10]],
{
    let symbols = ['*', '\u{2020}', '\u{2021}', '\u{a7}', '\u{b6}', '#', '\u{2660}', '\u{2665}', '\u{2666}', '\u{2663}'];
    assert(symbols@ =~= footnote_symbols());
    let c = symbols[(n - 1) % 10];
    let one = [c];
    assert(one@ =~= seq![c]);
    string_of(&one)
}

} // verus!
