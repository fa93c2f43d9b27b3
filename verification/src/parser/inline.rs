//! Inline markup: literals, emphasis, references, substitution and footnote references,
//! standalone URIs and escapes within the text of a paragraph.
use vstd::prelude::*;

use super::conversion::{spec_whitespace_normalize_name, whitespace_normalize_name};
use crate::attribute_types::{FootnoteType, NameToken};
use crate::element_categories::ElementType;
use crate::elements::{
    elem_view_with, empty_common, group_nodes_view, nodes_view, CommonView, Elem, ElemView, Extra,
    ExtraView, Node, NodeView,
};
use crate::extra_attributes as a;
use crate::extra_attributes::names_view;
use crate::text::{chars_to_string, has_at, is_whitespace, is_ws, starts_at, string_of};
use crate::url::{relative_base, spec_relative_ok, url_join, url_serialization, Url};

verus! {

broadcast use group_nodes_view;

/// Characters after which inline markup may start.
pub open spec fn is_open_punct(c: char) -> bool {
    c == '\'' || c == '"' || c == '(' || c == '[' || c == '{' || c == '<' || c == '-' || c == '/'
        || c == ':'
}

/// Characters before which inline markup may end.
pub open spec fn is_close_punct(c: char) -> bool {
    c == '\'' || c == '"' || c == ')' || c == ']' || c == '}' || c == '>' || c == '-' || c == '/'
        || c == ':' || c == '.' || c == ',' || c == ';' || c == '!' || c == '?' || c == '\\'
}

/// Inline markup may start at `j`: at the start of the text, after whitespace or after
/// opening punctuation.
pub open spec fn start_ok(s: Seq<char>, j: int) -> bool {
    0 <= j <= s.len() && (j == 0 || is_ws(s[j - 1]) || is_open_punct(s[j - 1]))
}

/// Inline markup may end just before `k`: at the end of the text, before whitespace or
/// before closing punctuation.
pub open spec fn end_ok(s: Seq<char>, k: int) -> bool {
    k == s.len() || (0 <= k < s.len() && (is_ws(s[k]) || is_close_punct(s[k])))
}

/// The first position `k` at or after `k0` (and after `from`) where `delim` closes markup
/// whose content starts at `from`; -1 where there is none.
pub open spec fn find_close(s: Seq<char>, from: int, k: int, delim: Seq<char>) -> int
    decreases s.len() - k,
{
    if k < 1 || k >= s.len() || k + delim.len() > s.len() {
        -1
    } else if k > from && has_at(s, k, delim) && !is_ws(s[k - 1]) && end_ok(s, k + delim.len()) {
        k
    } else {
        find_close(s, from, k + 1, delim)
    }
}

/// Where markup opened by `open` at `j` and closed by `close` ends (just after `close`);
/// -1 where it does not occur there.
pub open spec fn delimited(s: Seq<char>, j: int, open: Seq<char>, close: Seq<char>) -> int {
    let from = j + open.len();
    if start_ok(s, j) && has_at(s, j, open) && from < s.len() && !is_ws(s[from]) {
        let k = find_close(s, from, from, close);
        if k >= 0 {
            k + close.len()
        } else {
            -1
        }
    } else {
        -1
    }
}

pub open spec fn is_alnum(c: char) -> bool {
    ('a' <= c && c <= 'z') || ('A' <= c && c <= 'Z') || ('0' <= c && c <= '9')
}

/// Characters that may join the alphanumeric parts of a simple reference name.
pub open spec fn is_name_joiner(c: char) -> bool {
    c == '-' || c == '_' || c == '.' || c == ':' || c == '+'
}

/// The end of the simple reference name that runs from `k` on.
pub open spec fn name_scan(s: Seq<char>, k: int) -> int
    decreases s.len() - k,
{
    if k < 0 || k >= s.len() {
        k
    } else if is_alnum(s[k]) {
        name_scan(s, k + 1)
    } else if k + 1 < s.len() && is_name_joiner(s[k]) && is_alnum(s[k + 1]) {
        name_scan(s, k + 1)
    } else {
        k
    }
}

/// End of a simple reference `name_` starting at `j`, or -1.
pub open spec fn simple_ref_end(s: Seq<char>, j: int) -> int {
    if 0 <= j < s.len() && is_alnum(s[j]) {
        let k = name_scan(s, j);
        if k < s.len() && s[k] == '_' && end_ok(s, k + 1) {
            k + 1
        } else {
            -1
        }
    } else {
        -1
    }
}

/// The first position at or after `k` that holds `c`, or -1.
pub open spec fn index_from(s: Seq<char>, k: int, c: char) -> int
    decreases s.len() - k,
{
    if k < 0 || k >= s.len() {
        -1
    } else if s[k] == c {
        k
    } else {
        index_from(s, k + 1, c)
    }
}

pub open spec fn is_label_char(c: char) -> bool {
    is_alnum(c) || c == '-' || c == '_'
}

/// The labels that footnote references accept: `#`, `*`, `#name` or a number.
pub open spec fn is_footnote_label(l: Seq<char>) -> bool {
    ||| l == seq!['#']
    ||| l == seq!['*']
    ||| (l.len() > 1 && l[0] == '#' && forall|i: int| 1 <= i < l.len() ==> is_label_char(#[trigger] l[i]))
    ||| (l.len() > 0 && forall|i: int| 0 <= i < l.len() ==> '0' <= #[trigger] l[i] <= '9')
}

/// End of a footnote reference `[label]_` starting at `j`, or -1.
pub open spec fn footnote_ref_end(s: Seq<char>, j: int) -> int {
    if 0 <= j < s.len() && s[j] == '[' {
        let m = index_from(s, j + 1, ']');
        if m > j + 1 && m + 1 < s.len() && s[m + 1] == '_' && end_ok(s, m + 2)
            && is_footnote_label(s.subrange(j + 1, m)) {
            m + 2
        } else {
            -1
        }
    } else {
        -1
    }
}

pub open spec fn http_prefix() -> Seq<char> {
    seq!['h', 't', 't', 'p', ':', '/', '/']
}

pub open spec fn https_prefix() -> Seq<char> {
    seq!['h', 't', 't', 'p', 's', ':', '/', '/']
}

/// Characters that end a standalone URI.
pub open spec fn ends_uri(c: char) -> bool {
    is_ws(c) || c == '<' || c == '>' || c == '"' || c == '`'
}

/// The end of the run of URI characters from `k` on.
pub open spec fn uri_scan(s: Seq<char>, k: int) -> int
    decreases s.len() - k,
{
    if k < 0 || k >= s.len() || ends_uri(s[k]) {
        k
    } else {
        uri_scan(s, k + 1)
    }
}

/// Punctuation that a standalone URI does not end with.
pub open spec fn is_trailing_punct(c: char) -> bool {
    c == '.' || c == ',' || c == ';' || c == ':' || c == '!' || c == '?' || c == ')'
}

/// End of a standalone `http://` or `https://` URI starting at `j`, or -1.
pub open spec fn uri_end(s: Seq<char>, j: int) -> int {
    let p = if has_at(s, j, http_prefix()) {
        http_prefix().len() as int
    } else if has_at(s, j, https_prefix()) {
        https_prefix().len() as int
    } else {
        0
    };
    if p == 0 {
        -1
    } else {
        let e = uri_scan(s, j + p);
        if e <= j + p {
            -1
        } else if is_trailing_punct(s[e - 1]) {
            if e - 1 > j + p {
                e - 1
            } else {
                -1
            }
        } else {
            e
        }
    }
}

/// The kinds of inline markup.
#[derive(Clone, Copy, Debug, PartialEq, Eq, Structural)]
pub enum InlineKind {
    Literal,
    Strong,
    Emphasis,
    QuotedReference,
    Substitution,
    FootnoteReference,
    StandaloneUri,
    SimpleReference,
}

pub open spec fn lit2() -> Seq<char> {
    seq!['`', '`']
}

pub open spec fn star2() -> Seq<char> {
    seq!['*', '*']
}

pub open spec fn star1() -> Seq<char> {
    seq!['*']
}

pub open spec fn tick1() -> Seq<char> {
    seq!['`']
}

pub open spec fn tick_underscore() -> Seq<char> {
    seq!['`', '_']
}

pub open spec fn bar1() -> Seq<char> {
    seq!['|']
}

/// The inline markup that starts at `j`, with the position just after it.
pub open spec fn spec_recognize(s: Seq<char>, j: int) -> Option<(InlineKind, int)> {
    if !(0 <= j < s.len()) || !start_ok(s, j) {
        None
    } else if delimited(s, j, lit2(), lit2()) >= 0 {
        Some((InlineKind::Literal, delimited(s, j, lit2(), lit2())))
    } else if delimited(s, j, star2(), star2()) >= 0 {
        Some((InlineKind::Strong, delimited(s, j, star2(), star2())))
    } else if delimited(s, j, star1(), star1()) >= 0 {
        Some((InlineKind::Emphasis, delimited(s, j, star1(), star1())))
    } else if delimited(s, j, tick1(), tick_underscore()) >= 0 {
        Some((InlineKind::QuotedReference, delimited(s, j, tick1(), tick_underscore())))
    } else if delimited(s, j, bar1(), bar1()) >= 0 {
        Some((InlineKind::Substitution, delimited(s, j, bar1(), bar1())))
    } else if footnote_ref_end(s, j) >= 0 {
        Some((InlineKind::FootnoteReference, footnote_ref_end(s, j)))
    } else if uri_end(s, j) >= 0 {
        Some((InlineKind::StandaloneUri, uri_end(s, j)))
    } else if simple_ref_end(s, j) >= 0 {
        Some((InlineKind::SimpleReference, simple_ref_end(s, j)))
    } else {
        None
    }
}

/// The end of the plain text that runs from `k` on: up to a line break, a backslash or
/// the start of inline markup.
pub open spec fn text_end(s: Seq<char>, k: int) -> int
    decreases s.len() - k,
{
    if k < 0 || k >= s.len() || s[k] == '\n' || s[k] == '\\' || spec_recognize(s, k) is Some {
        k
    } else {
        text_end(s, k + 1)
    }
}

/// The position after the spaces that start at `k`.
pub open spec fn skip_spaces(s: Seq<char>, k: int) -> int
    decreases s.len() - k,
{
    if 0 <= k < s.len() && s[k] == ' ' {
        skip_spaces(s, k + 1)
    } else {
        k
    }
}

pub open spec fn text_view(t: Seq<char>) -> NodeView {
    NodeView::Text(t)
}

/// An element with empty common attributes.
pub open spec fn elem_node(t: ElementType, x: ExtraView, children: Seq<NodeView>) -> NodeView {
    NodeView::Element(elem_view_with(t, x, children))
}

/// A reference by name only.
pub open spec fn named_reference(name: Seq<char>) -> NodeView {
    elem_node(
        ElementType::Reference,
        ExtraView::Reference(
            a::ReferenceView { name: Some(name), refuri: None, refid: None, refname: seq![name] },
        ),
        seq![text_view(name)],
    )
}

/// The last position below `k` that holds `c`, or -1.
pub open spec fn last_index_before(s: Seq<char>, k: int, c: char) -> int
    decreases k,
{
    if k <= 0 || k > s.len() {
        -1
    } else if s[k - 1] == c {
        k - 1
    } else {
        last_index_before(s, k - 1, c)
    }
}

/// Where the `<target>` part of a quoted reference's text starts, or -1.
pub open spec fn bracket_start(t: Seq<char>) -> int {
    if t.len() >= 2 && t[t.len() - 1] == '>' {
        let p = last_index_before(t, t.len() - 1, '<');
        if p >= 0 && (p == 0 || is_ws(t[p - 1])) {
            p
        } else {
            -1
        }
    } else {
        -1
    }
}

pub open spec fn is_trim_char(c: char) -> bool {
    c == ' ' || c == '\n' || c == '\r'
}

/// `t` without trailing spaces, line feeds and carriage returns.
pub open spec fn trim_end_seq(t: Seq<char>) -> Seq<char>
    decreases t.len(),
{
    if t.len() > 0 && is_trim_char(t[t.len() - 1]) {
        trim_end_seq(t.drop_last())
    } else {
        t
    }
}

/// The reference that a quoted reference with text `text` and target `target` makes, or
/// `None` where the target is no URL.
pub open spec fn bracketed_reference(name: Seq<char>, target: Seq<char>) -> Option<NodeView> {
    let uri_refname: Option<(Option<Seq<char>>, Seq<Seq<char>>)> = if url_serialization(target) is Some {
        Some((url_serialization(target), Seq::empty()))
    } else if target.len() > 0 && target[target.len() - 1] == '_' {
        Some((None, seq![target.drop_last()]))
    } else if spec_relative_ok(target) && url_join(relative_base(), target) is Some {
        Some((Some(target), Seq::empty()))
    } else {
        None
    };
    match uri_refname {
        Some((refuri, refname)) => Some(
            elem_node(
                ElementType::Reference,
                ExtraView::Reference(
                    a::ReferenceView { name: Some(name), refuri: refuri, refid: None, refname: refname },
                ),
                seq![text_view(name)],
            ),
        ),
        None => None,
    }
}

/// The node of a quoted reference whose text between the backquotes is `t`.
pub open spec fn quoted_reference(t: Seq<char>) -> Option<NodeView> {
    let p = bracket_start(t);
    if p < 0 {
        Some(named_reference(t))
    } else {
        let target = t.subrange(p + 1, t.len() - 1);
        let trimmed = trim_end_seq(t.subrange(0, p));
        let name = if trimmed.len() == 0 {
            target
        } else {
            trimmed
        };
        bracketed_reference(name, target)
    }
}

/// The node of a footnote reference with label `l`.
pub open spec fn footnote_reference(l: Seq<char>) -> NodeView {
    let auto = FootnoteType::spec_from_char(l[0]);
    let names = if l.len() > 1 {
        seq![spec_whitespace_normalize_name(l.subrange(1, l.len() as int))]
    } else {
        Seq::empty()
    };
    NodeView::Element(
        ElemView {
            element_type: ElementType::FootnoteReference,
            common: CommonView { names: names, ..empty_common() },
            extra: ExtraView::FootnoteReference(
                a::FootnoteReferenceView { refid: None, refname: Seq::empty(), auto: auto },
            ),
            children: if auto is None {
                seq![text_view(l)]
            } else {
                Seq::empty()
            },
        },
    )
}

/// The node that the markup of kind `kind` from `j` to `end` makes, or `None` where it
/// holds an invalid URL.
pub open spec fn inline_node(s: Seq<char>, j: int, kind: InlineKind, end: int) -> Option<NodeView> {
    match kind {
        InlineKind::Literal => Some(
            elem_node(ElementType::Literal, ExtraView::Plain, seq![text_view(s.subrange(j + 2, end - 2))]),
        ),
        InlineKind::Strong => Some(
            elem_node(ElementType::Strong, ExtraView::Plain, seq![text_view(s.subrange(j + 2, end - 2))]),
        ),
        InlineKind::Emphasis => Some(
            elem_node(ElementType::Emphasis, ExtraView::Plain, seq![text_view(s.subrange(j + 1, end - 1))]),
        ),
        InlineKind::QuotedReference => quoted_reference(s.subrange(j + 1, end - 2)),
        InlineKind::Substitution => Some(
            elem_node(
                ElementType::SubstitutionReference,
                ExtraView::SubstitutionReference(
                    seq![spec_whitespace_normalize_name(s.subrange(j + 1, end - 1))],
                ),
                Seq::empty(),
            ),
        ),
        InlineKind::FootnoteReference => Some(footnote_reference(s.subrange(j + 1, end - 2))),
        InlineKind::StandaloneUri => {
            let raw = s.subrange(j, end);
            match url_serialization(raw) {
                Some(u) => Some(
                    elem_node(
                        ElementType::Reference,
                        ExtraView::Reference(
                            a::ReferenceView { name: None, refuri: Some(u), refid: None, refname: Seq::empty() },
                        ),
                        seq![text_view(raw)],
                    ),
                ),
                None => Some(text_view(raw)),
            }
        },
        InlineKind::SimpleReference => Some(named_reference(s.subrange(j, end - 1))),
    }
}

/// Prepends `n` to a parse result.
pub open spec fn prepend(n: NodeView, rest: Option<Seq<NodeView>>) -> Option<Seq<NodeView>> {
    match rest {
        Some(r) => Some(seq![n] + r),
        None => None,
    }
}

/// The inline nodes of `s` from position `i` on; `None` where a reference holds an invalid
/// URL.
pub open spec fn inlines_from(s: Seq<char>, i: int) -> Option<Seq<NodeView>>
    decreases s.len() - i,
{
    if i < 0 || i >= s.len() {
        Some(Seq::empty())
    } else if s[i] == '\n' {
        let k = skip_spaces(s, i + 1);
        if k > i && k <= s.len() {
            prepend(text_view(seq![' ']), inlines_from(s, k))
        } else {
            None
        }
    } else if s[i] == '\\' && i + 1 < s.len() {
        prepend(text_view(seq![s[i + 1]]), inlines_from(s, i + 2))
    } else {
        match spec_recognize(s, i) {
            Some((kind, end)) => if end > i && end <= s.len() {
                match inline_node(s, i, kind, end) {
                    Some(n) => prepend(n, inlines_from(s, end)),
                    None => None,
                }
            } else {
                None
            },
            None => {
                let k = text_end(s, i + 1);
                if k > i && k <= s.len() {
                    prepend(text_view(s.subrange(i, k)), inlines_from(s, k))
                } else {
                    None
                }
            },
        }
    }
}

/// The inline nodes of a paragraph's text.
pub open spec fn spec_parse_inlines(s: Seq<char>) -> Option<Seq<NodeView>> {
    inlines_from(s, 0)
}

} // verus!

verus! {

/// Why inline markup could not be read.
#[derive(Debug)]
pub enum InlineError {
    /// A reference's target is no valid relative URL.
    InvalidTarget(String),
}

fn is_open_punct_exec(c: char) -> (r: bool)
    ensures
        r == is_open_punct(c),
{
    c == '\'' || c == '"' || c == '(' || c == '[' || c == '{' || c == '<' || c == '-' || c == '/'
        || c == ':'
}

fn is_close_punct_exec(c: char) -> (r: bool)
    ensures
        r == is_close_punct(c),
{
    c == '\'' || c == '"' || c == ')' || c == ']' || c == '}' || c == '>' || c == '-' || c == '/'
        || c == ':' || c == '.' || c == ',' || c == ';' || c == '!' || c == '?' || c == '\\'
}

fn start_ok_exec(s: &Vec<char>, j: usize) -> (r: bool)
    ensures
        r == start_ok(s@, j as int),
{
    j <= s.len() && (j == 0 || is_whitespace(s[j - 1]) || is_open_punct_exec(s[j - 1]))
}

fn end_ok_exec(s: &Vec<char>, k: usize) -> (r: bool)
    ensures
        r == end_ok(s@, k as int),
{
    k == s.len() || (k < s.len() && (is_whitespace(s[k]) || is_close_punct_exec(s[k])))
}

pub(crate) fn is_alnum_exec(c: char) -> (r: bool)
    ensures
        r == is_alnum(c),
{
    ('a' <= c && c <= 'z') || ('A' <= c && c <= 'Z') || ('0' <= c && c <= '9')
}

fn find_close_exec(s: &Vec<char>, from: usize, d: &[char]) -> (r: Option<usize>)
    requires
        from >= 1,
        d@.len() >= 1,
    ensures
        match r {
            Some(k) => find_close(s@, from as int, from as int, d@) == k,
            None => find_close(s@, from as int, from as int, d@) == -1,
        },
{
    let mut k = from;
    while k < s.len()
        invariant
            from >= 1,
            d@.len() >= 1,
            from <= k,
            find_close(s@, from as int, from as int, d@) == find_close(s@, from as int, k as int, d@),
        decreases s@.len() - k,
    {
        if d.len() > s.len() - k {
            return None;
        }
        if k > from && starts_at(s.as_slice(), k, d) && !is_whitespace(s[k - 1]) && end_ok_exec(
            s,
            k + d.len(),
        ) {
            return Some(k);
        }
        k += 1;
    }
    None
}

fn delimited_exec(s: &Vec<char>, j: usize, open: &[char], close: &[char]) -> (r: Option<usize>)
    requires
        open@.len() >= 1,
        close@.len() >= 1,
        open@.len() <= 2,
        j < s@.len(),
    ensures
        match r {
            Some(k) => delimited(s@, j as int, open@, close@) == k,
            None => delimited(s@, j as int, open@, close@) == -1,
        },
{
    if open.len() >= s.len() - j {
        return None;
    }
    let from = j + open.len();
    if start_ok_exec(s, j) && starts_at(s.as_slice(), j, open) && from < s.len() && !is_whitespace(
        s[from],
    ) {
        match find_close_exec(s, from, close) {
            Some(k) => {
                proof {
                    assert(k + close@.len() <= s@.len()) by {
                        reveal_with_fuel(find_close, 1);
                        lemma_find_close_bound(s@, from as int, from as int, close@);
                    }
                }
                Some(k + close.len())
            },
            None => None,
        }
    } else {
        None
    }
}

proof fn lemma_find_close_bound(s: Seq<char>, from: int, k: int, d: Seq<char>)
    ensures
        find_close(s, from, k, d) == -1 || (k <= find_close(s, from, k, d) && find_close(s, from, k, d)
            + d.len() <= s.len() && find_close(s, from, k, d) > from),
    decreases s.len() - k,
{
    if k < 1 || k >= s.len() || k + d.len() > s.len() {
    } else if k > from && has_at(s, k, d) && !is_ws(s[k - 1]) && end_ok(s, k + d.len()) {
    } else {
        lemma_find_close_bound(s, from, k + 1, d);
    }
}

fn name_scan_exec(s: &Vec<char>, k0: usize) -> (r: usize)
    requires
        k0 <= s@.len(),
    ensures
        r == name_scan(s@, k0 as int),
        k0 <= r <= s@.len(),
{
    let mut k = k0;
    while k < s.len()
        invariant
            k0 <= k <= s@.len(),
            name_scan(s@, k0 as int) == name_scan(s@, k as int),
        decreases s@.len() - k,
    {
        if is_alnum_exec(s[k]) {
            k += 1;
        } else if k + 1 < s.len() && (s[k] == '-' || s[k] == '_' || s[k] == '.' || s[k] == ':'
            || s[k] == '+') && is_alnum_exec(s[k + 1]) {
            k += 1;
        } else {
            return k;
        }
    }
    k
}

fn simple_ref_end_exec(s: &Vec<char>, j: usize) -> (r: Option<usize>)
    requires
        j < s@.len(),
    ensures
        match r {
            Some(k) => simple_ref_end(s@, j as int) == k && j < k <= s@.len(),
            None => simple_ref_end(s@, j as int) == -1,
        },
{
    if is_alnum_exec(s[j]) {
        let k = name_scan_exec(s, j);
        if k < s.len() && s[k] == '_' && end_ok_exec(s, k + 1) {
            Some(k + 1)
        } else {
            None
        }
    } else {
        None
    }
}

fn index_from_exec(s: &Vec<char>, k0: usize, c: char) -> (r: Option<usize>)
    ensures
        match r {
            Some(k) => index_from(s@, k0 as int, c) == k && k0 <= k < s@.len(),
            None => index_from(s@, k0 as int, c) == -1,
        },
{
    let mut k = k0;
    while k < s.len()
        invariant
            k0 <= k,
            index_from(s@, k0 as int, c) == index_from(s@, k as int, c),
        decreases s@.len() - k,
    {
        if s[k] == c {
            return Some(k);
        }
        k += 1;
    }
    None
}

pub(crate) fn is_footnote_label_exec(s: &Vec<char>, from: usize, to: usize) -> (r: bool)
    requires
        from <= to <= s@.len(),
    ensures
        r == is_footnote_label(s@.subrange(from as int, to as int)),
{
    let ghost l = s@.subrange(from as int, to as int);
    let _n = s.len();
    if to - from == 1 && (s[from] == '#' || s[from] == '*') {
        assert(l =~= seq![s@[from as int]]);
        return true;
    }
    if to - from > 1 && s[from] == '#' {
        let mut i = from + 1;
        while i < to
            invariant
                from + 1 <= i <= to <= s@.len(),
                l == s@.subrange(from as int, to as int),
                s@[from as int] == '#',
                to - from > 1,
                forall|m: int| from + 1 <= m < i ==> is_label_char(#[trigger] s@[m]),
            decreases to - i,
        {
            let c = s[i];
            if !(is_alnum_exec(c) || c == '-' || c == '_') {
                assert(!is_label_char(l[i - from]));
                assert(l[0] == '#');
                assert(l.len() > 1);
                assert(l != seq!['#']);
                assert(l != seq!['*']);
                assert(!('0' <= l[0] <= '9'));
                return false;
            }
            i += 1;
        }
        assert forall|m: int| 1 <= m < l.len() implies is_label_char(#[trigger] l[m]) by {
            assert(l[m] == s@[from + m]);
        }
        return true;
    }
    if to == from {
        assert(l.len() == 0);
        assert(seq!['#'].len() == 1);
        assert(seq!['*'].len() == 1);
        return false;
    }
    let mut i = from;
    while i < to
        invariant
            from <= i <= to <= s@.len(),
            l == s@.subrange(from as int, to as int),
            to > from,
            !(to - from == 1 && (s@[from as int] == '#' || s@[from as int] == '*')),
            !(to - from > 1 && s@[from as int] == '#'),
            forall|m: int| from <= m < i ==> '0' <= #[trigger] s@[m] <= '9',
        decreases to - i,
    {
        if !('0' <= s[i] && s[i] <= '9') {
            assert(!('0' <= l[i - from] <= '9'));
            assert(l[0] == s@[from as int]);
            assert(l != seq!['#']) by {
                if l == seq!['#'] {
                    assert(seq!['#'].len() == 1);
                    assert(seq!['#'][0] == '#');
                    assert(l[0] == '#');
                    assert(to - from == 1);
                }
            }
            assert(l != seq!['*']) by {
                if l == seq!['*'] {
                    assert(seq!['*'].len() == 1);
                    assert(seq!['*'][0] == '*');
                    assert(l[0] == '*');
                    assert(to - from == 1);
                }
            }
            return false;
        }
        i += 1;
    }
    assert forall|m: int| 0 <= m < l.len() implies '0' <= #[trigger] l[m] <= '9' by {
        assert(l[m] == s@[from + m]);
    }
    true
}

fn footnote_ref_end_exec(s: &Vec<char>, j: usize) -> (r: Option<usize>)
    requires
        j < s@.len(),
    ensures
        match r {
            Some(k) => footnote_ref_end(s@, j as int) == k && j < k <= s@.len(),
            None => footnote_ref_end(s@, j as int) == -1,
        },
{
    let _n = s.len();
    if s[j] != '[' {
        return None;
    }
    match index_from_exec(s, j + 1, ']') {
        Some(m) => {
            if m > j + 1 && m + 1 < s.len() && s[m + 1] == '_' && end_ok_exec(s, m + 2)
                && is_footnote_label_exec(s, j + 1, m) {
                Some(m + 2)
            } else {
                None
            }
        },
        None => None,
    }
}

fn uri_scan_exec(s: &Vec<char>, k0: usize) -> (r: usize)
    requires
        k0 <= s@.len(),
    ensures
        r == uri_scan(s@, k0 as int),
        k0 <= r <= s@.len(),
{
    let mut k = k0;
    while k < s.len()
        invariant
            k0 <= k <= s@.len(),
            uri_scan(s@, k0 as int) == uri_scan(s@, k as int),
        decreases s@.len() - k,
    {
        let c = s[k];
        if is_whitespace(c) || c == '<' || c == '>' || c == '"' || c == '`' {
            return k;
        }
        k += 1;
    }
    k
}

fn uri_end_exec(s: &Vec<char>, j: usize) -> (r: Option<usize>)
    requires
        j < s@.len(),
    ensures
        match r {
            Some(k) => uri_end(s@, j as int) == k && j < k <= s@.len(),
            None => uri_end(s@, j as int) == -1,
        },
{
    let http = ['h', 't', 't', 'p', ':', '/', '/'];
    let https = ['h', 't', 't', 'p', 's', ':', '/', '/'];
    assert(http@ =~= http_prefix());
    assert(https@ =~= https_prefix());
    let p: usize = if starts_at(s.as_slice(), j, &http) {
        7
    } else if starts_at(s.as_slice(), j, &https) {
        8
    } else {
        0
    };
    if p == 0 {
        return None;
    }
    let _n = s.len();
    let e = uri_scan_exec(s, j + p);
    if e <= j + p {
        None
    } else {
        let c = s[e - 1];
        if c == '.' || c == ',' || c == ';' || c == ':' || c == '!' || c == '?' || c == ')' {
            if e - 1 > j + p {
                Some(e - 1)
            } else {
                None
            }
        } else {
            Some(e)
        }
    }
}

/// The inline markup that starts at `j`, with the position just after it.
fn recognize(s: &Vec<char>, j: usize) -> (r: Option<(InlineKind, usize)>)
    requires
        j < s@.len(),
    ensures
        match r {
            Some((kind, end)) => spec_recognize(s@, j as int) == Some((kind, end as int)),
            None => spec_recognize(s@, j as int) is None,
        },
{
    if !start_ok_exec(s, j) {
        return None;
    }
    let lit = ['`', '`'];
    let st2 = ['*', '*'];
    let st1 = ['*'];
    let tk1 = ['`'];
    let tku = ['`', '_'];
    let br = ['|'];
    assert(lit@ =~= lit2());
    assert(st2@ =~= star2());
    assert(st1@ =~= star1());
    assert(tk1@ =~= tick1());
    assert(tku@ =~= tick_underscore());
    assert(br@ =~= bar1());
    if let Some(e) = delimited_exec(s, j, &lit, &lit) {
        return Some((InlineKind::Literal, e));
    }
    if let Some(e) = delimited_exec(s, j, &st2, &st2) {
        return Some((InlineKind::Strong, e));
    }
    if let Some(e) = delimited_exec(s, j, &st1, &st1) {
        return Some((InlineKind::Emphasis, e));
    }
    if let Some(e) = delimited_exec(s, j, &tk1, &tku) {
        return Some((InlineKind::QuotedReference, e));
    }
    if let Some(e) = delimited_exec(s, j, &br, &br) {
        return Some((InlineKind::Substitution, e));
    }
    if let Some(e) = footnote_ref_end_exec(s, j) {
        return Some((InlineKind::FootnoteReference, e));
    }
    if let Some(e) = uri_end_exec(s, j) {
        return Some((InlineKind::StandaloneUri, e));
    }
    if let Some(e) = simple_ref_end_exec(s, j) {
        return Some((InlineKind::SimpleReference, e));
    }
    None
}

fn text_end_exec(s: &Vec<char>, k0: usize) -> (r: usize)
    requires
        k0 <= s@.len(),
    ensures
        r == text_end(s@, k0 as int),
        k0 <= r <= s@.len(),
{
    let mut k = k0;
    while k < s.len()
        invariant
            k0 <= k <= s@.len(),
            text_end(s@, k0 as int) == text_end(s@, k as int),
        decreases s@.len() - k,
    {
        if s[k] == '\n' || s[k] == '\\' {
            return k;
        }
        if recognize(s, k).is_some() {
            return k;
        }
        k += 1;
    }
    k
}

fn skip_spaces_exec(s: &Vec<char>, k0: usize) -> (r: usize)
    requires
        k0 <= s@.len(),
    ensures
        r == skip_spaces(s@, k0 as int),
        k0 <= r <= s@.len(),
{
    let mut k = k0;
    while k < s.len()
        invariant
            k0 <= k <= s@.len(),
            skip_spaces(s@, k0 as int) == skip_spaces(s@, k as int),
        decreases s@.len() - k,
    {
        if s[k] != ' ' {
            return k;
        }
        k += 1;
    }
    k
}

fn text_node(s: &Vec<char>, from: usize, to: usize) -> (r: Node)
    requires
        from <= to <= s@.len(),
    ensures
        r.view() == text_view(s@.subrange(from as int, to as int)),
{
    Node::Text(chars_to_string(s.as_slice(), from, to))
}

/// An element of type `t` with one text child.
fn elem_with_text(t: ElementType, text: Node) -> (r: Node)
    requires
        crate::elements::spec_default_extra(t) == Some(ExtraView::Plain),
    ensures
        r.view() == elem_node(t, ExtraView::Plain, seq![text.view()]),
{
    let mut children: Vec<Node> = Vec::new();
    children.push(text);
    let ghost cv = nodes_view(children@);
    assert(cv =~= seq![text.view()]);
    Node::element(Elem::assemble(t, Extra::Plain, children))
}

fn single_name(name: &String) -> (r: Vec<NameToken>)
    ensures
        names_view(r@) == seq![name@],
{
    let mut v: Vec<NameToken> = Vec::new();
    v.push(NameToken(name.clone()));
    assert(names_view(v@) =~= seq![name@]);
    v
}

/// A reference by name.
fn named_reference_exec(name: String) -> (r: Node)
    ensures
        r.view() == named_reference(name@),
{
    let x = a::Reference {
        name: Some(NameToken(name.clone())),
        refuri: None,
        refid: None,
        refname: single_name(&name),
    };
    let mut children: Vec<Node> = Vec::new();
    children.push(Node::Text(name));
    assert(nodes_view(children@) =~= seq![text_view(name@)]);
    Node::element(Elem::assemble(ElementType::Reference, Extra::Reference(x), children))
}

fn last_index_before_exec(s: &Vec<char>, k0: usize, c: char) -> (r: Option<usize>)
    requires
        k0 <= s@.len(),
    ensures
        match r {
            Some(k) => last_index_before(s@, k0 as int, c) == k && k < k0,
            None => last_index_before(s@, k0 as int, c) == -1,
        },
{
    let mut k = k0;
    while k > 0
        invariant
            k <= k0 <= s@.len(),
            last_index_before(s@, k0 as int, c) == last_index_before(s@, k as int, c),
        decreases k,
    {
        if s[k - 1] == c {
            return Some(k - 1);
        }
        k -= 1;
    }
    None
}

proof fn lemma_trim_end_prefix(t: Seq<char>)
    ensures
        trim_end_seq(t).len() <= t.len(),
        trim_end_seq(t) == t.subrange(0, trim_end_seq(t).len() as int),
    decreases t.len(),
{
    if t.len() > 0 && is_trim_char(t[t.len() - 1]) {
        lemma_trim_end_prefix(t.drop_last());
        assert(t.drop_last().subrange(0, trim_end_seq(t).len() as int) =~= t.subrange(0, trim_end_seq(t).len() as int));
    } else {
        assert(t.subrange(0, t.len() as int) =~= t);
    }
}

/// The length of `v[from..to]` without trailing spaces and line breaks.
fn trim_end_len(v: &Vec<char>, from: usize, to: usize) -> (r: usize)
    requires
        from <= to <= v@.len(),
    ensures
        from <= r <= to,
        v@.subrange(from as int, r as int) == trim_end_seq(v@.subrange(from as int, to as int)),
{
    let mut e = to;
    while e > from
        invariant
            from <= e <= to <= v@.len(),
            trim_end_seq(v@.subrange(from as int, to as int)) == trim_end_seq(v@.subrange(from as int, e as int)),
        decreases e,
    {
        let c = v[e - 1];
        if !(c == ' ' || c == '\n' || c == '\r') {
            return e;
        }
        assert(v@.subrange(from as int, e as int).drop_last() =~= v@.subrange(from as int, e - 1));
        e -= 1;
    }
    assert(v@.subrange(from as int, e as int).len() == 0);
    e
}

/// The node of a quoted reference whose text between the backquotes is `v[from..to]`.
fn quoted_reference_exec(v: &Vec<char>, from: usize, to: usize) -> (r: Result<Node, InlineError>)
    requires
        from <= to <= v@.len(),
    ensures
        match r {
            Ok(n) => quoted_reference(v@.subrange(from as int, to as int)) == Some(n.view()),
            Err(_) => quoted_reference(v@.subrange(from as int, to as int)) is None,
        },
{
    let ghost t = v@.subrange(from as int, to as int);
    let tv: Vec<char> = slice_to_vec(v, from, to);
    assert(tv@ =~= t);
    let n = tv.len();
    let p: Option<usize> = if n >= 2 && tv[n - 1] == '>' {
        match last_index_before_exec(&tv, n - 1, '<') {
            Some(p) => if p == 0 || is_whitespace(tv[p - 1]) {
                Some(p)
            } else {
                None
            },
            None => None,
        }
    } else {
        None
    };
    match p {
        None => {
            assert(bracket_start(t) < 0);
            Ok(named_reference_exec(string_of(tv.as_slice())))
        },
        Some(p) => {
            assert(bracket_start(t) == p);
            let target = chars_to_string(tv.as_slice(), p + 1, n - 1);
            let te = trim_end_len(&tv, 0, p);
            let name = if te == 0 {
                target.clone()
            } else {
                chars_to_string(tv.as_slice(), 0, te)
            };
            let ghost trimmed = trim_end_seq(t.subrange(0, p as int));
            assert(tv@.subrange(0, p as int) =~= t.subrange(0, p as int));
            let uri_refname: Option<(Option<Url>, Vec<NameToken>)> = match Url::parse_absolute(target.as_str()) {
                Ok(u) => {
                    let empty: Vec<NameToken> = Vec::new();
                    assert(names_view(empty@) =~= Seq::<Seq<char>>::empty());
                    Some((Some(u), empty))
                },
                Err(_) => {
                    let tc = crate::text::str_to_chars(target.as_str());
                    if tc.len() > 0 && tc[tc.len() - 1] == '_' {
                        let stripped = chars_to_string(tc.as_slice(), 0, tc.len() - 1);
                        assert(stripped@ =~= target@.drop_last());
                        Some((None, single_name(&stripped)))
                    } else {
                        match Url::parse_relative(target.as_str()) {
                            Ok(u) => {
                                let empty: Vec<NameToken> = Vec::new();
                                assert(names_view(empty@) =~= Seq::<Seq<char>>::empty());
                                Some((Some(u), empty))
                            },
                            Err(_) => None,
                        }
                    }
                },
            };
            match uri_refname {
                Some((refuri, refname)) => {
                    let x = a::Reference {
                        name: Some(NameToken(name.clone())),
                        refuri,
                        refid: None,
                        refname,
                    };
                    let mut children: Vec<Node> = Vec::new();
                    children.push(Node::Text(name));
                    assert(nodes_view(children@) =~= seq![text_view(name@)]);
                    Ok(
                        Node::element(
                            Elem::assemble(ElementType::Reference, Extra::Reference(x), children),
                        ),
                    )
                },
                None => Err(InlineError::InvalidTarget(target)),
            }
        },
    }
}

/// A vector holding `v[from..to]`.
pub fn slice_to_vec(v: &Vec<char>, from: usize, to: usize) -> (r: Vec<char>)
    requires
        from <= to <= v@.len(),
    ensures
        r@ == v@.subrange(from as int, to as int),
{
    let mut r: Vec<char> = Vec::new();
    let mut i = from;
    while i < to
        invariant
            from <= i <= to <= v@.len(),
            r@ == v@.subrange(from as int, i as int),
        decreases to - i,
    {
        r.push(v[i]);
        i += 1;
        assert(r@ =~= v@.subrange(from as int, i as int));
    }
    r
}

fn footnote_reference_exec(s: &Vec<char>, from: usize, to: usize) -> (r: Node)
    requires
        from < to <= s@.len(),
    ensures
        r.view() == footnote_reference(s@.subrange(from as int, to as int)),
{
    let ghost l = s@.subrange(from as int, to as int);
    let auto = FootnoteType::try_from_char(s[from]);
    let mut names: Vec<NameToken> = Vec::new();
    let no_names: Vec<NameToken> = Vec::new();
    assert(names_view(no_names@) =~= Seq::<Seq<char>>::empty());
    if to - from > 1 {
        let rest = chars_to_string(s.as_slice(), from + 1, to);
        assert(rest@ =~= l.subrange(1, l.len() as int));
        names.push(NameToken(whitespace_normalize_name(rest.as_str())));
    }
    let mut children: Vec<Node> = Vec::new();
    if auto.is_none() {
        children.push(text_node(s, from, to));
    }
    let e = Elem {
        element_type: ElementType::FootnoteReference,
        common: crate::elements::CommonAttributes {
            ids: Vec::new(),
            names,
            source: None,
            classes: Vec::new(),
        },
        extra: Extra::FootnoteReference(a::FootnoteReference { refid: None, refname: no_names, auto }),
        children,
    };
    assert(e.view().common.ids =~= Seq::<Seq<char>>::empty());
    assert(e.view().common.classes =~= Seq::<Seq<char>>::empty());
    assert(e.view().common.names =~= footnote_reference(l)->Element_0.common.names);
    assert(e.view().children =~= footnote_reference(l)->Element_0.children);
    Node::element(e)
}

/// The node that the markup of kind `kind` from `j` to `end` makes.
fn inline_node_exec(s: &Vec<char>, j: usize, kind: InlineKind, end: usize) -> (r: Result<Node, InlineError>)
    requires
        j < end <= s@.len(),
        spec_recognize(s@, j as int) == Some((kind, end as int)),
    ensures
        match r {
            Ok(n) => inline_node(s@, j as int, kind, end as int) == Some(n.view()),
            Err(_) => inline_node(s@, j as int, kind, end as int) is None,
        },
{
    proof {
        lemma_recognize_bounds(s@, j as int);
    }
    match kind {
        InlineKind::Literal => Ok(elem_with_text(ElementType::Literal, text_node(s, j + 2, end - 2))),
        InlineKind::Strong => Ok(elem_with_text(ElementType::Strong, text_node(s, j + 2, end - 2))),
        InlineKind::Emphasis => Ok(elem_with_text(ElementType::Emphasis, text_node(s, j + 1, end - 1))),
        InlineKind::QuotedReference => quoted_reference_exec(s, j + 1, end - 2),
        InlineKind::Substitution => {
            let raw = chars_to_string(s.as_slice(), j + 1, end - 1);
            let name = whitespace_normalize_name(raw.as_str());
            let x = a::SubstitutionReference { refname: single_name(&name) };
            Ok(Node::element(Elem::with_extra(ElementType::SubstitutionReference, Extra::SubstitutionReference(x))))
        },
        InlineKind::FootnoteReference => Ok(footnote_reference_exec(s, j + 1, end - 2)),
        InlineKind::StandaloneUri => {
            let raw = chars_to_string(s.as_slice(), j, end);
            match Url::parse_absolute(raw.as_str()) {
                Ok(u) => {
                    let x = a::Reference { name: None, refuri: Some(u), refid: None, refname: Vec::new() };
                    assert(names_view(x.refname@) =~= Seq::<Seq<char>>::empty());
                    let mut children: Vec<Node> = Vec::new();
                    children.push(Node::Text(raw));
                    assert(nodes_view(children@) =~= seq![text_view(s@.subrange(j as int, end as int))]);
                    Ok(Node::element(Elem::assemble(ElementType::Reference, Extra::Reference(x), children)))
                },
                Err(_) => Ok(Node::Text(raw)),
            }
        },
        InlineKind::SimpleReference => Ok(named_reference_exec(chars_to_string(s.as_slice(), j, end - 1))),
    }
}

/// Recognized markup is long enough to hold its delimiters.
proof fn lemma_recognize_bounds(s: Seq<char>, j: int)
    requires
        0 <= j < s.len(),
        spec_recognize(s, j) is Some,
    ensures
        ({
            let (kind, end) = spec_recognize(s, j).unwrap();
            &&& j < end <= s.len()
            &&& (kind == InlineKind::Literal || kind == InlineKind::Strong) ==> j + 2 <= end - 2
            &&& (kind == InlineKind::Emphasis || kind == InlineKind::Substitution) ==> j + 1 <= end - 1
            &&& (kind == InlineKind::QuotedReference || kind == InlineKind::FootnoteReference) ==> j + 1 < end - 2 + 1 && j + 1 <= end - 2
            &&& kind == InlineKind::FootnoteReference ==> j + 1 < end - 2
            &&& kind == InlineKind::SimpleReference ==> j < end - 1
        }),
{
    let (kind, end) = spec_recognize(s, j).unwrap();
    if delimited(s, j, lit2(), lit2()) >= 0 {
        lemma_find_close_bound(s, j + 2, j + 2, lit2());
    } else if delimited(s, j, star2(), star2()) >= 0 {
        lemma_find_close_bound(s, j + 2, j + 2, star2());
    } else if delimited(s, j, star1(), star1()) >= 0 {
        lemma_find_close_bound(s, j + 1, j + 1, star1());
    } else if delimited(s, j, tick1(), tick_underscore()) >= 0 {
        lemma_find_close_bound(s, j + 1, j + 1, tick_underscore());
    } else if delimited(s, j, bar1(), bar1()) >= 0 {
        lemma_find_close_bound(s, j + 1, j + 1, bar1());
    } else if footnote_ref_end(s, j) >= 0 {
    } else if uri_end(s, j) >= 0 {
        lemma_uri_scan_bound(s, j + 7);
        lemma_uri_scan_bound(s, j + 8);
    } else {
        lemma_name_scan_bound(s, j);
    }
}

proof fn lemma_uri_scan_bound(s: Seq<char>, k: int)
    ensures
        0 <= k <= s.len() ==> k <= uri_scan(s, k) <= s.len(),
    decreases s.len() - k,
{
    if 0 <= k < s.len() && !ends_uri(s[k]) {
        lemma_uri_scan_bound(s, k + 1);
    }
}

proof fn lemma_name_scan_bound(s: Seq<char>, k: int)
    ensures
        0 <= k <= s.len() ==> k <= name_scan(s, k) <= s.len(),
    decreases s.len() - k,
{
    if 0 <= k < s.len() {
        lemma_name_scan_bound(s, k + 1);
    }
}

} // verus!

verus! {

/// Appends a parse result to nodes already read.
pub open spec fn opt_cat(a: Seq<NodeView>, rest: Option<Seq<NodeView>>) -> Option<Seq<NodeView>> {
    match rest {
        Some(r) => Some(a + r),
        None => None,
    }
}

proof fn lemma_opt_cat_prepend(a: Seq<NodeView>, n: NodeView, rest: Option<Seq<NodeView>>)
    ensures
        opt_cat(a, prepend(n, rest)) == opt_cat(a.push(n), rest),
{
    if let Some(r) = rest {
        assert(a + (seq![n] + r) =~= a.push(n) + r);
    }
}

/// Reads the inline markup of a paragraph's text.
#[verifier::spinoff_prover]
#[verifier::rlimit(40)]
pub fn parse_inlines(s: &Vec<char>) -> (r: Result<Vec<Node>, InlineError>)
    ensures
        match r {
            Ok(v) => spec_parse_inlines(s@) == Some(nodes_view(v@)),
            Err(_) => spec_parse_inlines(s@) is None,
        },
{
    broadcast use group_nodes_view;

    let n = s.len();
    let mut acc: Vec<Node> = Vec::new();
    let mut i: usize = 0;
    assert(nodes_view(acc@) =~= Seq::<NodeView>::empty());
    assert(opt_cat(Seq::empty(), inlines_from(s@, 0)) =~= inlines_from(s@, 0)) by {
        if let Some(x) = inlines_from(s@, 0) {
            assert(Seq::<NodeView>::empty() + x =~= x);
        }
    }
    while i < n
        invariant
            n == s@.len(),
            i <= n,
            inlines_from(s@, 0) == opt_cat(nodes_view(acc@), inlines_from(s@, i as int)),
        decreases n - i,
    {
        let ghost before = nodes_view(acc@);
        if s[i] == '\n' {
            let k = skip_spaces_exec(s, i + 1);
            let t = Node::Text(string_of(&[' ']));
            assert(t.view() == text_view(seq![' '])) by {
                assert([' ']@ =~= seq![' ']);
            }
            acc.push(t);
            proof {
                lemma_opt_cat_prepend(before, t.view(), inlines_from(s@, k as int));
                assert(nodes_view(acc@) =~= before.push(t.view()));
            }
            i = k;
        } else if s[i] == '\\' && i + 1 < n {
            let t = text_node(s, i + 1, i + 2);
            assert(s@.subrange(i + 1, i + 2) =~= seq![s@[i + 1]]);
            acc.push(t);
            proof {
                lemma_opt_cat_prepend(before, t.view(), inlines_from(s@, i + 2));
                assert(nodes_view(acc@) =~= before.push(t.view()));
            }
            i = i + 2;
        } else {
            match recognize(s, i) {
                Some((kind, end)) => {
                    proof {
                        lemma_recognize_bounds(s@, i as int);
                    }
                    match inline_node_exec(s, i, kind, end) {
                        Ok(node) => {
                            acc.push(node);
                            proof {
                                lemma_opt_cat_prepend(before, node.view(), inlines_from(s@, end as int));
                                assert(nodes_view(acc@) =~= before.push(node.view()));
                            }
                            i = end;
                        },
                        Err(e) => {
                            return Err(e);
                        },
                    }
                },
                None => {
                    let k = text_end_exec(s, i + 1);
                    let t = text_node(s, i, k);
                    acc.push(t);
                    proof {
                        lemma_opt_cat_prepend(before, t.view(), inlines_from(s@, k as int));
                        assert(nodes_view(acc@) =~= before.push(t.view()));
                    }
                    i = k;
                },
            }
        }
    }
    assert(opt_cat(nodes_view(acc@), Some(Seq::empty())) == Some(nodes_view(acc@))) by {
        assert(nodes_view(acc@) + Seq::<NodeView>::empty() =~= nodes_view(acc@));
    }
    Ok(acc)
}

} // verus!
