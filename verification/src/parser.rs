//! Parsing reStructuredText into a document tree.
pub mod conversion;
pub mod inline;
pub mod lines;
pub mod grammar;
pub mod blocks;
pub mod explicit;
pub mod body;
pub mod unfold;
pub mod sections;
pub mod markup;

use vstd::prelude::*;

use self::blocks::RstError;
use self::body::{blocks_from_exec, blocks_view, Block};
use self::grammar::blocks_from;
use self::lines::{split_lines, split_lines_exec};
use self::sections::{convert_document, spec_convert_document};
use crate::elements::{document_wf, document_wf_exec, Document, DocumentView};
use crate::transforms::{spec_standard_transform, transform_ok, try_standard_transform};
use crate::text::{push_char, str_to_chars};

verus! {

/// The document that a text makes, sections resolved but not references: its lines read as
/// top-level blocks, with as much nesting as the text has characters; `None` where the text
/// cannot be read, or the tree it gives is not well formed.
pub open spec fn spec_parse_only(source: Seq<char>) -> Option<DocumentView> {
    match blocks_from(split_lines(source), 0, true, source.len()) {
        Some(bs) => if document_wf(spec_convert_document(bs)) {
            Some(spec_convert_document(bs))
        } else {
            None
        },
        None => None,
    }
}

/// The reader of the block grammar.
pub struct RstParser;

impl RstParser {
    /// The top-level blocks of a text: titles with their adornments, and elements.
    pub fn blocks(source: &str) -> (r: Result<Vec<Block>, RstError>)
        ensures
            r matches Err(e) ==> e.from_grammar(),
            match r {
                Ok(bs) => blocks_from(split_lines(source@), 0, true, source@.len()) == Some(blocks_view(bs@)),
                Err(_) => blocks_from(split_lines(source@), 0, true, source@.len()) is None,
            },
    {
        let chars = str_to_chars(source);
        let lines = split_lines_exec(&chars);
        let fuel = chars.len();
        blocks_from_exec(&lines, 0, true, fuel)
    }
}

/// Parses into a document tree and resolves sections, but not references.
pub fn parse_only(source: &str) -> (r: Result<Document, RstError>)
    ensures
        r matches Err(e) ==> !(e is UnresolvedFootnoteReference),
        match r {
            Ok(d) => spec_parse_only(source@) == Some(d.view()) && document_wf(d.view()),
            Err(_) => spec_parse_only(source@) is None,
        },
        r matches Err(e) ==> (e is MisplacedElement <==> blocks_from(split_lines(source@), 0, true, source@.len()) is Some),
{
    match RstParser::blocks(source) {
        Ok(bs) => {
            let d = convert_document(bs);
            if document_wf_exec(&d) {
                Ok(d)
            } else {
                Err(RstError::MisplacedElement)
            }
        },
        Err(e) => Err(e),
    }
}

/// The document that a text makes, sections and references resolved; `None` where it
/// cannot be parsed, or holds footnote references that cannot be numbered.
pub open spec fn spec_parse(source: Seq<char>) -> Option<DocumentView> {
    match spec_parse_only(source) {
        Some(d) => if transform_ok(d) {
            Some(spec_standard_transform(d))
        } else {
            None
        },
        None => None,
    }
}

/// Parses into a document tree and resolves sections and references.
pub fn parse(source: &str) -> (r: Result<Document, RstError>)
    ensures
        match r {
            Ok(d) => spec_parse(source@) == Some(d.view()) && document_wf(d.view()),
            Err(_) => spec_parse(source@) is None,
        },
        r matches Err(e) ==> (e is UnresolvedFootnoteReference <==> spec_parse_only(source@) is Some),
{
    match parse_only(source) {
        Ok(d) => match try_standard_transform(d) {
            Some(t) => Ok(t),
            None => Err(RstError::UnresolvedFootnoteReference),
        },
        Err(e) => Err(e),
    }
}

/// A text with its tabs expanded to eight spaces, ending in a line feed.
pub open spec fn spec_prepare_source(s: Seq<char>) -> Seq<char> {
    let t = expand_tabs(s);
    if t.len() > 0 && t.last() == '\n' {
        t
    } else {
        t.push('\n')
    }
}

/// A text with each tab replaced by eight spaces.
pub open spec fn expand_tabs(s: Seq<char>) -> Seq<char>
    decreases s.len(),
{
    if s.len() == 0 {
        Seq::empty()
    } else if s.last() == '\t' {
        expand_tabs(s.drop_last()) + Seq::new(8, |i: int| ' ')
    } else {
        expand_tabs(s.drop_last()).push(s.last())
    }
}

/// Prepares a text read from a file or the standard input for parsing: tabs become eight
/// spaces, and a final line feed is added where there is none.
pub fn prepare_source(content: &str) -> (r: String)
    ensures
        r@ == spec_prepare_source(content@),
{
    let v = str_to_chars(content);
    let mut out = String::new();
    let mut i: usize = 0;
    let mut last: Option<char> = None;
    assert(v@.subrange(0, 0) =~= Seq::<char>::empty());
    while i < v.len()
        invariant
            v@ == content@,
            i <= v@.len(),
            out@ == expand_tabs(v@.subrange(0, i as int)),
        decreases v@.len() - i,
    {
        let ghost before = out@;
        assert(v@.subrange(0, i + 1).drop_last() =~= v@.subrange(0, i as int));
        if v[i] == '\t' {
            let mut k: usize = 0;
            while k < 8
                invariant
                    k <= 8,
                    out@ == before + Seq::new(k as nat, |j: int| ' '),
                decreases 8 - k,
            {
                push_char(&mut out, ' ');
                k += 1;
                assert(out@ =~= before + Seq::new(k as nat, |j: int| ' '));
            }
        } else {
            push_char(&mut out, v[i]);
        }
        i += 1;
    }
    assert(v@.subrange(0, v@.len() as int) =~= v@);
    proof {
        lemma_expand_tabs_last(content@);
    }
    if ends_with_line_feed(&out) {
        out
    } else {
        push_char(&mut out, '\n');
        out
    }
}

proof fn lemma_expand_tabs_no_tab(s: Seq<char>)
    ensures
        forall|i: int| 0 <= i < expand_tabs(s).len() ==> expand_tabs(s)[i] != '\t',
    decreases s.len(),
{
    if s.len() > 0 {
        lemma_expand_tabs_no_tab(s.drop_last());
        let a = expand_tabs(s.drop_last());
        let b = if s.last() == '\t' { Seq::new(8, |i: int| ' ') } else { seq![s.last()] };
        assert(expand_tabs(s) =~= a + b);
        assert forall|i: int| 0 <= i < (a + b).len() implies (a + b)[i] != '\t' by {
            if i >= a.len() {
                assert((a + b)[i] == b[i - a.len()]);
            } else {
                assert((a + b)[i] == a[i]);
            }
        }
    }
}

proof fn lemma_expand_tabs_identity(s: Seq<char>)
    requires
        forall|i: int| 0 <= i < s.len() ==> s[i] != '\t',
    ensures
        expand_tabs(s) == s,
    decreases s.len(),
{
    if s.len() > 0 {
        assert(s[s.len() - 1] != '\t');
        lemma_expand_tabs_identity(s.drop_last());
        assert(s.drop_last().push(s.last()) =~= s);
    }
}

/// A prepared text holds no tab and ends in a line feed, and preparing it once more
/// leaves it as it is.
pub proof fn law_prepare_source_idempotent(s: Seq<char>)
    ensures
        forall|i: int| 0 <= i < spec_prepare_source(s).len() ==> spec_prepare_source(s)[i] != '\t',
        spec_prepare_source(s).len() > 0,
        spec_prepare_source(s).last() == '\n',
        spec_prepare_source(spec_prepare_source(s)) == spec_prepare_source(s),
{
    lemma_expand_tabs_no_tab(s);
    let t = expand_tabs(s);
    let p = spec_prepare_source(s);
    assert forall|i: int| 0 <= i < p.len() implies p[i] != '\t' by {
        if i < t.len() {
            assert(p[i] == t[i]);
        }
    }
    lemma_expand_tabs_identity(p);
}

proof fn lemma_expand_tabs_last(s: Seq<char>)
    ensures
        expand_tabs(s).len() >= s.len(),
    decreases s.len(),
{
    if s.len() > 0 {
        lemma_expand_tabs_last(s.drop_last());
    }
}

/// Whether a text ends in a line feed.
fn ends_with_line_feed(s: &String) -> (r: bool)
    ensures
        r == (s@.len() > 0 && s@.last() == '\n'),
{
    let v = str_to_chars(s.as_str());
    v.len() > 0 && v[v.len() - 1] == '\n'
}

} // verus!
