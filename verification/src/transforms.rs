//! The standard transforms: footnotes numbered and labelled, footnote references tied to
//! their footnotes, hyperlink references given the URLs of their targets, substitution
//! references replaced by the text that their definitions give.
pub mod numbers;
pub mod assoc;
pub mod pass1;
pub mod pass2;
pub mod pass3;
pub mod removal;
pub mod wellformed;
pub mod plain;
pub mod links;
pub mod agreement;

use vstd::prelude::*;

use self::pass1::{p1_nodes, p1_nodes_exec, p1_start, Pass1};
use self::pass2::{p2_nodes, p2_nodes_exec, p2_start, Pass2};
use self::pass3::{p3_nodes, p3_nodes_exec};
use crate::elements::{document_wf, Document, DocumentView};
use self::plain::nodes_plain;

verus! {

/// Whether the standard transforms can handle a document: every footnote reference can be
/// numbered, and every reference that needs a target names exactly one.
pub open spec fn transform_ok(d: DocumentView) -> bool {
    let r1 = p1_nodes(p1_start(), d.children);
    p2_nodes(r1.0, p2_start(), r1.1).ok
}

/// The document after the standard transforms.
pub open spec fn spec_standard_transform(d: DocumentView) -> DocumentView {
    let r1 = p1_nodes(p1_start(), d.children);
    let s2 = p2_nodes(r1.0, p2_start(), r1.1);
    DocumentView { children: p3_nodes(r1.0, s2, r1.1) }
}

/// Runs the three passes; `None` where the document cannot be transformed.
pub fn try_standard_transform(doc: Document) -> (r: Option<Document>)
    ensures
        match r {
            Some(d) => transform_ok(doc.view()) && d.view() == spec_standard_transform(doc.view()),
            None => !transform_ok(doc.view()),
        },
        document_wf(doc.view()) ==> (r matches Some(d) ==> document_wf(d.view())),
        nodes_plain(doc.view().children) ==> (r matches Some(d) && d.view() == doc.view()),
{
    proof {
        if document_wf(doc.view()) {
            self::wellformed::law_transform_keeps_well_formed(doc.view());
        }
        if nodes_plain(doc.view().children) {
            self::plain::law_transform_keeps_plain_documents(doc.view());
        }
    }
    let mut p1 = Pass1::new();
    let children = p1_nodes_exec(&mut p1, &doc.children);
    let mut p2 = Pass2::new();
    p2_nodes_exec(&p1, &mut p2, &children);
    if !p2.ok {
        return None;
    }
    Some(Document { children: p3_nodes_exec(&p1, &p2, &children) })
}

/// Numbers and labels footnotes, ties footnote references to their footnotes, gives
/// references the URLs of their targets and replaces substitution references by the text
/// of their definitions, which are removed.
pub fn standard_transform(doc: Document) -> (r: Document)
    requires
        transform_ok(doc.view()),
    ensures
        r.view() == spec_standard_transform(doc.view()),
        document_wf(doc.view()) ==> document_wf(r.view()),
        nodes_plain(doc.view().children) ==> r.view() == doc.view(),
{
    match try_standard_transform(doc) {
        Some(d) => d,
        None => Document { children: Vec::new() },
    }
}

/// Whether the standard transforms can handle a document.
pub fn transformable(doc: &Document) -> (r: bool)
    ensures
        r == transform_ok(doc.view()),
{
    let mut p1 = Pass1::new();
    let children = p1_nodes_exec(&mut p1, &doc.children);
    let mut p2 = Pass2::new();
    p2_nodes_exec(&p1, &mut p2, &children);
    p2.ok
}

} // verus!
