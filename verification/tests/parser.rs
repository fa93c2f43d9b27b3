use rst::parser::blocks::RstError;
use rst::element_categories::ElementType;
use rst::elements::{Document, Elem, HasChildren, Node};
use rst::parser::conversion::whitespace_normalize_name;
use rst::elements::{document_wf_exec, Extra};
use rst::parser::{parse, parse_only, prepare_source, RstParser};
use rst::transforms::{standard_transform, transformable};

const SECTIONS: &str = "\
Intro before first section title

Level 1
*******

-------
Level 2
-------

Level 3
=======

L1 again
********

L3 again, skipping L2
=====================
";

fn section(n: &Node) -> &Elem {
    match n {
        Node::Element(e) if e.element_type == ElementType::Section => e,
        other => panic!("Expected section, not {:?}", other),
    }
}

fn element(n: &Node) -> &Elem {
    match n {
        Node::Element(e) => e,
        Node::Text(t) => panic!("Expected an element, not the text {:?}", t),
    }
}

fn text(n: &Node) -> &str {
    match n {
        Node::Text(t) => t.as_str(),
        Node::Element(e) => panic!("Expected a text, not {:?}", e),
    }
}

fn check_skipped_section(doctree: &Document) {
    let lvl0 = doctree.children();
    assert_eq!(lvl0.len(), 3, "Should be a paragraph and 2 sections: {:?}", lvl0);

    let p = element(&lvl0[0]);
    assert_eq!(p.element_type, ElementType::Paragraph);
    assert_eq!(p.children.len(), 1);
    assert_eq!(text(&p.children[0]), "Intro before first section title");

    let lvl1a = section(&lvl0[1]).children();
    assert_eq!(lvl1a.len(), 2, "The 1st lvl1 section should have (a title and) a single lvl2 section as child: {:?}", lvl1a);
    let lvl2 = section(&lvl1a[1]).children();
    assert_eq!(lvl2.len(), 2, "The lvl2 section should have (a title and) a single lvl3 section as child: {:?}", lvl2);
    let lvl3a = section(&lvl2[1]).children();
    assert_eq!(lvl3a.len(), 1, "The 1st lvl3 section should just a title: {:?}", lvl3a);

    let lvl1b = section(&lvl0[2]).children();
    assert_eq!(lvl1b.len(), 2, "The 2nd lvl1 section should have (a title and) a single lvl2 section as child: {:?}", lvl1b);
    let lvl3b = section(&lvl1b[1]).children();
    assert_eq!(lvl3b.len(), 1, "The 2nd lvl3 section should have just a title: {:?}", lvl3b);
}

#[test]
fn tests_convert_skipped_section() {
    let doctree = parse(SECTIONS).unwrap();
    check_skipped_section(&doctree);
}

#[test]
fn conversion_convert_skipped_section() {
    let doctree = parse(SECTIONS).unwrap();
    check_skipped_section(&doctree);
}

#[test]
fn sections_get_ids_from_titles() {
    let doctree = parse_only(SECTIONS).unwrap();
    let s = section(&doctree.children()[1]);
    assert_eq!(s.common.ids.len(), 1);
    assert_eq!(s.common.ids[0].0, "level-1");
    assert_eq!(element(&s.children[0]).element_type, ElementType::Title);
}

#[test]
fn blocks_in_order() {
    let blocks = RstParser::blocks("Title\n=====\n\npara\n").unwrap();
    assert_eq!(blocks.len(), 2);
}

#[test]
fn normalize_names() {
    assert_eq!(whitespace_normalize_name("  a \t b\n c  "), "a b c");
    assert_eq!(whitespace_normalize_name(""), "");
}

#[test]
fn prepare_expands_tabs_and_ends_lines() {
    assert_eq!(prepare_source("a\tb"), "a        b\n");
    assert_eq!(prepare_source("line\n"), "line\n");
    assert_eq!(prepare_source(""), "\n");
}

#[test]
fn emphasis_and_literal() {
    let d = parse("line *with markup* and ``code``\n").unwrap();
    let p = element(&d.children()[0]);
    assert_eq!(p.element_type, ElementType::Paragraph);
    assert_eq!(text(&p.children[0]), "line ");
    assert_eq!(element(&p.children[1]).element_type, ElementType::Emphasis);
    assert_eq!(element(&p.children[3]).element_type, ElementType::Literal);
}

#[test]
fn invalid_target_url_is_an_error() {
    let r = parse(".. _a: http://exa mple.com\n");
    assert!(r.is_err());
    assert!(!matches!(r, Err(RstError::UnresolvedFootnoteReference)));
}

#[test]
fn auto_numbered_footnotes_get_numbers() {
    let d = parse("See [#]_ and [#]_.\n\n.. [#] one\n.. [#] two\n").unwrap();
    assert!(transformable(&parse_only("See [#]_.\n\n.. [#] one\n").unwrap()));
    let p = element(&d.children()[0]);
    let r1 = element(&p.children[1]);
    assert_eq!(r1.element_type, ElementType::FootnoteReference);
    assert_eq!(text(&r1.children[0]), "1");
    let r2 = element(&p.children[3]);
    assert_eq!(text(&r2.children[0]), "2");
    let f1 = element(&d.children()[1]);
    assert_eq!(f1.element_type, ElementType::Footnote);
    assert_eq!(f1.common.ids[0].0, "footnote-1");
    let label = element(&f1.children[0]);
    assert_eq!(label.element_type, ElementType::Label);
    assert_eq!(text(&label.children[0]), "1");
}

#[test]
fn footnote_reference_without_footnote_is_refused() {
    let d = parse_only("See [#]_.\n").unwrap();
    assert!(!transformable(&d));
    assert!(matches!(parse("See [#]_.\n"), Err(RstError::UnresolvedFootnoteReference)));
}

#[test]
fn substitutions_are_replaced() {
    let d = parse("A |x| here.\n\n.. |x| replace:: thing\n").unwrap();
    assert_eq!(d.children().len(), 1);
    let p = element(&d.children()[0]);
    assert_eq!(text(&p.children[0]), "A ");
    assert_eq!(text(&p.children[1]), "thing");
    assert_eq!(text(&p.children[2]), " here.");
}

#[test]
fn undefined_substitution_is_problematic() {
    let d = parse("A |y|.\n").unwrap();
    let p = element(&d.children()[0]);
    let prob = element(&p.children[1]);
    assert_eq!(prob.element_type, ElementType::Problematic);
    assert_eq!(text(&prob.children[0]), "|y|");
}

#[test]
fn standard_transform_keeps_plain_documents() {
    let d = parse_only("One.\n\nTwo.\n").unwrap();
    let t = standard_transform(d);
    assert_eq!(t.children().len(), 2);
}

fn has_type_anywhere(ns: &[Node], t: ElementType) -> bool {
    ns.iter().any(|n| match n {
        Node::Text(_) => false,
        Node::Element(e) => e.element_type == t || has_type_anywhere(&e.children, t),
    })
}

fn sections_begin_with_titles(ns: &[Node]) -> bool {
    ns.iter().all(|n| match n {
        Node::Text(_) => true,
        Node::Element(e) => {
            let titled = e.element_type != ElementType::Section
                || matches!(e.children.first(), Some(Node::Element(t)) if t.element_type == ElementType::Title);
            titled && sections_begin_with_titles(&e.children)
        }
    })
}

#[test]
fn no_substitution_definition_remains() {
    let src = "Title\n=====\n\nA |x| and |y|.\n\n.. |x| replace:: one\n\n- item |x|\n\n  .. |y| replace:: two\n";
    let before = parse_only(src).unwrap();
    assert!(has_type_anywhere(before.children(), ElementType::SubstitutionDefinition));
    let after = parse(src).unwrap();
    assert!(!has_type_anywhere(after.children(), ElementType::SubstitutionDefinition));
    assert!(!has_type_anywhere(after.children(), ElementType::SubstitutionReference));
}

#[test]
fn every_section_begins_with_its_title() {
    let d = parse(SECTIONS).unwrap();
    assert!(has_type_anywhere(d.children(), ElementType::Section));
    assert!(sections_begin_with_titles(d.children()));
}

#[test]
fn preparing_twice_changes_nothing() {
    for s in ["a\tb", "", "x\n", "\t\tc\n\n", "no end"] {
        let once = prepare_source(s);
        assert_eq!(prepare_source(&once), once);
        assert!(once.ends_with('\n'));
        assert!(!once.contains('\t'));
    }
}

#[test]
fn auto_number_skips_taken_numbers() {
    let d = parse("See [1]_ and [#]_.\n\n.. [1] manual\n.. [#] auto\n").unwrap();
    let f2 = element(&d.children()[2]);
    assert_eq!(f2.element_type, ElementType::Footnote);
    let label = element(&f2.children[0]);
    assert_eq!(text(&label.children[0]), "2");
}

#[test]
fn parsed_documents_are_well_formed() {
    for src in [SECTIONS, "See [#]_.\n\n.. [#] Note.\n", "A |x| here.\n\n.. |x| replace:: thing\n", "- a\n- b\n\n  quoted\n"] {
        assert!(document_wf_exec(&parse_only(src).unwrap()));
        assert!(document_wf_exec(&parse(src).unwrap()));
    }
}

#[test]
fn normalizing_twice_changes_nothing() {
    for s in ["  a \t b\u{1c}c  ", "", "one", "x\n\ny"] {
        let once = whitespace_normalize_name(s);
        assert_eq!(whitespace_normalize_name(&once), once);
        assert!(!once.starts_with(' ') && !once.ends_with(' ') && !once.contains("  "));
    }
}

#[test]
fn plain_documents_come_out_unchanged() {
    let d = parse_only("Title\n=====\n\nOne *two* ``three``.\n\n- item\n").unwrap();
    let before = format!("{:?}", d);
    let t = standard_transform(d);
    assert_eq!(format!("{:?}", t), before);
}

#[test]
fn footnote_references_and_back_references_agree() {
    let d = parse("See [#]_ and [#]_, again [1]_.\n\n.. [#] one\n.. [#] two\n").unwrap();
    let p = element(&d.children()[0]);
    let refs: Vec<&Elem> = p.children.iter().filter_map(|n| match n {
        Node::Element(e) if e.element_type == ElementType::FootnoteReference => Some(e.as_ref()),
        _ => None,
    }).collect();
    assert_eq!(refs.len(), 3);
    for r in &refs {
        let (rid, refid) = match &r.extra {
            Extra::FootnoteReference(x) => (r.common.ids[0].0.clone(), x.refid.as_ref().unwrap().0.clone()),
            other => panic!("{:?}", other),
        };
        let f = d.children().iter().map(element).find(|f| f.common.ids.iter().any(|i| i.0 == refid)).unwrap();
        assert_eq!(text(&element(&f.children[0]).children[0]), text(&r.children[0]));
        match &f.extra {
            Extra::Footnote(x) => assert!(x.backrefs.iter().any(|b| b.0 == rid)),
            other => panic!("{:?}", other),
        }
    }
}
