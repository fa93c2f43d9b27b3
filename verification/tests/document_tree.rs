use rst::element_categories::category_has;
use rst::transforms::numbers::{decimal_exec, label_number_exec};
use rst::attribute_types::{AlignHV, Measure, MeasureUnit, NameToken, ID};
use rst::element_categories::{Category, ElementType};
use rst::elements::{document_wf_exec, node_wf_exec, category_admits, Document, Elem, Extra, ExtraAttributes, HasChildren, Node};
use rst::extra_attributes::BulletList;
use rst::extra_attributes::Image;
use rst::target::Target;
use rst::url::{Url, UrlError};

fn paragraph() -> Node {
    Node::element(Elem::new(ElementType::Paragraph))
}

fn image_inline() -> Node {
    let url: Url = "https://example.com/image.jpg".parse().unwrap();
    Node::element(Elem::with_extra(ElementType::ImageInline, Extra::Image(Image::new(url))))
}

#[test]
fn imperative() {
    let mut doc = Document::default();
    let mut title = Elem::new(ElementType::Title);
    title.append_child(Node::text("Hi"));
    title.append_child(image_inline());
    doc.append_child(Node::element(title));
    assert_eq!(doc.children().len(), 1);
    println!("{:?}", doc);
}

#[test]
fn descriptive() {
    let doc = Document::with_children(vec![Node::element(Elem::with_children(
        ElementType::Title,
        vec![Node::text("Hi"), image_inline()],
    ))]);
    match &doc.children()[0] {
        Node::Element(t) => assert_eq!(t.children().len(), 2),
        Node::Text(_) => panic!("expected a title"),
    }
    println!("{:?}", doc);
}

#[test]
fn test_imperative() {
    let mut doc = Document::default();
    let mut title = Elem::new(ElementType::Title);
    title.append_child(Node::text("Hi"));
    doc.append_child(Node::element(title));
    println!("{:?}", doc);
}

#[test]
fn test_descriptive() {
    let doc = Document::with_children(vec![Node::element(Elem::with_children(
        ElementType::Title,
        vec![Node::text("Hi")],
    ))]);
    println!("{:?}", doc);
}

#[test]
fn mod_test() {
    let mut doc = Document::default();
    let mut title = Elem::new(ElementType::Title);
    title.append_child(Node::text("Hi"));
    doc.append_child(Node::element(title));
    println!("{:?}", doc);
}

#[test]
fn lib_test() {
    let mut doc = Document::default();
    let title = Elem::new(ElementType::Title);
    doc.append_child(Node::element(title));
    println!("{:?}", doc);
}

#[test]
fn basic() {
    assert!(category_admits(Category::BodyElement, &paragraph()));
}

#[test]
fn more() {
    assert!(category_admits(Category::SubStructure, &paragraph()));
}

#[test]
fn even_more() {
    assert!(category_admits(Category::StructuralSubElement, &paragraph()));
}

#[test]
fn super_() {
    let be = paragraph();
    assert!(category_admits(Category::BodyElement, &be));
    assert!(category_admits(Category::StructuralSubElement, &be));
}

#[test]
fn test_convert_basic() {
    assert!(category_admits(Category::BodyElement, &paragraph()));
}

#[test]
fn test_convert_more() {
    assert!(category_admits(Category::SubStructure, &paragraph()));
}

#[test]
fn test_convert_even_more() {
    assert!(category_admits(Category::StructuralSubElement, &paragraph()));
}

#[test]
fn test_convert_super() {
    let be = paragraph();
    assert!(category_admits(Category::BodyElement, &be));
    assert!(category_admits(Category::StructuralSubElement, &be));
}

#[test]
fn text_is_no_body_element() {
    assert!(!category_admits(Category::BodyElement, &Node::text("x")));
    assert!(category_admits(Category::TextOrInlineElement, &Node::text("x")));
}

#[test]
fn id_from_name_replaces_spaces() {
    assert_eq!(ID::from_name("named reference").0, "named-reference");
    assert_eq!(NameToken::from_str_slice("a b").0, "a b");
}

#[test]
fn align_and_measure() {
    assert_eq!(AlignHV::parse("left").unwrap(), AlignHV::Left);
    assert!(AlignHV::parse("sideways").is_err());
    let m = Measure::parse("1.5em").unwrap();
    assert_eq!(m.value, "1.5");
    assert_eq!(m.unit, MeasureUnit::Em);
    assert!(Measure::parse("wide").is_err());
}

#[test]
fn url_parse_absolute_and_relative() {
    assert_eq!(Url::parse_absolute("https://example.com").unwrap().as_str(), "https://example.com/");
    assert!(Url::parse_absolute("/images/a.png").is_err());
    assert_eq!(Url::parse_relative("/images/a.png").unwrap().as_str(), "/images/a.png");
    assert_eq!(Url::parse("images/a.png").unwrap().as_str(), "images/a.png");
    assert_eq!(Url::parse("https:").unwrap().as_str(), "https:");
    assert!(Url::parse_relative("mailto:someone").is_ok());
}

fn test_f(pairs: &[(i64, i64)], x: i64, y: i64) -> Result<(i64, i64), ()> {
    if pairs.contains(&(x, y)) {
        Ok((x, y))
    } else {
        Err(())
    }
}

#[test]
fn print_cartesian() {
    let pairs = rst::cartesian::cartesian_product(&[1, 2, 3], &[4, 5, 6]);
    assert_eq!(test_f(&pairs, 1, 4), Ok((1, 4)));
    assert_eq!(test_f(&pairs, 1, 3), Err(()));
    assert_eq!(test_f(&pairs, 3, 5), Ok((3, 5)));
    assert_eq!(pairs.len(), 9);
    assert_eq!(pairs[1], (1, 5));
}

#[test]
fn body_elements_fit_where_sub_structures_do() {
    for t in [ElementType::Paragraph, ElementType::BulletList, ElementType::Footnote, ElementType::Table] {
        assert!(category_has(Category::BodyElement, t));
        assert!(category_has(Category::SubStructure, t));
        assert!(category_has(Category::StructuralSubElement, t));
        assert!(category_has(Category::SubTopic, t));
        assert!(category_has(Category::SubFigure, t));
    }
    assert!(category_has(Category::SubStructure, ElementType::Section));
    assert!(!category_has(Category::BodyElement, ElementType::Section));
    assert!(category_has(Category::StructuralSubElement, ElementType::Title));
    assert!(!category_has(Category::SubStructure, ElementType::Title));
}

#[test]
fn footnote_numbers_read_back() {
    for n in [1usize, 7, 10, 42, 1000, usize::MAX] {
        let digits = decimal_exec(n);
        assert_eq!(digits.iter().collect::<String>(), n.to_string());
        assert_eq!(label_number_exec(&digits), Ok(n));
    }
    assert!(label_number_exec(&decimal_exec(0)).is_err());
}

#[test]
fn extra_attributes_are_replaced() {
    let mut e = Elem::with_extra(ElementType::BulletList, Extra::Plain);
    assert!(matches!(e.extra(), Extra::Plain));
    e.set_extra(Extra::BulletList(BulletList { bullet: Some("-".to_string()) }));
    match e.extra() {
        Extra::BulletList(b) => assert_eq!(b.bullet.as_deref(), Some("-")),
        other => panic!("Expected bullet list attributes, not {:?}", other),
    }
    assert_eq!(e.element_type, ElementType::BulletList);
}

#[test]
fn targets_are_urls_or_paths() {
    let u = Target::parse("https://example.com/a b");
    assert!(matches!(u, Target::Url(_)));
    assert_eq!(u.as_text(), "https://example.com/a%20b");
    let p = Target::parse("  images/pic.png \n");
    assert!(matches!(p, Target::Path(_)));
    assert_eq!(p.as_text(), "images/pic.png");
}

#[test]
fn identifiers_and_classes_are_added_in_order() {
    let mut e = Elem::new(ElementType::Paragraph);
    e.add_id(ID::from_name("first one"));
    e.add_id(ID::from_name("second"));
    e.add_name(NameToken::from_str_slice("first one"));
    e.add_class("note".to_string());
    assert_eq!(e.common.ids.iter().map(|i| i.0.as_str()).collect::<Vec<_>>(), vec!["first-one", "second"]);
    assert_eq!(e.common.names[0].0, "first one");
    assert_eq!(e.common.classes, vec!["note".to_string()]);
}

#[test]
fn measure() {
    let _a: Measure = "1.5em".parse().unwrap();
    let _b: Measure = "20 mm".parse().unwrap();
    let _c: Measure = ".5in".parse().unwrap();
    let _d: Measure = "1.pc".parse().unwrap();
}

#[test]
fn test_parse_measure() {
    let a: Measure = "1.5em".parse().unwrap();
    let b: Measure = "20 mm".parse().unwrap();
    let c: Measure = ".5in".parse().unwrap();
    let d: Measure = "1.pc".parse().unwrap();
    assert_eq!((a.value.as_str(), a.unit), ("1.5", MeasureUnit::Em));
    assert_eq!((b.value.as_str(), b.unit), ("20", MeasureUnit::Mm));
    assert_eq!((c.value.as_str(), c.unit), (".5", MeasureUnit::In));
    assert_eq!((d.value.as_str(), d.unit), ("1.", MeasureUnit::Pc));
}

#[test]
fn imperative_and_descriptive_build_the_same_tree() {
    let mut a = Document::default();
    let mut title = Elem::new(ElementType::Title);
    title.append_child(Node::text("Hi"));
    title.append_child(image_inline());
    a.append_child(Node::element(title));
    let b = Document::with_children(vec![Node::element(Elem::with_children(
        ElementType::Title,
        vec![Node::text("Hi"), image_inline()],
    ))]);
    assert_eq!(format!("{:?}", a), format!("{:?}", b));
    let mut c = Document::default();
    c.append_children(&b.children);
    assert_eq!(format!("{:?}", c), format!("{:?}", b));
}

#[test]
fn content_models_are_checked() {
    let mut list = Elem::new(ElementType::BulletList);
    assert!(node_wf_exec(&Node::element(Elem::new(ElementType::BulletList))));
    list.children.push(Node::text("loose text"));
    assert!(!node_wf_exec(&Node::element(list)));
    let item = Elem::with_children(ElementType::ListItem, vec![paragraph()]);
    let list = Elem::with_children(ElementType::BulletList, vec![Node::element(item)]);
    assert!(node_wf_exec(&Node::element(list)));
    let doc = Document { children: vec![Node::text("loose text")] };
    assert!(!document_wf_exec(&doc));
    let doc = Document::with_children(vec![paragraph()]);
    assert!(document_wf_exec(&doc));
}

#[test]
fn label_errors_read_as_std_words_them() {
    for t in ["", "+", "+0", "0", "-3", "1a", "99999999999999999999999", "+7"] {
        let chars: Vec<char> = t.chars().collect();
        let ours = label_number_exec(&chars).map_err(|m| m.iter().collect::<String>());
        let std = t.parse::<std::num::NonZeroUsize>().map(|n| n.get()).map_err(|e| e.to_string());
        assert_eq!(ours, std, "label {:?}", t);
    }
}

#[test]
fn url_errors_are_those_of_the_url_parser() {
    match Url::parse_absolute("foo.html") {
        Err(UrlError::Syntax(e)) => assert_eq!(e, url::ParseError::RelativeUrlWithoutBase),
        other => panic!("{:?}", other),
    }
    let base = url::Url::parse("https://a/b").unwrap();
    let expected = url::Url::options().base_url(Some(&base)).parse("http://exa mple.com").unwrap_err();
    match Url::parse_relative("http://exa mple.com") {
        Err(UrlError::Syntax(e)) => assert_eq!(e, expected),
        other => panic!("{:?}", other),
    }
    match Url::parse("http://[::1") {
        Err(UrlError::Syntax(e)) => assert_eq!(e, url::ParseError::InvalidIpv6Address),
        other => panic!("{:?}", other),
    }
}

#[test]
fn measures_in_other_decimal_digits_are_refused() {
    assert!(Measure::parse("\u{661}5em").is_err());
    assert!(Measure::parse("x\u{663}.5em").is_err());
    assert!(Measure::parse("\u{661}em then 2em").is_err());
    let m = Measure::parse("width: 20 mm").unwrap();
    assert_eq!((m.value.as_str(), m.unit), ("20", MeasureUnit::Mm));
}
