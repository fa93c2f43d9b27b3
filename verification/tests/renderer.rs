use rst::parser::parse;
use rst::renderer::options::RenderOptionsBuilder;
use rst::renderer::options::RenderOptions;
use rst::renderer::{footnote_symbol, html_supported, render_html};

fn check_renders_to(rst: &str, expected: &str) {
    let doc = parse(rst).expect("Cannot parse");
    assert!(html_supported(&doc, false));
    let result = render_html(&doc, false).expect("Render error");
    assert_eq!(result.as_str().trim(), expected);
}

#[test]
fn no_required_fields_added_to_render_options() {
    let o = RenderOptionsBuilder::default().build();
    assert_eq!(o.initial_header_level, 0);
    assert!(o.standalone);
}

#[test]
fn render_options_from_bool() {
    let o: RenderOptions = false.into();
    assert!(!o.standalone);
    assert_eq!(o.initial_header_level, 0);
    let mut b = RenderOptionsBuilder::default();
    b.initial_header_level(2);
    assert_eq!(b.build().initial_header_level, 2);
}

#[test]
fn test_simple_string() {
    check_renders_to("Simple String", "<p>Simple String</p>");
}

#[test]
fn test_simple_string_with_markup() {
    check_renders_to("Simple String with *markup*", "<p>Simple String with <em>markup</em></p>");
}

#[test]
fn test_check_inline_literal() {
    check_renders_to(
        "Simple String with an even simpler ``inline literal``",
        "<p>Simple String with an even simpler <code>inline literal</code></p>",
    );
}

#[test]
fn test_two_paragraphs() {
    check_renders_to("One paragraph.\n\nTwo paragraphs.", "<p>One paragraph.</p>\n<p>Two paragraphs.</p>");
}

#[test]
fn named_reference_across_a_line_break() {
    check_renders_to(
        "\
A simple `named reference`_ with stuff in between the
reference and the target.

.. _`named reference`: http://www.test.com/test_url
",
        "\
<p>A simple <a href=\"http://www.test.com/test_url\">named reference</a> with stuff in between the reference and the target.</p>",
    );
}

#[test]
fn escapes_text() {
    check_renders_to("a < b & \"c\" > d", "<p>a &lt; b &amp; &quot;c&quot; &gt; d</p>");
}

#[test]
fn sections_and_headings() {
    let doc = parse("Title\n=====\n\nText\n").unwrap();
    let html = render_html(&doc, false).unwrap();
    assert_eq!(html, "<section id=\"title\">\n<h1>Title</h1>\n<p>Text</p>\n</section>");
}

#[test]
fn standalone_page() {
    let doc = parse("Hi\n").unwrap();
    let html = render_html(&doc, true).unwrap();
    assert!(html.starts_with("<!doctype html>\n<html>\n<head>"));
    assert!(html.ends_with("<p>Hi</p></body>\n</html>\n"));
}

#[test]
fn footnotes_are_listed() {
    let doc = parse("See [#]_.\n\n.. [#] Note.\n").unwrap();
    let html = render_html(&doc, false).unwrap();
    assert_eq!(
        html,
        "\n<p>See <a>1</a>.</p>\n<ol class=\"footnotes\">\n<li value=\"1\"><p>Note.</p></li>\n</ol>\n"
    );
}

#[test]
fn undefined_substitution_cannot_be_rendered() {
    let doc = parse("A |y|.\n").unwrap();
    assert!(!html_supported(&doc, false));
}

#[test]
fn footnote_symbols_cycle() {
    assert_eq!(footnote_symbol(1), "*");
    assert_eq!(footnote_symbol(2), "\u{2020}");
    assert_eq!(footnote_symbol(10), "\u{2663}");
    assert_eq!(footnote_symbol(11), "*");
}

#[test]
fn standalone_wraps_the_bare_rendering() {
    let doc = parse("Some *text*.\n").unwrap();
    let bare = render_html(&doc, false).unwrap();
    let page = render_html(&doc, true).unwrap();
    assert!(page.len() > bare.len());
    let at = page.find(&bare).unwrap();
    assert!(page[..at].starts_with("<!doctype html>\n<html>\n<head>"));
    assert!(page[..at].ends_with("<body>\n"));
    assert_eq!(&page[at + bare.len()..], "</body>\n</html>\n");
}

#[test]
fn plain_text_is_written_as_it_is() {
    check_renders_to("plain words, no specials", "<p>plain words, no specials</p>");
}

#[test]
fn test_section_hierarchy() {
    check_renders_to(
        "\
+++++
Title
+++++

Not A Subtitle
==============

Some stuff

Section
-------

Some more stuff

Another Section
...............

And even more stuff
",
        "\
<section id=\"title\">
<h1>Title</h1>
<section id=\"not-a-subtitle\">
<h2>Not A Subtitle</h2>
<p>Some stuff</p>
<section id=\"section\">
<h3>Section</h3>
<p>Some more stuff</p>
<section id=\"another-section\">
<h4>Another Section</h4>
<p>And even more stuff</p>
</section>
</section>
</section>
</section>",
    );
}

#[test]
fn test_bullet_list() {
    check_renders_to(
        "\
* bullet
* list
",
        "\
<ul>
<li><p>bullet</p></li>
<li><p>list</p></li>
</ul>",
    );
}

#[test]
fn unescaping_gives_back_the_text() {
    let text = "a < b & \"c\" > d &amp; e";
    let doc = parse(text).unwrap();
    let html = render_html(&doc, false).unwrap();
    let inner = html.trim().strip_prefix("<p>").unwrap().strip_suffix("</p>").unwrap();
    assert!(!inner.contains('<') && !inner.contains('>') && !inner.contains('"'));
    let back = inner.replace("&quot;", "\"").replace("&gt;", ">").replace("&lt;", "<").replace("&amp;", "&");
    assert_eq!(back, text);
}
