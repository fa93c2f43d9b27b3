# rst

A reStructuredText parser, document tree and HTML renderer, written in Verus with its
behaviour stated in contracts and proved.

- `src/elements.rs`, `src/element_categories.rs`, `src/extra_attributes.rs`,
  `src/attribute_types.rs`, `src/url.rs`, `src/target.rs`: the document tree, modelled
  after Docutils' doctree, with a view of every type and the content models of the
  element types. Builders admit only children that the parent's content model admits;
  parsed and transformed documents are well formed (`document_wf`).
- `src/parser/`: the block grammar (`grammar.rs` states it, `body.rs` and `explicit.rs`
  implement it), inline markup (`inline.rs`) and section nesting (`sections.rs`).
- `src/transforms/`: the standard transforms in three passes: footnote numbering,
  reference and target collection, substitution and reference resolution.
- `src/renderer/`: the HTML renderer, stated as a function from document views to text.
- `app/`: the command line tool (argument handling, file and standard input, JSON, XML
  and JSON-schema output through serde).
