//! The document tree: elements with common attributes, extra attributes and children.
use vstd::prelude::*;

use crate::attribute_types::{FixedSpace, NameToken, ID};
use crate::element_categories::{
    spec_category_has, spec_content_model, spec_extra_kind, Category, ContentModel, ElementType,
    ExtraKind,
};
use crate::extra_attributes as a;
use crate::extra_attributes::{ids_view, names_view, strings_view, opt_string_view};

verus! {

/// Attributes that every element has.
#[derive(Debug)]
pub struct CommonAttributes {
    /// Unique identifier keys.
    pub ids: Vec<ID>,
    /// Names of the element, typically from its title or content.
    pub names: Vec<NameToken>,
    /// The file the element originates from.
    pub source: Option<String>,
    pub classes: Vec<String>,
}

pub struct CommonView {
    pub ids: Seq<Seq<char>>,
    pub names: Seq<Seq<char>>,
    pub source: Option<Seq<char>>,
    pub classes: Seq<Seq<char>>,
}

impl View for CommonAttributes {
    type V = CommonView;

    open spec fn view(&self) -> CommonView {
        CommonView {
            ids: ids_view(self.ids@),
            names: names_view(self.names@),
            source: opt_string_view(self.source),
            classes: strings_view(self.classes@),
        }
    }
}

pub open spec fn empty_common() -> CommonView {
    CommonView { ids: Seq::empty(), names: Seq::empty(), source: None, classes: Seq::empty() }
}

impl Default for CommonAttributes {
    fn default() -> (r: CommonAttributes)
        ensures
            r@ == empty_common(),
    {
        let r = CommonAttributes { ids: Vec::new(), names: Vec::new(), source: None, classes: Vec::new() };
        assert(r@.ids =~= Seq::<Seq<char>>::empty());
        assert(r@.names =~= Seq::<Seq<char>>::empty());
        assert(r@.classes =~= Seq::<Seq<char>>::empty());
        r
    }
}

impl CommonAttributes {
    pub fn duplicate(&self) -> (r: CommonAttributes)
        ensures
            r@ == self@,
    {
        CommonAttributes {
            ids: a::dup_ids(&self.ids),
            names: a::dup_names(&self.names),
            source: a::dup_opt_string(&self.source),
            classes: a::dup_strings(&self.classes),
        }
    }
}

/// The extra attributes of an element, by the set its type carries.
#[derive(Debug)]
pub enum Extra {
    Plain,
    Space(FixedSpace),
    SubstitutionDefinition(a::SubstitutionDefinition),
    Target(a::Target),
    Raw(a::Raw),
    Image(a::Image),
    BulletList(a::BulletList),
    EnumeratedList(a::EnumeratedList),
    Footnote(a::Footnote),
    Citation(a::Citation),
    SystemMessage(a::SystemMessage),
    Figure(a::Figure),
    OptionArgument(a::OptionArgument),
    Reference(a::Reference),
    FootnoteReference(a::FootnoteReference),
    CitationReference(a::CitationReference),
    SubstitutionReference(a::SubstitutionReference),
    Problematic(a::Problematic),
}

pub enum ExtraView {
    Plain,
    Space(FixedSpace),
    SubstitutionDefinition(a::SubstitutionDefinition),
    Target(a::TargetView),
    Raw(a::RawView),
    Image(a::ImageView),
    BulletList(Option<Seq<char>>),
    EnumeratedList(a::EnumeratedListView),
    Footnote(a::FootnoteView),
    Citation(Seq<Seq<char>>),
    SystemMessage(a::SystemMessageView),
    Figure(a::Figure),
    OptionArgument(Option<Seq<char>>),
    Reference(a::ReferenceView),
    FootnoteReference(a::FootnoteReferenceView),
    CitationReference(a::CitationReferenceView),
    SubstitutionReference(Seq<Seq<char>>),
    Problematic(Option<Seq<char>>),
}

impl View for Extra {
    type V = ExtraView;

    open spec fn view(&self) -> ExtraView {
        match self {
            Extra::Plain => ExtraView::Plain,
            Extra::Space(s) => ExtraView::Space(*s),
            Extra::SubstitutionDefinition(x) => ExtraView::SubstitutionDefinition(*x),
            Extra::Target(x) => ExtraView::Target(x@),
            Extra::Raw(x) => ExtraView::Raw(x@),
            Extra::Image(x) => ExtraView::Image(x@),
            Extra::BulletList(x) => ExtraView::BulletList(opt_string_view(x.bullet)),
            Extra::EnumeratedList(x) => ExtraView::EnumeratedList(x@),
            Extra::Footnote(x) => ExtraView::Footnote(x@),
            Extra::Citation(x) => ExtraView::Citation(ids_view(x.backrefs@)),
            Extra::SystemMessage(x) => ExtraView::SystemMessage(x@),
            Extra::Figure(x) => ExtraView::Figure(*x),
            Extra::OptionArgument(x) => ExtraView::OptionArgument(opt_string_view(x.delimiter)),
            Extra::Reference(x) => ExtraView::Reference(x@),
            Extra::FootnoteReference(x) => ExtraView::FootnoteReference(x@),
            Extra::CitationReference(x) => ExtraView::CitationReference(x@),
            Extra::SubstitutionReference(x) => ExtraView::SubstitutionReference(
                names_view(x.refname@),
            ),
            Extra::Problematic(x) => ExtraView::Problematic(a::opt_id_view(x.refid)),
        }
    }
}

/// Which set of extra attributes a value of `ExtraView` is.
pub open spec fn extra_view_kind(x: ExtraView) -> ExtraKind {
    match x {
        ExtraView::Plain => ExtraKind::Plain,
        ExtraView::Space(_) => ExtraKind::Space,
        ExtraView::SubstitutionDefinition(_) => ExtraKind::SubstitutionDefinition,
        ExtraView::Target(_) => ExtraKind::Target,
        ExtraView::Raw(_) => ExtraKind::Raw,
        ExtraView::Image(_) => ExtraKind::Image,
        ExtraView::BulletList(_) => ExtraKind::BulletList,
        ExtraView::EnumeratedList(_) => ExtraKind::EnumeratedList,
        ExtraView::Footnote(_) => ExtraKind::Footnote,
        ExtraView::Citation(_) => ExtraKind::Citation,
        ExtraView::SystemMessage(_) => ExtraKind::SystemMessage,
        ExtraView::Figure(_) => ExtraKind::Figure,
        ExtraView::OptionArgument(_) => ExtraKind::OptionArgument,
        ExtraView::Reference(_) => ExtraKind::Reference,
        ExtraView::FootnoteReference(_) => ExtraKind::FootnoteReference,
        ExtraView::CitationReference(_) => ExtraKind::CitationReference,
        ExtraView::SubstitutionReference(_) => ExtraKind::SubstitutionReference,
        ExtraView::Problematic(_) => ExtraKind::Problematic,
    }
}

/// The extra attributes an element of type `t` starts with, if it has defaults.
pub open spec fn spec_default_extra(t: ElementType) -> Option<ExtraView> {
    match spec_extra_kind(t) {
        ExtraKind::Plain => Some(ExtraView::Plain),
        ExtraKind::Space => Some(ExtraView::Space(FixedSpace::Preserve)),
        ExtraKind::SubstitutionDefinition => Some(
            ExtraView::SubstitutionDefinition(
                a::SubstitutionDefinition { ltrim: false, rtrim: false },
            ),
        ),
        ExtraKind::Target => Some(
            ExtraView::Target(
                a::TargetView { refuri: None, refid: None, refname: Seq::empty(), anonymous: false },
            ),
        ),
        ExtraKind::Raw => Some(
            ExtraView::Raw(a::RawView { space: FixedSpace::Preserve, format: Seq::empty() }),
        ),
        ExtraKind::Image => None,
        ExtraKind::BulletList => Some(ExtraView::BulletList(None)),
        ExtraKind::EnumeratedList => Some(
            ExtraView::EnumeratedList(
                a::EnumeratedListView { enumtype: None, prefix: None, suffix: None },
            ),
        ),
        ExtraKind::Footnote => Some(
            ExtraView::Footnote(a::FootnoteView { backrefs: Seq::empty(), auto: None }),
        ),
        ExtraKind::Citation => Some(ExtraView::Citation(Seq::empty())),
        ExtraKind::SystemMessage => Some(
            ExtraView::SystemMessage(
                a::SystemMessageView { backrefs: Seq::empty(), level: None, line: None, type_: None },
            ),
        ),
        ExtraKind::Figure => Some(ExtraView::Figure(a::Figure { align: None, width: None })),
        ExtraKind::OptionArgument => Some(ExtraView::OptionArgument(None)),
        ExtraKind::Reference => Some(
            ExtraView::Reference(
                a::ReferenceView { name: None, refuri: None, refid: None, refname: Seq::empty() },
            ),
        ),
        ExtraKind::FootnoteReference => Some(
            ExtraView::FootnoteReference(
                a::FootnoteReferenceView { refid: None, refname: Seq::empty(), auto: None },
            ),
        ),
        ExtraKind::CitationReference => Some(
            ExtraView::CitationReference(
                a::CitationReferenceView { refid: None, refname: Seq::empty() },
            ),
        ),
        ExtraKind::SubstitutionReference => Some(ExtraView::SubstitutionReference(Seq::empty())),
        ExtraKind::Problematic => Some(ExtraView::Problematic(None)),
    }
}

impl Extra {
    /// Which set of extra attributes this is.
    pub fn kind(&self) -> (r: ExtraKind)
        ensures
            r == extra_view_kind(self@),
    {
        match self {
            Extra::Plain => ExtraKind::Plain,
            Extra::Space(_) => ExtraKind::Space,
            Extra::SubstitutionDefinition(_) => ExtraKind::SubstitutionDefinition,
            Extra::Target(_) => ExtraKind::Target,
            Extra::Raw(_) => ExtraKind::Raw,
            Extra::Image(_) => ExtraKind::Image,
            Extra::BulletList(_) => ExtraKind::BulletList,
            Extra::EnumeratedList(_) => ExtraKind::EnumeratedList,
            Extra::Footnote(_) => ExtraKind::Footnote,
            Extra::Citation(_) => ExtraKind::Citation,
            Extra::SystemMessage(_) => ExtraKind::SystemMessage,
            Extra::Figure(_) => ExtraKind::Figure,
            Extra::OptionArgument(_) => ExtraKind::OptionArgument,
            Extra::Reference(_) => ExtraKind::Reference,
            Extra::FootnoteReference(_) => ExtraKind::FootnoteReference,
            Extra::CitationReference(_) => ExtraKind::CitationReference,
            Extra::SubstitutionReference(_) => ExtraKind::SubstitutionReference,
            Extra::Problematic(_) => ExtraKind::Problematic,
        }
    }

    /// The extra attributes an element of type `t` starts with; `None` for images, which
    /// need a URI.
    pub fn default_for(t: ElementType) -> (r: Option<Extra>)
        ensures
            r matches Some(x) ==> spec_default_extra(t) == Some(x@),
            r is None <==> spec_default_extra(t) is None,
    {
        match crate::element_categories::extra_kind(t) {
            ExtraKind::Plain => Some(Extra::Plain),
            ExtraKind::Space => Some(Extra::Space(FixedSpace::Preserve)),
            ExtraKind::SubstitutionDefinition => Some(
                Extra::SubstitutionDefinition(
                    a::SubstitutionDefinition { ltrim: false, rtrim: false },
                ),
            ),
            ExtraKind::Target => {
                let x = a::Target { refuri: None, refid: None, refname: Vec::new(), anonymous: false };
                assert(x@.refname =~= Seq::<Seq<char>>::empty());
                Some(Extra::Target(x))
            },
            ExtraKind::Raw => {
                let x = a::Raw { space: FixedSpace::Preserve, format: Vec::new() };
                assert(x@.format =~= Seq::<Seq<char>>::empty());
                Some(Extra::Raw(x))
            },
            ExtraKind::Image => None,
            ExtraKind::BulletList => Some(Extra::BulletList(a::BulletList { bullet: None })),
            ExtraKind::EnumeratedList => Some(
                Extra::EnumeratedList(
                    a::EnumeratedList { enumtype: None, prefix: None, suffix: None },
                ),
            ),
            ExtraKind::Footnote => {
                let x = a::Footnote { backrefs: Vec::new(), auto: None };
                assert(x@.backrefs =~= Seq::<Seq<char>>::empty());
                Some(Extra::Footnote(x))
            },
            ExtraKind::Citation => {
                let x = a::Citation { backrefs: Vec::new() };
                assert(ids_view(x.backrefs@) =~= Seq::<Seq<char>>::empty());
                Some(Extra::Citation(x))
            },
            ExtraKind::SystemMessage => {
                let x = a::SystemMessage { backrefs: Vec::new(), level: None, line: None, type_: None };
                assert(x@.backrefs =~= Seq::<Seq<char>>::empty());
                Some(Extra::SystemMessage(x))
            },
            ExtraKind::Figure => Some(Extra::Figure(a::Figure { align: None, width: None })),
            ExtraKind::OptionArgument => Some(
                Extra::OptionArgument(a::OptionArgument { delimiter: None }),
            ),
            ExtraKind::Reference => {
                let x = a::Reference { name: None, refuri: None, refid: None, refname: Vec::new() };
                assert(x@.refname =~= Seq::<Seq<char>>::empty());
                Some(Extra::Reference(x))
            },
            ExtraKind::FootnoteReference => {
                let x = a::FootnoteReference { refid: None, refname: Vec::new(), auto: None };
                assert(x@.refname =~= Seq::<Seq<char>>::empty());
                Some(Extra::FootnoteReference(x))
            },
            ExtraKind::CitationReference => {
                let x = a::CitationReference { refid: None, refname: Vec::new() };
                assert(x@.refname =~= Seq::<Seq<char>>::empty());
                Some(Extra::CitationReference(x))
            },
            ExtraKind::SubstitutionReference => {
                let x = a::SubstitutionReference { refname: Vec::new() };
                assert(names_view(x.refname@) =~= Seq::<Seq<char>>::empty());
                Some(Extra::SubstitutionReference(x))
            },
            ExtraKind::Problematic => Some(Extra::Problematic(a::Problematic { refid: None })),
        }
    }

    /// A copy of these attributes.
    pub fn duplicate(&self) -> (r: Extra)
        ensures
            r@ == self@,
    {
        match self {
            Extra::Plain => Extra::Plain,
            Extra::Space(s) => Extra::Space(*s),
            Extra::SubstitutionDefinition(x) => Extra::SubstitutionDefinition(*x),
            Extra::Target(x) => Extra::Target(x.duplicate()),
            Extra::Raw(x) => Extra::Raw(x.duplicate()),
            Extra::Image(x) => Extra::Image(x.duplicate()),
            Extra::BulletList(x) => Extra::BulletList(
                a::BulletList { bullet: a::dup_opt_string(&x.bullet) },
            ),
            Extra::EnumeratedList(x) => Extra::EnumeratedList(
                a::EnumeratedList {
                    enumtype: x.enumtype,
                    prefix: a::dup_opt_string(&x.prefix),
                    suffix: a::dup_opt_string(&x.suffix),
                },
            ),
            Extra::Footnote(x) => Extra::Footnote(
                a::Footnote { backrefs: a::dup_ids(&x.backrefs), auto: x.auto },
            ),
            Extra::Citation(x) => Extra::Citation(a::Citation { backrefs: a::dup_ids(&x.backrefs) }),
            Extra::SystemMessage(x) => Extra::SystemMessage(
                a::SystemMessage {
                    backrefs: a::dup_ids(&x.backrefs),
                    level: x.level,
                    line: x.line,
                    type_: a::dup_opt_name(&x.type_),
                },
            ),
            Extra::Figure(x) => Extra::Figure(*x),
            Extra::OptionArgument(x) => Extra::OptionArgument(
                a::OptionArgument { delimiter: a::dup_opt_string(&x.delimiter) },
            ),
            Extra::Reference(x) => Extra::Reference(x.duplicate()),
            Extra::FootnoteReference(x) => Extra::FootnoteReference(
                a::FootnoteReference {
                    refid: a::dup_opt_id(&x.refid),
                    refname: a::dup_names(&x.refname),
                    auto: x.auto,
                },
            ),
            Extra::CitationReference(x) => Extra::CitationReference(
                a::CitationReference {
                    refid: a::dup_opt_id(&x.refid),
                    refname: a::dup_names(&x.refname),
                },
            ),
            Extra::SubstitutionReference(x) => Extra::SubstitutionReference(
                a::SubstitutionReference { refname: a::dup_names(&x.refname) },
            ),
            Extra::Problematic(x) => Extra::Problematic(
                a::Problematic { refid: a::dup_opt_id(&x.refid) },
            ),
        }
    }
}

/// A node of the document tree: a text, or an element.
#[derive(Debug)]
pub enum Node {
    Text(String),
    Element(Box<Elem>),
}

/// An element of the document tree.
#[derive(Debug)]
pub struct Elem {
    pub element_type: ElementType,
    pub common: CommonAttributes,
    pub extra: Extra,
    pub children: Vec<Node>,
}

/// The root of a document tree.
#[derive(Debug)]
pub struct Document {
    pub children: Vec<Node>,
}

/// What a node means in contracts.
pub enum NodeView {
    Text(Seq<char>),
    Element(ElemView),
}

/// What an element means in contracts.
pub struct ElemView {
    pub element_type: ElementType,
    pub common: CommonView,
    pub extra: ExtraView,
    pub children: Seq<NodeView>,
}

/// What a document means in contracts.
pub struct DocumentView {
    pub children: Seq<NodeView>,
}

impl Node {
    pub open spec fn view(&self) -> NodeView
        decreases self,
    {
        match self {
            Node::Text(s) => NodeView::Text(s@),
            Node::Element(e) => NodeView::Element(e.view()),
        }
    }
}

impl Elem {
    pub open spec fn view(&self) -> ElemView
        decreases self,
    {
        ElemView {
            element_type: self.element_type,
            common: self.common@,
            extra: self.extra@,
            children: nodes_view(self.children@),
        }
    }
}

/// The views of a list of nodes.
pub open spec fn nodes_view(v: Seq<Node>) -> Seq<NodeView>
    decreases v,
{
    Seq::new(v.len(), |i: int| if 0 <= i < v.len() { v[i].view() } else { NodeView::Text(Seq::empty()) })
}

/// The view of a list of nodes has one entry per node.
pub broadcast proof fn lemma_nodes_view_len(v: Seq<Node>)
    ensures
        #[trigger] nodes_view(v).len() == v.len(),
{
}

/// Each entry of the view of a list of nodes is the view of that node.
pub broadcast proof fn lemma_nodes_view_index(v: Seq<Node>, i: int)
    requires
        0 <= i < v.len(),
    ensures
        #[trigger] nodes_view(v)[i] == v[i].view(),
{
}

pub broadcast group group_nodes_view {
    lemma_nodes_view_len,
    lemma_nodes_view_index,
}

impl Document {
    pub open spec fn view(&self) -> DocumentView {
        DocumentView { children: nodes_view(self.children@) }
    }
}

} // verus!

verus! {

/// Whether node `n` belongs to category `cat`; only inline categories admit text.
pub open spec fn in_category(cat: Category, n: NodeView) -> bool {
    match n {
        NodeView::Text(_) => cat == Category::TextOrInlineElement,
        NodeView::Element(e) => spec_category_has(cat, e.element_type),
    }
}

/// Whether content model `cm` admits node `n` as a child.
pub open spec fn admits(cm: ContentModel, n: NodeView) -> bool {
    match cm {
        ContentModel::Empty => false,
        ContentModel::Text => n is Text,
        ContentModel::Of(cat) => in_category(cat, n),
        ContentModel::Only(t) => n matches NodeView::Element(e) && e.element_type == t,
    }
}

/// Whether extra attributes `x` are the set that element type `t` carries.
pub open spec fn extra_fits(t: ElementType, x: ExtraView) -> bool {
    extra_view_kind(x) == spec_extra_kind(t)
}

/// A node is well formed when every element in it carries the extra attributes of its
/// type and holds only children that its content model admits.
pub open spec fn node_wf(n: NodeView) -> bool
    decreases n,
{
    match n {
        NodeView::Text(_) => true,
        NodeView::Element(e) => {
            &&& extra_fits(e.element_type, e.extra)
            &&& forall|i: int|
                0 <= i < e.children.len() ==> admits(
                    spec_content_model(e.element_type),
                    #[trigger] e.children[i],
                ) && node_wf(e.children[i])
        },
    }
}

/// A document is well formed when its children are well-formed structural sub-elements.
pub open spec fn document_wf(d: DocumentView) -> bool {
    forall|i: int|
        0 <= i < d.children.len() ==> in_category(Category::StructuralSubElement, #[trigger] d.children[i])
            && node_wf(d.children[i])
}

/// Whether content model `cm` admits every node of `ns`, each well formed.
pub open spec fn all_fit(cm: ContentModel, ns: Seq<NodeView>) -> bool {
    forall|i: int| 0 <= i < ns.len() ==> admits(cm, #[trigger] ns[i]) && node_wf(ns[i])
}

/// An element with the default extra attributes of its type and no children is well
/// formed.
pub proof fn law_new_element_well_formed(t: ElementType)
    requires
        spec_default_extra(t) is Some,
    ensures
        node_wf(NodeView::Element(elem_view_with(t, spec_default_extra(t).unwrap(), Seq::empty()))),
{
}

/// Appending a well-formed child that an element's content model admits keeps the element
/// well formed; appending a well-formed structural sub-element keeps a document well
/// formed.
pub proof fn law_append_keeps_well_formed(e: ElemView, d: DocumentView, child: NodeView)
    ensures
        node_wf(NodeView::Element(e)) && admits(spec_content_model(e.element_type), child) && node_wf(child)
            ==> node_wf(NodeView::Element(ElemView { children: e.children.push(child), ..e })),
        document_wf(d) && in_category(Category::StructuralSubElement, child) && node_wf(child)
            ==> document_wf(DocumentView { children: d.children.push(child) }),
{
    let e2 = ElemView { children: e.children.push(child), ..e };
    if node_wf(NodeView::Element(e)) && admits(spec_content_model(e.element_type), child) && node_wf(child) {
        assert forall|i: int| 0 <= i < e2.children.len() implies admits(
            spec_content_model(e2.element_type),
            #[trigger] e2.children[i],
        ) && node_wf(e2.children[i]) by {
            if i < e.children.len() {
                assert(e2.children[i] == e.children[i]);
            }
        }
    }
    let d2 = DocumentView { children: d.children.push(child) };
    if document_wf(d) && in_category(Category::StructuralSubElement, child) && node_wf(child) {
        assert forall|i: int| 0 <= i < d2.children.len() implies in_category(
            Category::StructuralSubElement,
            #[trigger] d2.children[i],
        ) && node_wf(d2.children[i]) by {
            if i < d.children.len() {
                assert(d2.children[i] == d.children[i]);
            }
        }
    }
}

/// An element of type `t` with default attributes and the given children.
pub open spec fn elem_view_with(t: ElementType, x: ExtraView, children: Seq<NodeView>) -> ElemView {
    ElemView { element_type: t, common: empty_common(), extra: x, children: children }
}

/// Whether node `n` belongs to category `cat`.
pub fn category_admits(cat: Category, n: &Node) -> (r: bool)
    ensures
        r == in_category(cat, n.view()),
{
    match n {
        Node::Text(_) => match cat {
            Category::TextOrInlineElement => true,
            _ => false,
        },
        Node::Element(e) => crate::element_categories::category_has(cat, e.element_type),
    }
}

/// Copies a list of nodes.
pub fn duplicate_nodes(v: &Vec<Node>) -> (r: Vec<Node>)
    ensures
        nodes_view(r@) == nodes_view(v@),
    decreases v@, 1nat,
{
    broadcast use group_nodes_view;

    let mut r: Vec<Node> = Vec::new();
    let mut i: usize = 0;
    while i < v.len()
        invariant
            i <= v@.len(),
            r@.len() == i,
            forall|j: int| 0 <= j < i ==> #[trigger] r@[j].view() == v@[j].view(),
        decreases v@.len() - i,
    {
        let n = v[i].duplicate();
        r.push(n);
        i += 1;
    }
    assert(nodes_view(r@) =~= nodes_view(v@));
    r
}

/// Whether content model `cm` admits node `n`.
pub fn admits_exec(cm: ContentModel, n: &Node) -> (r: bool)
    ensures
        r == admits(cm, n.view()),
{
    match cm {
        ContentModel::Empty => false,
        ContentModel::Text => match n {
            Node::Text(_) => true,
            Node::Element(_) => false,
        },
        ContentModel::Of(cat) => category_admits(cat, n),
        ContentModel::Only(t) => match n {
            Node::Text(_) => false,
            Node::Element(e) => e.element_type == t,
        },
    }
}

/// Whether a node is well formed: each element in it carries the extra attributes of its
/// type and holds only children that its content model admits.
pub fn node_wf_exec(n: &Node) -> (r: bool)
    ensures
        r == node_wf(n.view()),
    decreases n, 0nat,
{
    match n {
        Node::Text(s) => {
            assert(n.view() == NodeView::Text(s@));
            assert(node_wf(NodeView::Text(s@)));
            true
        },
        Node::Element(e) => {
            let t = e.element_type;
            if e.extra.kind() != crate::element_categories::extra_kind(t) {
                return false;
            }
            let r = children_fit_exec(crate::element_categories::content_model(t), &e.children);
            assert(n.view() == NodeView::Element(e.view()));
            assert(e.view().children == nodes_view(e.children@));
            assert(extra_fits(t, e.view().extra));
            assert(r == all_fit(spec_content_model(t), e.view().children));
            assert(r == node_wf(NodeView::Element(e.view())));
            r
        },
    }
}

/// Whether content model `cm` admits every node of `v`, each well formed.
pub fn children_fit_exec(cm: ContentModel, v: &Vec<Node>) -> (r: bool)
    ensures
        r == all_fit(cm, nodes_view(v@)),
    decreases v@, 1nat,
{
    broadcast use group_nodes_view;

    let mut i: usize = 0;
    while i < v.len()
        invariant
            i <= v@.len(),
            forall|j: int| 0 <= j < i ==> admits(cm, #[trigger] nodes_view(v@)[j]) && node_wf(nodes_view(v@)[j]),
        decreases v@.len() - i,
    {
        if !admits_exec(cm, &v[i]) || !node_wf_exec(&v[i]) {
            assert(nodes_view(v@)[i as int] == v@[i as int].view());
            assert(!(admits(cm, nodes_view(v@)[i as int]) && node_wf(nodes_view(v@)[i as int])));
            return false;
        }
        i += 1;
    }
    true
}

/// Whether a document is well formed: its children are well-formed structural
/// sub-elements.
pub fn document_wf_exec(d: &Document) -> (r: bool)
    ensures
        r == document_wf(d.view()),
{
    let r = children_fit_exec(ContentModel::Of(Category::StructuralSubElement), &d.children);
    proof {
        lemma_document_wf_fit(d.view());
    }
    r
}

/// A document is well formed exactly when its children fit the model of structural
/// sub-elements.
pub proof fn lemma_document_wf_fit(d: DocumentView)
    ensures
        document_wf(d) == all_fit(ContentModel::Of(Category::StructuralSubElement), d.children),
{
    let cm = ContentModel::Of(Category::StructuralSubElement);
    if document_wf(d) {
        assert forall|i: int| 0 <= i < d.children.len() implies admits(cm, #[trigger] d.children[i]) && node_wf(d.children[i]) by {
            assert(in_category(Category::StructuralSubElement, d.children[i]));
        }
    }
    if all_fit(cm, d.children) {
        assert forall|i: int| 0 <= i < d.children.len() implies in_category(
            Category::StructuralSubElement,
            #[trigger] d.children[i],
        ) && node_wf(d.children[i]) by {
            assert(admits(cm, d.children[i]));
        }
    }
}

impl Node {
    /// A text node.
    pub fn text(s: &str) -> (r: Node)
        ensures
            r.view() == NodeView::Text(s@),
    {
        Node::Text(s.to_owned())
    }

    /// A node holding element `e`.
    pub fn element(e: Elem) -> (r: Node)
        ensures
            r.view() == NodeView::Element(e.view()),
    {
        Node::Element(Box::new(e))
    }

    /// A deep copy of this node.
    pub fn duplicate(&self) -> (r: Node)
        ensures
            r.view() == self.view(),
        decreases self, 0nat,
    {
        match self {
            Node::Text(s) => Node::Text(s.clone()),
            Node::Element(e) => {
                let c = Elem {
                    element_type: e.element_type,
                    common: e.common.duplicate(),
                    extra: e.extra.duplicate(),
                    children: duplicate_nodes(&e.children),
                };
                Node::Element(Box::new(c))
            },
        }
    }
}

impl Elem {
    /// An element of type `t` with no attributes and no children.
    pub fn new(t: ElementType) -> (r: Elem)
        requires
            spec_default_extra(t) is Some,
        ensures
            r.view() == elem_view_with(t, spec_default_extra(t).unwrap(), Seq::empty()),
    {
        broadcast use group_nodes_view;

        let extra = match Extra::default_for(t) {
            Some(x) => x,
            None => Extra::Plain,
        };
        let r = Elem { element_type: t, common: CommonAttributes::default(), extra, children: Vec::new() };
        assert(r.view().children =~= Seq::<NodeView>::empty());
        r
    }

    /// An element of type `t` with no attributes and the given children, each of which its
    /// content model admits.
    pub fn with_children(t: ElementType, children: Vec<Node>) -> (r: Elem)
        requires
            spec_default_extra(t) is Some,
            all_fit(spec_content_model(t), nodes_view(children@)),
        ensures
            r.view() == elem_view_with(t, spec_default_extra(t).unwrap(), nodes_view(children@)),
    {
        let extra = match Extra::default_for(t) {
            Some(x) => x,
            None => Extra::Plain,
        };
        Elem { element_type: t, common: CommonAttributes::default(), extra, children }
    }

    /// An element of type `t` with the given extra attributes and no children.
    pub fn with_extra(t: ElementType, extra: Extra) -> (r: Elem)
        requires
            extra_fits(t, extra@),
        ensures
            r.view() == elem_view_with(t, extra@, Seq::empty()),
    {
        broadcast use group_nodes_view;

        let r = Elem { element_type: t, common: CommonAttributes::default(), extra, children: Vec::new() };
        assert(nodes_view(r.children@) =~= Seq::<NodeView>::empty());
        r
    }

    /// An element of type `t` with the given extra attributes and children, each of which
    /// its content model admits.
    pub fn with_extra_and_children(t: ElementType, extra: Extra, children: Vec<Node>) -> (r: Elem)
        requires
            extra_fits(t, extra@),
            all_fit(spec_content_model(t), nodes_view(children@)),
        ensures
            r.view() == elem_view_with(t, extra@, nodes_view(children@)),
    {
        Elem { element_type: t, common: CommonAttributes::default(), extra, children }
    }

    /// An element of type `t` with the given extra attributes and children, for the parser,
    /// which checks the content models on the finished document.
    pub(crate) fn assemble(t: ElementType, extra: Extra, children: Vec<Node>) -> (r: Elem)
        requires
            extra_fits(t, extra@),
        ensures
            r.view() == elem_view_with(t, extra@, nodes_view(children@)),
    {
        Elem { element_type: t, common: CommonAttributes::default(), extra, children }
    }

    /// Adds an identifier.
    pub fn add_id(&mut self, id: ID)
        ensures
            final(self).view() == (ElemView {
                common: CommonView { ids: old(self).view().common.ids.push(id@), ..old(self).view().common },
                ..old(self).view()
            }),
    {
        self.common.ids.push(id);
        assert(ids_view(self.common.ids@) =~= ids_view(old(self).common.ids@).push(id@));
    }

    /// Adds a name.
    pub fn add_name(&mut self, name: NameToken)
        ensures
            final(self).view() == (ElemView {
                common: CommonView {
                    names: old(self).view().common.names.push(name@),
                    ..old(self).view().common
                },
                ..old(self).view()
            }),
    {
        self.common.names.push(name);
        assert(names_view(self.common.names@) =~= names_view(old(self).common.names@).push(name@));
    }

    /// Adds a class.
    pub fn add_class(&mut self, class: String)
        ensures
            final(self).view() == (ElemView {
                common: CommonView {
                    classes: old(self).view().common.classes.push(class@),
                    ..old(self).view().common
                },
                ..old(self).view()
            }),
    {
        self.common.classes.push(class);
        assert(strings_view(self.common.classes@) =~= strings_view(old(self).common.classes@).push(class@));
    }
}

/// Elements and documents that hold children.
pub trait HasChildren {
    spec fn children_view(&self) -> Seq<NodeView>;

    /// Whether `n` may be appended: the content model admits it, and it is well formed.
    spec fn admits_child(&self, n: NodeView) -> bool;

    /// Whether every child is one that may be appended, at any depth.
    spec fn well_formed(&self) -> bool;

    /// The children.
    fn children(&self) -> (r: &Vec<Node>)
        ensures
            nodes_view(r@) == self.children_view(),
    ;

    /// Appends one child.
    fn append_child(&mut self, child: Node)
        requires
            old(self).admits_child(child.view()),
        ensures
            final(self).children_view() == old(self).children_view().push(child.view()),
            old(self).well_formed() ==> final(self).well_formed(),
    ;

    /// Appends copies of the given children.
    fn append_children(&mut self, more: &[Node])
        requires
            forall|i: int| 0 <= i < more@.len() ==> old(self).admits_child(#[trigger] more@[i].view()),
        ensures
            final(self).children_view() == old(self).children_view() + nodes_view(more@),
            old(self).well_formed() ==> final(self).well_formed(),
    ;
}

impl HasChildren for Elem {
    open spec fn children_view(&self) -> Seq<NodeView> {
        self.view().children
    }

    open spec fn admits_child(&self, n: NodeView) -> bool {
        admits(spec_content_model(self.element_type), n) && node_wf(n)
    }

    open spec fn well_formed(&self) -> bool {
        node_wf(NodeView::Element(self.view()))
    }

    fn children(&self) -> (r: &Vec<Node>) {
        &self.children
    }

    fn append_child(&mut self, child: Node)
        ensures
            final(self).view() == (ElemView { children: old(self).view().children.push(child.view()), ..old(self).view() }),
    {
        broadcast use group_nodes_view;

        self.children.push(child);
        assert(nodes_view(self.children@) =~= nodes_view(old(self).children@).push(child.view()));
    }

    fn append_children(&mut self, more: &[Node])
        ensures
            final(self).view() == (ElemView { children: old(self).view().children + nodes_view(more@), ..old(self).view() }),
    {
        broadcast use group_nodes_view;

        let mut i: usize = 0;
        while i < more.len()
            invariant
                i <= more@.len(),
                self.element_type == old(self).element_type,
                self.common@ == old(self).common@,
                self.extra@ == old(self).extra@,
                nodes_view(self.children@) == nodes_view(old(self).children@) + nodes_view(more@.subrange(0, i as int)),
            decreases more@.len() - i,
        {
            let n = more[i].duplicate();
            let ghost before = nodes_view(self.children@);
            self.children.push(n);
            assert(nodes_view(self.children@) =~= before.push(n.view()));
            i += 1;
            assert(nodes_view(more@.subrange(0, i as int)) =~= nodes_view(more@.subrange(0, i - 1)).push(more@[i - 1].view()));
        }
        assert(more@.subrange(0, more@.len() as int) =~= more@);
    }
}

impl Default for Document {
    fn default() -> (r: Document)
        ensures
            r.view().children == Seq::<NodeView>::empty(),
    {
        broadcast use group_nodes_view;

        let r = Document { children: Vec::new() };
        assert(nodes_view(r.children@) =~= Seq::<NodeView>::empty());
        r
    }
}

impl Document {
    /// A document with the given children, each a well-formed structural sub-element.
    pub fn with_children(children: Vec<Node>) -> (r: Document)
        requires
            all_fit(ContentModel::Of(Category::StructuralSubElement), nodes_view(children@)),
        ensures
            document_wf(r.view()),
            r.view().children == nodes_view(children@),
    {
        Document { children }
    }
}

impl HasChildren for Document {
    open spec fn children_view(&self) -> Seq<NodeView> {
        self.view().children
    }

    open spec fn admits_child(&self, n: NodeView) -> bool {
        in_category(Category::StructuralSubElement, n) && node_wf(n)
    }

    open spec fn well_formed(&self) -> bool {
        document_wf(self.view())
    }

    fn children(&self) -> (r: &Vec<Node>) {
        &self.children
    }

    fn append_child(&mut self, child: Node) {
        broadcast use group_nodes_view;

        self.children.push(child);
        assert(nodes_view(self.children@) =~= nodes_view(old(self).children@).push(child.view()));
        proof {
            let d = old(self).view();
            if document_wf(d) {
                let d2 = self.view();
                assert forall|i: int| 0 <= i < d2.children.len() implies in_category(
                    Category::StructuralSubElement,
                    #[trigger] d2.children[i],
                ) && node_wf(d2.children[i]) by {
                    if i < d.children.len() {
                        assert(d2.children[i] == d.children[i]);
                    }
                }
            }
        }
    }

    fn append_children(&mut self, more: &[Node]) {
        broadcast use group_nodes_view;

        let mut i: usize = 0;
        while i < more.len()
            invariant
                i <= more@.len(),
                nodes_view(self.children@) == nodes_view(old(self).children@) + nodes_view(more@.subrange(0, i as int)),
            decreases more@.len() - i,
        {
            let n = more[i].duplicate();
            let ghost before = nodes_view(self.children@);
            self.children.push(n);
            assert(nodes_view(self.children@) =~= before.push(n.view()));
            i += 1;
            assert(nodes_view(more@.subrange(0, i as int)) =~= nodes_view(more@.subrange(0, i - 1)).push(more@[i - 1].view()));
        }
        assert(more@.subrange(0, more@.len() as int) =~= more@);
    }
}

/// Access to the extra attributes of an element.
pub trait ExtraAttributes {
    spec fn extra_view(&self) -> ExtraView;

    /// The extra attributes.
    fn extra(&self) -> (r: &Extra)
        ensures
            r@ == self.extra_view(),
    ;

    /// Replaces the extra attributes.
    fn set_extra(&mut self, extra: Extra)
        ensures
            final(self).extra_view() == extra@,
    ;
}

impl ExtraAttributes for Elem {
    open spec fn extra_view(&self) -> ExtraView {
        self.extra@
    }

    fn extra(&self) -> (r: &Extra) {
        &self.extra
    }

    fn set_extra(&mut self, extra: Extra)
        ensures
            final(self).view() == (ElemView { extra: extra@, ..old(self).view() }),
    {
        self.extra = extra;
    }
}

/// Access to the attributes that all elements share.
pub trait Element {
    spec fn common_view(&self) -> CommonView;

    /// Unique identifier keys.
    fn ids(&self) -> (r: &Vec<ID>)
        ensures
            ids_view(r@) == self.common_view().ids,
    ;

    /// Names, typically from the element's title or content.
    fn names(&self) -> (r: &Vec<NameToken>)
        ensures
            names_view(r@) == self.common_view().names,
    ;

    /// The file the element originates from.
    fn source(&self) -> (r: &Option<String>)
        ensures
            opt_string_view(*r) == self.common_view().source,
    ;

    fn classes(&self) -> (r: &Vec<String>)
        ensures
            strings_view(r@) == self.common_view().classes,
    ;
}

impl Element for Elem {
    open spec fn common_view(&self) -> CommonView {
        self.common@
    }

    fn ids(&self) -> (r: &Vec<ID>) {
        &self.common.ids
    }

    fn names(&self) -> (r: &Vec<NameToken>) {
        &self.common.names
    }

    fn source(&self) -> (r: &Option<String>) {
        &self.common.source
    }

    fn classes(&self) -> (r: &Vec<String>) {
        &self.common.classes
    }
}

} // verus!
