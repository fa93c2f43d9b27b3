//! The element types of the document tree, their content models, and the categories
//! that content models admit.
use vstd::prelude::*;

verus! {

/// The kinds of elements of the document tree.
#[derive(Clone, Copy, Debug, PartialEq, Eq, Structural, Hash)]
pub enum ElementType {
    Section,
    Topic,
    Sidebar,
    Title,
    Subtitle,
    Decoration,
    Docinfo,
    Transition,
    Author,
    Authors,
    Organization,
    Address,
    Contact,
    Version,
    Revision,
    Status,
    Date,
    Copyright,
    Field,
    Header,
    Footer,
    Paragraph,
    LiteralBlock,
    DoctestBlock,
    MathBlock,
    Rubric,
    SubstitutionDefinition,
    Comment,
    Pending,
    Target,
    Raw,
    Image,
    Compound,
    Container,
    BulletList,
    EnumeratedList,
    DefinitionList,
    FieldList,
    OptionList,
    LineBlock,
    BlockQuote,
    Admonition,
    Attention,
    Hint,
    Note,
    Caution,
    Danger,
    Error,
    Important,
    Tip,
    Warning,
    Footnote,
    Citation,
    SystemMessage,
    Figure,
    Table,
    TableGroup,
    TableHead,
    TableBody,
    TableRow,
    TableEntry,
    TableColspec,
    ListItem,
    DefinitionListItem,
    Term,
    Classifier,
    Definition,
    FieldName,
    FieldBody,
    OptionListItem,
    OptionGroup,
    Description,
    Option_,
    OptionString,
    OptionArgument,
    Line,
    Attribution,
    Label,
    Caption,
    Legend,
    Emphasis,
    Literal,
    Reference,
    Strong,
    FootnoteReference,
    CitationReference,
    SubstitutionReference,
    TitleReference,
    Abbreviation,
    Acronym,
    Superscript,
    Subscript,
    Inline,
    Problematic,
    Generated,
    Math,
    TargetInline,
    RawInline,
    ImageInline,
}

/// The categories of nodes that content models admit.
#[derive(Clone, Copy, Debug, PartialEq, Eq, Structural, Hash)]
pub enum Category {
    StructuralSubElement,
    SubStructure,
    BodyElement,
    BibliographicElement,
    TextOrInlineElement,
    AuthorInfo,
    DecorationElement,
    SubTopic,
    SubSidebar,
    SubDLItem,
    SubField,
    SubOptionListItem,
    SubOption,
    SubLineBlock,
    SubBlockQuote,
    SubFootnote,
    SubFigure,
    SubTable,
    SubTableGroup,
}

/// What an element of some type may hold as children.
#[derive(Clone, Copy, Debug, PartialEq, Eq, Structural)]
pub enum ContentModel {
    /// No children at all.
    Empty,
    /// Text only.
    Text,
    /// Nodes of a category.
    Of(Category),
    /// Elements of one type only.
    Only(ElementType),
}

/// Which set of extra attributes an element type carries.
#[derive(Clone, Copy, Debug, PartialEq, Eq, Structural)]
pub enum ExtraKind {
    Plain,
    Space,
    SubstitutionDefinition,
    Target,
    Raw,
    Image,
    BulletList,
    EnumeratedList,
    Footnote,
    Citation,
    SystemMessage,
    Figure,
    OptionArgument,
    Reference,
    FootnoteReference,
    CitationReference,
    SubstitutionReference,
    Problematic,
}

/// Whether elements of type `t` belong to category `cat`.
pub open spec fn spec_category_has(cat: Category, t: ElementType) -> bool {
    match cat {
        Category::StructuralSubElement => match t {
            ElementType::Title | ElementType::Subtitle | ElementType::Decoration | ElementType::Docinfo | ElementType::Topic | ElementType::Sidebar | ElementType::Transition | ElementType::Section | ElementType::Paragraph | ElementType::LiteralBlock | ElementType::DoctestBlock | ElementType::MathBlock | ElementType::Rubric | ElementType::SubstitutionDefinition | ElementType::Comment | ElementType::Pending | ElementType::Target | ElementType::Raw | ElementType::Image | ElementType::Compound | ElementType::Container | ElementType::BulletList | ElementType::EnumeratedList | ElementType::DefinitionList | ElementType::FieldList | ElementType::OptionList | ElementType::LineBlock | ElementType::BlockQuote | ElementType::Admonition | ElementType::Attention | ElementType::Hint | ElementType::Note | ElementType::Caution | ElementType::Danger | ElementType::Error | ElementType::Important | ElementType::Tip | ElementType::Warning | ElementType::Footnote | ElementType::Citation | ElementType::SystemMessage | ElementType::Figure | ElementType::Table => true,
            _ => false,
        },
        Category::SubStructure => match t {
            ElementType::Topic | ElementType::Sidebar | ElementType::Transition | ElementType::Section | ElementType::Paragraph | ElementType::LiteralBlock | ElementType::DoctestBlock | ElementType::MathBlock | ElementType::Rubric | ElementType::SubstitutionDefinition | ElementType::Comment | ElementType::Pending | ElementType::Target | ElementType::Raw | ElementType::Image | ElementType::Compound | ElementType::Container | ElementType::BulletList | ElementType::EnumeratedList | ElementType::DefinitionList | ElementType::FieldList | ElementType::OptionList | ElementType::LineBlock | ElementType::BlockQuote | ElementType::Admonition | ElementType::Attention | ElementType::Hint | ElementType::Note | ElementType::Caution | ElementType::Danger | ElementType::Error | ElementType::Important | ElementType::Tip | ElementType::Warning | ElementType::Footnote | ElementType::Citation | ElementType::SystemMessage | ElementType::Figure | ElementType::Table => true,
            _ => false,
        },
        Category::BodyElement => match t {
            ElementType::Paragraph | ElementType::LiteralBlock | ElementType::DoctestBlock | ElementType::MathBlock | ElementType::Rubric | ElementType::SubstitutionDefinition | ElementType::Comment | ElementType::Pending | ElementType::Target | ElementType::Raw | ElementType::Image | ElementType::Compound | ElementType::Container | ElementType::BulletList | ElementType::EnumeratedList | ElementType::DefinitionList | ElementType::FieldList | ElementType::OptionList | ElementType::LineBlock | ElementType::BlockQuote | ElementType::Admonition | ElementType::Attention | ElementType::Hint | ElementType::Note | ElementType::Caution | ElementType::Danger | ElementType::Error | ElementType::Important | ElementType::Tip | ElementType::Warning | ElementType::Footnote | ElementType::Citation | ElementType::SystemMessage | ElementType::Figure | ElementType::Table => true,
            _ => false,
        },
        Category::BibliographicElement => match t {
            ElementType::Authors | ElementType::Author | ElementType::Organization | ElementType::Address | ElementType::Contact | ElementType::Version | ElementType::Revision | ElementType::Status | ElementType::Date | ElementType::Copyright | ElementType::Field => true,
            _ => false,
        },
        Category::TextOrInlineElement => match t {
            ElementType::Emphasis | ElementType::Strong | ElementType::Literal | ElementType::Reference | ElementType::FootnoteReference | ElementType::CitationReference | ElementType::SubstitutionReference | ElementType::TitleReference | ElementType::Abbreviation | ElementType::Acronym | ElementType::Superscript | ElementType::Subscript | ElementType::Inline | ElementType::Problematic | ElementType::Generated | ElementType::Math | ElementType::TargetInline | ElementType::RawInline | ElementType::ImageInline => true,
            _ => false,
        },
        Category::AuthorInfo => match t {
            ElementType::Author | ElementType::Organization | ElementType::Address | ElementType::Contact => true,
            _ => false,
        },
        Category::DecorationElement => match t {
            ElementType::Header | ElementType::Footer => true,
            _ => false,
        },
        Category::SubTopic => match t {
            ElementType::Title | ElementType::Paragraph | ElementType::LiteralBlock | ElementType::DoctestBlock | ElementType::MathBlock | ElementType::Rubric | ElementType::SubstitutionDefinition | ElementType::Comment | ElementType::Pending | ElementType::Target | ElementType::Raw | ElementType::Image | ElementType::Compound | ElementType::Container | ElementType::BulletList | ElementType::EnumeratedList | ElementType::DefinitionList | ElementType::FieldList | ElementType::OptionList | ElementType::LineBlock | ElementType::BlockQuote | ElementType::Admonition | ElementType::Attention | ElementType::Hint | ElementType::Note | ElementType::Caution | ElementType::Danger | ElementType::Error | ElementType::Important | ElementType::Tip | ElementType::Warning | ElementType::Footnote | ElementType::Citation | ElementType::SystemMessage | ElementType::Figure | ElementType::Table => true,
            _ => false,
        },
        Category::SubSidebar => match t {
            ElementType::Topic | ElementType::Title | ElementType::Subtitle | ElementType::Paragraph | ElementType::LiteralBlock | ElementType::DoctestBlock | ElementType::MathBlock | ElementType::Rubric | ElementType::SubstitutionDefinition | ElementType::Comment | ElementType::Pending | ElementType::Target | ElementType::Raw | ElementType::Image | ElementType::Compound | ElementType::Container | ElementType::BulletList | ElementType::EnumeratedList | ElementType::DefinitionList | ElementType::FieldList | ElementType::OptionList | ElementType::LineBlock | ElementType::BlockQuote | ElementType::Admonition | ElementType::Attention | ElementType::Hint | ElementType::Note | ElementType::Caution | ElementType::Danger | ElementType::Error | ElementType::Important | ElementType::Tip | ElementType::Warning | ElementType::Footnote | ElementType::Citation | ElementType::SystemMessage | ElementType::Figure | ElementType::Table => true,
            _ => false,
        },
        Category::SubDLItem => match t {
            ElementType::Term | ElementType::Classifier | ElementType::Definition => true,
            _ => false,
        },
        Category::SubField => match t {
            ElementType::FieldName | ElementType::FieldBody => true,
            _ => false,
        },
        Category::SubOptionListItem => match t {
            ElementType::OptionGroup | ElementType::Description => true,
            _ => false,
        },
        Category::SubOption => match t {
            ElementType::OptionString | ElementType::OptionArgument => true,
            _ => false,
        },
        Category::SubLineBlock => match t {
            ElementType::LineBlock | ElementType::Line => true,
            _ => false,
        },
        Category::SubBlockQuote => match t {
            ElementType::Attribution | ElementType::Paragraph | ElementType::LiteralBlock | ElementType::DoctestBlock | ElementType::MathBlock | ElementType::Rubric | ElementType::SubstitutionDefinition | ElementType::Comment | ElementType::Pending | ElementType::Target | ElementType::Raw | ElementType::Image | ElementType::Compound | ElementType::Container | ElementType::BulletList | ElementType::EnumeratedList | ElementType::DefinitionList | ElementType::FieldList | ElementType::OptionList | ElementType::LineBlock | ElementType::BlockQuote | ElementType::Admonition | ElementType::Attention | ElementType::Hint | ElementType::Note | ElementType::Caution | ElementType::Danger | ElementType::Error | ElementType::Important | ElementType::Tip | ElementType::Warning | ElementType::Footnote | ElementType::Citation | ElementType::SystemMessage | ElementType::Figure | ElementType::Table => true,
            _ => false,
        },
        Category::SubFootnote => match t {
            ElementType::Label | ElementType::Paragraph | ElementType::LiteralBlock | ElementType::DoctestBlock | ElementType::MathBlock | ElementType::Rubric | ElementType::SubstitutionDefinition | ElementType::Comment | ElementType::Pending | ElementType::Target | ElementType::Raw | ElementType::Image | ElementType::Compound | ElementType::Container | ElementType::BulletList | ElementType::EnumeratedList | ElementType::DefinitionList | ElementType::FieldList | ElementType::OptionList | ElementType::LineBlock | ElementType::BlockQuote | ElementType::Admonition | ElementType::Attention | ElementType::Hint | ElementType::Note | ElementType::Caution | ElementType::Danger | ElementType::Error | ElementType::Important | ElementType::Tip | ElementType::Warning | ElementType::Footnote | ElementType::Citation | ElementType::SystemMessage | ElementType::Figure | ElementType::Table => true,
            _ => false,
        },
        Category::SubFigure => match t {
            ElementType::Caption | ElementType::Legend | ElementType::Paragraph | ElementType::LiteralBlock | ElementType::DoctestBlock | ElementType::MathBlock | ElementType::Rubric | ElementType::SubstitutionDefinition | ElementType::Comment | ElementType::Pending | ElementType::Target | ElementType::Raw | ElementType::Image | ElementType::Compound | ElementType::Container | ElementType::BulletList | ElementType::EnumeratedList | ElementType::DefinitionList | ElementType::FieldList | ElementType::OptionList | ElementType::LineBlock | ElementType::BlockQuote | ElementType::Admonition | ElementType::Attention | ElementType::Hint | ElementType::Note | ElementType::Caution | ElementType::Danger | ElementType::Error | ElementType::Important | ElementType::Tip | ElementType::Warning | ElementType::Footnote | ElementType::Citation | ElementType::SystemMessage | ElementType::Figure | ElementType::Table => true,
            _ => false,
        },
        Category::SubTable => match t {
            ElementType::Title | ElementType::TableGroup => true,
            _ => false,
        },
        Category::SubTableGroup => match t {
            ElementType::TableColspec | ElementType::TableHead | ElementType::TableBody => true,
            _ => false,
        },
    }
}

/// Whether elements of type `t` belong to category `cat`.
#[verifier::when_used_as_spec(spec_category_has)]
pub fn category_has(cat: Category, t: ElementType) -> (r: bool)
    ensures
        r == spec_category_has(cat, t),
{
    match cat {
        Category::StructuralSubElement => match t {
            ElementType::Title | ElementType::Subtitle | ElementType::Decoration | ElementType::Docinfo | ElementType::Topic | ElementType::Sidebar | ElementType::Transition | ElementType::Section | ElementType::Paragraph | ElementType::LiteralBlock | ElementType::DoctestBlock | ElementType::MathBlock | ElementType::Rubric | ElementType::SubstitutionDefinition | ElementType::Comment | ElementType::Pending | ElementType::Target | ElementType::Raw | ElementType::Image | ElementType::Compound | ElementType::Container | ElementType::BulletList | ElementType::EnumeratedList | ElementType::DefinitionList | ElementType::FieldList | ElementType::OptionList | ElementType::LineBlock | ElementType::BlockQuote | ElementType::Admonition | ElementType::Attention | ElementType::Hint | ElementType::Note | ElementType::Caution | ElementType::Danger | ElementType::Error | ElementType::Important | ElementType::Tip | ElementType::Warning | ElementType::Footnote | ElementType::Citation | ElementType::SystemMessage | ElementType::Figure | ElementType::Table => true,
            _ => false,
        },
        Category::SubStructure => match t {
            ElementType::Topic | ElementType::Sidebar | ElementType::Transition | ElementType::Section | ElementType::Paragraph | ElementType::LiteralBlock | ElementType::DoctestBlock | ElementType::MathBlock | ElementType::Rubric | ElementType::SubstitutionDefinition | ElementType::Comment | ElementType::Pending | ElementType::Target | ElementType::Raw | ElementType::Image | ElementType::Compound | ElementType::Container | ElementType::BulletList | ElementType::EnumeratedList | ElementType::DefinitionList | ElementType::FieldList | ElementType::OptionList | ElementType::LineBlock | ElementType::BlockQuote | ElementType::Admonition | ElementType::Attention | ElementType::Hint | ElementType::Note | ElementType::Caution | ElementType::Danger | ElementType::Error | ElementType::Important | ElementType::Tip | ElementType::Warning | ElementType::Footnote | ElementType::Citation | ElementType::SystemMessage | ElementType::Figure | ElementType::Table => true,
            _ => false,
        },
        Category::BodyElement => match t {
            ElementType::Paragraph | ElementType::LiteralBlock | ElementType::DoctestBlock | ElementType::MathBlock | ElementType::Rubric | ElementType::SubstitutionDefinition | ElementType::Comment | ElementType::Pending | ElementType::Target | ElementType::Raw | ElementType::Image | ElementType::Compound | ElementType::Container | ElementType::BulletList | ElementType::EnumeratedList | ElementType::DefinitionList | ElementType::FieldList | ElementType::OptionList | ElementType::LineBlock | ElementType::BlockQuote | ElementType::Admonition | ElementType::Attention | ElementType::Hint | ElementType::Note | ElementType::Caution | ElementType::Danger | ElementType::Error | ElementType::Important | ElementType::Tip | ElementType::Warning | ElementType::Footnote | ElementType::Citation | ElementType::SystemMessage | ElementType::Figure | ElementType::Table => true,
            _ => false,
        },
        Category::BibliographicElement => match t {
            ElementType::Authors | ElementType::Author | ElementType::Organization | ElementType::Address | ElementType::Contact | ElementType::Version | ElementType::Revision | ElementType::Status | ElementType::Date | ElementType::Copyright | ElementType::Field => true,
            _ => false,
        },
        Category::TextOrInlineElement => match t {
            ElementType::Emphasis | ElementType::Strong | ElementType::Literal | ElementType::Reference | ElementType::FootnoteReference | ElementType::CitationReference | ElementType::SubstitutionReference | ElementType::TitleReference | ElementType::Abbreviation | ElementType::Acronym | ElementType::Superscript | ElementType::Subscript | ElementType::Inline | ElementType::Problematic | ElementType::Generated | ElementType::Math | ElementType::TargetInline | ElementType::RawInline | ElementType::ImageInline => true,
            _ => false,
        },
        Category::AuthorInfo => match t {
            ElementType::Author | ElementType::Organization | ElementType::Address | ElementType::Contact => true,
            _ => false,
        },
        Category::DecorationElement => match t {
            ElementType::Header | ElementType::Footer => true,
            _ => false,
        },
        Category::SubTopic => match t {
            ElementType::Title | ElementType::Paragraph | ElementType::LiteralBlock | ElementType::DoctestBlock | ElementType::MathBlock | ElementType::Rubric | ElementType::SubstitutionDefinition | ElementType::Comment | ElementType::Pending | ElementType::Target | ElementType::Raw | ElementType::Image | ElementType::Compound | ElementType::Container | ElementType::BulletList | ElementType::EnumeratedList | ElementType::DefinitionList | ElementType::FieldList | ElementType::OptionList | ElementType::LineBlock | ElementType::BlockQuote | ElementType::Admonition | ElementType::Attention | ElementType::Hint | ElementType::Note | ElementType::Caution | ElementType::Danger | ElementType::Error | ElementType::Important | ElementType::Tip | ElementType::Warning | ElementType::Footnote | ElementType::Citation | ElementType::SystemMessage | ElementType::Figure | ElementType::Table => true,
            _ => false,
        },
        Category::SubSidebar => match t {
            ElementType::Topic | ElementType::Title | ElementType::Subtitle | ElementType::Paragraph | ElementType::LiteralBlock | ElementType::DoctestBlock | ElementType::MathBlock | ElementType::Rubric | ElementType::SubstitutionDefinition | ElementType::Comment | ElementType::Pending | ElementType::Target | ElementType::Raw | ElementType::Image | ElementType::Compound | ElementType::Container | ElementType::BulletList | ElementType::EnumeratedList | ElementType::DefinitionList | ElementType::FieldList | ElementType::OptionList | ElementType::LineBlock | ElementType::BlockQuote | ElementType::Admonition | ElementType::Attention | ElementType::Hint | ElementType::Note | ElementType::Caution | ElementType::Danger | ElementType::Error | ElementType::Important | ElementType::Tip | ElementType::Warning | ElementType::Footnote | ElementType::Citation | ElementType::SystemMessage | ElementType::Figure | ElementType::Table => true,
            _ => false,
        },
        Category::SubDLItem => match t {
            ElementType::Term | ElementType::Classifier | ElementType::Definition => true,
            _ => false,
        },
        Category::SubField => match t {
            ElementType::FieldName | ElementType::FieldBody => true,
            _ => false,
        },
        Category::SubOptionListItem => match t {
            ElementType::OptionGroup | ElementType::Description => true,
            _ => false,
        },
        Category::SubOption => match t {
            ElementType::OptionString | ElementType::OptionArgument => true,
            _ => false,
        },
        Category::SubLineBlock => match t {
            ElementType::LineBlock | ElementType::Line => true,
            _ => false,
        },
        Category::SubBlockQuote => match t {
            ElementType::Attribution | ElementType::Paragraph | ElementType::LiteralBlock | ElementType::DoctestBlock | ElementType::MathBlock | ElementType::Rubric | ElementType::SubstitutionDefinition | ElementType::Comment | ElementType::Pending | ElementType::Target | ElementType::Raw | ElementType::Image | ElementType::Compound | ElementType::Container | ElementType::BulletList | ElementType::EnumeratedList | ElementType::DefinitionList | ElementType::FieldList | ElementType::OptionList | ElementType::LineBlock | ElementType::BlockQuote | ElementType::Admonition | ElementType::Attention | ElementType::Hint | ElementType::Note | ElementType::Caution | ElementType::Danger | ElementType::Error | ElementType::Important | ElementType::Tip | ElementType::Warning | ElementType::Footnote | ElementType::Citation | ElementType::SystemMessage | ElementType::Figure | ElementType::Table => true,
            _ => false,
        },
        Category::SubFootnote => match t {
            ElementType::Label | ElementType::Paragraph | ElementType::LiteralBlock | ElementType::DoctestBlock | ElementType::MathBlock | ElementType::Rubric | ElementType::SubstitutionDefinition | ElementType::Comment | ElementType::Pending | ElementType::Target | ElementType::Raw | ElementType::Image | ElementType::Compound | ElementType::Container | ElementType::BulletList | ElementType::EnumeratedList | ElementType::DefinitionList | ElementType::FieldList | ElementType::OptionList | ElementType::LineBlock | ElementType::BlockQuote | ElementType::Admonition | ElementType::Attention | ElementType::Hint | ElementType::Note | ElementType::Caution | ElementType::Danger | ElementType::Error | ElementType::Important | ElementType::Tip | ElementType::Warning | ElementType::Footnote | ElementType::Citation | ElementType::SystemMessage | ElementType::Figure | ElementType::Table => true,
            _ => false,
        },
        Category::SubFigure => match t {
            ElementType::Caption | ElementType::Legend | ElementType::Paragraph | ElementType::LiteralBlock | ElementType::DoctestBlock | ElementType::MathBlock | ElementType::Rubric | ElementType::SubstitutionDefinition | ElementType::Comment | ElementType::Pending | ElementType::Target | ElementType::Raw | ElementType::Image | ElementType::Compound | ElementType::Container | ElementType::BulletList | ElementType::EnumeratedList | ElementType::DefinitionList | ElementType::FieldList | ElementType::OptionList | ElementType::LineBlock | ElementType::BlockQuote | ElementType::Admonition | ElementType::Attention | ElementType::Hint | ElementType::Note | ElementType::Caution | ElementType::Danger | ElementType::Error | ElementType::Important | ElementType::Tip | ElementType::Warning | ElementType::Footnote | ElementType::Citation | ElementType::SystemMessage | ElementType::Figure | ElementType::Table => true,
            _ => false,
        },
        Category::SubTable => match t {
            ElementType::Title | ElementType::TableGroup => true,
            _ => false,
        },
        Category::SubTableGroup => match t {
            ElementType::TableColspec | ElementType::TableHead | ElementType::TableBody => true,
            _ => false,
        },
    }
}

/// The content model of an element type.
pub open spec fn spec_content_model(t: ElementType) -> ContentModel {
    match t {
        ElementType::Section => ContentModel::Of(Category::StructuralSubElement),
        ElementType::Topic => ContentModel::Of(Category::SubTopic),
        ElementType::Sidebar => ContentModel::Of(Category::SubSidebar),
        ElementType::Title => ContentModel::Of(Category::TextOrInlineElement),
        ElementType::Subtitle => ContentModel::Of(Category::TextOrInlineElement),
        ElementType::Decoration => ContentModel::Of(Category::DecorationElement),
        ElementType::Docinfo => ContentModel::Of(Category::BibliographicElement),
        ElementType::Transition => ContentModel::Empty,
        ElementType::Author => ContentModel::Of(Category::TextOrInlineElement),
        ElementType::Authors => ContentModel::Of(Category::AuthorInfo),
        ElementType::Organization => ContentModel::Of(Category::TextOrInlineElement),
        ElementType::Address => ContentModel::Of(Category::TextOrInlineElement),
        ElementType::Contact => ContentModel::Of(Category::TextOrInlineElement),
        ElementType::Version => ContentModel::Of(Category::TextOrInlineElement),
        ElementType::Revision => ContentModel::Of(Category::TextOrInlineElement),
        ElementType::Status => ContentModel::Of(Category::TextOrInlineElement),
        ElementType::Date => ContentModel::Of(Category::TextOrInlineElement),
        ElementType::Copyright => ContentModel::Of(Category::TextOrInlineElement),
        ElementType::Field => ContentModel::Of(Category::SubField),
        ElementType::Header => ContentModel::Of(Category::BodyElement),
        ElementType::Footer => ContentModel::Of(Category::BodyElement),
        ElementType::Paragraph => ContentModel::Of(Category::TextOrInlineElement),
        ElementType::LiteralBlock => ContentModel::Of(Category::TextOrInlineElement),
        ElementType::DoctestBlock => ContentModel::Of(Category::TextOrInlineElement),
        ElementType::MathBlock => ContentModel::Text,
        ElementType::Rubric => ContentModel::Of(Category::TextOrInlineElement),
        ElementType::SubstitutionDefinition => ContentModel::Of(Category::TextOrInlineElement),
        ElementType::Comment => ContentModel::Of(Category::TextOrInlineElement),
        ElementType::Pending => ContentModel::Empty,
        ElementType::Target => ContentModel::Empty,
        ElementType::Raw => ContentModel::Text,
        ElementType::Image => ContentModel::Empty,
        ElementType::Compound => ContentModel::Of(Category::BodyElement),
        ElementType::Container => ContentModel::Of(Category::BodyElement),
        ElementType::BulletList => ContentModel::Only(ElementType::ListItem),
        ElementType::EnumeratedList => ContentModel::Only(ElementType::ListItem),
        ElementType::DefinitionList => ContentModel::Only(ElementType::DefinitionListItem),
        ElementType::FieldList => ContentModel::Only(ElementType::Field),
        ElementType::OptionList => ContentModel::Only(ElementType::OptionListItem),
        ElementType::LineBlock => ContentModel::Of(Category::SubLineBlock),
        ElementType::BlockQuote => ContentModel::Of(Category::SubBlockQuote),
        ElementType::Admonition => ContentModel::Of(Category::SubTopic),
        ElementType::Attention => ContentModel::Of(Category::BodyElement),
        ElementType::Hint => ContentModel::Of(Category::BodyElement),
        ElementType::Note => ContentModel::Of(Category::BodyElement),
        ElementType::Caution => ContentModel::Of(Category::BodyElement),
        ElementType::Danger => ContentModel::Of(Category::BodyElement),
        ElementType::Error => ContentModel::Of(Category::BodyElement),
        ElementType::Important => ContentModel::Of(Category::BodyElement),
        ElementType::Tip => ContentModel::Of(Category::BodyElement),
        ElementType::Warning => ContentModel::Of(Category::BodyElement),
        ElementType::Footnote => ContentModel::Of(Category::SubFootnote),
        ElementType::Citation => ContentModel::Of(Category::SubFootnote),
        ElementType::SystemMessage => ContentModel::Of(Category::BodyElement),
        ElementType::Figure => ContentModel::Of(Category::SubFigure),
        ElementType::Table => ContentModel::Of(Category::SubTable),
        ElementType::TableGroup => ContentModel::Of(Category::SubTableGroup),
        ElementType::TableHead => ContentModel::Only(ElementType::TableRow),
        ElementType::TableBody => ContentModel::Only(ElementType::TableRow),
        ElementType::TableRow => ContentModel::Only(ElementType::TableEntry),
        ElementType::TableEntry => ContentModel::Of(Category::BodyElement),
        ElementType::TableColspec => ContentModel::Empty,
        ElementType::ListItem => ContentModel::Of(Category::BodyElement),
        ElementType::DefinitionListItem => ContentModel::Of(Category::SubDLItem),
        ElementType::Term => ContentModel::Of(Category::TextOrInlineElement),
        ElementType::Classifier => ContentModel::Of(Category::TextOrInlineElement),
        ElementType::Definition => ContentModel::Of(Category::BodyElement),
        ElementType::FieldName => ContentModel::Of(Category::TextOrInlineElement),
        ElementType::FieldBody => ContentModel::Of(Category::BodyElement),
        ElementType::OptionListItem => ContentModel::Of(Category::SubOptionListItem),
        ElementType::OptionGroup => ContentModel::Only(ElementType::Option_),
        ElementType::Description => ContentModel::Of(Category::BodyElement),
        ElementType::Option_ => ContentModel::Of(Category::SubOption),
        ElementType::OptionString => ContentModel::Text,
        ElementType::OptionArgument => ContentModel::Text,
        ElementType::Line => ContentModel::Of(Category::TextOrInlineElement),
        ElementType::Attribution => ContentModel::Of(Category::TextOrInlineElement),
        ElementType::Label => ContentModel::Of(Category::TextOrInlineElement),
        ElementType::Caption => ContentModel::Of(Category::TextOrInlineElement),
        ElementType::Legend => ContentModel::Of(Category::BodyElement),
        ElementType::Emphasis => ContentModel::Of(Category::TextOrInlineElement),
        ElementType::Literal => ContentModel::Text,
        ElementType::Reference => ContentModel::Of(Category::TextOrInlineElement),
        ElementType::Strong => ContentModel::Of(Category::TextOrInlineElement),
        ElementType::FootnoteReference => ContentModel::Of(Category::TextOrInlineElement),
        ElementType::CitationReference => ContentModel::Of(Category::TextOrInlineElement),
        ElementType::SubstitutionReference => ContentModel::Of(Category::TextOrInlineElement),
        ElementType::TitleReference => ContentModel::Of(Category::TextOrInlineElement),
        ElementType::Abbreviation => ContentModel::Of(Category::TextOrInlineElement),
        ElementType::Acronym => ContentModel::Of(Category::TextOrInlineElement),
        ElementType::Superscript => ContentModel::Of(Category::TextOrInlineElement),
        ElementType::Subscript => ContentModel::Of(Category::TextOrInlineElement),
        ElementType::Inline => ContentModel::Of(Category::TextOrInlineElement),
        ElementType::Problematic => ContentModel::Of(Category::TextOrInlineElement),
        ElementType::Generated => ContentModel::Of(Category::TextOrInlineElement),
        ElementType::Math => ContentModel::Text,
        ElementType::TargetInline => ContentModel::Text,
        ElementType::RawInline => ContentModel::Text,
        ElementType::ImageInline => ContentModel::Empty,
    }
}

/// The content model of an element type.
#[verifier::when_used_as_spec(spec_content_model)]
pub fn content_model(t: ElementType) -> (r: ContentModel)
    ensures
        r == spec_content_model(t),
{
    match t {
        ElementType::Section => ContentModel::Of(Category::StructuralSubElement),
        ElementType::Topic => ContentModel::Of(Category::SubTopic),
        ElementType::Sidebar => ContentModel::Of(Category::SubSidebar),
        ElementType::Title => ContentModel::Of(Category::TextOrInlineElement),
        ElementType::Subtitle => ContentModel::Of(Category::TextOrInlineElement),
        ElementType::Decoration => ContentModel::Of(Category::DecorationElement),
        ElementType::Docinfo => ContentModel::Of(Category::BibliographicElement),
        ElementType::Transition => ContentModel::Empty,
        ElementType::Author => ContentModel::Of(Category::TextOrInlineElement),
        ElementType::Authors => ContentModel::Of(Category::AuthorInfo),
        ElementType::Organization => ContentModel::Of(Category::TextOrInlineElement),
        ElementType::Address => ContentModel::Of(Category::TextOrInlineElement),
        ElementType::Contact => ContentModel::Of(Category::TextOrInlineElement),
        ElementType::Version => ContentModel::Of(Category::TextOrInlineElement),
        ElementType::Revision => ContentModel::Of(Category::TextOrInlineElement),
        ElementType::Status => ContentModel::Of(Category::TextOrInlineElement),
        ElementType::Date => ContentModel::Of(Category::TextOrInlineElement),
        ElementType::Copyright => ContentModel::Of(Category::TextOrInlineElement),
        ElementType::Field => ContentModel::Of(Category::SubField),
        ElementType::Header => ContentModel::Of(Category::BodyElement),
        ElementType::Footer => ContentModel::Of(Category::BodyElement),
        ElementType::Paragraph => ContentModel::Of(Category::TextOrInlineElement),
        ElementType::LiteralBlock => ContentModel::Of(Category::TextOrInlineElement),
        ElementType::DoctestBlock => ContentModel::Of(Category::TextOrInlineElement),
        ElementType::MathBlock => ContentModel::Text,
        ElementType::Rubric => ContentModel::Of(Category::TextOrInlineElement),
        ElementType::SubstitutionDefinition => ContentModel::Of(Category::TextOrInlineElement),
        ElementType::Comment => ContentModel::Of(Category::TextOrInlineElement),
        ElementType::Pending => ContentModel::Empty,
        ElementType::Target => ContentModel::Empty,
        ElementType::Raw => ContentModel::Text,
        ElementType::Image => ContentModel::Empty,
        ElementType::Compound => ContentModel::Of(Category::BodyElement),
        ElementType::Container => ContentModel::Of(Category::BodyElement),
        ElementType::BulletList => ContentModel::Only(ElementType::ListItem),
        ElementType::EnumeratedList => ContentModel::Only(ElementType::ListItem),
        ElementType::DefinitionList => ContentModel::Only(ElementType::DefinitionListItem),
        ElementType::FieldList => ContentModel::Only(ElementType::Field),
        ElementType::OptionList => ContentModel::Only(ElementType::OptionListItem),
        ElementType::LineBlock => ContentModel::Of(Category::SubLineBlock),
        ElementType::BlockQuote => ContentModel::Of(Category::SubBlockQuote),
        ElementType::Admonition => ContentModel::Of(Category::SubTopic),
        ElementType::Attention => ContentModel::Of(Category::BodyElement),
        ElementType::Hint => ContentModel::Of(Category::BodyElement),
        ElementType::Note => ContentModel::Of(Category::BodyElement),
        ElementType::Caution => ContentModel::Of(Category::BodyElement),
        ElementType::Danger => ContentModel::Of(Category::BodyElement),
        ElementType::Error => ContentModel::Of(Category::BodyElement),
        ElementType::Important => ContentModel::Of(Category::BodyElement),
        ElementType::Tip => ContentModel::Of(Category::BodyElement),
        ElementType::Warning => ContentModel::Of(Category::BodyElement),
        ElementType::Footnote => ContentModel::Of(Category::SubFootnote),
        ElementType::Citation => ContentModel::Of(Category::SubFootnote),
        ElementType::SystemMessage => ContentModel::Of(Category::BodyElement),
        ElementType::Figure => ContentModel::Of(Category::SubFigure),
        ElementType::Table => ContentModel::Of(Category::SubTable),
        ElementType::TableGroup => ContentModel::Of(Category::SubTableGroup),
        ElementType::TableHead => ContentModel::Only(ElementType::TableRow),
        ElementType::TableBody => ContentModel::Only(ElementType::TableRow),
        ElementType::TableRow => ContentModel::Only(ElementType::TableEntry),
        ElementType::TableEntry => ContentModel::Of(Category::BodyElement),
        ElementType::TableColspec => ContentModel::Empty,
        ElementType::ListItem => ContentModel::Of(Category::BodyElement),
        ElementType::DefinitionListItem => ContentModel::Of(Category::SubDLItem),
        ElementType::Term => ContentModel::Of(Category::TextOrInlineElement),
        ElementType::Classifier => ContentModel::Of(Category::TextOrInlineElement),
        ElementType::Definition => ContentModel::Of(Category::BodyElement),
        ElementType::FieldName => ContentModel::Of(Category::TextOrInlineElement),
        ElementType::FieldBody => ContentModel::Of(Category::BodyElement),
        ElementType::OptionListItem => ContentModel::Of(Category::SubOptionListItem),
        ElementType::OptionGroup => ContentModel::Only(ElementType::Option_),
        ElementType::Description => ContentModel::Of(Category::BodyElement),
        ElementType::Option_ => ContentModel::Of(Category::SubOption),
        ElementType::OptionString => ContentModel::Text,
        ElementType::OptionArgument => ContentModel::Text,
        ElementType::Line => ContentModel::Of(Category::TextOrInlineElement),
        ElementType::Attribution => ContentModel::Of(Category::TextOrInlineElement),
        ElementType::Label => ContentModel::Of(Category::TextOrInlineElement),
        ElementType::Caption => ContentModel::Of(Category::TextOrInlineElement),
        ElementType::Legend => ContentModel::Of(Category::BodyElement),
        ElementType::Emphasis => ContentModel::Of(Category::TextOrInlineElement),
        ElementType::Literal => ContentModel::Text,
        ElementType::Reference => ContentModel::Of(Category::TextOrInlineElement),
        ElementType::Strong => ContentModel::Of(Category::TextOrInlineElement),
        ElementType::FootnoteReference => ContentModel::Of(Category::TextOrInlineElement),
        ElementType::CitationReference => ContentModel::Of(Category::TextOrInlineElement),
        ElementType::SubstitutionReference => ContentModel::Of(Category::TextOrInlineElement),
        ElementType::TitleReference => ContentModel::Of(Category::TextOrInlineElement),
        ElementType::Abbreviation => ContentModel::Of(Category::TextOrInlineElement),
        ElementType::Acronym => ContentModel::Of(Category::TextOrInlineElement),
        ElementType::Superscript => ContentModel::Of(Category::TextOrInlineElement),
        ElementType::Subscript => ContentModel::Of(Category::TextOrInlineElement),
        ElementType::Inline => ContentModel::Of(Category::TextOrInlineElement),
        ElementType::Problematic => ContentModel::Of(Category::TextOrInlineElement),
        ElementType::Generated => ContentModel::Of(Category::TextOrInlineElement),
        ElementType::Math => ContentModel::Text,
        ElementType::TargetInline => ContentModel::Text,
        ElementType::RawInline => ContentModel::Text,
        ElementType::ImageInline => ContentModel::Empty,
    }
}

/// Which extra attributes an element type carries.
pub open spec fn spec_extra_kind(t: ElementType) -> ExtraKind {
    match t {
        ElementType::Section => ExtraKind::Plain,
        ElementType::Topic => ExtraKind::Plain,
        ElementType::Sidebar => ExtraKind::Plain,
        ElementType::Title => ExtraKind::Plain,
        ElementType::Subtitle => ExtraKind::Plain,
        ElementType::Decoration => ExtraKind::Plain,
        ElementType::Docinfo => ExtraKind::Plain,
        ElementType::Transition => ExtraKind::Plain,
        ElementType::Author => ExtraKind::Plain,
        ElementType::Authors => ExtraKind::Plain,
        ElementType::Organization => ExtraKind::Plain,
        ElementType::Address => ExtraKind::Space,
        ElementType::Contact => ExtraKind::Plain,
        ElementType::Version => ExtraKind::Plain,
        ElementType::Revision => ExtraKind::Plain,
        ElementType::Status => ExtraKind::Plain,
        ElementType::Date => ExtraKind::Plain,
        ElementType::Copyright => ExtraKind::Plain,
        ElementType::Field => ExtraKind::Plain,
        ElementType::Header => ExtraKind::Plain,
        ElementType::Footer => ExtraKind::Plain,
        ElementType::Paragraph => ExtraKind::Plain,
        ElementType::LiteralBlock => ExtraKind::Space,
        ElementType::DoctestBlock => ExtraKind::Space,
        ElementType::MathBlock => ExtraKind::Plain,
        ElementType::Rubric => ExtraKind::Plain,
        ElementType::SubstitutionDefinition => ExtraKind::SubstitutionDefinition,
        ElementType::Comment => ExtraKind::Space,
        ElementType::Pending => ExtraKind::Plain,
        ElementType::Target => ExtraKind::Target,
        ElementType::Raw => ExtraKind::Raw,
        ElementType::Image => ExtraKind::Image,
        ElementType::Compound => ExtraKind::Plain,
        ElementType::Container => ExtraKind::Plain,
        ElementType::BulletList => ExtraKind::BulletList,
        ElementType::EnumeratedList => ExtraKind::EnumeratedList,
        ElementType::DefinitionList => ExtraKind::Plain,
        ElementType::FieldList => ExtraKind::Plain,
        ElementType::OptionList => ExtraKind::Plain,
        ElementType::LineBlock => ExtraKind::Plain,
        ElementType::BlockQuote => ExtraKind::Plain,
        ElementType::Admonition => ExtraKind::Plain,
        ElementType::Attention => ExtraKind::Plain,
        ElementType::Hint => ExtraKind::Plain,
        ElementType::Note => ExtraKind::Plain,
        ElementType::Caution => ExtraKind::Plain,
        ElementType::Danger => ExtraKind::Plain,
        ElementType::Error => ExtraKind::Plain,
        ElementType::Important => ExtraKind::Plain,
        ElementType::Tip => ExtraKind::Plain,
        ElementType::Warning => ExtraKind::Plain,
        ElementType::Footnote => ExtraKind::Footnote,
        ElementType::Citation => ExtraKind::Citation,
        ElementType::SystemMessage => ExtraKind::SystemMessage,
        ElementType::Figure => ExtraKind::Figure,
        ElementType::Table => ExtraKind::Plain,
        ElementType::TableGroup => ExtraKind::Plain,
        ElementType::TableHead => ExtraKind::Plain,
        ElementType::TableBody => ExtraKind::Plain,
        ElementType::TableRow => ExtraKind::Plain,
        ElementType::TableEntry => ExtraKind::Plain,
        ElementType::TableColspec => ExtraKind::Plain,
        ElementType::ListItem => ExtraKind::Plain,
        ElementType::DefinitionListItem => ExtraKind::Plain,
        ElementType::Term => ExtraKind::Plain,
        ElementType::Classifier => ExtraKind::Plain,
        ElementType::Definition => ExtraKind::Plain,
        ElementType::FieldName => ExtraKind::Plain,
        ElementType::FieldBody => ExtraKind::Plain,
        ElementType::OptionListItem => ExtraKind::Plain,
        ElementType::OptionGroup => ExtraKind::Plain,
        ElementType::Description => ExtraKind::Plain,
        ElementType::Option_ => ExtraKind::Plain,
        ElementType::OptionString => ExtraKind::Plain,
        ElementType::OptionArgument => ExtraKind::OptionArgument,
        ElementType::Line => ExtraKind::Plain,
        ElementType::Attribution => ExtraKind::Plain,
        ElementType::Label => ExtraKind::Plain,
        ElementType::Caption => ExtraKind::Plain,
        ElementType::Legend => ExtraKind::Plain,
        ElementType::Emphasis => ExtraKind::Plain,
        ElementType::Literal => ExtraKind::Plain,
        ElementType::Reference => ExtraKind::Reference,
        ElementType::Strong => ExtraKind::Plain,
        ElementType::FootnoteReference => ExtraKind::FootnoteReference,
        ElementType::CitationReference => ExtraKind::CitationReference,
        ElementType::SubstitutionReference => ExtraKind::SubstitutionReference,
        ElementType::TitleReference => ExtraKind::Plain,
        ElementType::Abbreviation => ExtraKind::Plain,
        ElementType::Acronym => ExtraKind::Plain,
        ElementType::Superscript => ExtraKind::Plain,
        ElementType::Subscript => ExtraKind::Plain,
        ElementType::Inline => ExtraKind::Plain,
        ElementType::Problematic => ExtraKind::Problematic,
        ElementType::Generated => ExtraKind::Plain,
        ElementType::Math => ExtraKind::Plain,
        ElementType::TargetInline => ExtraKind::Target,
        ElementType::RawInline => ExtraKind::Raw,
        ElementType::ImageInline => ExtraKind::Image,
    }
}

/// Which extra attributes an element type carries.
#[verifier::when_used_as_spec(spec_extra_kind)]
pub fn extra_kind(t: ElementType) -> (r: ExtraKind)
    ensures
        r == spec_extra_kind(t),
{
    match t {
        ElementType::Section => ExtraKind::Plain,
        ElementType::Topic => ExtraKind::Plain,
        ElementType::Sidebar => ExtraKind::Plain,
        ElementType::Title => ExtraKind::Plain,
        ElementType::Subtitle => ExtraKind::Plain,
        ElementType::Decoration => ExtraKind::Plain,
        ElementType::Docinfo => ExtraKind::Plain,
        ElementType::Transition => ExtraKind::Plain,
        ElementType::Author => ExtraKind::Plain,
        ElementType::Authors => ExtraKind::Plain,
        ElementType::Organization => ExtraKind::Plain,
        ElementType::Address => ExtraKind::Space,
        ElementType::Contact => ExtraKind::Plain,
        ElementType::Version => ExtraKind::Plain,
        ElementType::Revision => ExtraKind::Plain,
        ElementType::Status => ExtraKind::Plain,
        ElementType::Date => ExtraKind::Plain,
        ElementType::Copyright => ExtraKind::Plain,
        ElementType::Field => ExtraKind::Plain,
        ElementType::Header => ExtraKind::Plain,
        ElementType::Footer => ExtraKind::Plain,
        ElementType::Paragraph => ExtraKind::Plain,
        ElementType::LiteralBlock => ExtraKind::Space,
        ElementType::DoctestBlock => ExtraKind::Space,
        ElementType::MathBlock => ExtraKind::Plain,
        ElementType::Rubric => ExtraKind::Plain,
        ElementType::SubstitutionDefinition => ExtraKind::SubstitutionDefinition,
        ElementType::Comment => ExtraKind::Space,
        ElementType::Pending => ExtraKind::Plain,
        ElementType::Target => ExtraKind::Target,
        ElementType::Raw => ExtraKind::Raw,
        ElementType::Image => ExtraKind::Image,
        ElementType::Compound => ExtraKind::Plain,
        ElementType::Container => ExtraKind::Plain,
        ElementType::BulletList => ExtraKind::BulletList,
        ElementType::EnumeratedList => ExtraKind::EnumeratedList,
        ElementType::DefinitionList => ExtraKind::Plain,
        ElementType::FieldList => ExtraKind::Plain,
        ElementType::OptionList => ExtraKind::Plain,
        ElementType::LineBlock => ExtraKind::Plain,
        ElementType::BlockQuote => ExtraKind::Plain,
        ElementType::Admonition => ExtraKind::Plain,
        ElementType::Attention => ExtraKind::Plain,
        ElementType::Hint => ExtraKind::Plain,
        ElementType::Note => ExtraKind::Plain,
        ElementType::Caution => ExtraKind::Plain,
        ElementType::Danger => ExtraKind::Plain,
        ElementType::Error => ExtraKind::Plain,
        ElementType::Important => ExtraKind::Plain,
        ElementType::Tip => ExtraKind::Plain,
        ElementType::Warning => ExtraKind::Plain,
        ElementType::Footnote => ExtraKind::Footnote,
        ElementType::Citation => ExtraKind::Citation,
        ElementType::SystemMessage => ExtraKind::SystemMessage,
        ElementType::Figure => ExtraKind::Figure,
        ElementType::Table => ExtraKind::Plain,
        ElementType::TableGroup => ExtraKind::Plain,
        ElementType::TableHead => ExtraKind::Plain,
        ElementType::TableBody => ExtraKind::Plain,
        ElementType::TableRow => ExtraKind::Plain,
        ElementType::TableEntry => ExtraKind::Plain,
        ElementType::TableColspec => ExtraKind::Plain,
        ElementType::ListItem => ExtraKind::Plain,
        ElementType::DefinitionListItem => ExtraKind::Plain,
        ElementType::Term => ExtraKind::Plain,
        ElementType::Classifier => ExtraKind::Plain,
        ElementType::Definition => ExtraKind::Plain,
        ElementType::FieldName => ExtraKind::Plain,
        ElementType::FieldBody => ExtraKind::Plain,
        ElementType::OptionListItem => ExtraKind::Plain,
        ElementType::OptionGroup => ExtraKind::Plain,
        ElementType::Description => ExtraKind::Plain,
        ElementType::Option_ => ExtraKind::Plain,
        ElementType::OptionString => ExtraKind::Plain,
        ElementType::OptionArgument => ExtraKind::OptionArgument,
        ElementType::Line => ExtraKind::Plain,
        ElementType::Attribution => ExtraKind::Plain,
        ElementType::Label => ExtraKind::Plain,
        ElementType::Caption => ExtraKind::Plain,
        ElementType::Legend => ExtraKind::Plain,
        ElementType::Emphasis => ExtraKind::Plain,
        ElementType::Literal => ExtraKind::Plain,
        ElementType::Reference => ExtraKind::Reference,
        ElementType::Strong => ExtraKind::Plain,
        ElementType::FootnoteReference => ExtraKind::FootnoteReference,
        ElementType::CitationReference => ExtraKind::CitationReference,
        ElementType::SubstitutionReference => ExtraKind::SubstitutionReference,
        ElementType::TitleReference => ExtraKind::Plain,
        ElementType::Abbreviation => ExtraKind::Plain,
        ElementType::Acronym => ExtraKind::Plain,
        ElementType::Superscript => ExtraKind::Plain,
        ElementType::Subscript => ExtraKind::Plain,
        ElementType::Inline => ExtraKind::Plain,
        ElementType::Problematic => ExtraKind::Problematic,
        ElementType::Generated => ExtraKind::Plain,
        ElementType::Math => ExtraKind::Plain,
        ElementType::TargetInline => ExtraKind::Target,
        ElementType::RawInline => ExtraKind::Raw,
        ElementType::ImageInline => ExtraKind::Image,
    }
}

/// The categories nest: a body element may stand wherever a sub-structure element may,
/// and a sub-structure element wherever a structural sub-element may; a body element may
/// also stand in a topic, a sidebar, a block quote, a footnote and a figure.
pub proof fn law_categories_nest(t: ElementType)
    ensures
        spec_category_has(Category::BodyElement, t) ==> spec_category_has(Category::SubStructure, t),
        spec_category_has(Category::SubStructure, t) ==> spec_category_has(Category::StructuralSubElement, t),
        spec_category_has(Category::BodyElement, t) ==> {
            &&& spec_category_has(Category::SubTopic, t)
            &&& spec_category_has(Category::SubSidebar, t)
            &&& spec_category_has(Category::SubBlockQuote, t)
            &&& spec_category_has(Category::SubFootnote, t)
            &&& spec_category_has(Category::SubFigure, t)
        },
{
}

} // verus!
