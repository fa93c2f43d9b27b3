//! Kinds of markup that the grammar tells apart.
use vstd::prelude::*;

verus! {

/// Bullets of bullet lists: `*`, `+`, `-`, `•`, `‣`, `⁃`.
#[derive(Debug, Clone, Copy, PartialEq, Eq, Structural)]
pub enum BulletListType {
    Ast,
    Plus,
    Minus,
    Bullet,
    TriBullet,
    HyphenBullet,
}

/// Numbering of enumerated lists: `1`, `A`, `a`, `I`, `i`, or automatic.
#[derive(Debug, Clone, Copy, PartialEq, Eq, Structural)]
pub enum EnumListChar {
    Arabic,
    AlphaUpper,
    AlphaLower,
    RomanUpper,
    RomanLower,
    Auto,
}

/// Enumerator forms: `1.`, `(1)`, `1)`.
#[derive(Debug, Clone, Copy, PartialEq, Eq, Structural)]
pub enum EnumListType {
    Period,
    ParenEnclosed,
    Paren,
}

/// Characters of section adornments.
#[derive(Debug, Clone, Copy, PartialEq, Eq, Structural)]
pub enum AdornmentChar {
    Bang,
    DQuote,
    Hash,
    Dollar,
    Percent,
    Amp,
    SQuote,
    LParen,
    RParen,
    Ast,
    Plus,
    Comma,
    Minus,
    Period,
    Slash,
    Colon,
    Semicolon,
    Less,
    Eq,
    More,
    Question,
    At,
    LBrack,
    Backslash,
    RBrack,
    Caret,
    Underscore,
    Backtick,
    LBrace,
    Pipe,
    RBrace,
    Tilde,
}

/// Footnote labels: `[1]`, `[#]`, `[*]`, `[#foo]`.
#[derive(Debug, Clone, PartialEq, Eq)]
pub enum FootnoteType {
    Numbered(usize),
    AutoNumber,
    AutoSymbol,
    AutoNamed(String),
}

/// Block-level tokens of a line-based reading of a text.
#[derive(Debug, Clone, PartialEq, Eq)]
pub enum TokenBlockLevel {
    EmptyLine,
    /// Plain indents mean block quotes.
    Indent(u8),
    Dedent(u8),
    Line(String),
    /// For a transition, this must be surrounded by blank lines, and be of length 4 or more.
    Adornment(AdornmentChar, u32),
    ListBulletItem(BulletListType),
    ListEnumItem(EnumListChar, EnumListType),
    /// A term and its classifier.
    ListDefinitionTerm(String, Option<String>),
    ListFieldName(String),
    ListOption(String),
    ListOptionArg(String),
    BlockLiteral,
    BlockQuotedLiteral(AdornmentChar),
    BlockDoctest(String),
    GridTableLine(String),
    GridTableRow(String),
    SimpleTableLine(String),
    Footnote(FootnoteType),
    Citation(String),
    /// A name and arguments.
    Directive(String, String),
    /// A symbol and the substituted line.
    SubstitutionDef(String, String),
    Comment,
    /// `..` followed by nothing.
    CommentEmpty,
    Target(String, String),
    TargetAnonymous(String),
}

} // verus!
