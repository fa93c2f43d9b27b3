//! The attributes that only some kinds of elements carry.
use vstd::prelude::*;

use crate::attribute_types::{
    AlignH, AlignHV, EnumeratedListType, FixedSpace, FootnoteType, Measure, MeasureView, NameToken,
    ID,
};
use crate::text::copy_string;
use crate::url::Url;

verus! {

/// The views of a list of names.
pub open spec fn names_view(v: Seq<NameToken>) -> Seq<Seq<char>> {
    v.map_values(|n: NameToken| n@)
}

/// The views of a list of identifiers.
pub open spec fn ids_view(v: Seq<ID>) -> Seq<Seq<char>> {
    v.map_values(|n: ID| n@)
}

/// The views of a list of strings.
pub open spec fn strings_view(v: Seq<String>) -> Seq<Seq<char>> {
    v.map_values(|n: String| n@)
}

pub open spec fn opt_string_view(o: Option<String>) -> Option<Seq<char>> {
    match o {
        Some(s) => Some(s@),
        None => None,
    }
}

pub open spec fn opt_url_view(o: Option<Url>) -> Option<Seq<char>> {
    match o {
        Some(s) => Some(s@),
        None => None,
    }
}

pub open spec fn opt_id_view(o: Option<ID>) -> Option<Seq<char>> {
    match o {
        Some(s) => Some(s@),
        None => None,
    }
}

pub open spec fn opt_name_view(o: Option<NameToken>) -> Option<Seq<char>> {
    match o {
        Some(s) => Some(s@),
        None => None,
    }
}

pub open spec fn opt_measure_view(o: Option<Measure>) -> Option<MeasureView> {
    match o {
        Some(s) => Some(s@),
        None => None,
    }
}

pub fn dup_opt_string(o: &Option<String>) -> (r: Option<String>)
    ensures
        opt_string_view(r) == opt_string_view(*o),
{
    match o {
        Some(s) => Some(copy_string(s)),
        None => None,
    }
}

pub fn dup_opt_url(o: &Option<Url>) -> (r: Option<Url>)
    ensures
        opt_url_view(r) == opt_url_view(*o),
{
    match o {
        Some(s) => Some(s.duplicate()),
        None => None,
    }
}

pub fn dup_opt_id(o: &Option<ID>) -> (r: Option<ID>)
    ensures
        opt_id_view(r) == opt_id_view(*o),
{
    match o {
        Some(s) => Some(s.duplicate()),
        None => None,
    }
}

pub fn dup_opt_name(o: &Option<NameToken>) -> (r: Option<NameToken>)
    ensures
        opt_name_view(r) == opt_name_view(*o),
{
    match o {
        Some(s) => Some(s.duplicate()),
        None => None,
    }
}

pub fn dup_opt_measure(o: &Option<Measure>) -> (r: Option<Measure>)
    ensures
        opt_measure_view(r) == opt_measure_view(*o),
{
    match o {
        Some(s) => Some(s.duplicate()),
        None => None,
    }
}

pub fn dup_names(v: &Vec<NameToken>) -> (r: Vec<NameToken>)
    ensures
        names_view(r@) == names_view(v@),
{
    let mut r: Vec<NameToken> = Vec::new();
    let mut i: usize = 0;
    while i < v.len()
        invariant
            i <= v@.len(),
            r@.len() == i,
            forall|j: int| 0 <= j < i ==> #[trigger] r@[j]@ == v@[j]@,
        decreases v@.len() - i,
    {
        r.push(v[i].duplicate());
        i += 1;
    }
    assert(names_view(r@) =~= names_view(v@));
    r
}

pub fn dup_ids(v: &Vec<ID>) -> (r: Vec<ID>)
    ensures
        ids_view(r@) == ids_view(v@),
{
    let mut r: Vec<ID> = Vec::new();
    let mut i: usize = 0;
    while i < v.len()
        invariant
            i <= v@.len(),
            r@.len() == i,
            forall|j: int| 0 <= j < i ==> #[trigger] r@[j]@ == v@[j]@,
        decreases v@.len() - i,
    {
        r.push(v[i].duplicate());
        i += 1;
    }
    assert(ids_view(r@) =~= ids_view(v@));
    r
}

pub fn dup_strings(v: &Vec<String>) -> (r: Vec<String>)
    ensures
        strings_view(r@) == strings_view(v@),
{
    let mut r: Vec<String> = Vec::new();
    let mut i: usize = 0;
    while i < v.len()
        invariant
            i <= v@.len(),
            r@.len() == i,
            forall|j: int| 0 <= j < i ==> #[trigger] r@[j]@ == v@[j]@,
        decreases v@.len() - i,
    {
        r.push(copy_string(&v[i]));
        i += 1;
    }
    assert(strings_view(r@) =~= strings_view(v@));
    r
}

/// Attributes of a substitution definition.
#[derive(Clone, Copy, Debug, PartialEq, Eq, Structural)]
pub struct SubstitutionDefinition {
    pub ltrim: bool,
    pub rtrim: bool,
}

/// Attributes of a hyperlink target.
#[derive(Debug)]
pub struct Target {
    /// External reference to a URI/URL
    pub refuri: Option<Url>,
    /// References to ids attributes in other elements
    pub refid: Option<ID>,
    /// Internal reference to the names attribute of another element.
    pub refname: Vec<NameToken>,
    pub anonymous: bool,
}

pub struct TargetView {
    pub refuri: Option<Seq<char>>,
    pub refid: Option<Seq<char>>,
    pub refname: Seq<Seq<char>>,
    pub anonymous: bool,
}

impl View for Target {
    type V = TargetView;

    open spec fn view(&self) -> TargetView {
        TargetView {
            refuri: opt_url_view(self.refuri),
            refid: opt_id_view(self.refid),
            refname: names_view(self.refname@),
            anonymous: self.anonymous,
        }
    }
}

impl Target {
    pub fn duplicate(&self) -> (r: Target)
        ensures
            r@ == self@,
    {
        Target {
            refuri: dup_opt_url(&self.refuri),
            refid: dup_opt_id(&self.refid),
            refname: dup_names(&self.refname),
            anonymous: self.anonymous,
        }
    }
}

/// Attributes of raw output.
#[derive(Debug)]
pub struct Raw {
    pub space: FixedSpace,
    pub format: Vec<NameToken>,
}

pub struct RawView {
    pub space: FixedSpace,
    pub format: Seq<Seq<char>>,
}

impl View for Raw {
    type V = RawView;

    open spec fn view(&self) -> RawView {
        RawView { space: self.space, format: names_view(self.format@) }
    }
}

impl Raw {
    pub fn duplicate(&self) -> (r: Raw)
        ensures
            r@ == self@,
    {
        Raw { space: self.space, format: dup_names(&self.format) }
    }
}

/// Attributes of an image.
#[derive(Debug)]
pub struct Image {
    pub uri: Url,
    pub align: Option<AlignHV>,
    pub alt: Option<String>,
    pub height: Option<Measure>,
    pub width: Option<Measure>,
    pub scale: Option<u8>,
    /// Not part of the DTD but a valid argument
    pub target: Option<Url>,
}

pub struct ImageView {
    pub uri: Seq<char>,
    pub align: Option<AlignHV>,
    pub alt: Option<Seq<char>>,
    pub height: Option<MeasureView>,
    pub width: Option<MeasureView>,
    pub scale: Option<u8>,
    pub target: Option<Seq<char>>,
}

impl View for Image {
    type V = ImageView;

    open spec fn view(&self) -> ImageView {
        ImageView {
            uri: self.uri@,
            align: self.align,
            alt: opt_string_view(self.alt),
            height: opt_measure_view(self.height),
            width: opt_measure_view(self.width),
            scale: self.scale,
            target: opt_url_view(self.target),
        }
    }
}

impl Image {
    /// The attributes of an image showing `uri`, with no other attribute set.
    pub fn new(uri: Url) -> (r: Image)
        ensures
            r@ == (ImageView {
                uri: uri@,
                align: None,
                alt: None,
                height: None,
                width: None,
                scale: None,
                target: None,
            }),
    {
        Image { uri, align: None, alt: None, height: None, width: None, scale: None, target: None }
    }

    pub fn duplicate(&self) -> (r: Image)
        ensures
            r@ == self@,
    {
        Image {
            uri: self.uri.duplicate(),
            align: self.align,
            alt: dup_opt_string(&self.alt),
            height: dup_opt_measure(&self.height),
            width: dup_opt_measure(&self.width),
            scale: self.scale,
            target: dup_opt_url(&self.target),
        }
    }
}

/// Attributes of a bullet list.
#[derive(Debug)]
pub struct BulletList {
    pub bullet: Option<String>,
}

/// Attributes of an enumerated list.
#[derive(Debug)]
pub struct EnumeratedList {
    pub enumtype: Option<EnumeratedListType>,
    pub prefix: Option<String>,
    pub suffix: Option<String>,
}

pub struct EnumeratedListView {
    pub enumtype: Option<EnumeratedListType>,
    pub prefix: Option<Seq<char>>,
    pub suffix: Option<Seq<char>>,
}

impl View for EnumeratedList {
    type V = EnumeratedListView;

    open spec fn view(&self) -> EnumeratedListView {
        EnumeratedListView {
            enumtype: self.enumtype,
            prefix: opt_string_view(self.prefix),
            suffix: opt_string_view(self.suffix),
        }
    }
}

/// Attributes of a footnote.
#[derive(Debug)]
pub struct Footnote {
    pub backrefs: Vec<ID>,
    /// `Some` for auto-numbered (`#`) and auto-symbol (`*`) footnotes.
    pub auto: Option<FootnoteType>,
}

pub struct FootnoteView {
    pub backrefs: Seq<Seq<char>>,
    pub auto: Option<FootnoteType>,
}

impl View for Footnote {
    type V = FootnoteView;

    open spec fn view(&self) -> FootnoteView {
        FootnoteView { backrefs: ids_view(self.backrefs@), auto: self.auto }
    }
}

/// Attributes of a system message.
#[derive(Debug)]
pub struct SystemMessage {
    pub backrefs: Vec<ID>,
    pub level: Option<usize>,
    pub line: Option<usize>,
    pub type_: Option<NameToken>,
}

pub struct SystemMessageView {
    pub backrefs: Seq<Seq<char>>,
    pub level: Option<usize>,
    pub line: Option<usize>,
    pub type_: Option<Seq<char>>,
}

impl View for SystemMessage {
    type V = SystemMessageView;

    open spec fn view(&self) -> SystemMessageView {
        SystemMessageView {
            backrefs: ids_view(self.backrefs@),
            level: self.level,
            line: self.line,
            type_: opt_name_view(self.type_),
        }
    }
}

/// Attributes of a figure.
#[derive(Clone, Copy, Debug, PartialEq, Eq, Structural)]
pub struct Figure {
    pub align: Option<AlignH>,
    pub width: Option<usize>,
}

/// Attributes of a hyperlink reference.
#[derive(Debug)]
pub struct Reference {
    pub name: Option<NameToken>,
    /// External reference to a URI/URL
    pub refuri: Option<Url>,
    /// References to ids attributes in other elements
    pub refid: Option<ID>,
    /// Internal reference to the names attribute of another element
    pub refname: Vec<NameToken>,
}

pub struct ReferenceView {
    pub name: Option<Seq<char>>,
    pub refuri: Option<Seq<char>>,
    pub refid: Option<Seq<char>>,
    pub refname: Seq<Seq<char>>,
}

impl View for Reference {
    type V = ReferenceView;

    open spec fn view(&self) -> ReferenceView {
        ReferenceView {
            name: opt_name_view(self.name),
            refuri: opt_url_view(self.refuri),
            refid: opt_id_view(self.refid),
            refname: names_view(self.refname@),
        }
    }
}

impl Reference {
    pub fn duplicate(&self) -> (r: Reference)
        ensures
            r@ == self@,
    {
        Reference {
            name: dup_opt_name(&self.name),
            refuri: dup_opt_url(&self.refuri),
            refid: dup_opt_id(&self.refid),
            refname: dup_names(&self.refname),
        }
    }
}

/// Attributes of a footnote reference.
#[derive(Debug)]
pub struct FootnoteReference {
    pub refid: Option<ID>,
    pub refname: Vec<NameToken>,
    pub auto: Option<FootnoteType>,
}

pub struct FootnoteReferenceView {
    pub refid: Option<Seq<char>>,
    pub refname: Seq<Seq<char>>,
    pub auto: Option<FootnoteType>,
}

impl View for FootnoteReference {
    type V = FootnoteReferenceView;

    open spec fn view(&self) -> FootnoteReferenceView {
        FootnoteReferenceView {
            refid: opt_id_view(self.refid),
            refname: names_view(self.refname@),
            auto: self.auto,
        }
    }
}

/// Attributes of a citation reference.
#[derive(Debug)]
pub struct CitationReference {
    pub refid: Option<ID>,
    pub refname: Vec<NameToken>,
}

pub struct CitationReferenceView {
    pub refid: Option<Seq<char>>,
    pub refname: Seq<Seq<char>>,
}

impl View for CitationReference {
    type V = CitationReferenceView;

    open spec fn view(&self) -> CitationReferenceView {
        CitationReferenceView { refid: opt_id_view(self.refid), refname: names_view(self.refname@) }
    }
}

} // verus!

verus! {

/// Attributes of a citation.
#[derive(Debug)]
pub struct Citation {
    pub backrefs: Vec<ID>,
}

/// Attributes of an option argument.
#[derive(Debug)]
pub struct OptionArgument {
    pub delimiter: Option<String>,
}

/// Attributes of a substitution reference.
#[derive(Debug)]
pub struct SubstitutionReference {
    pub refname: Vec<NameToken>,
}

/// Attributes of a problematic element.
#[derive(Debug)]
pub struct Problematic {
    pub refid: Option<ID>,
}

} // verus!
