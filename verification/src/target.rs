//! Where an image or a link points: a URL, or else a path.
use vstd::prelude::*;

use crate::parser::blocks::trim_vec;
use crate::parser::grammar::trim;
use crate::text::{str_to_chars, string_of};
use crate::url::{url_serialization, Url};

verus! {

/// A URL, or a path where the text is no absolute URL.
#[derive(Debug)]
pub enum Target {
    Url(Url),
    Path(String),
}

/// What a target means in contracts.
pub enum TargetView {
    Url(Seq<char>),
    Path(Seq<char>),
}

impl Target {
    pub open spec fn view(&self) -> TargetView {
        match self {
            Target::Url(u) => TargetView::Url(u@),
            Target::Path(p) => TargetView::Path(p@),
        }
    }

    /// The target that a text names: its URL where it is an absolute URL, else the path it
    /// holds without surrounding whitespace.
    pub fn parse(input: &str) -> (r: Target)
        ensures
            r.view() == match url_serialization(input@) {
                Some(u) => TargetView::Url(u),
                None => TargetView::Path(trim(input@)),
            },
    {
        match Url::parse_absolute(input) {
            Ok(u) => Target::Url(u),
            Err(_) => {
                let v = str_to_chars(input);
                let t = trim_vec(&v);
                Target::Path(string_of(t.as_slice()))
            },
        }
    }

    /// The target as text: the URL, or the path.
    pub fn as_text(&self) -> (r: String)
        ensures
            r@ == match self.view() {
                TargetView::Url(u) => u,
                TargetView::Path(p) => p,
            },
    {
        match self {
            Target::Url(u) => u.as_str().to_owned(),
            Target::Path(p) => p.clone(),
        }
    }
}

} // verus!
