//! URLs that were checked to be valid, either absolute or relative.
use vstd::prelude::*;

use crate::text::{copy_string, str_to_chars};

verus! {

#[verifier::external_type_specification]
#[verifier::external_body]
pub struct ExUrlParseError(url::ParseError);

/// What `url::Url::parse` gives an input: its serialization, or the error it reports.
pub uninterp spec fn url_parsed(input: Seq<char>) -> Result<Seq<char>, url::ParseError>;

/// What `url::Url` gives `input` parsed against `base`: the serialization, or the error
/// that parsing the base or the input reports.
pub uninterp spec fn url_joined(base: Seq<char>, input: Seq<char>) -> Result<Seq<char>, url::ParseError>;

/// The serialization that `url::Url::parse` gives an input, or `None` where it refuses it.
pub open spec fn url_serialization(input: Seq<char>) -> Option<Seq<char>> {
    match url_parsed(input) {
        Ok(s) => Some(s),
        Err(_) => None,
    }
}

/// The serialization of `input` resolved against `base`, or `None` where parsing the base
/// or the input fails.
pub open spec fn url_join(base: Seq<char>, input: Seq<char>) -> Option<Seq<char>> {
    match url_joined(base, input) {
        Ok(s) => Some(s),
        Err(_) => None,
    }
}

/// `url::Url::parse`: gives what `url_parsed` names, the serialization converted to a
/// string. The WHATWG URL algorithm itself is not restated.
#[verifier::external_body]
fn url_parse(input: &str) -> (r: Result<String, url::ParseError>)
    ensures
        match r {
            Ok(s) => url_parsed(input@) == Ok::<Seq<char>, url::ParseError>(s@),
            Err(e) => url_parsed(input@) == Err::<Seq<char>, url::ParseError>(e),
        },
{
    match url::Url::parse(input) {
        Ok(u) => Ok(String::from(u)),
        Err(e) => Err(e),
    }
}

/// `url::Url::parse` of `base`, then `url::Url::options().base_url(..).parse(input)`:
/// gives what `url_joined` names, the serialization converted to a string.
#[verifier::external_body]
fn url_parse_with_base(base: &str, input: &str) -> (r: Result<String, url::ParseError>)
    ensures
        match r {
            Ok(s) => url_joined(base@, input@) == Ok::<Seq<char>, url::ParseError>(s@),
            Err(e) => url_joined(base@, input@) == Err::<Seq<char>, url::ParseError>(e),
        },
{
    match url::Url::parse(base) {
        Ok(b) => match url::Url::options().base_url(Some(&b)).parse(input) {
            Ok(u) => Ok(String::from(u)),
            Err(e) => Err(e),
        },
        Err(e) => Err(e),
    }
}

/// Why a text is not a URL.
#[derive(Debug)]
pub enum UrlError {
    /// The URL parser refused the text.
    Syntax(url::ParseError),
    /// A relative URL was asked for, but the text starts with a scheme.
    SetHostOnCannotBeABaseUrl,
}

pub open spec fn is_ascii_alpha(c: char) -> bool {
    ('a' <= c && c <= 'z') || ('A' <= c && c <= 'Z')
}

pub open spec fn is_ascii_digit(c: char) -> bool {
    '0' <= c && c <= '9'
}

pub open spec fn is_ascii_alnum(c: char) -> bool {
    is_ascii_alpha(c) || is_ascii_digit(c)
}

/// Characters allowed in a URL scheme after its first letter.
pub open spec fn is_scheme_char(c: char) -> bool {
    is_ascii_alnum(c) || c == '+' || c == '-' || c == '.'
}

/// The scheme test that relative URLs are held to: the text before the first colon is
/// neither empty nor the whole text, the text begins with a letter, and every later
/// character of the whole text is a letter, a digit, `+`, `-` or `.`. As the colon itself
/// is none of these, the test never holds (see `law_scheme_test_never_holds`), so every
/// text is held to the relative parse.
pub open spec fn spec_starts_with_scheme(s: Seq<char>) -> bool {
    &&& exists|k: int| 0 < k < s.len() && #[trigger] s[k] == ':' && forall|j: int| 0 <= j < k ==> #[trigger] s[j] != ':'
    &&& is_ascii_alpha(s[0])
    &&& forall|j: int| 1 <= j < s.len() ==> #[trigger] is_scheme_char(s[j])
}

/// The scheme test that relative URLs are held to never holds: the colon it needs is not
/// among the characters it allows after the first.
pub proof fn law_scheme_test_never_holds(s: Seq<char>)
    ensures
        !spec_starts_with_scheme(s),
{
    if spec_starts_with_scheme(s) {
        let k = choose|k: int| 0 < k < s.len() && #[trigger] s[k] == ':' && forall|j: int| 0 <= j < k ==> #[trigger] s[j] != ':';
        assert(is_scheme_char(s[k]));
    }
}

/// The base against which relative URLs are checked.
pub open spec fn relative_base() -> Seq<char> {
    seq!['h', 't', 't', 'p', 's', ':', '/', '/', 'a', '/', 'b']
}

/// When `parse_relative` accepts a text.
pub open spec fn spec_relative_ok(s: Seq<char>) -> bool {
    (s.len() > 0 && s[0] == '/') || !spec_starts_with_scheme(s)
}

fn starts_with_scheme(input: &str) -> (r: bool)
    ensures
        r == spec_starts_with_scheme(input@),
{
    let v = str_to_chars(input);
    let mut k: usize = 0;
    while k < v.len() && v[k] != ':'
        invariant
            v@ == input@,
            k <= v@.len(),
            forall|j: int| 0 <= j < k ==> #[trigger] v@[j] != ':',
        decreases v@.len() - k,
    {
        k += 1;
    }
    if k == v.len() || k == 0 {
        return false;
    }
    let first = v[0];
    if !(('a' <= first && first <= 'z') || ('A' <= first && first <= 'Z')) {
        return false;
    }
    let mut i: usize = 1;
    while i < v.len()
        invariant
            v@ == input@,
            1 <= i <= v@.len(),
            forall|j: int| 1 <= j < i ==> #[trigger] is_scheme_char(v@[j]),
        decreases v@.len() - i,
    {
        let c = v[i];
        if !(('a' <= c && c <= 'z') || ('A' <= c && c <= 'Z') || ('0' <= c && c <= '9') || c
            == '+' || c == '-' || c == '.') {
            assert(!is_scheme_char(v@[i as int]));
            return false;
        }
        i += 1;
    }
    true
}

/// The string representation of a URL, either absolute or relative, that was checked to
/// be valid when it was made.
#[derive(Debug)]
pub struct Url(String);

impl View for Url {
    type V = Seq<char>;

    closed spec fn view(&self) -> Seq<char> {
        self.0@
    }
}

impl Url {
    /// Parses an absolute URL; the URL holds the parser's serialization of the input.
    pub fn parse_absolute(input: &str) -> (r: Result<Url, UrlError>)
        ensures
            r is Ok <==> url_serialization(input@) is Some,
            r matches Ok(u) ==> url_serialization(input@) == Some(u@),
            r matches Err(e) ==> (e matches UrlError::Syntax(pe) && url_parsed(input@) == Err::<Seq<char>, url::ParseError>(pe)),
    {
        match url_parse(input) {
            Ok(s) => Ok(Url(s)),
            Err(e) => Err(UrlError::Syntax(e)),
        }
    }

    /// Checks that `input` is a relative URL: it starts with `/` or has no scheme, and it
    /// parses against a hierarchical base. The URL holds `input` unchanged.
    pub fn parse_relative(input: &str) -> (r: Result<Url, UrlError>)
        ensures
            r is Ok <==> spec_relative_ok(input@) && url_join(relative_base(), input@) is Some,
            r matches Ok(u) ==> u@ == input@,
            !spec_relative_ok(input@) ==> (r matches Err(e) && e is SetHostOnCannotBeABaseUrl),
            spec_relative_ok(input@) && url_join(relative_base(), input@) is None ==> (r matches Err(
                e,
            ) && e is Syntax),
            spec_relative_ok(input@) ==> (r matches Err(e) ==> (e matches UrlError::Syntax(pe)
                && url_joined(relative_base(), input@) == Err::<Seq<char>, url::ParseError>(pe))),
    {
        let v = str_to_chars(input);
        if (v.len() > 0 && v[0] == '/') || !starts_with_scheme(input) {
            let base = "https://a/b";
            proof {
                reveal_strlit("https://a/b");
                assert(base@ =~= relative_base());
            }
            match url_parse_with_base(base, input) {
                Ok(_) => Ok(Url(input.to_owned())),
                Err(e) => Err(UrlError::Syntax(e)),
            }
        } else {
            Err(UrlError::SetHostOnCannotBeABaseUrl)
        }
    }

    /// Parses an absolute URL, or else a relative one.
    pub fn parse(input: &str) -> (r: Result<Url, UrlError>)
        ensures
            r is Ok <==> url_serialization(input@) is Some || (spec_relative_ok(input@) && url_join(
                relative_base(),
                input@,
            ) is Some),
            r matches Ok(u) ==> (if url_serialization(input@) is Some {
                url_serialization(input@) == Some(u@)
            } else {
                u@ == input@
            }),
            r matches Err(e) ==> (e is SetHostOnCannotBeABaseUrl <==> !spec_relative_ok(input@)),
            spec_relative_ok(input@) ==> (r matches Err(e) ==> (e matches UrlError::Syntax(pe)
                && url_joined(relative_base(), input@) == Err::<Seq<char>, url::ParseError>(pe))),
    {
        match Url::parse_absolute(input) {
            Ok(u) => Ok(u),
            Err(_) => Url::parse_relative(input),
        }
    }

    /// The URL's text.
    pub fn as_str(&self) -> (r: &str)
        ensures
            r@ == self@,
    {
        self.0.as_str()
    }

    /// A copy of this URL.
    pub fn duplicate(&self) -> (r: Url)
        ensures
            r@ == self@,
    {
        Url(copy_string(&self.0))
    }
}

impl std::str::FromStr for Url {
    type Err = UrlError;

    fn from_str(input: &str) -> (r: Result<Self, Self::Err>)
        ensures
            r is Ok <==> url_serialization(input@) is Some || (spec_relative_ok(input@) && url_join(
                relative_base(),
                input@,
            ) is Some),
            r matches Ok(u) ==> (if url_serialization(input@) is Some {
                url_serialization(input@) == Some(u@)
            } else {
                u@ == input@
            }),
            r matches Err(e) ==> (e is SetHostOnCannotBeABaseUrl <==> !spec_relative_ok(input@)),
            spec_relative_ok(input@) ==> (r matches Err(e) ==> (e matches UrlError::Syntax(pe)
                && url_joined(relative_base(), input@) == Err::<Seq<char>, url::ParseError>(pe))),
    {
        Url::parse(input)
    }
}

} // verus!
