//! Value types of the attributes that document tree elements carry.
use vstd::prelude::*;

use crate::text::{eq_chars, is_ws, push_char, str_to_chars};

verus! {

#[derive(Clone, Copy, Debug, PartialEq, Eq, Structural, Hash)]
pub enum EnumeratedListType {
    Arabic,
    LowerAlpha,
    UpperAlpha,
    LowerRoman,
    UpperRoman,
}

/// Kind of an auto-numbered footnote: `[#]` (number) or `[*]` (symbol).
#[derive(Clone, Copy, Debug, PartialEq, Eq, Structural, Hash)]
pub enum FootnoteType {
    Number,
    Symbol,
}

impl FootnoteType {
    /// The footnote type that a label's first character announces.
    pub open spec fn spec_from_char(c: char) -> Option<FootnoteType> {
        if c == '#' {
            Some(FootnoteType::Number)
        } else if c == '*' {
            Some(FootnoteType::Symbol)
        } else {
            None
        }
    }

    /// `#` announces a numbered footnote, `*` a symbol footnote; any other character none.
    pub fn try_from_char(c: char) -> (r: Option<FootnoteType>)
        ensures
            r == Self::spec_from_char(c),
    {
        match c {
            '#' => Some(FootnoteType::Number),
            '*' => Some(FootnoteType::Symbol),
            _ => None,
        }
    }
}

#[derive(Clone, Copy, Debug, PartialEq, Eq, Structural, Hash)]
pub enum FixedSpace {
    Default,
    // yes, the default really is not “Default”
    Preserve,
}

impl Default for FixedSpace {
    fn default() -> (r: FixedSpace)
        ensures
            r == FixedSpace::Preserve,
    {
        FixedSpace::Preserve
    }
}

#[derive(Clone, Copy, Debug, PartialEq, Eq, Structural, Hash)]
pub enum AlignH {
    Left,
    Center,
    Right,
}

#[derive(Clone, Copy, Debug, PartialEq, Eq, Structural, Hash)]
pub enum AlignHV {
    Top,
    Middle,
    Bottom,
    Left,
    Center,
    Right,
}

#[derive(Clone, Copy, Debug, PartialEq, Eq, Structural, Hash)]
pub enum AlignV {
    Top,
    Middle,
    Bottom,
}

#[derive(Clone, Copy, Debug, PartialEq, Eq, Structural, Hash)]
pub enum TableAlignH {
    Left,
    Right,
    Center,
    Justify,
    Char,
}

#[derive(Clone, Copy, Debug, PartialEq, Eq, Structural, Hash)]
pub enum TableBorder {
    Top,
    Bottom,
    TopBottom,
    All,
    Sides,
    NoBorder,
}

/// A unique identifier key of an element.
#[derive(Debug)]
pub struct ID(pub String);

/// A name of an element.
#[derive(Debug)]
pub struct NameToken(pub String);

/// The number of columns of a table group.
#[derive(Clone, Copy, Debug, PartialEq, Eq, Structural, Hash)]
pub struct TableGroupCols(pub usize);

impl Default for TableGroupCols {
    fn default() -> (r: TableGroupCols)
        ensures
            r.0 == 0,
    {
        TableGroupCols(0)
    }
}

/// `s` with every space replaced by a hyphen.
pub open spec fn spaces_to_hyphens(s: Seq<char>) -> Seq<char> {
    Seq::new(s.len(), |i: int| if s[i] == ' ' { '-' } else { s[i] })
}

impl View for ID {
    type V = Seq<char>;

    open spec fn view(&self) -> Seq<char> {
        self.0@
    }
}

impl View for NameToken {
    type V = Seq<char>;

    open spec fn view(&self) -> Seq<char> {
        self.0@
    }
}

impl ID {
    /// An identifier made from a name: spaces become hyphens.
    pub fn from_name(s: &str) -> (r: ID)
        ensures
            r.0@ == spaces_to_hyphens(s@),
    {
        let v = str_to_chars(s);
        let mut out = String::new();
        let mut i: usize = 0;
        while i < v.len()
            invariant
                v@ == s@,
                i <= v@.len(),
                out@ == spaces_to_hyphens(s@).subrange(0, i as int),
            decreases v@.len() - i,
        {
            let c = if v[i] == ' ' {
                '-'
            } else {
                v[i]
            };
            push_char(&mut out, c);
            i += 1;
            assert(out@ =~= spaces_to_hyphens(s@).subrange(0, i as int));
        }
        assert(spaces_to_hyphens(s@).subrange(0, v@.len() as int) =~= spaces_to_hyphens(s@));
        ID(out)
    }

    /// A copy of this identifier.
    pub fn duplicate(&self) -> (r: ID)
        ensures
            r.0@ == self.0@,
    {
        ID(self.0.clone())
    }
}

impl NameToken {
    /// A name token holding `s` unchanged.
    pub fn from_str_slice(s: &str) -> (r: NameToken)
        ensures
            r.0@ == s@,
    {
        NameToken(s.to_owned())
    }

    /// A copy of this name token.
    pub fn duplicate(&self) -> (r: NameToken)
        ensures
            r.0@ == self.0@,
    {
        NameToken(self.0.clone())
    }
}

/// Why an attribute value could not be read.
#[derive(Debug)]
pub enum AttributeError {
    /// The text names no alignment.
    InvalidAlignment(String),
    /// The text holds no length with a unit.
    InvalidMeasure,
}

/// The alignment that a keyword names.
pub open spec fn spec_align_hv(s: Seq<char>) -> Option<AlignHV> {
    if s == seq!['t', 'o', 'p'] {
        Some(AlignHV::Top)
    } else if s == seq!['m', 'i', 'd', 'd', 'l', 'e'] {
        Some(AlignHV::Middle)
    } else if s == seq!['b', 'o', 't', 't', 'o', 'm'] {
        Some(AlignHV::Bottom)
    } else if s == seq!['l', 'e', 'f', 't'] {
        Some(AlignHV::Left)
    } else if s == seq!['c', 'e', 'n', 't', 'e', 'r'] {
        Some(AlignHV::Center)
    } else if s == seq!['r', 'i', 'g', 'h', 't'] {
        Some(AlignHV::Right)
    } else {
        None
    }
}

/// Each alignment keyword reads as its own alignment, and distinct texts never read as
/// the same alignment.
pub proof fn law_alignment_keywords(s: Seq<char>, t: Seq<char>)
    ensures
        spec_align_hv(seq!['t', 'o', 'p']) == Some(AlignHV::Top),
        spec_align_hv(seq!['m', 'i', 'd', 'd', 'l', 'e']) == Some(AlignHV::Middle),
        spec_align_hv(seq!['b', 'o', 't', 't', 'o', 'm']) == Some(AlignHV::Bottom),
        spec_align_hv(seq!['l', 'e', 'f', 't']) == Some(AlignHV::Left),
        spec_align_hv(seq!['c', 'e', 'n', 't', 'e', 'r']) == Some(AlignHV::Center),
        spec_align_hv(seq!['r', 'i', 'g', 'h', 't']) == Some(AlignHV::Right),
        spec_align_hv(s) is Some && spec_align_hv(s) == spec_align_hv(t) ==> s == t,
{
}

impl AlignHV {
    /// Reads one of the keywords `top`, `middle`, `bottom`, `left`, `center`, `right`.
    pub fn parse(s: &str) -> (r: Result<AlignHV, AttributeError>)
        ensures
            r matches Ok(a) ==> spec_align_hv(s@) == Some(a),
            r matches Err(e) ==> (e matches AttributeError::InvalidAlignment(t) && t@ == s@),
            r is Ok <==> spec_align_hv(s@) is Some,
    {
        let v = str_to_chars(s);
        let vs = v.as_slice();
        if eq_chars(vs, &['t', 'o', 'p']) {
            Ok(AlignHV::Top)
        } else if eq_chars(vs, &['m', 'i', 'd', 'd', 'l', 'e']) {
            Ok(AlignHV::Middle)
        } else if eq_chars(vs, &['b', 'o', 't', 't', 'o', 'm']) {
            Ok(AlignHV::Bottom)
        } else if eq_chars(vs, &['l', 'e', 'f', 't']) {
            Ok(AlignHV::Left)
        } else if eq_chars(vs, &['c', 'e', 'n', 't', 'e', 'r']) {
            Ok(AlignHV::Center)
        } else if eq_chars(vs, &['r', 'i', 'g', 'h', 't']) {
            Ok(AlignHV::Right)
        } else {
            Err(AttributeError::InvalidAlignment(s.to_owned()))
        }
    }
}

} // verus!

verus! {

/// The units a length can be given in.
#[derive(Clone, Copy, Debug, PartialEq, Eq, Structural, Hash)]
pub enum MeasureUnit {
    Em,
    Ex,
    Mm,
    Cm,
    In,
    Px,
    Pt,
    Pc,
}

/// A length: a decimal number, kept as the digits that were written, and its unit.
#[derive(Debug)]
pub struct Measure {
    pub value: String,
    pub unit: MeasureUnit,
}

/// What a measure means in contracts: its decimal text and its unit.
pub struct MeasureView {
    pub value: Seq<char>,
    pub unit: MeasureUnit,
}

impl View for Measure {
    type V = MeasureView;

    open spec fn view(&self) -> MeasureView {
        MeasureView { value: self.value@, unit: self.unit }
    }
}

impl Measure {
    /// A copy of this measure.
    pub fn duplicate(&self) -> (r: Measure)
        ensures
            r@ == self@,
    {
        Measure { value: self.value.clone(), unit: self.unit }
    }
}

pub open spec fn is_digit(c: char) -> bool {
    '0' <= c && c <= '9'
}

/// What `regex::Regex::new(pattern)` and then `is_match(text)` give: whether `text`
/// matches, or `None` where the pattern does not compile.
pub uninterp spec fn regex_match(pattern: Seq<char>, text: Seq<char>) -> Option<bool>;

/// `regex::Regex::new(pattern)`, then `Regex::is_match(text)`: gives what `regex_match`
/// names. The regular-expression engine and its Unicode tables are not restated.
#[verifier::external_body]
fn regex_is_match(pattern: &str, text: &str) -> (r: Option<bool>)
    ensures
        r == regex_match(pattern@, text@),
{
    match regex::Regex::new(pattern) {
        Ok(re) => Some(re.is_match(text)),
        Err(_) => None,
    }
}

/// The pattern of one decimal digit and nothing else.
pub open spec fn digit_pattern() -> Seq<char> {
    seq!['^', '\\', 'd', '$']
}

/// A decimal digit as `regex` reads `\d`: any character of Unicode's decimal number
/// category.
pub open spec fn is_decimal_digit(c: char) -> bool {
    regex_match(digit_pattern(), seq![c]) == Some(true)
}

/// Whether a number is written in ASCII digits and points only, as reading it as a
/// floating-point number asks.
pub open spec fn ascii_number(v: Seq<char>) -> bool {
    forall|i: int| 0 <= i < v.len() ==> is_digit(#[trigger] v[i]) || v[i] == '.'
}

/// The first position at or after `k` that holds no digit.
pub open spec fn digits_end(s: Seq<char>, k: int) -> int
    decreases s.len() - k,
{
    if 0 <= k < s.len() && is_decimal_digit(s[k]) {
        digits_end(s, k + 1)
    } else {
        k
    }
}

/// The first position at or after `k` that holds no whitespace.
pub open spec fn ws_end(s: Seq<char>, k: int) -> int
    decreases s.len() - k,
{
    if 0 <= k < s.len() && is_ws(s[k]) {
        ws_end(s, k + 1)
    } else {
        k
    }
}

/// The unit read at `w` is the one that the two letters there name: `em`, `ex`, `mm`, `cm`,
/// `in`, `px`, `pt` and `pc` give their own units, and nothing else gives one.
pub proof fn law_unit_letters(s: Seq<char>, w: int)
    ensures
        unit_at(s, w) is Some ==> 0 <= w && w + 1 < s.len(),
        unit_at(s, w) == Some(MeasureUnit::Em) <==> (0 <= w && w + 1 < s.len() && s[w] == 'e' && s[w + 1] == 'm'),
        unit_at(s, w) == Some(MeasureUnit::Ex) <==> (0 <= w && w + 1 < s.len() && s[w] == 'e' && s[w + 1] == 'x'),
        unit_at(s, w) == Some(MeasureUnit::Mm) <==> (0 <= w && w + 1 < s.len() && s[w] == 'm' && s[w + 1] == 'm'),
        unit_at(s, w) == Some(MeasureUnit::Cm) <==> (0 <= w && w + 1 < s.len() && s[w] == 'c' && s[w + 1] == 'm'),
        unit_at(s, w) == Some(MeasureUnit::In) <==> (0 <= w && w + 1 < s.len() && s[w] == 'i' && s[w + 1] == 'n'),
        unit_at(s, w) == Some(MeasureUnit::Px) <==> (0 <= w && w + 1 < s.len() && s[w] == 'p' && s[w + 1] == 'x'),
        unit_at(s, w) == Some(MeasureUnit::Pt) <==> (0 <= w && w + 1 < s.len() && s[w] == 'p' && s[w + 1] == 't'),
        unit_at(s, w) == Some(MeasureUnit::Pc) <==> (0 <= w && w + 1 < s.len() && s[w] == 'p' && s[w + 1] == 'c'),
{
}

/// Two places read as the same unit hold the same two letters: distinct unit names give
/// distinct units.
pub proof fn law_same_unit_same_letters(s: Seq<char>, w: int, t: Seq<char>, v: int)
    requires
        unit_at(s, w) is Some,
        unit_at(s, w) == unit_at(t, v),
    ensures
        s[w] == t[v],
        s[w + 1] == t[v + 1],
{
    law_unit_letters(s, w);
    law_unit_letters(t, v);
}

/// The length unit that the two characters at `w` name.
pub open spec fn unit_at(s: Seq<char>, w: int) -> Option<MeasureUnit> {
    if 0 <= w && w + 1 < s.len() {
        let (a, b) = (s[w], s[w + 1]);
        if a == 'e' && b == 'm' {
            Some(MeasureUnit::Em)
        } else if a == 'e' && b == 'x' {
            Some(MeasureUnit::Ex)
        } else if a == 'm' && b == 'm' {
            Some(MeasureUnit::Mm)
        } else if a == 'c' && b == 'm' {
            Some(MeasureUnit::Cm)
        } else if a == 'i' && b == 'n' {
            Some(MeasureUnit::In)
        } else if a == 'p' && b == 'x' {
            Some(MeasureUnit::Px)
        } else if a == 'p' && b == 't' {
            Some(MeasureUnit::Pt)
        } else if a == 'p' && b == 'c' {
            Some(MeasureUnit::Pc)
        } else {
            None
        }
    } else {
        None
    }
}

/// The end of a number `digits.digits*` at `p`, or -1.
pub open spec fn float_with_point(s: Seq<char>, p: int) -> int {
    if 0 <= p < s.len() && is_decimal_digit(s[p]) {
        let d = digits_end(s, p);
        if d < s.len() && s[d] == '.' {
            digits_end(s, d + 1)
        } else {
            -1
        }
    } else {
        -1
    }
}

/// The end of a number `.?digits` at `p`, or -1.
pub open spec fn float_plain(s: Seq<char>, p: int) -> int {
    if 0 <= p < s.len() && s[p] == '.' && p + 1 < s.len() && is_decimal_digit(s[p + 1]) {
        digits_end(s, p + 1)
    } else if 0 <= p < s.len() && is_decimal_digit(s[p]) {
        digits_end(s, p)
    } else {
        -1
    }
}

/// A number ending at `f`, then whitespace, then a unit.
pub open spec fn unit_after(s: Seq<char>, f: int) -> Option<MeasureUnit> {
    if f >= 0 {
        unit_at(s, ws_end(s, f))
    } else {
        None
    }
}

/// The measure that starts at `p`: the end of its number and its unit; the number with a
/// decimal point is tried first.
pub open spec fn measure_at(s: Seq<char>, p: int) -> Option<(int, MeasureUnit)> {
    let a = float_with_point(s, p);
    if unit_after(s, a) is Some {
        Some((a, unit_after(s, a).unwrap()))
    } else {
        let b = float_plain(s, p);
        if unit_after(s, b) is Some {
            Some((b, unit_after(s, b).unwrap()))
        } else {
            None
        }
    }
}

/// The leftmost measure at or after `p`: where its number starts and ends, and its unit.
pub open spec fn measure_search(s: Seq<char>, p: int) -> Option<(int, int, MeasureUnit)>
    decreases s.len() - p,
{
    if p < 0 || p >= s.len() {
        None
    } else if measure_at(s, p) is Some {
        let (f, u) = measure_at(s, p).unwrap();
        Some((p, f, u))
    } else {
        measure_search(s, p + 1)
    }
}

/// The measure that a text holds: the first number with a unit in it, where that number
/// is written in ASCII digits (a number in other decimal digits cannot be read as a
/// floating-point number, and the text is refused).
pub open spec fn spec_parse_measure(s: Seq<char>) -> Option<MeasureView> {
    match measure_search(s, 0) {
        Some((p, f, u)) => if ascii_number(s.subrange(p, f)) {
            Some(MeasureView { value: s.subrange(p, f), unit: u })
        } else {
            None
        },
        None => None,
    }
}


proof fn lemma_measure_search(s: Seq<char>, p: int)
    ensures
        measure_search(s, p) matches Some((q, f, u)) ==> (measure_at(s, q) == Some((f, u)) && unit_at(s, ws_end(s, f)) == Some(u)),
    decreases s.len() - p,
{
    if 0 <= p < s.len() && measure_at(s, p) is None {
        lemma_measure_search(s, p + 1);
    }
}

/// The unit of a measure read from a text is the one that two letters of the text name,
/// right after the number and any whitespace.
pub proof fn law_measure_unit_from_letters(s: Seq<char>)
    ensures
        spec_parse_measure(s) matches Some(m) ==> exists|w: int| #[trigger] unit_at(s, w) == Some(m.unit),
{
    lemma_measure_search(s, 0);
    if let Some((q, f, u)) = measure_search(s, 0) {
        assert(unit_at(s, ws_end(s, f)) == Some(u));
    }
}

fn is_decimal_digit_exec(c: char) -> (r: bool)
    ensures
        r == is_decimal_digit(c),
{
    let pattern = "^\\d$";
    proof {
        reveal_strlit("^\\d$");
        assert(pattern@ =~= digit_pattern());
    }
    let one = [c];
    let t = crate::text::string_of(&one);
    assert(t@ =~= seq![c]);
    match regex_is_match(pattern, t.as_str()) {
        Some(b) => b,
        None => false,
    }
}

fn digits_end_exec(s: &Vec<char>, k0: usize) -> (r: usize)
    requires
        k0 <= s@.len(),
    ensures
        r == digits_end(s@, k0 as int),
        k0 <= r <= s@.len(),
        k0 < s@.len() && is_decimal_digit(s@[k0 as int]) ==> r > k0,
{
    let mut k = k0;
    while k < s.len() && is_decimal_digit_exec(s[k])
        invariant
            k0 <= k <= s@.len(),
            digits_end(s@, k0 as int) == digits_end(s@, k as int),
        decreases s@.len() - k,
    {
        k += 1;
    }
    k
}

fn ws_end_exec(s: &Vec<char>, k0: usize) -> (r: usize)
    requires
        k0 <= s@.len(),
    ensures
        r == ws_end(s@, k0 as int),
        k0 <= r <= s@.len(),
{
    let mut k = k0;
    while k < s.len() && crate::text::is_whitespace(s[k])
        invariant
            k0 <= k <= s@.len(),
            ws_end(s@, k0 as int) == ws_end(s@, k as int),
        decreases s@.len() - k,
    {
        k += 1;
    }
    k
}

fn unit_at_exec(s: &Vec<char>, w: usize) -> (r: Option<MeasureUnit>)
    ensures
        r == unit_at(s@, w as int),
{
    if w < s.len() && s.len() - w >= 2 {
        let a = s[w];
        let b = s[w + 1];
        if a == 'e' && b == 'm' {
            Some(MeasureUnit::Em)
        } else if a == 'e' && b == 'x' {
            Some(MeasureUnit::Ex)
        } else if a == 'm' && b == 'm' {
            Some(MeasureUnit::Mm)
        } else if a == 'c' && b == 'm' {
            Some(MeasureUnit::Cm)
        } else if a == 'i' && b == 'n' {
            Some(MeasureUnit::In)
        } else if a == 'p' && b == 'x' {
            Some(MeasureUnit::Px)
        } else if a == 'p' && b == 't' {
            Some(MeasureUnit::Pt)
        } else if a == 'p' && b == 'c' {
            Some(MeasureUnit::Pc)
        } else {
            None
        }
    } else {
        None
    }
}

fn float_with_point_exec(s: &Vec<char>, p: usize) -> (r: Option<usize>)
    ensures
        match r {
            Some(f) => float_with_point(s@, p as int) == f && p < f <= s@.len(),
            None => float_with_point(s@, p as int) == -1,
        },
{
    if p < s.len() && is_decimal_digit_exec(s[p]) {
        let d = digits_end_exec(s, p);
        if d < s.len() && s[d] == '.' {
            Some(digits_end_exec(s, d + 1))
        } else {
            None
        }
    } else {
        None
    }
}

fn float_plain_exec(s: &Vec<char>, p: usize) -> (r: Option<usize>)
    ensures
        match r {
            Some(f) => float_plain(s@, p as int) == f && p < f <= s@.len(),
            None => float_plain(s@, p as int) == -1,
        },
{
    if p < s.len() && s[p] == '.' && s.len() - p > 1 && is_decimal_digit_exec(s[p + 1]) {
        Some(digits_end_exec(s, p + 1))
    } else if p < s.len() && is_decimal_digit_exec(s[p]) {
        Some(digits_end_exec(s, p))
    } else {
        None
    }
}

fn unit_after_exec(s: &Vec<char>, f: Option<usize>) -> (r: Option<MeasureUnit>)
    requires
        f matches Some(x) ==> x <= s@.len(),
    ensures
        r == unit_after(s@, match f { Some(x) => x as int, None => -1 }),
{
    match f {
        Some(x) => unit_at_exec(s, ws_end_exec(s, x)),
        None => None,
    }
}

fn measure_at_exec(s: &Vec<char>, p: usize) -> (r: Option<(usize, MeasureUnit)>)
    ensures
        match r {
            Some((f, u)) => measure_at(s@, p as int) == Some((f as int, u)) && p < f <= s@.len(),
            None => measure_at(s@, p as int) is None,
        },
{
    let a = float_with_point_exec(s, p);
    if let Some(u) = unit_after_exec(s, a) {
        return Some((a.unwrap(), u));
    }
    let b = float_plain_exec(s, p);
    if let Some(u) = unit_after_exec(s, b) {
        return Some((b.unwrap(), u));
    }
    None
}

impl Measure {
    /// Reads the first number with a length unit in a text, as in `1.5em`, `20 mm`, `.5in` or
    /// `1.pc`; the number is kept as written.
    pub fn parse(text: &str) -> (r: Result<Measure, AttributeError>)
        ensures
            match r {
                Ok(m) => spec_parse_measure(text@) == Some(m@),
                Err(e) => spec_parse_measure(text@) is None && e is InvalidMeasure,
            },
    {
        let s = str_to_chars(text);
        let mut p: usize = 0;
        while p < s.len()
            invariant
                s@ == text@,
                p <= s@.len(),
                measure_search(s@, 0) == measure_search(s@, p as int),
            decreases s@.len() - p,
        {
            if let Some((f, u)) = measure_at_exec(&s, p) {
                let mut k = p;
                while k < f
                    invariant
                        p <= k <= f <= s@.len(),
                        s@ == text@,
                        measure_at(s@, p as int) == Some((f as int, u)),
                        measure_search(s@, 0) == measure_search(s@, p as int),
                        forall|j: int| p <= j < k ==> is_digit(#[trigger] s@[j]) || s@[j] == '.',
                    decreases f - k,
                {
                    if !(('0' <= s[k] && s[k] <= '9') || s[k] == '.') {
                        assert(s@.subrange(p as int, f as int)[k - p] == s@[k as int]);
                        assert(!(is_digit(s@.subrange(p as int, f as int)[k - p]) || s@.subrange(p as int, f as int)[k - p] == '.'));
                        assert(!ascii_number(s@.subrange(p as int, f as int)));
                        assert(measure_search(s@, p as int) == Some((p as int, f as int, u)));
                        return Err(AttributeError::InvalidMeasure);
                    }
                    k += 1;
                }
                assert(ascii_number(s@.subrange(p as int, f as int))) by {
                    assert forall|i: int| 0 <= i < f - p implies is_digit(#[trigger] s@.subrange(p as int, f as int)[i]) || s@.subrange(p as int, f as int)[i] == '.' by {
                        assert(s@.subrange(p as int, f as int)[i] == s@[p + i]);
                    }
                }
                assert(measure_search(s@, p as int) == Some((p as int, f as int, u)));
                let value = crate::text::chars_to_string(s.as_slice(), p, f);
                return Ok(Measure { value, unit: u });
            }
            p += 1;
        }
        Err(AttributeError::InvalidMeasure)
    }
}

impl std::str::FromStr for Measure {
    type Err = AttributeError;

    fn from_str(text: &str) -> (r: Result<Self, Self::Err>)
        ensures
            match r {
                Ok(m) => spec_parse_measure(text@) == Some(m@),
                Err(e) => spec_parse_measure(text@) is None && e is InvalidMeasure,
            },
    {
        Measure::parse(text)
    }
}

} // verus!
