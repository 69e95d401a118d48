//! The position line of a metadata report and the fields it holds.

use crate::scan::{cut_after, find_line, split_pair, split_whitespace, trim_end_char};
use crate::text::{after_first, first_with_prefix, lines, split, strip_trailing, texts, tokens};
use vstd::prelude::*;
use vstd::string::StrSliceExecFns;

verus! {

/// One of the two angles of a position.
#[derive(Clone, Copy, Debug, PartialEq, Eq)]
pub enum Axis {
    Latitude,
    Longitude,
}

/// The fields of one angle, as they stand in the report.
#[derive(Clone, Debug, PartialEq, Eq)]
pub struct AxisReading {
    /// Whole degrees, as written.
    pub degrees: String,
    /// Minutes, without the mark behind them.
    pub minutes: String,
    /// Seconds, without the mark behind them.
    pub seconds: String,
    /// The hemisphere letter.
    pub hemisphere: String,
}

/// What an `AxisReading` holds.
pub ghost struct AxisText {
    pub degrees: Seq<char>,
    pub minutes: Seq<char>,
    pub seconds: Seq<char>,
    pub hemisphere: Seq<char>,
}

impl View for AxisReading {
    type V = AxisText;

    open spec fn view(&self) -> AxisText {
        AxisText {
            degrees: self.degrees@,
            minutes: self.minutes@,
            seconds: self.seconds@,
            hemisphere: self.hemisphere@,
        }
    }
}

/// Latitude and longitude as read from a position line.
#[derive(Clone, Debug, PartialEq, Eq)]
pub struct Position {
    pub latitude: AxisReading,
    pub longitude: AxisReading,
}

/// What a `Position` holds.
pub ghost struct PositionText {
    pub latitude: AxisText,
    pub longitude: AxisText,
}

impl View for Position {
    type V = PositionText;

    open spec fn view(&self) -> PositionText {
        PositionText { latitude: self.latitude@, longitude: self.longitude@ }
    }
}

/// Why a report gave no position.
#[derive(Clone, Debug, PartialEq, Eq)]
pub enum ParseError {
    /// No line begins with the position label.
    NotFound,
    /// The position line has no `": "` after its label.
    MissingSeparator,
    /// What follows the label is not two parts with `", "` between them.
    UnexpectedFormat,
    /// The latitude part has not five tokens; these are its tokens.
    UnexpectedLatitude(Vec<String>),
    /// The longitude part has not five tokens; these are its tokens.
    UnexpectedLongitude(Vec<String>),
}

/// What a `ParseError` holds.
pub ghost enum ParseErrorText {
    NotFound,
    MissingSeparator,
    UnexpectedFormat,
    UnexpectedLatitude(Seq<Seq<char>>),
    UnexpectedLongitude(Seq<Seq<char>>),
}

/// The character sequences of the strings of `v`, in order.
pub open spec fn strings(v: Seq<String>) -> Seq<Seq<char>> {
    Seq::new(v.len(), |i: int| v[i]@)
}

impl View for ParseError {
    type V = ParseErrorText;

    open spec fn view(&self) -> ParseErrorText {
        match self {
            ParseError::NotFound => ParseErrorText::NotFound,
            ParseError::MissingSeparator => ParseErrorText::MissingSeparator,
            ParseError::UnexpectedFormat => ParseErrorText::UnexpectedFormat,
            ParseError::UnexpectedLatitude(t) => ParseErrorText::UnexpectedLatitude(strings(t@)),
            ParseError::UnexpectedLongitude(t) => ParseErrorText::UnexpectedLongitude(
                strings(t@),
            ),
        }
    }
}

/// The label that the position line begins with.
pub open spec fn label() -> Seq<char> {
    "GPS Position"@
}

/// The first line of `report` that begins with the label.
pub open spec fn position_line(report: Seq<char>) -> Option<Seq<char>> {
    first_with_prefix(lines(report), label())
}

/// The letter that makes an angle negative: south, or west.
pub open spec fn negative_letter(axis: Axis) -> char {
    match axis {
        Axis::Latitude => 'S',
        Axis::Longitude => 'W',
    }
}

/// Whether an angle with this hemisphere field is negative. Any field but
/// the one letter leaves it positive.
pub open spec fn negated(axis: Axis, hemisphere: Seq<char>) -> bool {
    hemisphere == seq![negative_letter(axis)]
}

/// The fields of an angle given by five tokens: degrees, a word that is not
/// looked at, minutes with their mark, seconds with their mark, hemisphere.
pub open spec fn axis_fields(t: Seq<Seq<char>>) -> AxisText
    recommends
        t.len() == 5,
{
    AxisText {
        degrees: t[0],
        minutes: strip_trailing(t[2], '\''),
        seconds: strip_trailing(t[3], '"'),
        hemisphere: t[4],
    }
}

/// The fields of the angle that `part` describes, or the tokens of `part`
/// where they are not five.
pub open spec fn axis_of(part: Seq<char>) -> Result<AxisText, Seq<Seq<char>>> {
    let t = tokens(part);
    if t.len() == 5 {
        Ok(axis_fields(t))
    } else {
        Err(t)
    }
}

/// The position described by the two parts of a position line.
pub open spec fn position_of_parts(latitude: Seq<char>, longitude: Seq<char>) -> Result<
    PositionText,
    ParseErrorText,
> {
    match axis_of(latitude) {
        Err(t) => Err(ParseErrorText::UnexpectedLatitude(t)),
        Ok(lat) => match axis_of(longitude) {
            Err(t) => Err(ParseErrorText::UnexpectedLongitude(t)),
            Ok(lon) => Ok(PositionText { latitude: lat, longitude: lon }),
        },
    }
}

/// The position that `report` gives, or why it gives none.
pub open spec fn position_of(report: Seq<char>) -> Result<PositionText, ParseErrorText> {
    match position_line(report) {
        None => Err(ParseErrorText::NotFound),
        Some(line) => match after_first(line, ": "@) {
            None => Err(ParseErrorText::MissingSeparator),
            Some(data) => {
                let parts = split(data, ", "@);
                if parts.len() == 2 {
                    position_of_parts(parts[0], parts[1])
                } else {
                    Err(ParseErrorText::UnexpectedFormat)
                }
            },
        },
    }
}

/// The view of what `parse_position` and its like return.
pub open spec fn outcome(r: Result<Position, ParseError>) -> Result<PositionText, ParseErrorText> {
    match r {
        Ok(p) => Ok(p@),
        Err(e) => Err(e@),
    }
}

impl AxisReading {
    /// Tells whether the angle is negative: a latitude with hemisphere `S`,
    /// a longitude with hemisphere `W`.
    pub fn is_negated(&self, axis: Axis) -> (b: bool)
        ensures
            b == negated(axis, self.hemisphere@),
    {
        let letter: char = match axis {
            Axis::Latitude => 'S',
            Axis::Longitude => 'W',
        };
        let h = self.hemisphere.as_str();
        let b = h.unicode_len() == 1 && h.get_char(0) == letter;
        assert(b ==> h@ =~= seq![letter]);
        b
    }
}

impl ParseError {
    /// The words that report this failure.
    pub fn message(&self) -> (m: &'static str)
        ensures
            m@ == match self@ {
                ParseErrorText::NotFound => "No GPS data found."@,
                ParseErrorText::MissingSeparator => "Unexpected GPS format."@,
                ParseErrorText::UnexpectedFormat => "Unexpected GPS format."@,
                ParseErrorText::UnexpectedLatitude(_) => "Unexpected latitude format"@,
                ParseErrorText::UnexpectedLongitude(_) => "Unexpected longitude format"@,
            },
    {
        match self {
            ParseError::NotFound => "No GPS data found.",
            ParseError::MissingSeparator => "Unexpected GPS format.",
            ParseError::UnexpectedFormat => "Unexpected GPS format.",
            ParseError::UnexpectedLatitude(_) => "Unexpected latitude format",
            ParseError::UnexpectedLongitude(_) => "Unexpected longitude format",
        }
    }
}

/// Copies the tokens into strings of their own.
fn owned_tokens(t: &Vec<&str>) -> (r: Vec<String>)
    ensures
        strings(r@) == texts(t@),
{
    let mut r: Vec<String> = Vec::new();
    let mut i: usize = 0;
    while i < t.len()
        invariant
            i <= t.len(),
            r@.len() == i,
            forall|j: int| 0 <= j < i ==> r@[j]@ == t@[j]@,
        decreases t.len() - i,
    {
        r.push(t[i].to_owned());
        i += 1;
    }
    assert(strings(r@) =~= texts(t@));
    r
}

/// Finds the position line of `report`.
pub fn find_position_line<'a>(report: &'a str) -> (r: Option<&'a str>)
    ensures
        match r {
            Some(l) => position_line(report@) == Some(l@),
            None => position_line(report@) is None,
        },
{
    find_line(report, "GPS Position")
}

/// Reads the fields of one angle from its part of the position line. Where
/// the part has not five tokens, hands back its tokens.
pub fn parse_axis(part: &str) -> (r: Result<AxisReading, Vec<String>>)
    ensures
        match r {
            Ok(a) => axis_of(part@) == Ok::<AxisText, Seq<Seq<char>>>(a@),
            Err(t) => axis_of(part@) == Err::<AxisText, Seq<Seq<char>>>(strings(t@)),
        },
{
    let t = split_whitespace(part);
    if t.len() != 5 {
        return Err(owned_tokens(&t));
    }
    assert(forall|i: int| 0 <= i < 5 ==> texts(t@)[i] == t@[i]@);
    Ok(
        AxisReading {
            degrees: t[0].to_owned(),
            minutes: trim_end_char(t[2], '\'').to_owned(),
            seconds: trim_end_char(t[3], '"').to_owned(),
            hemisphere: t[4].to_owned(),
        },
    )
}

/// Reads the position from the two parts of a position line, the latitude
/// first.
pub fn parse_parts(latitude: &str, longitude: &str) -> (r: Result<Position, ParseError>)
    ensures
        outcome(r) == position_of_parts(latitude@, longitude@),
{
    let lat = match parse_axis(latitude) {
        Ok(a) => a,
        Err(t) => {
            return Err(ParseError::UnexpectedLatitude(t));
        },
    };
    let lon = match parse_axis(longitude) {
        Ok(a) => a,
        Err(t) => {
            return Err(ParseError::UnexpectedLongitude(t));
        },
    };
    Ok(Position { latitude: lat, longitude: lon })
}

/// Reads the position that `report` gives: the fields of the latitude and
/// of the longitude of its position line.
pub fn parse_position(report: &str) -> (r: Result<Position, ParseError>)
    ensures
        outcome(r) == position_of(report@),
{
    let line = match find_position_line(report) {
        Some(l) => l,
        None => {
            return Err(ParseError::NotFound);
        },
    };
    let data = match cut_after(line, ": ") {
        Some(d) => d,
        None => {
            return Err(ParseError::MissingSeparator);
        },
    };
    match split_pair(data, ", ") {
        Some((a, b)) => parse_parts(a, b),
        None => Err(ParseError::UnexpectedFormat),
    }
}

} // verus!
