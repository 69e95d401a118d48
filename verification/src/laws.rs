//! What holds of every report, stated over the model of the parser.

use crate::gps::{
    label, negated, outcome, position_line, position_of, position_of_parts, Axis,
    ParseError, ParseErrorText, Position, PositionText,
};
use crate::text::{
    after_first, is_whitespace, is_word, lemma_find_absent, lemma_first_with_prefix,
    lemma_first_with_prefix_cons, lemma_lines_hold_no_line_feed, lemma_run_len, lines, run_len,
    split, starts_with, tokens,
};
use vstd::prelude::*;

verus! {

/// Reading is a function of the text: two results for the same report hold
/// the same.
pub proof fn law_same_report_same_outcome(
    report: Seq<char>,
    first: Result<Position, ParseError>,
    second: Result<Position, ParseError>,
)
    requires
        outcome(first) == position_of(report),
        outcome(second) == position_of(report),
    ensures
        outcome(first) == outcome(second),
        first is Ok <==> second is Ok,
{
}

/// A report gives "not found" exactly when none of its lines begins with
/// the label.
pub proof fn law_not_found(report: Seq<char>)
    ensures
        position_of(report) == Err::<PositionText, ParseErrorText>(ParseErrorText::NotFound) <==> forall|
            i: int,
        |
            0 <= i < lines(report).len() ==> !starts_with(lines(report)[i], label()),
{
    lemma_first_with_prefix(lines(report), label());
}

/// An empty report gives "not found".
pub proof fn law_empty_report()
    ensures
        position_of(Seq::empty()) == Err::<PositionText, ParseErrorText>(ParseErrorText::NotFound),
{
    assert(lines(Seq::empty()).len() == 0);
}

/// A part with other than five tokens gives no angle, and the failure
/// holds its tokens: the latitude's where it is at fault, else the
/// longitude's. Two parts of five tokens each always give a position.
pub proof fn law_token_count(latitude: Seq<char>, longitude: Seq<char>)
    ensures
        tokens(latitude).len() != 5 ==> position_of_parts(latitude, longitude) == Err::<
            PositionText,
            ParseErrorText,
        >(ParseErrorText::UnexpectedLatitude(tokens(latitude))),
        tokens(latitude).len() == 5 && tokens(longitude).len() != 5 ==> position_of_parts(
            latitude,
            longitude,
        ) == Err::<PositionText, ParseErrorText>(ParseErrorText::UnexpectedLongitude(tokens(longitude))),
        position_of_parts(latitude, longitude) is Ok <==> tokens(latitude).len() == 5 && tokens(
            longitude,
        ).len() == 5,
{
}

/// A report gives a position only through a position line whose data split
/// into two parts of five tokens each; the position is that of those parts.
pub proof fn law_position_needs_five_tokens(report: Seq<char>)
    requires
        position_of(report) is Ok,
    ensures
        position_line(report) is Some,
        after_first(position_line(report).unwrap(), ": "@) is Some,
        ({
            let parts = split(after_first(position_line(report).unwrap(), ": "@).unwrap(), ", "@);
            &&& parts.len() == 2
            &&& tokens(parts[0]).len() == 5
            &&& tokens(parts[1]).len() == 5
            &&& position_of(report) == position_of_parts(parts[0], parts[1])
        }),
{
}

/// The sign goes by one letter alone: a latitude is negative exactly for
/// `S`, a longitude exactly for `W`, and every other hemisphere field
/// leaves the angle as it is.
pub proof fn law_sign(hemisphere: Seq<char>)
    ensures
        negated(Axis::Latitude, hemisphere) <==> hemisphere == "S"@,
        negated(Axis::Longitude, hemisphere) <==> hemisphere == "W"@,
{
    reveal_strlit("S");
    reveal_strlit("W");
    assert("S"@ =~= seq!['S']);
    assert("W"@ =~= seq!['W']);
}

/// Every token is a word, so there is nothing to trim off a token.
pub proof fn law_tokens_are_words(s: Seq<char>)
    ensures
        forall|i: int| 0 <= i < tokens(s).len() ==> is_word(#[trigger] tokens(s)[i]),
    decreases s.len(),
{
    lemma_run_len(s, true);
    let t = s.skip(run_len(s, true) as int);
    if t.len() > 0 {
        lemma_run_len(t, false);
        let n: int = run_len(t, false) as int;
        assert(t[0] == s[run_len(s, true) as int]);
        assert(n > 0);
        law_tokens_are_words(t.skip(n));
        assert forall|i: int| 0 <= i < tokens(s).len() implies is_word(
            #[trigger] tokens(s)[i],
        ) by {
            if i == 0 {
                assert(tokens(s)[0] == t.take(n));
                assert forall|j: int| 0 <= j < n implies !is_whitespace(
                    #[trigger] t.take(n)[j],
                ) by {
                    assert(t.take(n)[j] == t[j]);
                }
            } else {
                assert(tokens(s)[i] == tokens(t.skip(n))[i - 1]);
            }
        }
    }
}

/// Only the position line counts: a report reads as its position line
/// alone would, whatever stands before and after that line.
pub proof fn law_position_line_decides(report: Seq<char>)
    requires
        position_line(report) is Some,
    ensures
        position_line(position_line(report).unwrap()) == position_line(report),
        position_of(report) == position_of(position_line(report).unwrap()),
{
    let line = position_line(report).unwrap();
    let nl = seq!['\n'];
    reveal_strlit("GPS Position");
    lemma_first_with_prefix(lines(report), label());
    lemma_lines_hold_no_line_feed(report);
    assert(line.len() >= 12);
    lemma_find_absent(line, nl);
    assert(lines(line) == seq![line]);
    assert(seq![line] + Seq::<Seq<char>>::empty() =~= seq![line]);
    lemma_first_with_prefix_cons(line, Seq::empty(), label());
}

} // verus!
