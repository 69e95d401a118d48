//! How a position line is written, and that reading gives back what was
//! written.

use crate::gps::{
    axis_of, negated, position_line, position_of, Axis, AxisText, ParseErrorText, PositionText,
};
use crate::laws::law_position_line_decides;
use crate::text::{
    after_first, is_whitespace, lemma_find_absent, lemma_find_at, lemma_first_with_prefix_cons,
    lemma_tokens_space, lemma_tokens_word, lines, matches_at, run_len, split, strip_trailing,
    tokens,
};
use vstd::prelude::*;

verus! {

/// A field as the tool writes it: not empty, without whitespace and without
/// the marks `,` `'` and `"`.
pub open spec fn is_field(f: Seq<char>) -> bool {
    &&& f.len() > 0
    &&& forall|i: int|
        0 <= i < f.len() ==> !is_whitespace(#[trigger] f[i]) && f[i] != ',' && f[i] != '\''
            && f[i] != '"'
}

/// An angle whose four fields are fields.
pub open spec fn well_formed(a: AxisText) -> bool {
    is_field(a.degrees) && is_field(a.minutes) && is_field(a.seconds) && is_field(a.hemisphere)
}

/// An angle as the tool writes it.
pub open spec fn axis_line(a: AxisText) -> Seq<char> {
    a.degrees + " deg "@ + a.minutes + "' "@ + a.seconds + "\" "@ + a.hemisphere
}

/// A position line as the tool writes it, with `pad` spaces between the
/// label and its colon.
pub open spec fn position_report(pad: nat, p: PositionText) -> Seq<char> {
    "GPS Position"@ + Seq::new(pad, |i: int| ' ') + ": "@ + axis_line(p.latitude) + ", "@
        + axis_line(p.longitude)
}

/// The tokens of an angle as written are its degrees, the word `deg`, its
/// minutes and its seconds with their marks, and its hemisphere; so it
/// reads back as itself.
pub proof fn lemma_axis_reads_back(a: AxisText)
    requires
        well_formed(a),
    ensures
        tokens(axis_line(a)) == seq![
            a.degrees,
            "deg"@,
            a.minutes + seq!['\''],
            a.seconds + seq!['"'],
            a.hemisphere,
        ],
        axis_of(axis_line(a)) == Ok::<AxisText, Seq<Seq<char>>>(a),
{
    reveal_strlit(" deg ");
    reveal_strlit("deg");
    reveal_strlit("' ");
    reveal_strlit("\" ");
    let sp = seq![' '];
    let word = "deg"@;
    let min = a.minutes + seq!['\''];
    let sec = a.seconds + seq!['"'];
    let e = Seq::<char>::empty();
    let r8 = a.hemisphere + e;
    let r7 = sp + r8;
    let r6 = sec + r7;
    let r5 = sp + r6;
    let r4 = min + r5;
    let r3 = sp + r4;
    let r2 = word + r3;
    let r1 = sp + r2;
    let r0 = a.degrees + r1;
    assert(" deg "@ =~= sp + word + sp);
    assert("' "@ =~= seq!['\''] + sp);
    assert("\" "@ =~= seq!['"'] + sp);
    assert(axis_line(a) =~= r0);
    assert(is_whitespace(' '));
    assert(!is_whitespace('\''));
    assert(!is_whitespace('"'));
    assert(tokens(e) =~= Seq::<Seq<char>>::empty()) by {
        assert(e.skip(run_len(e, true) as int).len() == 0);
    }
    lemma_tokens_word(a.hemisphere, e);
    lemma_tokens_space(r8);
    assert(r7[0] == ' ');
    lemma_tokens_word(sec, r7);
    lemma_tokens_space(r6);
    assert(r5[0] == ' ');
    lemma_tokens_word(min, r5);
    lemma_tokens_space(r4);
    assert(r3[0] == ' ');
    lemma_tokens_word(word, r3);
    lemma_tokens_space(r2);
    assert(r1[0] == ' ');
    lemma_tokens_word(a.degrees, r1);
    let t = seq![a.degrees, word, min, sec, a.hemisphere];
    assert(tokens(r0) =~= t);
    assert(min.drop_last() =~= a.minutes);
    assert(sec.drop_last() =~= a.seconds);
    assert(strip_trailing(a.minutes, '\'') == a.minutes);
    assert(strip_trailing(a.seconds, '"') == a.seconds);
    assert(strip_trailing(min, '\'') == a.minutes);
    assert(strip_trailing(sec, '"') == a.seconds);
}

/// An angle as written holds neither a comma nor a line feed.
pub proof fn lemma_axis_line_chars(a: AxisText)
    requires
        well_formed(a),
    ensures
        forall|i: int|
            0 <= i < axis_line(a).len() ==> axis_line(a)[i] != ',' && axis_line(a)[i] != '\n',
{
    reveal_strlit(" deg ");
    reveal_strlit("' ");
    reveal_strlit("\" ");
    assert(is_whitespace('\n'));
}

/// Reading gives back what was written: a position line written from
/// well-formed fields reads as those fields, latitude and longitude each
/// with its degrees, minutes, seconds and hemisphere, however far the label
/// is padded. With them the latitude is negative exactly where `S` was
/// written, the longitude exactly where `W` was.
pub proof fn law_written_position_reads_back(pad: nat, p: PositionText)
    requires
        well_formed(p.latitude),
        well_formed(p.longitude),
    ensures
        position_of(position_report(pad, p)) == Ok::<PositionText, ParseErrorText>(p),
        negated(Axis::Latitude, p.latitude.hemisphere) <==> p.latitude.hemisphere == "S"@,
        negated(Axis::Longitude, p.longitude.hemisphere) <==> p.longitude.hemisphere == "W"@,
{
    reveal_strlit("S");
    reveal_strlit("W");
    assert("S"@ =~= seq!['S']);
    assert("W"@ =~= seq!['W']);
    reveal_strlit("GPS Position");
    reveal_strlit(": ");
    reveal_strlit(", ");
    let a = axis_line(p.latitude);
    let b = axis_line(p.longitude);
    let r = position_report(pad, p);
    let data = a + ", "@ + b;
    let colon: int = 12 + pad as int;
    let start: int = colon + 2;
    lemma_axis_line_chars(p.latitude);
    lemma_axis_line_chars(p.longitude);
    lemma_axis_reads_back(p.latitude);
    lemma_axis_reads_back(p.longitude);

    // The report is one line, and it begins with the label.
    let nl = seq!['\n'];
    assert forall|i: int| 0 <= i < r.len() implies r[i] != nl[0] by {
        if i >= start && i < start + a.len() {
            assert(r[i] == a[i - start]);
        } else if i >= start + a.len() + 2 {
            assert(r[i] == b[i - start - a.len() - 2]);
        }
    }
    lemma_find_absent(r, nl);
    assert(lines(r) == seq![r]);
    assert(r.subrange(0, 12) =~= "GPS Position"@);
    assert(seq![r] + Seq::<Seq<char>>::empty() =~= seq![r]);
    lemma_first_with_prefix_cons(r, Seq::empty(), "GPS Position"@);
    assert(position_line(r) == Some(r));

    // The first separator follows the label.
    assert(r.subrange(colon, start) =~= ": "@);
    assert forall|j: int| 0 <= j < colon implies !matches_at(r, j, ": "@) by {
        if matches_at(r, j, ": "@) {
            assert(r.subrange(j, j + 2)[0] == r[j]);
        }
    }
    lemma_find_at(r, ": "@, colon);
    assert(r.skip(start) =~= data);
    assert(after_first(r, ": "@) == Some(data));

    // The data split at the one comma between the angles.
    let n: int = a.len() as int;
    assert(data.subrange(n, n + 2) =~= ", "@);
    assert forall|j: int| 0 <= j < n implies !matches_at(data, j, ", "@) by {
        if matches_at(data, j, ", "@) {
            assert(data.subrange(j, j + 2)[0] == data[j]);
            assert(data[j] == a[j]);
        }
    }
    lemma_find_at(data, ", "@, n);
    assert(data.take(n) =~= a);
    assert(data.skip(n + 2) =~= b);
    lemma_find_absent(b, ", "@);
    assert(split(b, ", "@) == seq![b]);
    assert(split(data, ", "@) =~= seq![a, b]);
}

/// A report whose position line was written from well-formed fields reads
/// as those fields, whatever else the report holds.
pub proof fn law_report_reads_its_position_line(report: Seq<char>, pad: nat, p: PositionText)
    requires
        well_formed(p.latitude),
        well_formed(p.longitude),
        position_line(report) == Some(position_report(pad, p)),
    ensures
        position_of(report) == Ok::<PositionText, ParseErrorText>(p),
{
    law_position_line_decides(report);
    law_written_position_reads_back(pad, p);
}

} // verus!
