use gps_position::gps::{
    find_position_line, parse_axis, parse_parts, parse_position, Axis, AxisReading, ParseError,
    Position,
};

fn decimal(a: &AxisReading, axis: Axis) -> f64 {
    let d: f64 = a.degrees.parse().unwrap();
    let m: f64 = a.minutes.parse().unwrap();
    let s: f64 = a.seconds.parse().unwrap();
    let v = d + m / 60.0 + s / 3600.0;
    if a.is_negated(axis) {
        -v
    } else {
        v
    }
}

fn reading(d: &str, m: &str, s: &str, h: &str) -> AxisReading {
    AxisReading {
        degrees: d.to_string(),
        minutes: m.to_string(),
        seconds: s.to_string(),
        hemisphere: h.to_string(),
    }
}

fn strings(t: &[&str]) -> Vec<String> {
    t.iter().map(|s| s.to_string()).collect()
}

#[test]
fn reads_the_fields_of_a_position_line() {
    let r = parse_position("GPS Position: 37 deg 46' 29.64\" N, 122 deg 24' 52.93\" W");
    let expected = Position {
        latitude: reading("37", "46", "29.64", "N"),
        longitude: reading("122", "24", "52.93", "W"),
    };
    assert_eq!(r, Ok(expected));
}

#[test]
fn end_to_end_coordinates() {
    let p = parse_position("GPS Position: 37 deg 46' 29.64\" N, 122 deg 24' 52.93\" W").unwrap();
    let lat = decimal(&p.latitude, Axis::Latitude);
    let lon = decimal(&p.longitude, Axis::Longitude);
    assert!((lat - 37.774900).abs() < 1e-6);
    assert!((lon - (-122.414703)).abs() < 1e-6);
}

#[test]
fn north_forty_degrees() {
    let p = parse_position("GPS Position: 40 deg 0' 0\" N, 0 deg 0' 0\" E").unwrap();
    assert_eq!(decimal(&p.latitude, Axis::Latitude), 40.0);
    assert_eq!(decimal(&p.longitude, Axis::Longitude), 0.0);
}

#[test]
fn south_forty_and_a_half_degrees() {
    let p = parse_position("GPS Position: 40 deg 30' 0\" S, 10 deg 15' 0\" W").unwrap();
    assert_eq!(decimal(&p.latitude, Axis::Latitude), -40.5);
    assert_eq!(decimal(&p.longitude, Axis::Longitude), -10.25);
}

#[test]
fn seconds_count_one_in_thirty_six_hundred() {
    let p = parse_position("GPS Position: 1 deg 0' 36\" N, 2 deg 0' 18\" E").unwrap();
    assert_eq!(decimal(&p.latitude, Axis::Latitude), 1.01);
    assert_eq!(decimal(&p.longitude, Axis::Longitude), 2.005);
}

#[test]
fn same_text_same_result() {
    let text = "File Name: a.jpg\nGPS Position: 1 deg 2' 3\" S, 4 deg 5' 6\" E\n";
    assert_eq!(parse_position(text), parse_position(text));
    let bad = "GPS Position: 1 deg 2' S, 4 deg 5' 6\" E";
    assert_eq!(parse_position(bad), parse_position(bad));
}

#[test]
fn no_position_line_is_not_found() {
    assert_eq!(parse_position("File Name: a.jpg\nImage Size: 10x10\n"), Err(ParseError::NotFound));
    assert_eq!(parse_position("GPS Latitude: 1 deg 2' 3\" N"), Err(ParseError::NotFound));
}

#[test]
fn empty_report_is_not_found() {
    assert_eq!(parse_position(""), Err(ParseError::NotFound));
    assert_eq!(find_position_line(""), None);
}

#[test]
fn label_must_start_the_line() {
    assert_eq!(
        parse_position(" GPS Position: 1 deg 2' 3\" N, 4 deg 5' 6\" E"),
        Err(ParseError::NotFound)
    );
    assert_eq!(
        parse_position("The GPS Position: 1 deg 2' 3\" N, 4 deg 5' 6\" E"),
        Err(ParseError::NotFound)
    );
}

#[test]
fn first_position_line_is_taken() {
    let text = "A: b\nGPS Position: 1 deg 2' 3\" N, 4 deg 5' 6\" E\nGPS Position: 9 deg 9' 9\" S, 9 deg 9' 9\" W\n";
    let p = parse_position(text).unwrap();
    assert_eq!(p.latitude, reading("1", "2", "3", "N"));
    assert_eq!(p.longitude, reading("4", "5", "6", "E"));
    assert_eq!(find_position_line(text), Some("GPS Position: 1 deg 2' 3\" N, 4 deg 5' 6\" E"));
}

#[test]
fn first_position_line_decides_even_if_bad() {
    let text = "GPS Position\nGPS Position: 9 deg 9' 9\" S, 9 deg 9' 9\" W\n";
    assert_eq!(parse_position(text), Err(ParseError::MissingSeparator));
}

#[test]
fn carriage_return_before_line_feed_is_dropped() {
    let text = "A: b\r\nGPS Position: 1 deg 2' 3\" N, 4 deg 5' 6\" E\r\nC: d\r\n";
    assert_eq!(find_position_line(text), Some("GPS Position: 1 deg 2' 3\" N, 4 deg 5' 6\" E"));
    let p = parse_position(text).unwrap();
    assert_eq!(p.longitude, reading("4", "5", "6", "E"));
}

#[test]
fn carriage_return_at_the_end_of_the_text_stays() {
    assert_eq!(find_position_line("GPS Position: x\r"), Some("GPS Position: x\r"));
    assert_eq!(find_position_line("GPS Position: x\r\n"), Some("GPS Position: x"));
    assert_eq!(find_position_line("GPS Position: x\r\r\n"), Some("GPS Position: x\r"));
}

#[test]
fn padded_label_as_the_tool_prints_it() {
    let text = "GPS Position                    : 48 deg 51' 29.60\" N, 2 deg 17' 40.20\" E\n";
    let p = parse_position(text).unwrap();
    assert_eq!(p.latitude, reading("48", "51", "29.60", "N"));
    assert_eq!(p.longitude, reading("2", "17", "40.20", "E"));
}

#[test]
fn missing_separator() {
    assert_eq!(parse_position("GPS Position"), Err(ParseError::MissingSeparator));
    assert_eq!(parse_position("GPS Position:1 deg"), Err(ParseError::MissingSeparator));
}

#[test]
fn one_part_is_unexpected_format() {
    assert_eq!(
        parse_position("GPS Position: 37 deg 46' 29.64\" N"),
        Err(ParseError::UnexpectedFormat)
    );
    assert_eq!(parse_position("GPS Position: "), Err(ParseError::UnexpectedFormat));
}

#[test]
fn three_parts_are_unexpected_format() {
    assert_eq!(
        parse_position("GPS Position: 1 deg 2' 3\" N, 4 deg 5' 6\" E, 7 m"),
        Err(ParseError::UnexpectedFormat)
    );
}

#[test]
fn short_latitude_is_reported_with_its_tokens() {
    assert_eq!(
        parse_position("GPS Position: 37 deg 46' N, 122 deg 24' 52.93\" W"),
        Err(ParseError::UnexpectedLatitude(strings(&["37", "deg", "46'", "N"])))
    );
    assert_eq!(
        parse_position("GPS Position: , 122 deg 24' 52.93\" W"),
        Err(ParseError::UnexpectedLatitude(strings(&[])))
    );
}

#[test]
fn short_longitude_is_reported_with_its_tokens() {
    assert_eq!(
        parse_position("GPS Position: 37 deg 46' 29.64\" N, 122 deg W"),
        Err(ParseError::UnexpectedLongitude(strings(&["122", "deg", "W"])))
    );
}

#[test]
fn long_axis_is_reported_with_its_tokens() {
    assert_eq!(
        parse_position("GPS Position: 37 deg 46' 29.64\" N x, 122 deg 24' 52.93\" W"),
        Err(ParseError::UnexpectedLatitude(strings(&["37", "deg", "46'", "29.64\"", "N", "x"])))
    );
}

#[test]
fn latitude_is_judged_before_longitude() {
    assert_eq!(
        parse_position("GPS Position: 1 2, 3 4"),
        Err(ParseError::UnexpectedLatitude(strings(&["1", "2"])))
    );
}

#[test]
fn what_follows_the_first_separator_is_read() {
    assert_eq!(
        parse_position("GPS Position: 1 deg 2' 3\" N, 4 deg 5' 6\" W: x"),
        Err(ParseError::UnexpectedLongitude(strings(&["4", "deg", "5'", "6\"", "W:", "x"])))
    );
}

#[test]
fn other_hemisphere_letters_leave_the_sign() {
    let p = parse_position("GPS Position: 40 deg 30' 0\" X, 10 deg 30' 0\" Q").unwrap();
    assert!(!p.latitude.is_negated(Axis::Latitude));
    assert!(!p.longitude.is_negated(Axis::Longitude));
    assert_eq!(decimal(&p.latitude, Axis::Latitude), 40.5);
    assert_eq!(decimal(&p.longitude, Axis::Longitude), 10.5);
}

#[test]
fn hemisphere_letters_belong_to_their_axis() {
    let p = parse_position("GPS Position: 40 deg 30' 0\" W, 10 deg 30' 0\" S").unwrap();
    assert!(!p.latitude.is_negated(Axis::Latitude));
    assert!(!p.longitude.is_negated(Axis::Longitude));
    assert!(p.latitude.is_negated(Axis::Longitude));
    assert!(p.longitude.is_negated(Axis::Latitude));
}

#[test]
fn hemisphere_is_the_whole_token() {
    let a = parse_axis("1 deg 2' 3\" SS").unwrap();
    assert_eq!(a.hemisphere, "SS");
    assert!(!a.is_negated(Axis::Latitude));
    let b = parse_axis("1 deg 2' 3\" s").unwrap();
    assert!(!b.is_negated(Axis::Latitude));
    let c = parse_axis("1 deg 2' 3\" S").unwrap();
    assert!(c.is_negated(Axis::Latitude));
    assert!(!c.is_negated(Axis::Longitude));
}

#[test]
fn marks_are_cut_off_however_many() {
    let a = parse_axis("  12   deg 34''' 56.7\"\" N ").unwrap();
    assert_eq!(a, reading("12", "34", "56.7", "N"));
}

#[test]
fn marks_are_cut_off_only_at_the_end() {
    let a = parse_axis("1' deg '2 \"3'\" N").unwrap();
    assert_eq!(a, reading("1'", "'2", "\"3'", "N"));
}

#[test]
fn second_token_is_not_looked_at() {
    let a = parse_axis("1 anything 2' 3\" E").unwrap();
    assert_eq!(a, reading("1", "2", "3", "E"));
}

#[test]
fn tokens_part_at_any_whitespace() {
    let a = parse_axis("1\tdeg\u{a0}2'\u{2003}3\"\u{3000}N").unwrap();
    assert_eq!(a, reading("1", "2", "3", "N"));
}

#[test]
fn axis_with_wrong_count_hands_back_tokens() {
    assert_eq!(parse_axis("a b c"), Err(strings(&["a", "b", "c"])));
    assert_eq!(parse_axis(""), Err(strings(&[])));
    assert_eq!(parse_axis(" \t "), Err(strings(&[])));
}

#[test]
fn parts_are_read_latitude_first() {
    let r = parse_parts("1 deg 2' 3\" N", "4 deg 5' 6\" W");
    assert_eq!(
        r,
        Ok(Position { latitude: reading("1", "2", "3", "N"), longitude: reading("4", "5", "6", "W") })
    );
    assert_eq!(
        parse_parts("1 deg 2' 3\" N", "4 deg"),
        Err(ParseError::UnexpectedLongitude(strings(&["4", "deg"])))
    );
}

#[test]
fn fields_that_are_no_numbers_are_handed_on() {
    let p = parse_position("GPS Position: x deg y' z\" N, 1 deg 2' 3\" E").unwrap();
    assert_eq!(p.latitude, reading("x", "y", "z", "N"));
    assert!(p.latitude.degrees.parse::<f64>().is_err());
}

#[test]
fn messages() {
    assert_eq!(ParseError::NotFound.message(), "No GPS data found.");
    assert_eq!(ParseError::MissingSeparator.message(), "Unexpected GPS format.");
    assert_eq!(ParseError::UnexpectedFormat.message(), "Unexpected GPS format.");
    assert_eq!(ParseError::UnexpectedLatitude(vec![]).message(), "Unexpected latitude format");
    assert_eq!(ParseError::UnexpectedLongitude(vec![]).message(), "Unexpected longitude format");
}
