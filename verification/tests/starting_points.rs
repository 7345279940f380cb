use drive_time::starting_point::{
    EntryError, EntryFault, ParseError, StartingPoint, StartingPoints, DEFAULT_STARTING_POINTS,
};
use drive_time::text::{push_decimal, split_text, split_text_once};

fn point(place_id: &str, display_name: &str) -> StartingPoint {
    StartingPoint::new(place_id, display_name)
}

fn parse_error(input: &str) -> ParseError {
    match StartingPoints::from_str(input) {
        Ok(points) => panic!("{:?} was read as {:?}", input, points),
        Err(error) => error,
    }
}

#[test]
fn new_keeps_both_texts() {
    let made = StartingPoint::new("ChIJ", "Home office");
    assert_eq!(made.place_id, "ChIJ");
    assert_eq!(made.display_name, "Home office");
    let bare = StartingPoint::new("", "");
    assert_eq!(bare.place_id, "");
    assert_eq!(bare.display_name, "");
}

#[test]
fn starting_points_compare_by_their_texts() {
    assert_eq!(point("a", "b"), point("a", "b"));
    assert_ne!(point("a", "b"), point("a", "c"));
    assert_ne!(point("a", "b"), point("c", "b"));
    let original = point("id", "label");
    assert_eq!(original.clone(), original);
}

#[test]
fn entry_splits_at_the_first_colon() {
    let parsed = StartingPoint::from_str("id:a:b").unwrap();
    assert_eq!(parsed, point("id", "a:b"));
}

#[test]
fn entry_may_have_an_empty_label() {
    let parsed = StartingPoint::from_str("id:").unwrap();
    assert_eq!(parsed, point("id", ""));
}

#[test]
fn entry_without_colon_is_an_error() {
    let error: EntryError = StartingPoint::from_str("badentry").unwrap_err();
    assert_eq!(error.entry, "badentry");
    assert_eq!(error.fault, EntryFault::MissingDelimiter);
    assert_eq!(
        error.message(),
        "Error splitting \"badentry\" exactly once on the delimiter ':'."
    );
}

#[test]
fn entry_without_place_id_is_an_error() {
    let error = StartingPoint::from_str(":label").unwrap_err();
    assert_eq!(error.entry, ":label");
    assert_eq!(error.fault, EntryFault::EmptyPlaceId);
    assert_eq!(error.message(), "The entry \":label\" has an empty place id.");
}

#[test]
fn two_entries_parse_in_order() {
    let parsed = StartingPoints::from_str("id1:a,id2:b").unwrap();
    assert_eq!(parsed.0, vec![point("id1", "a"), point("id2", "b")]);
}

#[test]
fn one_bad_entry_fails_alone() {
    let error = parse_error("id1:a,badentry,id2:b");
    assert_eq!(error.causes.len(), 1);
    assert_eq!(error.causes[0].entry, "badentry");
    assert_eq!(
        error.messages(),
        vec!["Error splitting \"badentry\" exactly once on the delimiter ':'.".to_string()]
    );
}

#[test]
fn every_bad_entry_is_reported() {
    let error = parse_error("first,id:ok,:second,third");
    let entries: Vec<&str> = error.causes.iter().map(|cause| cause.entry.as_str()).collect();
    assert_eq!(entries, vec!["first", ":second", "third"]);
    let faults: Vec<EntryFault> = error.causes.iter().map(|cause| cause.fault).collect();
    assert_eq!(
        faults,
        vec![EntryFault::MissingDelimiter, EntryFault::EmptyPlaceId, EntryFault::MissingDelimiter]
    );
}

#[test]
fn report_lists_every_cause_under_the_headline() {
    let error = parse_error("x,:y");
    assert_eq!(
        error.message(),
        "These entries are not starting points:\n\
         Error splitting \"x\" exactly once on the delimiter ':'.\n\
         The entry \":y\" has an empty place id."
    );
}

#[test]
fn empty_text_is_one_bad_entry() {
    let error = parse_error("");
    assert_eq!(error.causes.len(), 1);
    assert_eq!(error.causes[0].entry, "");
    assert_eq!(error.causes[0].fault, EntryFault::MissingDelimiter);
}

#[test]
fn trailing_comma_is_a_bad_entry() {
    let error = parse_error("id:a,");
    assert_eq!(error.causes.len(), 1);
    assert_eq!(error.causes[0].entry, "");
}

#[test]
fn default_set_is_the_default_text() {
    let defaults = StartingPoints::default();
    assert_eq!(
        defaults.0,
        vec![
            point("ChIJz85LumxtkFQRhW-lYWwmRpM", "Microsoft"),
            point("ChIJRe_JoxEBkFQRbaakkmkDFk0", "Boeing"),
        ]
    );
    assert_eq!(StartingPoints::from_str(DEFAULT_STARTING_POINTS).unwrap(), defaults);
}

#[test]
fn no_configuration_means_the_default_set() {
    assert_eq!(StartingPoints::configured(None).unwrap(), StartingPoints::default());
    assert_eq!(
        StartingPoints::configured(Some("x:y")).unwrap().0,
        vec![point("x", "y")]
    );
    let error = StartingPoints::configured(Some("xy")).unwrap_err();
    assert_eq!(error.causes.len(), 1);
    assert_eq!(error.causes[0].entry, "xy");
}

#[test]
fn parse_reads_entries_and_lists() {
    let one: StartingPoint = "id:label".parse().unwrap();
    assert_eq!(one, point("id", "label"));
    assert!("idlabel".parse::<StartingPoint>().is_err());
    let list: StartingPoints = "a:1,b:2".parse().unwrap();
    assert_eq!(list, StartingPoints::from_str("a:1,b:2").unwrap());
    let error = "a:1,b".parse::<StartingPoints>().unwrap_err();
    assert_eq!(error.causes.len(), 1);
    assert_eq!(error.causes[0].entry, "b");
}

#[test]
fn lists_compare_and_clone() {
    let list = StartingPoints::from_str("a:1,b:2").unwrap();
    assert_eq!(list.clone(), list);
    assert_ne!(list, StartingPoints::from_str("a:1").unwrap());
    assert_ne!(list, StartingPoints::from_str("a:1,b:3").unwrap());
    assert_ne!(list, StartingPoints::from_str("b:2,a:1").unwrap());
}

#[test]
fn list_converts_from_and_into_a_vector() {
    let points = vec![point("a", "1"), point("b", "2")];
    let list = StartingPoints::from(points.clone());
    assert_eq!(list.0, points);
    let back: Vec<StartingPoint> = list.into();
    assert_eq!(back, points);
}

#[test]
fn split_keeps_empty_pieces() {
    assert_eq!(split_text("a,,b,", ','), vec!["a", "", "b", ""]);
    assert_eq!(split_text("", ','), vec![""]);
    assert_eq!(split_text("no separator", ','), vec!["no separator"]);
    assert_eq!(split_text(",", ','), vec!["", ""]);
    assert_eq!(split_text("é,ü", ','), vec!["é", "ü"]);
}

#[test]
fn split_once_finds_the_first_separator() {
    assert_eq!(split_text_once("a:b:c", ':'), Some(("a".to_string(), "b:c".to_string())));
    assert_eq!(split_text_once(":", ':'), Some((String::new(), String::new())));
    assert_eq!(split_text_once("abc", ':'), None);
    assert_eq!(split_text_once("", ':'), None);
}

#[test]
fn split_once_agrees_with_the_standard_library() {
    for text in ["a:b", "::", "x", "", "ab:", ":ab", "a:b:c:d"] {
        let expected = text.split_once(':').map(|(a, b)| (a.to_string(), b.to_string()));
        assert_eq!(split_text_once(text, ':'), expected);
        let pieces: Vec<String> = text.split(':').map(str::to_string).collect();
        assert_eq!(split_text(text, ':'), pieces);
    }
}

#[test]
fn numerals_are_decimal() {
    for (number, numeral) in [
        (0u128, "0"),
        (7, "7"),
        (10, "10"),
        (109, "109"),
        (u64::MAX as u128, "18446744073709551615"),
        (u128::MAX, "340282366920938463463374607431768211455"),
    ] {
        let mut text = String::from("n=");
        push_decimal(&mut text, number);
        assert_eq!(text, format!("n={}", numeral));
    }
}
