use drive_time::addresses::{destination_addresses, is_blank_text, is_whitespace};
use drive_time::batch::{plan_batch, search_and_summarize, Task};
use drive_time::duration::RoundedDuration;
use drive_time::outcome::{
    summarize_direction_time, ResolverError, RouteSummary, TaskFailure, TaskOutcome,
};
use drive_time::report::ReportSink;
use drive_time::route::{Leg, LocationRef, Resolution, Route};
use drive_time::starting_point::{StartingPoint, StartingPoints};

fn points() -> Vec<StartingPoint> {
    StartingPoints::from_str("p1:Home,p2:Work").unwrap().0
}

fn route_of(seconds: &[u64]) -> Route {
    Route { legs: seconds.iter().map(|&duration_seconds| Leg { duration_seconds }).collect() }
}

fn answered(seconds: &[u64]) -> Resolution {
    Resolution::Answered(vec![route_of(seconds)])
}

fn task(place_id: &str, name: &str, address: &str) -> Task {
    Task {
        starting_point: StartingPoint::new(place_id, name),
        destination_address: address.to_string(),
    }
}

#[test]
fn search_gives_one_task_for_each_starting_point() {
    let tasks = search_and_summarize(points(), "1 Main St");
    assert_eq!(tasks.len(), 2);
    assert_eq!(tasks[0].starting_point, StartingPoint::new("p1", "Home"));
    assert_eq!(tasks[1].starting_point, StartingPoint::new("p2", "Work"));
    assert_eq!(tasks[0].destination_address, "1 Main St");
    assert_eq!(tasks[1].destination_address, "1 Main St");
    assert!(search_and_summarize(Vec::new(), "1 Main St").is_empty());
}

#[test]
fn task_asks_from_the_place_to_the_address() {
    let one = task("p1", "Home", "1 Main St");
    assert_eq!(one.origin(), LocationRef::PlaceId("p1".to_string()));
    assert_eq!(one.destination(), LocationRef::Address("1 Main St".to_string()));
    assert_eq!(one.label(), "Home -> 1 Main St");
}

#[test]
fn location_references_compare_by_kind_and_value() {
    let address = LocationRef::Address("x".to_string());
    assert_eq!(address.clone(), address);
    assert_ne!(address, LocationRef::PlaceId("x".to_string()));
    let here = LocationRef::LatLng { latitude_e7: 476_062_000, longitude_e7: -1_223_321_000 };
    assert_eq!(here.clone(), here);
    assert_ne!(here, LocationRef::LatLng { latitude_e7: 476_062_000, longitude_e7: 0 });
    assert_ne!(here, address);
}

#[test]
fn batch_pairs_every_address_with_every_starting_point() {
    let addresses = vec!["A".to_string(), "B".to_string(), "C".to_string()];
    let tasks = plan_batch(&points(), &addresses);
    let pairs: Vec<(&str, &str)> = tasks
        .iter()
        .map(|t| (t.starting_point.display_name.as_str(), t.destination_address.as_str()))
        .collect();
    assert_eq!(
        pairs,
        vec![("Home", "A"), ("Work", "A"), ("Home", "B"), ("Work", "B"), ("Home", "C"), ("Work", "C")]
    );
    assert!(plan_batch(&points(), &Vec::new()).is_empty());
    assert!(plan_batch(&Vec::new(), &addresses).is_empty());
}

#[test]
fn summary_is_the_total_of_the_first_route() {
    let answer =
        Resolution::Answered(vec![route_of(&[1800, 3000, 631]), route_of(&[60])]);
    assert_eq!(
        summarize_direction_time(&answer),
        Ok(RoundedDuration { hours: 1, minutes: 31 })
    );
}

#[test]
fn route_without_legs_takes_no_time() {
    assert_eq!(
        summarize_direction_time(&answered(&[])),
        Ok(RoundedDuration { hours: 0, minutes: 0 })
    );
}

#[test]
fn summary_holds_the_pair_and_the_time() {
    let summary = task("p1", "Home", "1 Main St").summary(RoundedDuration { hours: 2, minutes: 60 });
    assert_eq!(
        summary,
        RouteSummary {
            origin_label: "Home".to_string(),
            destination_address: "1 Main St".to_string(),
            hours: 2,
            minutes: 60,
        }
    );
    assert_eq!(summary.line(), "Home -> 1 Main St: Total time: 2 hours and 60 minutes");
}

#[test]
fn success_line_names_the_pair() {
    let outcome = task("p1", "Home", "1 Main St").outcome(&answered(&[5400]));
    assert_eq!(
        outcome,
        TaskOutcome::Success("Home -> 1 Main St: Total time: 1 hours and 30 minutes".to_string())
    );
}

#[test]
fn empty_route_list_is_a_no_route_failure() {
    let answer = Resolution::Answered(Vec::new());
    assert_eq!(summarize_direction_time(&answer), Err(ResolverError::NoRoute));
    let outcome = task("p1", "Home", "1 Main St").outcome(&answer);
    let expected = TaskFailure {
        context: "Home -> 1 Main St".to_string(),
        cause: ResolverError::NoRoute,
    };
    assert_eq!(expected.message(), "no route returned for Home -> 1 Main St");
    assert_eq!(outcome, TaskOutcome::Failure(expected));
}

#[test]
fn failed_query_keeps_its_reason_and_names_the_pair() {
    let answer = Resolution::Failed("connection reset".to_string());
    assert_eq!(
        summarize_direction_time(&answer),
        Err(ResolverError::Service("connection reset".to_string()))
    );
    match task("p2", "Work", "9 Elm Rd").outcome(&answer) {
        TaskOutcome::Failure(failure) => {
            assert_eq!(failure.context, "Work -> 9 Elm Rd");
            assert_eq!(failure.cause, ResolverError::Service("connection reset".to_string()));
            assert_eq!(failure.message(), "Work -> 9 Elm Rd: connection reset");
        }
        other => panic!("unexpected outcome {:?}", other),
    }
}

#[test]
fn one_failure_leaves_every_other_outcome() {
    let addresses = vec!["A".to_string(), "B".to_string(), "C".to_string()];
    let tasks = plan_batch(&points(), &addresses);
    let mut sink = ReportSink::new();
    let mut lines = Vec::new();
    // Outcomes arrive in an order of their own: last task first.
    for (index, task) in tasks.iter().enumerate().rev() {
        let answer = if index == 3 {
            Resolution::Failed("timeout".to_string())
        } else {
            answered(&[60 * index as u64])
        };
        if let Some(line) = sink.record(task.outcome(&answer)) {
            lines.push(line);
        }
    }
    assert_eq!(
        lines,
        vec![
            "Work -> C: Total time: 0 hours and 5 minutes",
            "Home -> C: Total time: 0 hours and 4 minutes",
            "Home -> B: Total time: 0 hours and 2 minutes",
            "Work -> A: Total time: 0 hours and 1 minutes",
            "Home -> A: Total time: 0 hours and 0 minutes",
        ]
    );
    assert_eq!(sink.failure_count(), 1);
    let error = sink.finish().unwrap_err();
    assert_eq!(error.failures.len(), 1);
    assert_eq!(error.failures[0].context, "Work -> B");
    assert_eq!(error.messages(), vec!["Work -> B: timeout".to_string()]);
}

#[test]
fn sink_without_failures_ends_well() {
    let mut sink = ReportSink::new();
    assert!(sink.finish().is_ok());
    sink = ReportSink::new();
    assert_eq!(
        sink.record(TaskOutcome::Success("line".to_string())),
        Some("line".to_string())
    );
    assert_eq!(sink.failure_count(), 0);
    assert!(sink.finish().is_ok());
}

#[test]
fn sink_keeps_every_failure_in_order() {
    let mut sink = ReportSink::new();
    let first = TaskFailure { context: "a -> b".to_string(), cause: ResolverError::NoRoute };
    let second = TaskFailure {
        context: "c -> d".to_string(),
        cause: ResolverError::Service("quota".to_string()),
    };
    assert_eq!(sink.record(TaskOutcome::Failure(first)), None);
    assert_eq!(sink.record(TaskOutcome::Success("ok".to_string())), Some("ok".to_string()));
    assert_eq!(sink.record(TaskOutcome::Failure(second)), None);
    assert_eq!(sink.failure_count(), 2);
    let error = sink.finish().unwrap_err();
    assert_eq!(
        error.message(),
        "These lookups failed:\nno route returned for a -> b\nc -> d: quota"
    );
    assert_eq!(
        error.messages(),
        vec!["no route returned for a -> b".to_string(), "c -> d: quota".to_string()]
    );
}

#[test]
fn blank_line_gives_no_task() {
    let addresses = destination_addresses("1 Main St\n\n9 Elm Rd\n4 Oak Ave\n");
    assert_eq!(addresses, vec!["1 Main St", "9 Elm Rd", "4 Oak Ave"]);
    let tasks = plan_batch(&points(), &addresses);
    assert_eq!(tasks.len(), 3 * points().len());
}

#[test]
fn addresses_stand_one_on_each_line() {
    assert_eq!(destination_addresses(""), Vec::<String>::new());
    assert_eq!(destination_addresses("\n \n\t\r\n"), Vec::<String>::new());
    assert_eq!(destination_addresses("only"), vec!["only"]);
    assert_eq!(destination_addresses("a\r\nb\r\n"), vec!["a", "b"]);
    assert_eq!(destination_addresses("a\rb\r"), vec!["a\rb"]);
    assert_eq!(destination_addresses("  padded  \nnext"), vec!["  padded  ", "next"]);
    assert_eq!(destination_addresses("Zürich, Bahnhofstrasse 1\n"), vec!["Zürich, Bahnhofstrasse 1"]);
}

#[test]
fn blank_means_white_space_only() {
    assert!(is_blank_text(""));
    assert!(is_blank_text(" \t\u{a0}\u{3000}"));
    assert!(!is_blank_text(" x "));
}

#[test]
fn white_space_is_what_the_standard_library_says() {
    for code in 0u32..=0x10FFFF {
        if let Some(c) = char::from_u32(code) {
            assert_eq!(is_whitespace(c), c.is_whitespace(), "U+{:04X}", code);
        }
    }
}
