use egads::descriptor::{self, RestDescription};
use egads::fetch_plan::{FetchPlan, FetchRun};
use egads::list::{self, DirectoryItem};
use egads::Error;

fn items(n: usize) -> Vec<DirectoryItem> {
    let entries: Vec<String> = (0..n)
        .map(|i| {
            format!(
                r#"{{"kind": "discovery#directoryItem", "id": "api{i}", "name": "api{i}", "version": "v1",
                    "title": "API {i}", "description": "d", "discoveryRestUrl": "https://x/{i}", "preferred": true}}"#
            )
        })
        .collect();
    let body = format!(
        r#"{{"kind": "discovery#directoryList", "discoveryVersion": "v1", "items": [{}]}}"#,
        entries.join(",")
    );
    list::from_str(body).unwrap().items
}

fn descriptor() -> RestDescription {
    descriptor::from_str(
        r#"{"kind": "discovery#restDescription", "discoveryVersion": "v1", "id": "a:v1", "name": "a",
            "version": "v1", "revision": "1", "title": "A", "description": "d", "protocol": "rest",
            "baseUrl": "b", "basePath": "p", "rootUrl": "r", "servicePath": "s", "batchPath": "batch"}"#
            .to_string(),
    )
    .unwrap()
}

/// Runs every item through the plan with a test double for the transport: started requests
/// wait in a queue and end, one at a time, in the order that `pick` chooses. Returns the
/// requests made, the most in flight at once, and the report.
fn drive(
    n: usize,
    limit: usize,
    fails: &[usize],
    pick: fn(&Vec<usize>) -> usize,
) -> (usize, usize, egads::fetch_plan::Report) {
    let mut run = FetchRun::new(items(n), limit);
    let mut waiting: Vec<usize> = Vec::new();
    let mut calls = 0;
    let mut high_water = 0;
    loop {
        while let Some((i, request)) = run.next_start() {
            assert_eq!(request.url, format!("https://x/{}", i));
            assert!(request.query.is_empty());
            calls += 1;
            waiting.push(i);
            high_water = high_water.max(run.in_flight_count());
        }
        if waiting.is_empty() {
            break;
        }
        let i = waiting.remove(pick(&waiting));
        let outcome = if fails.contains(&i) {
            Err(Error::HttpSendError(format!("connection refused for {}", i)))
        } else {
            Ok(descriptor())
        };
        assert!(run.finish(i, outcome));
    }
    assert!(run.is_finished());
    (calls, high_water, run.into_report())
}

fn first(_: &Vec<usize>) -> usize {
    0
}

fn last(w: &Vec<usize>) -> usize {
    w.len() - 1
}

#[test]
fn every_item_yields_one_outcome_for_any_limit() {
    let n = 7;
    for limit in [1, n, 10 * n] {
        for pick in [first as fn(&Vec<usize>) -> usize, last] {
            let (calls, high_water, report) = drive(n, limit, &[2, 5], pick);
            assert_eq!(calls, n);
            assert!(high_water <= limit);
            assert_eq!(report.total, n);
            assert_eq!(report.successes + report.failures.len(), n);
            assert_eq!(report.successes, 5);
        }
    }
}

#[test]
fn empty_list_starts_no_fetch() {
    let (calls, high_water, report) = drive(0, 10, &[], first);
    assert_eq!(calls, 0);
    assert_eq!(high_water, 0);
    assert_eq!(report.total, 0);
    assert_eq!(report.successes, 0);
    assert!(report.failures.is_empty());
    let mut plan = FetchPlan::new(0, 3);
    assert!(plan.is_finished());
    assert_eq!(plan.next_start(), None);
}

#[test]
fn concurrency_never_exceeds_the_limit() {
    let (calls, high_water, _) = drive(20, 4, &[], last);
    assert_eq!(calls, 20);
    assert_eq!(high_water, 4);
    let mut plan = FetchPlan::new(5, 2);
    assert_eq!(plan.next_start(), Some(0));
    assert_eq!(plan.next_start(), Some(1));
    assert_eq!(plan.next_start(), None);
    assert_eq!(plan.in_flight_count(), 2);
    assert!(plan.complete(1));
    assert_eq!(plan.next_start(), Some(2));
    assert_eq!(plan.next_start(), None);
}

#[test]
fn one_failure_does_not_stop_the_others() {
    let (_, _, report) = drive(5, 2, &[3], first);
    assert_eq!(report.successes, 4);
    assert_eq!(report.failures.len(), 1);
    let (item, error) = &report.failures[0];
    assert_eq!(item.id, "api3");
    assert_eq!(item.discovery_rest_url, "https://x/3");
    assert_eq!(error, &Error::HttpSendError("connection refused for 3".to_string()));
}

#[test]
fn an_item_is_counted_once() {
    let mut run = FetchRun::new(items(2), 2);
    assert_eq!(run.next_start().map(|(i, _)| i), Some(0));
    assert!(run.finish(0, Ok(descriptor())));
    assert!(!run.finish(0, Ok(descriptor())));
    assert!(!run.finish(1, Ok(descriptor())));
    assert!(!run.finish(7, Ok(descriptor())));
    assert!(!run.is_finished());
    let report = run.into_report();
    assert_eq!(report.successes, 1);
}
