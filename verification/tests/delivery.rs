use trap_relay::delivery::{
    collect, is_success, plan_requests, DeliveryEvent, DeliveryFailure, DeliveryOutcome,
    DeliveryReport, DeliveryRequest, CONTENT_TYPE,
};

fn destinations() -> Vec<String> {
    vec![
        "http://one.example/traps".to_string(),
        "https://two.example/traps".to_string(),
        "http://three.example/traps".to_string(),
    ]
}

#[test]
fn the_body_is_sent_as_json() {
    assert_eq!(CONTENT_TYPE, "application/json");
}

#[test]
fn is_success_accepts_200_to_299_only() {
    assert!(!is_success(0));
    assert!(!is_success(100));
    assert!(!is_success(199));
    assert!(is_success(200));
    assert!(is_success(204));
    assert!(is_success(299));
    assert!(!is_success(300));
    assert!(!is_success(304));
    assert!(!is_success(404));
    assert!(!is_success(500));
    assert!(!is_success(u16::MAX));
}

#[test]
fn plan_requests_makes_one_request_for_each_destination() {
    let body = "{\"remote_hostname\":\"localhost\"}";
    let requests = plan_requests(body, &destinations());
    assert_eq!(
        requests,
        vec![
            DeliveryRequest {
                destination: "http://one.example/traps".to_string(),
                body: body.to_string(),
            },
            DeliveryRequest {
                destination: "https://two.example/traps".to_string(),
                body: body.to_string(),
            },
            DeliveryRequest {
                destination: "http://three.example/traps".to_string(),
                body: body.to_string(),
            },
        ]
    );
}

#[test]
fn plan_requests_for_no_destination_is_empty() {
    assert_eq!(plan_requests("{}", &[]), Vec::<DeliveryRequest>::new());
}

#[test]
fn plan_requests_keeps_a_destination_named_twice() {
    let twice = vec!["http://one.example/".to_string(), "http://one.example/".to_string()];
    let requests = plan_requests("{}", &twice);
    assert_eq!(requests.len(), 2);
    assert_eq!(requests[0], requests[1]);
}

#[test]
fn a_report_of_success_holds_no_failure() {
    let report = DeliveryReport::new("http://one.example/", &DeliveryEvent::Answered(200));
    assert_eq!(
        report,
        DeliveryReport { destination: "http://one.example/".to_string(), failure: None }
    );
    assert!(report.is_delivered());
}

#[test]
fn a_report_of_a_refusal_holds_the_status() {
    let report = DeliveryReport::new("http://one.example/", &DeliveryEvent::Answered(503));
    assert_eq!(
        report,
        DeliveryReport {
            destination: "http://one.example/".to_string(),
            failure: Some(DeliveryFailure::Status(503)),
        }
    );
    assert!(!report.is_delivered());
}

#[test]
fn a_redirect_left_unfollowed_is_a_failure() {
    let report = DeliveryReport::new("http://one.example/", &DeliveryEvent::Answered(302));
    assert_eq!(report.failure, Some(DeliveryFailure::Status(302)));
}

#[test]
fn a_report_of_no_answer_holds_the_cause() {
    let report = DeliveryReport::new(
        "http://one.example/",
        &DeliveryEvent::Unreachable("connection refused".to_string()),
    );
    assert_eq!(
        report,
        DeliveryReport {
            destination: "http://one.example/".to_string(),
            failure: Some(DeliveryFailure::Transport("connection refused".to_string())),
        }
    );
    assert!(!report.is_delivered());
}

#[test]
fn collect_with_every_answer_a_success_has_delivered() {
    let events = vec![
        DeliveryEvent::Answered(200),
        DeliveryEvent::Answered(201),
        DeliveryEvent::Answered(204),
    ];
    let outcome = collect(&destinations(), &events);
    assert_eq!(outcome.reports.len(), 3);
    assert!(outcome.all_delivered());
    assert_eq!(outcome.failures(), Vec::<DeliveryReport>::new());
}

#[test]
fn collect_tells_the_failed_destinations_from_the_others() {
    let events = vec![
        DeliveryEvent::Answered(500),
        DeliveryEvent::Answered(200),
        DeliveryEvent::Unreachable("timed out".to_string()),
    ];
    let outcome = collect(&destinations(), &events);
    assert_eq!(
        outcome.reports,
        vec![
            DeliveryReport {
                destination: "http://one.example/traps".to_string(),
                failure: Some(DeliveryFailure::Status(500)),
            },
            DeliveryReport { destination: "https://two.example/traps".to_string(), failure: None },
            DeliveryReport {
                destination: "http://three.example/traps".to_string(),
                failure: Some(DeliveryFailure::Transport("timed out".to_string())),
            },
        ]
    );
    assert!(!outcome.all_delivered());
    assert_eq!(
        outcome.failures(),
        vec![
            DeliveryReport {
                destination: "http://one.example/traps".to_string(),
                failure: Some(DeliveryFailure::Status(500)),
            },
            DeliveryReport {
                destination: "http://three.example/traps".to_string(),
                failure: Some(DeliveryFailure::Transport("timed out".to_string())),
            },
        ]
    );
}

#[test]
fn a_failure_does_not_hide_a_later_destination() {
    let events = vec![
        DeliveryEvent::Unreachable("connection refused".to_string()),
        DeliveryEvent::Answered(200),
        DeliveryEvent::Answered(200),
    ];
    let outcome = collect(&destinations(), &events);
    assert_eq!(outcome.reports.len(), 3);
    assert!(outcome.reports[1].is_delivered());
    assert!(outcome.reports[2].is_delivered());
}

#[test]
fn collect_of_nothing_has_delivered() {
    let outcome = collect(&[], &[]);
    assert_eq!(outcome, DeliveryOutcome { reports: Vec::new() });
    assert!(outcome.all_delivered());
}

#[test]
fn record_adds_one_report_at_the_end() {
    let mut outcome = DeliveryOutcome::new();
    assert_eq!(outcome.reports, Vec::<DeliveryReport>::new());
    outcome.record("http://one.example/", &DeliveryEvent::Answered(200));
    outcome.record("http://two.example/", &DeliveryEvent::Answered(404));
    assert_eq!(
        outcome.reports,
        vec![
            DeliveryReport { destination: "http://one.example/".to_string(), failure: None },
            DeliveryReport {
                destination: "http://two.example/".to_string(),
                failure: Some(DeliveryFailure::Status(404)),
            },
        ]
    );
    assert!(!outcome.all_delivered());
}

#[test]
fn record_agrees_with_collect() {
    let events = vec![
        DeliveryEvent::Answered(200),
        DeliveryEvent::Unreachable("no route to host".to_string()),
        DeliveryEvent::Answered(299),
    ];
    let mut outcome = DeliveryOutcome::new();
    for (destination, event) in destinations().iter().zip(events.iter()) {
        outcome.record(destination, event);
    }
    assert_eq!(outcome, collect(&destinations(), &events));
}

#[test]
fn a_copy_of_an_outcome_holds_the_same() {
    let events = vec![
        DeliveryEvent::Answered(200),
        DeliveryEvent::Unreachable("no route to host".to_string()),
        DeliveryEvent::Answered(418),
    ];
    let outcome = collect(&destinations(), &events);
    assert_eq!(outcome.clone(), outcome);
    assert_eq!(events[1].clone(), events[1]);
    let requests = plan_requests("{}", &destinations());
    assert_eq!(requests[2].clone(), requests[2]);
}
