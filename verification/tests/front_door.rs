use port_exporter::config::{Config, Target};
use port_exporter::front_door::{
    respond_landing, respond_metrics, respond_not_found, route, Exporter, Method, Response, Route,
    Step, LANDING_PAGE, STATUS_INTERNAL_ERROR, STATUS_NOT_FOUND, STATUS_OK,
};
use port_exporter::registry::{EncodingError, TargetRegistry};

fn exporter(targets: &[(&str, u64)]) -> Exporter {
    let ports = targets.iter().map(|(name, port)| Target { name: name.to_string(), port: *port }).collect();
    Exporter::new(TargetRegistry::initialize(&Config { ports }).ok().unwrap())
}

fn respond(step: Step) -> Response {
    match step {
        Step::Respond(response) => response,
        Step::Probe { index, address } => panic!("probe of {} at {} where a response was due", index, address),
    }
}

fn probe(step: Step) -> (usize, String) {
    match step {
        Step::Probe { index, address } => (index, address),
        Step::Respond(response) => panic!("response {} where a probe was due", response.status),
    }
}

fn text(response: &Response) -> String {
    String::from_utf8(response.body.clone()).unwrap()
}

const HEADER: &str = "# HELP proccess_up check if port is up\n# TYPE proccess_up gauge\n";

#[test]
fn route_follows_the_table() {
    assert_eq!(route(Method::Get, "/"), Route::Landing);
    assert_eq!(route(Method::Get, "/metrics"), Route::Metrics);
    assert_eq!(route(Method::Get, "/unknown"), Route::NotFound);
    assert_eq!(route(Method::Get, ""), Route::NotFound);
    assert_eq!(route(Method::Get, "/metrics/"), Route::NotFound);
    assert_eq!(route(Method::Get, "/Metrics"), Route::NotFound);
    assert_eq!(route(Method::Other, "/"), Route::NotFound);
    assert_eq!(route(Method::Other, "/metrics"), Route::NotFound);
    assert_eq!(route(Method::Other, "/unknown"), Route::NotFound);
}

#[test]
fn status_codes_are_the_standard_ones() {
    assert_eq!(STATUS_OK, 200);
    assert_eq!(STATUS_NOT_FOUND, 404);
    assert_eq!(STATUS_INTERNAL_ERROR, 500);
}

#[test]
fn landing_page_is_served_at_the_root() {
    let front = exporter(&[("web", 80)]);
    let response = respond(front.begin(Method::Get, "/"));
    assert_eq!(response.status, 200);
    assert_eq!(response.body, LANDING_PAGE.as_bytes());
    assert_eq!(response.content_length(), 215);
    assert!(text(&response).starts_with("<html>\n             <head><title>Marathon Exporter</title></head>\n"));
    assert!(text(&response).ends_with("             </html>`"));
    assert!(!front.registry().entries()[0].is_up());
}

#[test]
fn unknown_path_is_not_found_with_empty_body() {
    let front = exporter(&[("web", 80)]);
    let response = respond(front.begin(Method::Get, "/unknown"));
    assert_eq!(response.status, 404);
    assert!(response.body.is_empty());
    assert_eq!(response.content_length(), 0);
}

#[test]
fn other_methods_are_not_found() {
    let front = exporter(&[("web", 80)]);
    let response = respond(front.begin(Method::Other, "/metrics"));
    assert_eq!(response.status, 404);
    assert!(response.body.is_empty());
    let response = respond(front.begin(Method::Other, "/"));
    assert_eq!(response.status, 404);
    assert!(response.body.is_empty());
}

#[test]
fn scrape_reports_a_closed_port_as_zero() {
    let mut front = exporter(&[("web", 80)]);
    let (response, records) = front.scrape(&vec![false]);
    assert_eq!(response.status, 200);
    assert!(text(&response).contains("proccess_up{name=\"web\",port=\"80\"} 0"));
    assert_eq!(text(&response), format!("{}{}", HEADER, "proccess_up{name=\"web\",port=\"80\"} 0\n"));
    assert_eq!(response.content_length(), response.body.len());
    assert_eq!(records.len(), 1);
    assert_eq!(records[0].service, "web");
    assert_eq!(records[0].port, 80);
}

#[test]
fn scrape_reports_an_open_port_as_one() {
    let mut front = exporter(&[("web", 80)]);
    let (response, records) = front.scrape(&vec![true]);
    assert_eq!(response.status, 200);
    assert!(text(&response).contains("proccess_up{name=\"web\",port=\"80\"} 1"));
    assert_eq!(text(&response), format!("{}{}", HEADER, "proccess_up{name=\"web\",port=\"80\"} 1\n"));
    assert!(records.is_empty());
}

#[test]
fn scrape_follows_the_latest_outcome() {
    let mut front = exporter(&[("web", 80), ("db", 5432)]);
    let (first, _) = front.scrape(&vec![true, false]);
    assert!(text(&first).contains("proccess_up{name=\"web\",port=\"80\"} 1\n"));
    assert!(text(&first).contains("proccess_up{name=\"db\",port=\"5432\"} 0\n"));
    let (second, _) = front.scrape(&vec![false, true]);
    assert!(text(&second).contains("proccess_up{name=\"web\",port=\"80\"} 0\n"));
    assert!(text(&second).contains("proccess_up{name=\"db\",port=\"5432\"} 1\n"));
}

#[test]
fn scrape_twice_with_the_same_outcomes_changes_nothing() {
    let mut front = exporter(&[("web", 80), ("db", 5432), ("cache", 6379)]);
    let outcomes = vec![true, false, true];
    let (first, first_records) = front.scrape(&outcomes);
    let states: Vec<bool> = front.registry().entries().iter().map(|entry| entry.is_up()).collect();
    let (second, second_records) = front.scrape(&outcomes);
    let again: Vec<bool> = front.registry().entries().iter().map(|entry| entry.is_up()).collect();
    assert_eq!(states, outcomes);
    assert_eq!(again, outcomes);
    assert_eq!(first.status, second.status);
    assert_eq!(first.body, second.body);
    assert_eq!(first_records.len(), 1);
    assert_eq!(second_records.len(), 1);
    assert_eq!(first_records[0].service, second_records[0].service);
    assert_eq!(first_records[0].port, second_records[0].port);
}

#[test]
fn scrape_logs_every_failed_probe_in_order() {
    let mut front = exporter(&[("a", 1), ("b", 2), ("c", 3), ("d", 4)]);
    let (response, records) = front.scrape(&vec![false, true, false, false]);
    assert_eq!(response.status, 200);
    let logged: Vec<(String, u64)> = records.into_iter().map(|r| (r.service, r.port)).collect();
    assert_eq!(logged, vec![("a".to_string(), 1), ("c".to_string(), 3), ("d".to_string(), 4)]);
}

#[test]
fn scrape_of_no_targets_is_an_empty_body() {
    let mut front = exporter(&[]);
    let response = respond(front.begin(Method::Get, "/metrics"));
    assert_eq!(response.status, 200);
    assert!(response.body.is_empty());
    let (response, records) = front.scrape(&vec![]);
    assert_eq!(response.status, 200);
    assert!(response.body.is_empty());
    assert!(records.is_empty());
}

#[test]
fn steps_probe_each_target_then_respond() {
    let mut front = exporter(&[("web", 80), ("db", 5432)]);
    let (index, address) = probe(front.begin(Method::Get, "/metrics"));
    assert_eq!(index, 0);
    assert_eq!(address, "127.0.0.1:80");
    let (next, failure) = front.advance(0, true);
    assert!(failure.is_none());
    assert!(front.registry().entries()[0].is_up());
    let (index, address) = probe(next);
    assert_eq!(index, 1);
    assert_eq!(address, "127.0.0.1:5432");
    let (last, failure) = front.advance(1, false);
    let record = failure.unwrap();
    assert_eq!(record.service, "db");
    assert_eq!(record.port, 5432);
    let response = respond(last);
    assert_eq!(response.status, 200);
    let wanted = format!(
        "{}{}{}",
        HEADER,
        "proccess_up{name=\"web\",port=\"80\"} 1\n",
        "proccess_up{name=\"db\",port=\"5432\"} 0\n",
    );
    assert_eq!(text(&response), wanted);
    assert_eq!(response.content_length(), wanted.len());
}

#[test]
fn landing_and_not_found_do_not_probe() {
    let mut front = exporter(&[("web", 80)]);
    front.advance(0, true);
    respond(front.begin(Method::Get, "/"));
    respond(front.begin(Method::Get, "/nowhere"));
    assert!(front.registry().entries()[0].is_up());
}

#[test]
fn respond_metrics_turns_an_encoding_error_into_500() {
    let response = respond_metrics(Err(EncodingError { index: 3 }));
    assert_eq!(response.status, 500);
    assert!(response.body.is_empty());
    let response = respond_metrics(Ok(b"abc".to_vec()));
    assert_eq!(response.status, 200);
    assert_eq!(response.body, b"abc");
    assert_eq!(response.content_length(), 3);
}

#[test]
fn fixed_responses_have_their_status_and_body() {
    let landing = respond_landing();
    assert_eq!(landing.status, 200);
    assert_eq!(landing.body, LANDING_PAGE.as_bytes());
    let missing = respond_not_found();
    assert_eq!(missing.status, 404);
    assert!(missing.body.is_empty());
}

#[test]
fn scrape_answers_200_however_many_targets_are_down() {
    let mut front = exporter(&[("a", 1), ("b", 2), ("c", 3)]);
    let (all_down, down_records) = front.scrape(&vec![false, false, false]);
    assert_eq!(all_down.status, 200);
    assert_eq!(text(&all_down).lines().filter(|line| line.starts_with("proccess_up{")).count(), 3);
    assert_eq!(down_records.len(), 3);
    let (all_up, up_records) = front.scrape(&vec![true, true, true]);
    assert_eq!(all_up.status, 200);
    assert_eq!(text(&all_up).lines().filter(|line| line.starts_with("proccess_up{")).count(), 3);
    assert!(up_records.is_empty());
}
