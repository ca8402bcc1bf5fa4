use namer::error::{KubeError, KubeErrorKind};
use namer::record::Record;
use namer::render::{render_end, render_line, LineFormat};
use namer::resource::Service;
use namer::services_stream::{Action, Event, ServiceStream};

fn svc(name: Option<&str>, namespace: Option<&str>, cluster_ip: Option<&str>) -> Service {
    Service {
        name: name.map(str::to_string),
        namespace: namespace.map(str::to_string),
        cluster_ip: cluster_ip.map(str::to_string),
    }
}

fn pair(record: &Record) -> (String, String) {
    (record.address.as_str().to_string(), record.hostname.as_str().to_string())
}

fn emitted(action: Action) -> (String, String) {
    match action {
        Action::Emit(record) => pair(&record),
        other => panic!("expected a record, got {:?}", other),
    }
}

/// Steps a stream to its end, answering the fetch with `answer`, and renders what it emits.
fn response(
    local: Vec<Service>,
    answer: Result<Vec<Service>, KubeError>,
    tld: &str,
    format: LineFormat,
) -> (String, Option<KubeError>) {
    let mut stream = ServiceStream::new(local, tld);
    let mut answer = Some(answer);
    let mut fetching = false;
    let mut body = String::new();
    for _ in 0..1000 {
        let event = if fetching {
            fetching = false;
            Event::Loaded(answer.take().unwrap())
        } else {
            Event::Pull
        };
        match stream.poll_next(event) {
            Action::Emit(record) => body.push_str(&render_line(&record, format)),
            Action::Fetch => fetching = true,
            Action::Continue => {},
            Action::Wait => panic!("nothing to wait for"),
            Action::Fail(error) => return (body, Some(error)),
            Action::End => {
                body.push_str(&render_end());
                return (body, None);
            },
        }
    }
    panic!("the stream did not end");
}

#[test]
fn default_namespace_service_has_no_namespace_in_its_hostname() {
    let mut stream =
        ServiceStream::new(vec![svc(Some("api"), Some("default"), Some("10.0.0.5"))], ".svc.local");
    let record = match stream.poll_next(Event::Pull) {
        Action::Emit(record) => record,
        other => panic!("expected a record, got {:?}", other),
    };
    assert_eq!(record.address.as_str(), "10.0.0.5");
    assert_eq!(record.hostname.as_str(), "api.svc.local");
    assert_eq!(render_line(&record, LineFormat::Hosts), "10.0.0.5 api.svc.local\n");
}

#[test]
fn cluster_wide_service_has_its_namespace_in_its_hostname() {
    let mut stream = ServiceStream::new(vec![], "");
    assert_eq!(stream.poll_next(Event::Pull), Action::Fetch);
    let listed = vec![svc(Some("db"), Some("billing"), Some("10.0.0.9"))];
    assert_eq!(stream.poll_next(Event::Loaded(Ok(listed))), Action::Continue);
    let record = match stream.poll_next(Event::Pull) {
        Action::Emit(record) => record,
        other => panic!("expected a record, got {:?}", other),
    };
    assert_eq!(render_line(&record, LineFormat::Hosts), "10.0.0.9 db.billing\n");
    assert_eq!(stream.poll_next(Event::Pull), Action::End);
}

#[test]
fn headless_service_produces_no_line() {
    let local = vec![svc(Some("headless"), None, Some("None"))];
    let global = vec![svc(Some("headless"), Some("default"), Some("None"))];
    let (body, failure) = response(local, Ok(global), ".lan", LineFormat::Hosts);
    assert_eq!(body, "\n");
    assert_eq!(failure, None);
}

#[test]
fn service_without_address_produces_no_line() {
    let local = vec![svc(Some("pending"), None, None)];
    let global = vec![svc(Some("pending"), Some("default"), None)];
    let (body, failure) = response(local, Ok(global), ".lan", LineFormat::Hosts);
    assert_eq!(body, "\n");
    assert_eq!(failure, None);
}

#[test]
fn service_without_name_produces_no_line() {
    let local = vec![svc(None, None, Some("10.0.0.1"))];
    let global = vec![svc(None, Some("default"), Some("10.0.0.1"))];
    let (body, _) = response(local, Ok(global), ".lan", LineFormat::Hosts);
    assert_eq!(body, "\n");
}

#[test]
fn address_that_only_resembles_the_headless_mark_is_kept() {
    let local =
        vec![svc(Some("a"), None, Some("none")), svc(Some("b"), None, Some("None ")), svc(Some("c"), None, Some(""))];
    let (body, _) = response(local, Ok(vec![]), "", LineFormat::Hosts);
    assert_eq!(body, "none a\nNone  b\n c\n\n");
}

#[test]
fn unset_or_empty_namespace_becomes_default() {
    let global = vec![
        svc(Some("a"), None, Some("10.0.0.1")),
        svc(Some("b"), Some(""), Some("10.0.0.2")),
        svc(Some("c"), Some("prod"), Some("10.0.0.3")),
    ];
    let (body, _) = response(vec![], Ok(global), ".cluster", LineFormat::Hosts);
    assert_eq!(body, "10.0.0.1 a.default.cluster\n10.0.0.2 b.default.cluster\n10.0.0.3 c.prod.cluster\n\n");
}

#[test]
fn default_namespace_is_emitted_before_the_cluster_wide_list() {
    let local = vec![svc(Some("z"), None, Some("10.0.0.26")), svc(Some("y"), None, Some("10.0.0.25"))];
    let global = vec![
        svc(Some("a"), Some("kube-system"), Some("10.0.0.1")),
        svc(Some("z"), Some("default"), Some("10.0.0.26")),
    ];
    let (body, failure) = response(local, Ok(global), ".x", LineFormat::Hosts);
    assert_eq!(
        body,
        "10.0.0.26 z.x\n10.0.0.25 y.x\n10.0.0.1 a.kube-system.x\n10.0.0.26 z.default.x\n\n"
    );
    assert_eq!(failure, None);
}

#[test]
fn fetch_is_not_asked_for_before_the_default_namespace_is_exhausted() {
    let local = vec![
        svc(Some("a"), None, Some("10.0.0.1")),
        svc(Some("skipped"), None, None),
        svc(Some("b"), None, Some("10.0.0.2")),
        svc(Some("skipped"), None, Some("None")),
    ];
    let mut stream = ServiceStream::new(local, "");
    assert_eq!(emitted(stream.poll_next(Event::Pull)), ("10.0.0.1".to_string(), "a".to_string()));
    assert_eq!(emitted(stream.poll_next(Event::Pull)), ("10.0.0.2".to_string(), "b".to_string()));
    assert_eq!(stream.poll_next(Event::Pull), Action::Fetch);
}

#[test]
fn nothing_is_emitted_while_the_fetch_is_pending() {
    let mut stream = ServiceStream::new(vec![], "");
    assert_eq!(stream.poll_next(Event::Pull), Action::Fetch);
    assert_eq!(stream.poll_next(Event::Pull), Action::Wait);
    assert_eq!(stream.poll_next(Event::Pull), Action::Wait);
    let listed = vec![svc(Some("a"), Some("ns"), Some("10.0.0.1"))];
    assert_eq!(stream.poll_next(Event::Loaded(Ok(listed))), Action::Continue);
    assert_eq!(emitted(stream.poll_next(Event::Pull)), ("10.0.0.1".to_string(), "a.ns".to_string()));
    assert_eq!(stream.poll_next(Event::Pull), Action::End);
}

#[test]
fn failed_fetch_is_the_last_item() {
    let failure = KubeError { kind: KubeErrorKind::HyperError, message: "connection refused".to_string() };
    let local = vec![svc(Some("a"), None, Some("10.0.0.1"))];
    let mut stream = ServiceStream::new(local, "");
    assert_eq!(emitted(stream.poll_next(Event::Pull)), ("10.0.0.1".to_string(), "a".to_string()));
    assert_eq!(stream.poll_next(Event::Pull), Action::Fetch);
    assert_eq!(stream.poll_next(Event::Loaded(Err(failure.clone()))), Action::Fail(failure));
    assert_eq!(stream.poll_next(Event::Pull), Action::End);
    assert_eq!(stream.poll_next(Event::Pull), Action::End);
}

#[test]
fn failed_fetch_keeps_what_was_emitted_and_adds_no_blank_line() {
    let failure = KubeError { kind: KubeErrorKind::Auth, message: "denied".to_string() };
    let local = vec![svc(Some("a"), None, Some("10.0.0.1"))];
    let (body, surfaced) = response(local, Err(failure.clone()), ".lan", LineFormat::Unbound);
    assert_eq!(body, "local-data: \"a.lan 60 IN A 10.0.0.1\"\n");
    assert_eq!(surfaced, Some(failure));
}

#[test]
fn ended_stream_stays_ended() {
    let mut stream = ServiceStream::new(vec![], "");
    assert_eq!(stream.poll_next(Event::Pull), Action::Fetch);
    assert_eq!(stream.poll_next(Event::Loaded(Ok(vec![]))), Action::Continue);
    assert_eq!(stream.poll_next(Event::Pull), Action::End);
    let late = vec![svc(Some("late"), Some("ns"), Some("10.0.0.1"))];
    assert_eq!(stream.poll_next(Event::Loaded(Ok(late))), Action::End);
    assert_eq!(stream.poll_next(Event::Pull), Action::End);
}

#[test]
fn list_that_was_not_asked_for_is_not_read() {
    let unasked = vec![svc(Some("early"), Some("ns"), Some("10.0.0.9"))];
    let mut stream = ServiceStream::new(vec![svc(Some("a"), None, Some("10.0.0.1"))], "");
    assert_eq!(
        emitted(stream.poll_next(Event::Loaded(Ok(unasked)))),
        ("10.0.0.1".to_string(), "a".to_string())
    );
    assert_eq!(stream.poll_next(Event::Pull), Action::Fetch);
    assert_eq!(stream.poll_next(Event::Loaded(Ok(vec![]))), Action::Continue);
    assert_eq!(stream.poll_next(Event::Pull), Action::End);
}

#[test]
fn same_services_give_the_same_bytes() {
    let local = || vec![svc(Some("api"), None, Some("10.0.0.5")), svc(Some("h"), None, Some("None"))];
    let global = || {
        vec![svc(Some("api"), Some("default"), Some("10.0.0.5")), svc(Some("db"), Some("billing"), Some("10.0.0.9"))]
    };
    let first = response(local(), Ok(global()), ".svc.local", LineFormat::Unbound);
    let second = response(local(), Ok(global()), ".svc.local", LineFormat::Unbound);
    assert_eq!(first, second);
    assert_eq!(
        first.0,
        "local-data: \"api.svc.local 60 IN A 10.0.0.5\"\n\
         local-data: \"api.default.svc.local 60 IN A 10.0.0.5\"\n\
         local-data: \"db.billing.svc.local 60 IN A 10.0.0.9\"\n\n"
    );
}

#[test]
fn coinciding_records_are_all_emitted() {
    let local = vec![svc(Some("a"), None, Some("10.0.0.1")), svc(Some("a"), None, Some("10.0.0.1"))];
    let (body, _) = response(local, Ok(vec![]), "", LineFormat::Hosts);
    assert_eq!(body, "10.0.0.1 a\n10.0.0.1 a\n\n");
}
