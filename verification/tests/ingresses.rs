use namer::config::Config;
use namer::error::Error;
use namer::ingresses_stream::{find_ingress_controller_service, IngressStream};
use namer::render::{render_end, render_line, LineFormat};
use namer::resource::{Ingress, IngressRule, Service};

const CONTROLLER: &str = "ingress-nginx-internal-controller";

fn service_named(name: Option<&str>, cluster_ip: Option<&str>) -> Service {
    Service {
        name: name.map(str::to_string),
        namespace: Some("kube-system".to_string()),
        cluster_ip: cluster_ip.map(str::to_string),
    }
}

fn controller_at(address: &str) -> Vec<Service> {
    vec![service_named(Some("kube-dns"), Some("10.0.0.10")), service_named(Some(CONTROLLER), Some(address))]
}

fn ingress(class: Option<&str>, hosts: Option<Vec<Option<&str>>>) -> Ingress {
    Ingress {
        ingress_class_name: class.map(str::to_string),
        rules: hosts.map(|hosts| {
            hosts.into_iter().map(|host| IngressRule { host: host.map(str::to_string) }).collect()
        }),
    }
}

/// Pulls a stream to its end and renders what it emits.
fn drained(mut stream: IngressStream, format: LineFormat) -> String {
    let mut body = String::new();
    while let Some(record) = stream.next() {
        body.push_str(&render_line(&record, format));
    }
    assert!(stream.next().is_none());
    body.push_str(&render_end());
    body
}

fn answer(ingresses: Vec<Ingress>, services: &Vec<Service>, tld: &str, format: LineFormat) -> String {
    drained(IngressStream::new(ingresses, services, &Config::new(tld)).unwrap(), format)
}

#[test]
fn controller_is_found_by_name() {
    assert_eq!(
        find_ingress_controller_service(&controller_at("10.0.1.1"), CONTROLLER),
        Ok("10.0.1.1".to_string())
    );
}

#[test]
fn controller_that_is_not_listed_is_not_found() {
    let services = vec![service_named(Some("kube-dns"), Some("10.0.0.10")), service_named(None, Some("10.0.0.11"))];
    assert_eq!(find_ingress_controller_service(&services, CONTROLLER), Err(Error::IngressNotFound));
    assert_eq!(find_ingress_controller_service(&vec![], CONTROLLER), Err(Error::IngressNotFound));
}

#[test]
fn headless_controller_is_not_found() {
    let services = vec![service_named(Some(CONTROLLER), Some("None"))];
    assert_eq!(find_ingress_controller_service(&services, CONTROLLER), Err(Error::IngressNotFound));
}

#[test]
fn controller_without_address_is_not_found() {
    let services = vec![service_named(Some(CONTROLLER), None)];
    assert_eq!(find_ingress_controller_service(&services, CONTROLLER), Err(Error::IngressNotFound));
}

#[test]
fn first_service_of_that_name_decides() {
    let headless_first =
        vec![service_named(Some(CONTROLLER), Some("None")), service_named(Some(CONTROLLER), Some("10.0.1.1"))];
    assert_eq!(find_ingress_controller_service(&headless_first, CONTROLLER), Err(Error::IngressNotFound));
    let routable_first =
        vec![service_named(Some(CONTROLLER), Some("10.0.1.1")), service_named(Some(CONTROLLER), Some("10.0.1.2"))];
    assert_eq!(find_ingress_controller_service(&routable_first, CONTROLLER), Ok("10.0.1.1".to_string()));
}

#[test]
fn missing_controller_fails_the_stream_with_not_found() {
    let services = vec![service_named(Some("kube-dns"), Some("10.0.0.10"))];
    let ingresses = vec![ingress(Some("internal"), Some(vec![Some("app.example.com")]))];
    let failure = match IngressStream::new(ingresses, &services, &Config::new("")) {
        Ok(_) => panic!("a stream was built without a controller"),
        Err(failure) => failure,
    };
    assert_eq!(failure, Error::IngressNotFound);
    assert_eq!(failure.status_code(), 404);
}

#[test]
fn matching_ingress_maps_its_host_to_the_controller() {
    let ingresses = vec![ingress(Some("internal"), Some(vec![Some("app.example.com")]))];
    let services = controller_at("10.0.1.1");
    assert_eq!(answer(ingresses.clone(), &services, "", LineFormat::Hosts), "10.0.1.1 app.example.com\n\n");
    assert_eq!(
        answer(ingresses, &services, "", LineFormat::Unbound),
        "local-data: \"app.example.com 60 IN A 10.0.1.1\"\n\n"
    );
}

#[test]
fn ingress_of_another_class_contributes_nothing() {
    let ingresses = vec![
        ingress(Some("external"), Some(vec![Some("public.example.com"), Some("www.example.com")])),
        ingress(Some("internal"), Some(vec![Some("app.example.com")])),
        ingress(Some("Internal"), Some(vec![Some("case.example.com")])),
    ];
    assert_eq!(
        answer(ingresses, &controller_at("10.0.1.1"), "", LineFormat::Hosts),
        "10.0.1.1 app.example.com\n\n"
    );
}

#[test]
fn ingress_without_class_contributes_nothing() {
    let ingresses = vec![ingress(None, Some(vec![Some("app.example.com")]))];
    assert_eq!(answer(ingresses, &controller_at("10.0.1.1"), "", LineFormat::Hosts), "\n");
}

#[test]
fn ingress_without_rules_contributes_nothing() {
    let ingresses = vec![
        ingress(Some("internal"), None),
        ingress(Some("internal"), Some(vec![])),
        ingress(Some("internal"), Some(vec![Some("last.example.com")])),
    ];
    assert_eq!(
        answer(ingresses, &controller_at("10.0.1.1"), "", LineFormat::Hosts),
        "10.0.1.1 last.example.com\n\n"
    );
}

#[test]
fn rule_without_host_is_skipped_and_its_siblings_are_kept() {
    let ingresses = vec![ingress(
        Some("internal"),
        Some(vec![None, Some("a.example.com"), None, None, Some("b.example.com"), None]),
    )];
    assert_eq!(
        answer(ingresses, &controller_at("10.0.1.1"), ".lan", LineFormat::Hosts),
        "10.0.1.1 a.example.com.lan\n10.0.1.1 b.example.com.lan\n\n"
    );
}

#[test]
fn records_follow_listing_order_then_rule_order() {
    let ingresses = vec![
        ingress(Some("internal"), Some(vec![Some("b"), Some("a")])),
        ingress(Some("other"), Some(vec![Some("x")])),
        ingress(Some("internal"), Some(vec![None])),
        ingress(Some("internal"), Some(vec![Some("d"), None, Some("c")])),
    ];
    assert_eq!(
        answer(ingresses, &controller_at("10.0.1.1"), ".i", LineFormat::Hosts),
        "10.0.1.1 b.i\n10.0.1.1 a.i\n10.0.1.1 d.i\n10.0.1.1 c.i\n\n"
    );
}

#[test]
fn stream_resumes_inside_an_ingress() {
    let ingresses = vec![
        ingress(Some("internal"), Some(vec![Some("one"), Some("two")])),
        ingress(Some("internal"), Some(vec![Some("three")])),
    ];
    let mut stream = IngressStream::new(ingresses, &controller_at("10.0.1.1"), &Config::new("")).unwrap();
    let first = stream.next().unwrap();
    assert_eq!((first.address.as_str(), first.hostname.as_str()), ("10.0.1.1", "one"));
    let second = stream.next().unwrap();
    assert_eq!((second.address.as_str(), second.hostname.as_str()), ("10.0.1.1", "two"));
    let third = stream.next().unwrap();
    assert_eq!((third.address.as_str(), third.hostname.as_str()), ("10.0.1.1", "three"));
    assert_eq!(stream.next(), None);
    assert_eq!(stream.next(), None);
}

#[test]
fn hosts_that_coincide_are_all_emitted() {
    let ingresses = vec![
        ingress(Some("internal"), Some(vec![Some("app"), Some("app")])),
        ingress(Some("internal"), Some(vec![Some("app")])),
    ];
    assert_eq!(
        answer(ingresses, &controller_at("10.0.1.1"), "", LineFormat::Hosts),
        "10.0.1.1 app\n10.0.1.1 app\n10.0.1.1 app\n\n"
    );
}

#[test]
fn configured_class_and_controller_are_used() {
    let config = Config {
        suffix: ".corp".to_string(),
        ingress_class: "edge".to_string(),
        controller_service_name: "edge-controller".to_string(),
        controller_namespace: "ingress".to_string(),
    };
    let services = vec![service_named(Some(CONTROLLER), Some("10.0.1.1")), service_named(Some("edge-controller"), Some("10.0.2.2"))];
    let ingresses = vec![
        ingress(Some("internal"), Some(vec![Some("app")])),
        ingress(Some("edge"), Some(vec![Some("shop")])),
    ];
    let stream = IngressStream::new(ingresses, &services, &config).unwrap();
    assert_eq!(drained(stream, LineFormat::Hosts), "10.0.2.2 shop.corp\n\n");
}

#[test]
fn same_ingresses_give_the_same_bytes() {
    let ingresses = || {
        vec![
            ingress(Some("internal"), Some(vec![Some("a.example.com"), None])),
            ingress(Some("external"), Some(vec![Some("b.example.com")])),
        ]
    };
    let services = controller_at("10.0.1.1");
    let first = answer(ingresses(), &services, ".lan", LineFormat::Unbound);
    let second = answer(ingresses(), &services, ".lan", LineFormat::Unbound);
    assert_eq!(first, second);
    assert_eq!(first, "local-data: \"a.example.com.lan 60 IN A 10.0.1.1\"\n\n");
}
