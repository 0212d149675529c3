use compose_controller::dispatch::{Action, Event};
use compose_controller::service::{ComposeResource, PortDecl, PortSpec, Ports, Protocol, ServiceSpec};
use compose_controller::translate::{Field, TranslateError};
use compose_controller::watch::{
    Fault, Outcome, Signal, Step, WatchLoop, NAMESPACE, RESOURCE_GROUP, RESOURCE_PLURAL,
};

fn service(image: &str, port: u16) -> ServiceSpec {
    ServiceSpec {
        image: Some(image.to_string()),
        command: None,
        ports: vec![PortDecl::Mapping(PortSpec {
            container_ports: Ports::Port(port),
            host_ports: None,
            protocol: Protocol::Tcp,
        })],
    }
}

fn two_services() -> ComposeResource {
    let mut resource = ComposeResource::new("myapp".to_string());
    resource.insert("web".to_string(), service("nginx", 80));
    resource.insert("worker".to_string(), service("busybox", 9000));
    resource
}

fn draining() -> WatchLoop {
    let mut watch = WatchLoop::new();
    watch.advance(Signal::Connected);
    watch.advance(Signal::Polled);
    watch
}

fn created_name(step: &Step<'_>) -> String {
    match step {
        Step::Perform(Action::Create(manifest)) => manifest.name.clone(),
        other => panic!("no creation is due: {:?}", other),
    }
}

#[test]
fn loop_starts_by_connecting() {
    let watch = WatchLoop::new();
    assert_eq!(watch.next_step(), Step::Connect);
}

#[test]
fn loop_polls_once_connected_and_takes_once_polled() {
    let mut watch = WatchLoop::new();
    watch.advance(Signal::Connected);
    assert_eq!(watch.next_step(), Step::Poll);
    watch.advance(Signal::Polled);
    assert_eq!(watch.next_step(), Step::Take);
}

#[test]
fn loop_polls_again_when_the_stream_is_drained() {
    let mut watch = draining();
    watch.advance(Signal::Drained);
    assert_eq!(watch.next_step(), Step::Poll);
}

#[test]
fn failure_to_connect_stops_the_loop() {
    let mut watch = WatchLoop::new();
    watch.advance(Signal::ConnectFailed);
    assert_eq!(watch.next_step(), Step::Halt(Fault::Connect));
}

#[test]
fn failure_to_poll_stops_the_loop() {
    let mut watch = WatchLoop::new();
    watch.advance(Signal::Connected);
    watch.advance(Signal::PollFailed);
    assert_eq!(watch.next_step(), Step::Halt(Fault::Poll));
}

#[test]
fn stopped_loop_stays_stopped() {
    let mut watch = WatchLoop::new();
    watch.advance(Signal::ConnectFailed);
    watch.advance(Signal::Connected);
    watch.advance(Signal::Polled);
    watch.advance(Signal::Event(Event::Added(two_services())));
    watch.advance(Signal::Settled(Outcome::Succeeded));
    assert_eq!(watch.next_step(), Step::Halt(Fault::Connect));
}

#[test]
fn signal_that_answers_nothing_is_ignored() {
    let mut watch = WatchLoop::new();
    watch.advance(Signal::Polled);
    watch.advance(Signal::PollFailed);
    watch.advance(Signal::Drained);
    watch.advance(Signal::Settled(Outcome::Failed));
    assert_eq!(watch.next_step(), Step::Connect);
    let mut watch = draining();
    watch.advance(Signal::Connected);
    watch.advance(Signal::PollFailed);
    watch.advance(Signal::Settled(Outcome::Failed));
    assert_eq!(watch.next_step(), Step::Take);
}

#[test]
fn failed_creation_does_not_hold_up_the_next() {
    let mut watch = draining();
    watch.advance(Signal::Event(Event::Added(two_services())));
    assert_eq!(created_name(&watch.next_step()), "web");
    watch.advance(Signal::Settled(Outcome::Failed));
    assert_eq!(created_name(&watch.next_step()), "worker");
    watch.advance(Signal::Settled(Outcome::Failed));
    assert_eq!(watch.next_step(), Step::Take);
}

#[test]
fn successful_creation_moves_on_in_the_same_way() {
    let mut watch = draining();
    watch.advance(Signal::Event(Event::Added(two_services())));
    watch.advance(Signal::Settled(Outcome::Succeeded));
    assert_eq!(created_name(&watch.next_step()), "worker");
    watch.advance(Signal::Settled(Outcome::Succeeded));
    assert_eq!(watch.next_step(), Step::Take);
}

#[test]
fn no_event_is_taken_while_an_action_is_due() {
    let mut watch = draining();
    watch.advance(Signal::Event(Event::Added(two_services())));
    watch.advance(Signal::Event(Event::Deleted(two_services())));
    watch.advance(Signal::Drained);
    assert_eq!(created_name(&watch.next_step()), "web");
}

#[test]
fn untranslatable_service_is_passed_over_without_stopping() {
    let mut resource = ComposeResource::new("myapp".to_string());
    resource.insert(
        "broken".to_string(),
        ServiceSpec { image: None, command: None, ports: Vec::new() },
    );
    resource.insert("web".to_string(), service("nginx", 80));
    let mut watch = draining();
    watch.advance(Signal::Event(Event::Added(resource)));
    let skip = Action::Skip {
        service: "broken".to_string(),
        error: TranslateError::MissingField(Field::Image),
    };
    assert_eq!(watch.next_step(), Step::Perform(&skip));
    watch.advance(Signal::Settled(Outcome::Failed));
    assert_eq!(created_name(&watch.next_step()), "web");
}

#[test]
fn deleted_event_asks_for_one_deletion() {
    let mut watch = draining();
    watch.advance(Signal::Event(Event::Deleted(two_services())));
    let delete = Action::Delete("hello-deployment".to_string());
    assert_eq!(watch.next_step(), Step::Perform(&delete));
    watch.advance(Signal::Settled(Outcome::Failed));
    assert_eq!(watch.next_step(), Step::Take);
}

#[test]
fn modified_and_other_events_leave_nothing_to_do() {
    let mut watch = draining();
    watch.advance(Signal::Event(Event::Modified(two_services())));
    assert_eq!(watch.next_step(), Step::Take);
    watch.advance(Signal::Event(Event::Other));
    assert_eq!(watch.next_step(), Step::Take);
}

#[test]
fn added_myapp_web_is_created_exactly_once() {
    let mut resource = ComposeResource::new("myapp".to_string());
    resource.insert("web".to_string(), service("nginx", 80));
    let mut watch = draining();
    watch.advance(Signal::Event(Event::Added(resource)));
    assert_eq!(created_name(&watch.next_step()), "web");
    watch.advance(Signal::Settled(Outcome::Succeeded));
    assert_eq!(watch.next_step(), Step::Take);
    watch.advance(Signal::Drained);
    assert_eq!(watch.next_step(), Step::Poll);
}

#[test]
fn watched_collection_is_fixed() {
    assert_eq!(NAMESPACE, "default");
    assert_eq!(RESOURCE_GROUP, "compose.rumpl.dev");
    assert_eq!(RESOURCE_PLURAL, "composes");
}
