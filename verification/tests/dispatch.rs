use compose_controller::dispatch::{handle, Action, Event, DELETE_TARGET};
use compose_controller::labels::LabelSet;
use compose_controller::manifest::{ContainerSpec, PodTemplate, WorkloadManifest};
use compose_controller::service::{Command, ComposeResource, PortDecl, PortSpec, Ports, Protocol, ServiceSpec};
use compose_controller::translate::{translate, Field, TranslateError};

fn service(image: &str, port: u16) -> ServiceSpec {
    ServiceSpec {
        image: Some(image.to_string()),
        command: None,
        ports: vec![PortDecl::Mapping(PortSpec {
            container_ports: Ports::Port(port),
            host_ports: None,
            protocol: Protocol::Tcp,
        })],
    }
}

fn two_services() -> ComposeResource {
    let mut resource = ComposeResource::new("myapp".to_string());
    resource.insert("web".to_string(), service("nginx", 80));
    resource.insert("worker".to_string(), service("busybox", 9000));
    resource
}

#[test]
fn added_creates_one_workload_for_each_service() {
    let actions = handle(&Event::Added(two_services()));
    assert_eq!(actions.len(), 2);
    assert_eq!(actions[0], Action::Create(translate("web", &service("nginx", 80)).unwrap()));
    assert_eq!(actions[1], Action::Create(translate("worker", &service("busybox", 9000)).unwrap()));
}

#[test]
fn added_passes_over_a_service_without_image_and_goes_on() {
    let mut resource = ComposeResource::new("myapp".to_string());
    resource.insert(
        "broken".to_string(),
        ServiceSpec { image: None, command: None, ports: Vec::new() },
    );
    resource.insert("web".to_string(), service("nginx", 80));
    let actions = handle(&Event::Added(resource));
    assert_eq!(actions.len(), 2);
    assert_eq!(
        actions[0],
        Action::Skip {
            service: "broken".to_string(),
            error: TranslateError::MissingField(Field::Image),
        }
    );
    assert!(matches!(&actions[1], Action::Create(manifest) if manifest.name == "web"));
}

#[test]
fn added_without_services_asks_for_nothing() {
    let actions = handle(&Event::Added(ComposeResource::new("empty".to_string())));
    assert!(actions.is_empty());
}

#[test]
fn deleted_deletes_the_workload_of_the_fixed_name() {
    let actions = handle(&Event::Deleted(two_services()));
    assert_eq!(actions, vec![Action::Delete("hello-deployment".to_string())]);
    assert_eq!(DELETE_TARGET, "hello-deployment");
}

#[test]
fn deleted_names_the_same_workload_for_every_resource() {
    let one = handle(&Event::Deleted(ComposeResource::new("gone".to_string())));
    let other = handle(&Event::Deleted(two_services()));
    assert_eq!(one, vec![Action::Delete("hello-deployment".to_string())]);
    assert_eq!(one, other);
}

#[test]
fn deleted_names_what_added_made_where_the_service_bears_the_fixed_name() {
    let mut resource = ComposeResource::new("myapp".to_string());
    resource.insert("hello-deployment".to_string(), service("nginx", 80));
    let created = match &handle(&Event::Added(resource))[0] {
        Action::Create(manifest) => manifest.name.clone(),
        other => panic!("no creation: {:?}", other),
    };
    let mut resource = ComposeResource::new("myapp".to_string());
    resource.insert("hello-deployment".to_string(), service("nginx", 80));
    assert_eq!(handle(&Event::Deleted(resource)), vec![Action::Delete(created)]);
}

#[test]
fn added_passes_over_a_service_with_an_unresolved_port() {
    let mut resource = ComposeResource::new("myapp".to_string());
    resource.insert(
        "broken".to_string(),
        ServiceSpec {
            image: Some("nginx".to_string()),
            command: None,
            ports: vec![PortDecl::Unresolved],
        },
    );
    resource.insert("web".to_string(), service("nginx", 80));
    let actions = handle(&Event::Added(resource));
    assert_eq!(actions.len(), 2);
    assert_eq!(
        actions[0],
        Action::Skip {
            service: "broken".to_string(),
            error: TranslateError::MissingField(Field::Port),
        }
    );
    assert!(matches!(&actions[1], Action::Create(manifest) if manifest.name == "web"));
}

#[test]
fn modified_and_deleted_do_not_mind_a_service_that_has_no_translation() {
    let mut resource = ComposeResource::new("myapp".to_string());
    resource.insert(
        "broken".to_string(),
        ServiceSpec { image: None, command: None, ports: vec![PortDecl::Unresolved] },
    );
    assert!(handle(&Event::Modified(resource)).is_empty());
    let mut resource = ComposeResource::new("myapp".to_string());
    resource.insert(
        "broken".to_string(),
        ServiceSpec { image: None, command: None, ports: vec![PortDecl::Unresolved] },
    );
    assert_eq!(
        handle(&Event::Deleted(resource)),
        vec![Action::Delete("hello-deployment".to_string())]
    );
}

#[test]
fn modified_asks_for_nothing() {
    assert!(handle(&Event::Modified(two_services())).is_empty());
}

#[test]
fn other_events_ask_for_nothing() {
    assert!(handle(&Event::Other).is_empty());
}

#[test]
fn added_myapp_web_creates_the_expected_manifest() {
    let mut resource = ComposeResource::new("myapp".to_string());
    resource.insert(
        "web".to_string(),
        ServiceSpec {
            image: Some("nginx".to_string()),
            command: Some(Command::Parsed(vec![
                "nginx".to_string(),
                "-g".to_string(),
                "daemon off;".to_string(),
            ])),
            ports: vec![PortDecl::Mapping(PortSpec {
                container_ports: Ports::Port(80),
                host_ports: None,
                protocol: Protocol::Tcp,
            })],
        },
    );
    let mut labels = LabelSet::new();
    labels.insert("app".to_string(), "web".to_string());
    let expected = WorkloadManifest {
        name: "web".to_string(),
        labels: labels.clone(),
        replicas: 1,
        selector: labels.clone(),
        template: PodTemplate {
            labels,
            container: ContainerSpec {
                name: "web".to_string(),
                image: "nginx".to_string(),
                args: vec!["nginx".to_string(), "-g".to_string(), "daemon off;".to_string()],
                port: 80,
            },
        },
    };
    let actions = handle(&Event::Added(resource));
    assert_eq!(actions, vec![Action::Create(expected)]);
}
