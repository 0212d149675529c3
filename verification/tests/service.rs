use compose_controller::service::{Command, ComposeResource, PortDecl, PortSpec, Ports, Protocol, ServiceSpec};

fn service(image: &str) -> ServiceSpec {
    ServiceSpec {
        image: Some(image.to_string()),
        command: Some(Command::Shell("run".to_string())),
        ports: vec![PortDecl::Mapping(PortSpec {
                container_ports: Ports::Port(80),
                host_ports: None,
                protocol: Protocol::Tcp,
            })],
    }
}

#[test]
fn new_resource_declares_nothing() {
    let resource = ComposeResource::new("myapp".to_string());
    assert_eq!(resource.name(), "myapp");
    assert!(resource.services().is_empty());
}

#[test]
fn services_keep_the_order_of_their_declaration() {
    let mut resource = ComposeResource::new("myapp".to_string());
    resource.insert("web".to_string(), service("nginx"));
    resource.insert("worker".to_string(), service("busybox"));
    let names: Vec<&str> = resource.services().iter().map(|s| s.name.as_str()).collect();
    assert_eq!(names, vec!["web", "worker"]);
    assert_eq!(resource.services()[1].spec, service("busybox"));
}

#[test]
fn declaring_a_name_again_replaces_the_service() {
    let mut resource = ComposeResource::new("myapp".to_string());
    resource.insert("web".to_string(), service("nginx"));
    resource.insert("worker".to_string(), service("busybox"));
    resource.insert("web".to_string(), service("httpd"));
    assert_eq!(resource.services().len(), 2);
    assert_eq!(resource.services()[0].name, "web");
    assert_eq!(resource.services()[0].spec, service("httpd"));
    assert_eq!(resource.services()[1].name, "worker");
    assert_eq!(resource.name(), "myapp");
}
